//! Laws of configurations, and of what the plain types of the library stand for.

use vstd::prelude::*;

use crate::bytes::{list_view, option_list_view, option_view};
use crate::config::{empty_config, ConfigView, NoiseClientConfig, NoiseServerConfig};
use crate::error::{bad_parameters, refused, TransportError, TransportErrorCode};
use crate::keylog::{entries_view, KeyLogEntry};
use crate::keys::KeypairView;
use crate::model::State;
use crate::packet_key::{keys_bytes, pair_bytes, ChaCha8PacketKey, KeyPair, Keys};
use crate::params::TransportParameters;
use crate::side::Side;

verus! {

/// A session starts with what was configured, unchanged: the whole shared key (all zero if there
/// is none), the peer's key, the application protocols and the transport parameters. It has read
/// and written nothing, and keeps a key log exactly if it was asked to.
pub proof fn law_session_starts_as_configured(
    config: ConfigView,
    side: Side,
    parameters: Seq<u8>,
    s: KeypairView,
    e: KeypairView,
)
    ensures
        ({
            let session = config.session(side, parameters, s, e);
            &&& config.psk matches Some(key) ==> session.psk == key
            &&& config.psk is None ==> session.psk.len() == 32 && forall|i: int|
                0 <= i < 32 ==> session.psk[i] == 0
            &&& session.s == s
            &&& session.e == e
            &&& session.side == side
            &&& session.state == State::Initial
            &&& session.duplex.len() == 50
            &&& forall|i: int| 0 <= i < 50 ==> session.duplex[i] == 0
            &&& session.alpn == config.alpn
            &&& session.supported_protocols == config.supported_protocols
            &&& session.transport_parameters == parameters
            &&& session.remote_s == config.remote_public_key
            &&& session.remote_e is None
            &&& session.remote_transport_parameters is None
            &&& session.zero_rtt_key is None
            &&& session.key_log is Some <==> config.keylogger
            &&& session.key_log matches Some(entries) ==> entries.len() == 0
        }),
{
}

/// Sessions of configurations with different shared keys have different shared keys, whichever
/// byte makes the difference; and so has a session with a shared key that is not all zero from one
/// without.
pub proof fn law_shared_keys_stay_apart(
    one: ConfigView,
    other: ConfigView,
    one_side: Side,
    other_side: Side,
    one_parameters: Seq<u8>,
    other_parameters: Seq<u8>,
    one_s: KeypairView,
    one_e: KeypairView,
    other_s: KeypairView,
    other_e: KeypairView,
    i: int,
)
    requires
        one.psk is Some,
        0 <= i < 32,
        other.psk matches Some(key) ==> one.psk->0[i] != key[i],
        other.psk is None ==> one.psk->0[i] != 0,
    ensures
        one.session(one_side, one_parameters, one_s, one_e).psk != other.session(
            other_side,
            other_parameters,
            other_s,
            other_e,
        ).psk,
        one.drawn_session(one_side, one_parameters, one_s, one_e).psk != other.drawn_session(
            other_side,
            other_parameters,
            other_s,
            other_e,
        ).psk,
{
    let key = one.session(one_side, one_parameters, one_s, one_e).psk;
    let other_key = other.session(other_side, other_parameters, other_s, other_e).psk;
    assert(key[i] != other_key[i]);
}

/// A session that is started with drawn keys is the session with the configured static key pair,
/// or the drawn one if none is configured, and with the drawn ephemeral key pair.
pub proof fn law_drawn_session(
    config: ConfigView,
    side: Side,
    parameters: Seq<u8>,
    drawn_s: KeypairView,
    drawn_e: KeypairView,
)
    ensures
        config.keypair matches Some(keypair) ==> config.drawn_session(
            side,
            parameters,
            drawn_s,
            drawn_e,
        ) == config.session(side, parameters, keypair, drawn_e),
        config.keypair is None ==> config.drawn_session(side, parameters, drawn_s, drawn_e)
            == config.session(side, parameters, drawn_s, drawn_e),
{
}

/// A client's configuration says what is in its fields.
pub proof fn law_client_config_says(config: NoiseClientConfig)
    ensures
        config@.keypair == Some(config.keypair@),
        config@.psk is Some <==> config.psk is Some,
        config.psk matches Some(key) ==> config@.psk == Some(key@),
        config@.keylogger == config.keylogger,
        config@.remote_public_key == Some(config.remote_public_key@),
        config@.alpn == Some(config.alpn@),
        config@.supported_protocols is None,
{
}

/// A server's configuration says what is in its fields, with every application protocol in its
/// place.
pub proof fn law_server_config_says(config: NoiseServerConfig)
    ensures
        config@.keypair == Some(config.keypair@),
        config@.psk is Some <==> config.psk is Some,
        config.psk matches Some(key) ==> config@.psk == Some(key@),
        config@.keylogger == config.keylogger,
        config@.remote_public_key is None,
        config@.alpn is None,
        config@.supported_protocols matches Some(protocols) && protocols.len()
            == config.supported_protocols@.len() && forall|i: int|
            0 <= i < protocols.len() ==> #[trigger] protocols[i] == config.supported_protocols@[i]@,
{
}

/// Nothing is set in the empty configuration.
pub proof fn law_empty_config()
    ensures
        empty_config().keypair is None,
        empty_config().psk is None,
        !empty_config().keylogger,
        empty_config().remote_public_key is None,
        empty_config().alpn is None,
        empty_config().supported_protocols is None,
{
}

/// Lists, options and encoded parameters stand for exactly what they hold.
pub proof fn law_plain_views(
    list: Seq<Vec<u8>>,
    option: Option<Vec<u8>>,
    lists: Option<Vec<Vec<u8>>>,
    parameters: TransportParameters,
)
    ensures
        list_view(list).len() == list.len(),
        forall|i: int| 0 <= i < list.len() ==> #[trigger] list_view(list)[i] == list[i]@,
        option_view(option) is Some <==> option is Some,
        option matches Some(bytes) ==> option_view(option) == Some(bytes@),
        option_list_view(lists) is Some <==> lists is Some,
        lists matches Some(list) ==> option_list_view(lists) == Some(list_view(list@)),
        parameters@ == parameters.encoded@,
{
}

/// A key log stands for its lines, each with its label, connection and whole secret.
pub proof fn law_log_lines(entries: Seq<KeyLogEntry>)
    ensures
        entries_view(entries).len() == entries.len(),
        forall|i: int|
            0 <= i < entries.len() ==> {
                let line = #[trigger] entries_view(entries)[i];
                &&& line.label == entries[i].label@
                &&& line.conn_id == entries[i].conn_id@
                &&& line.secret == entries[i].secret@
            },
{
}

/// Packet keys stand for their bytes, the local one for the local one and the remote one for the
/// remote one.
pub proof fn law_packet_keys(pair: KeyPair<ChaCha8PacketKey>, keys: Option<Keys>)
    ensures
        pair_bytes(pair).local == pair.local@,
        pair_bytes(pair).remote == pair.remote@,
        keys_bytes(keys) is Some <==> keys is Some,
        keys matches Some(keys) ==> keys_bytes(Some(keys)) == Some(
            KeyPair { local: keys.packet.local@, remote: keys.packet.remote@ },
        ),
{
}

/// Errors stand for their code, frame and reason. A refused connection and bad transport
/// parameters carry their own code, no frame and the reason that was given.
pub proof fn law_errors(error: TransportError, reason: Seq<char>)
    ensures
        error@.code == error.code,
        error@.frame == error.frame,
        error@.reason == error.reason@,
        refused(reason).code == TransportErrorCode::ConnectionRefused,
        refused(reason).frame is None,
        refused(reason).reason == reason,
        bad_parameters(reason).code == TransportErrorCode::TransportParameterError,
        bad_parameters(reason).frame is None,
        bad_parameters(reason).reason == reason,
{
}

} // verus!
