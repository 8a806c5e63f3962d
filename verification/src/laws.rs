//! Laws of sessions, retry packets and configurations.

use vstd::prelude::*;

use crate::agreement::{lemma_refuses_protocol, lemma_refuses_stranger};
use crate::config::ConfigView;
use crate::duplex::{after_encrypt, encrypted};
use crate::error::{refused, ErrorView};
use crate::keylog::KeyLogView;
use crate::keys::KeypairView;
use crate::model::{sealed_parameters, SessionView, State, PROTOCOL_ID};
use crate::packet_key::KeyPair;
use crate::params::parameters_outcome;
use crate::retry::{
    aes_128_gcm_tag, ends_in_tag, integrity_tag, pseudo_packet, RETRY_INTEGRITY_KEY,
    RETRY_INTEGRITY_NONCE,
};
use crate::side::Side;

verus! {

/// Whether two pairs of keys fit: what one side encrypts with, the other decrypts with.
pub open spec fn fit(one: KeyPair<Seq<u8>>, other: KeyPair<Seq<u8>>) -> bool {
    one.local == other.remote && one.remote == other.local
}

/// Whether two sessions are the two ends of a connection at the same point.
pub open spec fn in_step(client: SessionView, server: SessionView) -> bool {
    &&& client.side is Client
    &&& server.side is Server
    &&& client.duplex == server.duplex
    &&& client.conn_id() == server.conn_id()
    &&& client.conn_id() is Some
}

/// The session after `count` key updates.
pub open spec fn after_updates(session: SessionView, count: nat) -> SessionView
    decreases count,
{
    if count == 0 {
        session
    } else {
        after_updates(session, (count - 1) as nat).after_next_keys()
    }
}

/// What a session adds to its key log when it draws its next keys.
pub open spec fn logged(session: SessionView) -> Seq<KeyLogView> {
    let fresh = SessionView { key_log: Some(seq![]), ..session };
    fresh.after_next_keys().key_log->0
}

/// How far along the handshake a state is.
pub open spec fn rank(state: State) -> nat {
    match state {
        State::Initial => 0,
        State::ZeroRtt => 1,
        State::Handshake => 2,
        State::OneRtt => 3,
        State::Data => 4,
    }
}

/// A client that was configured with its server's public key and with the same shared key, and
/// that names an application protocol which the server offers, greets that server.
pub proof fn law_configured_peers_greet(
    client_config: ConfigView,
    server_config: ConfigView,
    client_parameters: Seq<u8>,
    server_parameters: Seq<u8>,
    client_s: KeypairView,
    client_e: KeypairView,
    server_s: KeypairView,
    server_e: KeypairView,
)
    requires
        client_s.matched(),
        client_e.matched(),
        server_s.matched(),
        client_config.remote_public_key == Some(server_s.public),
        client_config.shared_key() == server_config.shared_key(),
        client_config.alpn is Some,
        client_config.alpn->0.len() <= 255,
        server_config.supported_protocols is Some,
        server_config.supported_protocols->0.contains(client_config.alpn->0),
        parameters_outcome(Side::Server, client_parameters) is Ok,
    ensures
        client_config.session(Side::Client, client_parameters, client_s, client_e).greets(
            server_config.session(Side::Server, server_parameters, server_s, server_e),
        ),
{
}

/// The first message of a client that was configured with a server's public key is for that
/// server, whatever else they were configured with, and the length of its application protocol's
/// name is sent in full if it fits a byte.
pub proof fn law_configured_client_addresses_server(
    client_config: ConfigView,
    server_config: ConfigView,
    client_parameters: Seq<u8>,
    server_parameters: Seq<u8>,
    client_s: KeypairView,
    client_e: KeypairView,
    server_s: KeypairView,
    server_e: KeypairView,
)
    requires
        client_s.matched(),
        client_e.matched(),
        server_s.matched(),
        client_config.remote_public_key == Some(server_s.public),
        client_config.alpn is Some,
    ensures
        ({
            let client = client_config.session(Side::Client, client_parameters, client_s, client_e);
            let server = server_config.session(Side::Server, server_parameters, server_s, server_e);
            &&& client.calls(server)
            &&& client_config.alpn->0.len() <= 255 ==> client.addresses(server)
        }),
{
}

/// A client that has everything right but asks for an application protocol which the server does
/// not offer is refused, and the server takes neither its protocol nor its transport parameters.
/// `read_handshake` vouches for the decryption that this rests on.
pub proof fn law_protocol_that_is_not_offered_is_refused(client: SessionView, server: SessionView)
    requires
        client.addresses(server),
        client.psk == server.psk,
        server.supported_protocols matches Some(protocols) ==> !protocols.contains(client.alpn->0),
        server.client_hello_sound(client.client_hello()),
    ensures
        ({
            let reading = server.read(client.client_hello());
            &&& reading.outcome == Err::<Seq<u8>, ErrorView>(refused("unsupported alpn"@))
            &&& reading.session.state is Initial
            &&& reading.session.alpn == server.alpn
            &&& reading.session.remote_transport_parameters == server.remote_transport_parameters
        }),
{
    lemma_refuses_protocol(client, server);
}

/// The shared key is a password: a client with another one is refused, unless the tags of the two
/// collide, and the server does not take its transport parameters. `read_handshake` vouches for
/// the decryption that this rests on.
pub proof fn law_other_shared_key_is_refused(client: SessionView, server: SessionView)
    requires
        client.calls(server),
        client.psk != server.psk,
        !server.finds_tag(client.client_hello()),
        server.client_hello_sound(client.client_hello()),
    ensures
        ({
            let reading = server.read(client.client_hello());
            &&& reading.outcome == Err::<Seq<u8>, ErrorView>(refused("unsupported alpn"@))
                || reading.outcome == Err::<Seq<u8>, ErrorView>(
                refused("invalid authentication tag"@),
            )
            &&& reading.session.state is Initial
            &&& reading.session.remote_transport_parameters == server.remote_transport_parameters
        }),
{
    lemma_refuses_stranger(client, server);
}

/// Two sessions of one configuration, each started with draws of its own: a configured key pair is
/// the static key pair of both, and without one each takes the static key pair that was drawn for
/// it; the ephemeral key pair of each is the one that was drawn for it, and nothing else in the
/// session goes by that draw.
pub proof fn law_draws_become_keys(
    config: ConfigView,
    side: Side,
    parameters: Seq<u8>,
    first_s: KeypairView,
    first_e: KeypairView,
    second_s: KeypairView,
    second_e: KeypairView,
)
    ensures
        ({
            let first = config.drawn_session(side, parameters, first_s, first_e);
            let second = config.drawn_session(side, parameters, second_s, second_e);
            &&& config.keypair matches Some(keypair) ==> first.s == keypair && second.s == keypair
            &&& config.keypair is None ==> first.s == first_s && second.s == second_s
            &&& first.e == first_e
            &&& second.e == second_e
            &&& first == (SessionView { s: first.s, e: first.e, ..second })
        }),
{
}

/// Where the parts of both messages stand: the first message has 115 bytes besides the name of the
/// application protocol and the transport parameters, the second has 48 besides the transport
/// parameters; keys take 32 bytes, and the tag is the last 16.
pub proof fn law_message_layout(session: SessionView)
    requires
        session.wf(),
    ensures
        session.side is Client && session.alpn is Some ==> {
            let hello = session.client_hello();
            let alpn = session.alpn->0;
            let named = after_encrypt(session.client_hello_bound(), alpn);
            &&& hello.len() == 115 + alpn.len() + session.transport_parameters.len()
            &&& hello[0] == 33
            &&& hello.subrange(1, 34) == PROTOCOL_ID@
            &&& hello.subrange(34, 66) == session.e.public
            &&& hello.subrange(66, 98) == encrypted(session.client_hello_keyed(), session.s.public)
            &&& hello[98] == alpn.len() % 256
            &&& hello.subrange(99, 99int + alpn.len()) == encrypted(
                session.client_hello_bound(),
                alpn,
            )
            &&& hello.skip(99int + alpn.len()) == sealed_parameters(
                named,
                session.transport_parameters,
            )
        },
        session.side is Server ==> {
            let hello = session.server_hello();
            &&& hello.len() == 48 + session.transport_parameters.len()
            &&& hello.take(32) == encrypted(session.duplex, session.e.public)
            &&& hello.skip(32) == sealed_parameters(
                session.server_hello_bound(),
                session.transport_parameters,
            )
        },
{
    if session.side is Client && session.alpn is Some {
        let hello = session.client_hello();
        let alpn = session.alpn->0;
        let named = after_encrypt(session.client_hello_bound(), alpn);
        let static_cipher = encrypted(session.client_hello_keyed(), session.s.public);
        let alpn_cipher = encrypted(session.client_hello_bound(), alpn);
        assert(hello.subrange(1, 34) =~= PROTOCOL_ID@);
        assert(hello.subrange(34, 66) =~= session.e.public);
        assert(hello.subrange(66, 98) =~= static_cipher);
        assert(hello.subrange(99, 99int + alpn.len()) =~= alpn_cipher);
        assert(hello.skip(99int + alpn.len()) =~= sealed_parameters(
            named,
            session.transport_parameters,
        ));
    }
    if session.side is Server {
        let hello = session.server_hello();
        assert(hello.take(32) =~= encrypted(session.duplex, session.e.public));
        assert(hello.skip(32) =~= sealed_parameters(
            session.server_hello_bound(),
            session.transport_parameters,
        ));
    }
}

/// Two ends that are in step draw keys that fit, log the same secrets under the same name, and
/// stay in step.
pub proof fn law_next_keys_fit(client: SessionView, server: SessionView)
    requires
        in_step(client, server),
        client.is_handshaking() == server.is_handshaking(),
    ensures
        fit(client.next_keys(), server.next_keys()),
        logged(client) == logged(server),
        in_step(client.after_next_keys(), server.after_next_keys()),
{
}

/// After the first message both ends are in step, and the keys for early data that they hand out
/// next fit: the server decrypts with what the client's early data is encrypted with.
pub proof fn law_early_keys_fit(client: SessionView, server: SessionView)
    requires
        client.greets(server),
    ensures
        ({
            let client1 = client.write().session;
            let server1 = server.greeted_by(client);
            &&& in_step(client1, server1)
            &&& client1.write().keys is Some
            &&& server1.write().keys is Some
            &&& fit(client1.write().keys->0, server1.write().keys->0)
            &&& client1.write().session.zero_rtt_key == Some(server1.write().keys->0.remote)
            &&& in_step(client1.write().session, server1.write().session)
        }),
{
    let client1 = client.write().session;
    let server1 = server.greeted_by(client);
    law_next_keys_fit(client1, server1);
}

/// A handshake between a client and the server that it greets completes: the server answers, both
/// ends hand out keys that fit, and then neither is handshaking, both are in step, and each knows
/// the other's static key, transport parameters and the application protocol.
pub proof fn law_handshake_completes(client: SessionView, server: SessionView)
    requires
        client.greets(server),
        server.e.matched(),
        parameters_outcome(Side::Client, server.transport_parameters) is Ok,
    ensures
        ({
            // The client sent its message, the server read it; both hand out early keys.
            let client1 = client.write().session.write().session;
            let server1 = server.greeted_by(client).write().session;
            // The server sends its message and hands out its keys.
            let server2 = server1.write().session;
            // The client reads it and hands out its keys.
            let client2 = client1.answered_by(server1).write().session;
            &&& server1.answers(client1)
            &&& server1.write().keys is Some
            &&& client1.answered_by(server1).write().keys is Some
            &&& fit(client1.answered_by(server1).write().keys->0, server1.write().keys->0)
            &&& !client2.is_handshaking()
            &&& !server2.is_handshaking()
            &&& in_step(client2, server2)
            &&& client2.remote_s == Some(server.s.public)
            &&& server2.remote_s == Some(client.s.public)
            &&& client2.alpn == client.alpn
            &&& server2.alpn == client.alpn
            &&& client2.remote_transport_parameters == Some(
                parameters_outcome(Side::Client, server.transport_parameters)->Ok_0,
            )
            &&& server2.remote_transport_parameters == Some(
                parameters_outcome(Side::Server, client.transport_parameters)->Ok_0,
            )
        }),
{
    law_early_keys_fit(client, server);
}

/// After the handshake, two ends with the same duplex draw keys that fit at every key update.
pub proof fn law_key_updates_fit(client: SessionView, server: SessionView, count: nat)
    requires
        client.side is Client,
        server.side is Server,
        !client.is_handshaking(),
        !server.is_handshaking(),
        client.duplex == server.duplex,
    ensures
        after_updates(client, count).duplex == after_updates(server, count).duplex,
        fit(after_updates(client, count).next_keys(), after_updates(server, count).next_keys()),
        after_updates(client, count).side is Client,
        after_updates(server, count).side is Server,
        !after_updates(client, count).is_handshaking(),
        !after_updates(server, count).is_handshaking(),
    decreases count,
{
    if count > 0 {
        law_key_updates_fit(client, server, (count - 1) as nat);
    }
}

/// Both ends of a connection export the same keying material for the same label and context.
pub proof fn law_exports_agree(
    client: SessionView,
    server: SessionView,
    label: Seq<u8>,
    context: Seq<u8>,
    len: nat,
)
    requires
        client.duplex == server.duplex,
    ensures
        client.keying_material(label, context, len) == server.keying_material(label, context, len),
{
}

/// Neither reading nor writing sets a session back to an earlier state of its handshake.
pub proof fn law_state_never_goes_back(session: SessionView, bytes: Seq<u8>)
    ensures
        rank(session.read(bytes).session.state) >= rank(session.state),
        rank(session.write().session.state) >= rank(session.state),
{
}

/// Once the handshake is over, nothing is written any more, every message is refused, and the
/// session stays as it is.
pub proof fn law_data_is_final(session: SessionView, bytes: Seq<u8>)
    requires
        session.state is Data,
    ensures
        session.write().session == session,
        session.write().bytes == Seq::<u8>::empty(),
        session.write().keys is None,
        session.read(bytes).session == session,
        session.read(bytes).outcome is Err,
{
}

/// A message that is refused does not take the session further: its state, its own keys and
/// parameters, and what it knows of the peer's parameters stay. A client also keeps its server's
/// static key and its application protocol.
pub proof fn law_refusal_does_not_advance(session: SessionView, bytes: Seq<u8>)
    requires
        session.read(bytes).outcome is Err,
    ensures
        ({
            let after = session.read(bytes).session;
            &&& after.state == session.state
            &&& after.side == session.side
            &&& after.e == session.e
            &&& after.s == session.s
            &&& after.psk == session.psk
            &&& after.supported_protocols == session.supported_protocols
            &&& after.transport_parameters == session.transport_parameters
            &&& after.remote_transport_parameters == session.remote_transport_parameters
            &&& after.zero_rtt_key == session.zero_rtt_key
            &&& after.key_log == session.key_log
            &&& session.side is Client ==> after.remote_s == session.remote_s && after.alpn
                == session.alpn
        }),
{
}

/// What the tag of a retry packet protects: the length of the original connection id, every byte of
/// the id and every byte of the packet, in this order and nothing else.
pub proof fn law_retry_data(orig_dst_cid: Seq<u8>, packet: Seq<u8>)
    requires
        orig_dst_cid.len() <= 20,
    ensures
        ({
            let data = pseudo_packet(orig_dst_cid, packet);
            let n = orig_dst_cid.len() as int;
            &&& data.len() == 1 + n + packet.len()
            &&& data[0] == n
            &&& data.subrange(1, 1 + n) == orig_dst_cid
            &&& data.skip(1 + n) == packet
        }),
{
    let data = pseudo_packet(orig_dst_cid, packet);
    let n = orig_dst_cid.len() as int;
    assert(data.subrange(1, 1 + n) =~= orig_dst_cid);
    assert(data.skip(1 + n) =~= packet);
}

/// Different connection ids or packets are never tagged as the same data.
pub proof fn law_retry_data_is_injective(
    one_cid: Seq<u8>,
    one_packet: Seq<u8>,
    other_cid: Seq<u8>,
    other_packet: Seq<u8>,
)
    requires
        one_cid.len() <= 20,
        other_cid.len() <= 20,
        pseudo_packet(one_cid, one_packet) == pseudo_packet(other_cid, other_packet),
    ensures
        one_cid == other_cid,
        one_packet == other_packet,
{
    law_retry_data(one_cid, one_packet);
    law_retry_data(other_cid, other_packet);
}

/// The tag of a retry packet is that of AES-128-GCM, under the key and the nonce of retry packets,
/// over the length of the original connection id, the whole id and the whole packet.
pub proof fn law_retry_tag(orig_dst_cid: Seq<u8>, packet: Seq<u8>, data: Seq<u8>)
    requires
        orig_dst_cid.len() <= 20,
        data.len() == 1 + orig_dst_cid.len() + packet.len(),
        data[0] == orig_dst_cid.len(),
        data.subrange(1, 1 + orig_dst_cid.len() as int) == orig_dst_cid,
        data.skip(1 + orig_dst_cid.len() as int) == packet,
    ensures
        integrity_tag(orig_dst_cid, packet) == aes_128_gcm_tag(
            RETRY_INTEGRITY_KEY@,
            RETRY_INTEGRITY_NONCE@,
            data,
        ),
{
    let n = orig_dst_cid.len() as int;
    assert forall|i: int| 0 <= i < data.len() implies #[trigger] data[i] == pseudo_packet(
        orig_dst_cid,
        packet,
    )[i] by {
        if 1 <= i < 1 + n {
            assert(data[i] == data.subrange(1, 1 + n)[i - 1]);
        } else if i >= 1 + n {
            assert(data[i] == data.skip(1 + n)[i - 1 - n]);
        }
    }
    assert(data =~= pseudo_packet(orig_dst_cid, packet));
}

/// A retry packet is valid exactly if it has at least 16 bytes behind its header, and the last 16
/// are the tag of everything before them.
pub proof fn law_retry_is_valid(orig_dst_cid: Seq<u8>, header: Seq<u8>, payload: Seq<u8>)
    ensures
        payload.len() < 16 ==> !ends_in_tag(orig_dst_cid, header, payload),
        payload.len() >= 16 ==> (ends_in_tag(orig_dst_cid, header, payload) <==> {
            let n = payload.len() as int - 16;
            payload.subrange(n, n + 16) == integrity_tag(
                orig_dst_cid,
                header + payload.subrange(0, n),
            )
        }),
{
    if payload.len() >= 16 {
        let n = payload.len() as int - 16;
        assert(payload.subrange(n, n + 16) =~= payload.skip(n));
        assert(payload.subrange(0, n) =~= payload.take(n));
    }
}

/// A retry packet that carries its integrity tag is valid.
pub proof fn law_tagged_retry_is_valid(
    orig_dst_cid: Seq<u8>,
    header: Seq<u8>,
    body: Seq<u8>,
    tag: [u8; 16],
)
    requires
        tag@ == integrity_tag(orig_dst_cid, header + body),
    ensures
        ends_in_tag(orig_dst_cid, header, body + tag@),
{
    let payload = body + tag@;
    assert(payload.take(payload.len() - 16) =~= body);
    assert(payload.skip(payload.len() - 16) =~= tag@);
}

/// A retry packet with any other tag is not valid.
pub proof fn law_other_tag_is_not_valid(
    orig_dst_cid: Seq<u8>,
    header: Seq<u8>,
    body: Seq<u8>,
    tag: [u8; 16],
)
    requires
        tag@ != integrity_tag(orig_dst_cid, header + body),
    ensures
        !ends_in_tag(orig_dst_cid, header, body + tag@),
{
    let payload = body + tag@;
    assert(payload.take(payload.len() - 16) =~= body);
    assert(payload.skip(payload.len() - 16) =~= tag@);
}

} // verus!
