//! A session: one end of a Noise handshake and of the connection that it sets up.

use subtle::ConstantTimeEq;
use vstd::prelude::*;
use xoodoo::Xoodyak;

use crate::agreement::lemma_reads_peers;
use crate::bytes::{append, copy_bytes, equal, list_view, option_list_view, option_view};
use crate::duplex::{
    absorb_state, after_squeeze_key, decrypt_bytes, duplex_state, encrypt_bytes, is_keyed, keyed,
    squeeze_key_output, squeezed, squeezed_key,
};
use crate::error::{connection_refused, refused, TransportError};
use crate::keylog::{entries_view, KeyLogEntry};
use crate::keys::{lemma_keypair_public_len, lemma_public_key_len, Keypair, PublicKey};
use crate::model::{
    after_sealed_parameters, lemma_read_keeps_wf, sealed_parameters, Reading, SessionView, State,
    PROTOCOL_ID,
};
use crate::packet_key::{
    header_keypair, keys_bytes, pair_bytes, ChaCha8PacketKey, KeyPair, Keys, PlaintextHeaderKey,
};
use crate::params::{is_written, TransportParameters};
use crate::retry::{
    aes_128_gcm_tag, ends_in_tag, integrity_tag, ConnectionId, RETRY_INTEGRITY_KEY,
    RETRY_INTEGRITY_NONCE,
};
use crate::side::Side;

verus! {

/// `ConstantTimeEq::ct_eq` of `subtle` on byte slices: whether they have the same length and the
/// same bytes.
#[verifier::external_body]
fn ct_eq(left: &[u8], right: &[u8]) -> (same: bool)
    ensures
        same == (left@ == right@),
{
    bool::from(left.ct_eq(right))
}

/// Error returned when keying material cannot be exported.
#[derive(Clone, Copy, Debug, PartialEq, Eq, Structural)]
pub struct ExportKeyingMaterialError;

/// One end of a Noise handshake.
pub struct NoiseSession {
    xoodyak: Xoodyak,
    state: State,
    side: Side,
    e: Keypair,
    s: Keypair,
    psk: [u8; 32],
    alpn: Option<Vec<u8>>,
    supported_protocols: Option<Vec<Vec<u8>>>,
    transport_parameters: TransportParameters,
    remote_transport_parameters: Option<TransportParameters>,
    remote_e: Option<PublicKey>,
    remote_s: Option<PublicKey>,
    zero_rtt_key: Option<ChaCha8PacketKey>,
    key_log: Option<Vec<KeyLogEntry>>,
}

impl View for NoiseSession {
    type V = SessionView;

    closed spec fn view(&self) -> SessionView {
        SessionView {
            duplex: duplex_state(self.xoodyak),
            state: self.state,
            side: self.side,
            e: self.e@,
            s: self.s@,
            psk: self.psk@,
            alpn: option_view(self.alpn),
            supported_protocols: option_list_view(self.supported_protocols),
            transport_parameters: self.transport_parameters@,
            remote_transport_parameters: option_view(self.remote_transport_parameters),
            remote_e: option_view(self.remote_e),
            remote_s: option_view(self.remote_s),
            zero_rtt_key: option_view(self.zero_rtt_key),
            key_log: match self.key_log {
                Some(entries) => Some(entries_view(entries@)),
                None => None,
            },
        }
    }
}

/// Where a reader is that left a session in the given state.
spec fn reading(session: SessionView, rest: Result<&[u8], TransportError>) -> Reading {
    Reading {
        session,
        outcome: match rest {
            Ok(rest) => Ok(rest@),
            Err(error) => Err(error@),
        },
    }
}

impl NoiseSession {
    /// A session that has neither written nor read anything.
    pub(crate) fn start(
        side: Side,
        e: Keypair,
        s: Keypair,
        psk: [u8; 32],
        alpn: Option<Vec<u8>>,
        supported_protocols: Option<Vec<Vec<u8>>>,
        transport_parameters: TransportParameters,
        remote_s: Option<PublicKey>,
        keylogger: bool,
    ) -> (session: NoiseSession)
        ensures
            session@ == (SessionView {
                duplex: Seq::new(50, |i: int| 0u8),
                state: State::Initial,
                side,
                e: e@,
                s: s@,
                psk: psk@,
                alpn: option_view(alpn),
                supported_protocols: option_list_view(supported_protocols),
                transport_parameters: transport_parameters@,
                remote_transport_parameters: None,
                remote_e: None,
                remote_s: option_view(remote_s),
                zero_rtt_key: None,
                key_log: if keylogger {
                    Some(seq![])
                } else {
                    None
                },
            }),
            session@.wf(),
    {
        proof {
            lemma_keypair_public_len(e);
            lemma_keypair_public_len(s);
            if remote_s is Some {
                lemma_public_key_len(remote_s->0);
            }
        }
        let none: Vec<KeyLogEntry> = Vec::new();
        assert(entries_view(none@) =~= seq![]);
        NoiseSession {
            xoodyak: Xoodyak::hash(),
            state: State::Initial,
            side,
            e,
            s,
            psk,
            alpn,
            supported_protocols,
            transport_parameters,
            remote_transport_parameters: None,
            remote_e: None,
            remote_s,
            zero_rtt_key: None,
            key_log: if keylogger {
                Some(none)
            } else {
                None
            },
        }
    }

    /// The name of the connection in a key log, once it is known.
    pub fn conn_id(&self) -> (id: Option<&[u8; 32]>)
        ensures
            match id {
                Some(id) => self@.conn_id() == Some(id@),
                None => self@.conn_id() is None,
            },
    {
        match self.side {
            Side::Client => Some(self.e.public().as_bytes()),
            Side::Server => match &self.remote_e {
                Some(remote_e) => Some(remote_e.as_bytes()),
                None => None,
            },
        }
    }

    /// Whether the handshake goes on.
    pub fn is_handshaking(&self) -> (handshaking: bool)
        ensures
            handshaking == self@.is_handshaking(),
    {
        self.state != State::Data
    }

    /// Draws the keys for the next key update, or during the handshake those of its next stage.
    /// If secrets are to be logged, both are.
    pub fn next_1rtt_keys(&mut self) -> (keys: KeyPair<ChaCha8PacketKey>)
        requires
            is_keyed(old(self)@.duplex),
            old(self)@.key_log is Some ==> old(self)@.conn_id() is Some,
        ensures
            pair_bytes(keys) == old(self)@.next_keys(),
            final(self)@ == old(self)@.after_next_keys(),
            is_keyed(final(self)@.duplex),
            old(self)@.wf() ==> final(self)@.wf(),
    {
        if !self.is_handshaking() {
            self.xoodyak.ratchet();
        }
        let ghost source = duplex_state(self.xoodyak);
        let mut client: [u8; 32] = [0u8; 32];
        self.xoodyak.squeeze_key(&mut client);
        let mut server: [u8; 32] = [0u8; 32];
        self.xoodyak.squeeze_key(&mut server);
        assert(client@ =~= squeezed_key(source, 32));
        assert(server@ =~= squeezed_key(after_squeeze_key(source, 32), 32));
        match self.key_log.take() {
            Some(mut entries) => {
                let conn_id: [u8; 32] = *self.conn_id().unwrap();
                let ghost before = entries@;
                entries.push(KeyLogEntry { label: "CLIENT_KEY", conn_id, secret: client });
                entries.push(KeyLogEntry { label: "SERVER_KEY", conn_id, secret: server });
                assert(entries_view(entries@) =~= entries_view(before) + seq![
                    entries@[before.len() as int]@,
                    entries@[(before.len() + 1) as int]@,
                ]);
                self.key_log = Some(entries);
            },
            None => {},
        }
        let client = ChaCha8PacketKey::new(client);
        let server = ChaCha8PacketKey::new(server);
        match self.side {
            Side::Client => KeyPair { local: client, remote: server },
            Side::Server => KeyPair { local: server, remote: client },
        }
    }

    fn read_protocol_id<'a>(&mut self, bytes: &'a [u8]) -> (rest: Result<&'a [u8], TransportError>)
        ensures
            reading(final(self)@, rest) == old(self)@.read_protocol_id(bytes@),
            is_keyed(final(self)@.duplex) == is_keyed(old(self)@.duplex),
    {
        if bytes.is_empty() {
            return Err(connection_refused("invalid crypto frame"));
        }
        let (len, rest) = bytes.split_at(1);
        let len: usize = len[0] as usize;
        if rest.len() < len {
            return Err(connection_refused("invalid crypto frame"));
        }
        let (protocol_id, rest) = rest.split_at(len);
        assert(protocol_id@ =~= bytes@.subrange(1, 1 + bytes@[0]));
        assert(rest@ =~= bytes@.skip(1 + bytes@[0]));
        if !equal(protocol_id, &PROTOCOL_ID) {
            return Err(connection_refused("unsupported protocol id"));
        }
        self.xoodyak.absorb(protocol_id);
        Ok(rest)
    }

    fn read_ephemeral<'a>(&mut self, bytes: &'a [u8]) -> (rest: Result<&'a [u8], TransportError>)
        ensures
            reading(final(self)@, rest) == old(self)@.read_ephemeral(bytes@),
            old(self)@.ephemeral_sound(bytes@),
            rest is Ok || is_keyed(old(self)@.duplex) ==> is_keyed(final(self)@.duplex),
    {
        if bytes.len() < 32 {
            return Err(connection_refused("invalid crypto frame"));
        }
        let (e, rest) = bytes.split_at(32);
        assert(e@ =~= bytes@.take(32));
        assert(rest@ =~= bytes@.skip(32));
        self.xoodyak.absorb(e);
        let e = match PublicKey::from_bytes(e) {
            Some(e) => e,
            None => return Err(connection_refused("invalid ephemeral public key")),
        };
        self.remote_e = Some(e);
        self.xoodyak.absorb(self.s.public().as_bytes());
        let es = self.s.diffie_hellman(&e);
        self.xoodyak.absorb(&es);
        let ghost hashed = duplex_state(self.xoodyak);
        let mut key: [u8; 32] = [0u8; 32];
        self.xoodyak.squeeze(&mut key);
        assert(key@ =~= squeezed(hashed, 32));
        self.xoodyak = keyed(&key);
        Ok(rest)
    }

    fn read_static<'a>(&mut self, bytes: &'a [u8]) -> (rest: Result<&'a [u8], TransportError>)
        requires
            is_keyed(old(self)@.duplex),
        ensures
            reading(final(self)@, rest) == old(self)@.read_static(bytes@),
            old(self)@.static_sound(bytes@),
            is_keyed(final(self)@.duplex),
    {
        if bytes.len() < 32 {
            return Err(connection_refused("invalid crypto frame"));
        }
        let (remote_s, rest) = bytes.split_at(32);
        assert(remote_s@ =~= bytes@.take(32));
        assert(rest@ =~= bytes@.skip(32));
        let s = decrypt_bytes(&mut self.xoodyak, remote_s);
        let s = match PublicKey::from_bytes(s.as_slice()) {
            Some(s) => s,
            None => return Err(connection_refused("invalid static public key")),
        };
        self.remote_s = Some(s);
        let ss = self.s.diffie_hellman(&s);
        self.xoodyak.absorb(&ss);
        self.xoodyak.absorb(&self.psk);
        Ok(rest)
    }

    /// Whether the server offers the application protocol.
    fn offers(&self, alpn: &[u8]) -> (supported: bool)
        requires
            self@.supported_protocols is Some,
        ensures
            supported == self@.supports(alpn@),
    {
        match &self.supported_protocols {
            Some(protocols) => {
                let mut i: usize = 0;
                while i < protocols.len()
                    invariant
                        i <= protocols@.len(),
                        self@.supported_protocols == Some(list_view(protocols@)),
                        forall|j: int| 0 <= j < i ==> list_view(protocols@)[j] != alpn@,
                    decreases protocols@.len() - i,
                {
                    if equal(protocols[i].as_slice(), alpn) {
                        assert(list_view(protocols@)[i as int] == alpn@);
                        return true;
                    }
                    i = i + 1;
                }
                false
            },
            None => false,
        }
    }

    fn read_alpn<'a>(&mut self, bytes: &'a [u8]) -> (rest: Result<&'a [u8], TransportError>)
        requires
            is_keyed(old(self)@.duplex),
            bytes@.len() > 0 && bytes@.len() >= 1 + bytes@[0]
                ==> old(self)@.supported_protocols is Some,
        ensures
            reading(final(self)@, rest) == old(self)@.read_alpn(bytes@),
            old(self)@.alpn_sound(bytes@),
            is_keyed(final(self)@.duplex),
    {
        if bytes.is_empty() {
            return Err(connection_refused("invalid crypto frame"));
        }
        let (len, rest) = bytes.split_at(1);
        let len: usize = len[0] as usize;
        if rest.len() < len {
            return Err(connection_refused("invalid crypto frame"));
        }
        let (alpn, rest) = rest.split_at(len);
        assert(alpn@ =~= bytes@.subrange(1, 1 + bytes@[0]));
        assert(rest@ =~= bytes@.skip(1 + bytes@[0]));
        let alpn = decrypt_bytes(&mut self.xoodyak, alpn);
        if !self.offers(alpn.as_slice()) {
            return Err(connection_refused("unsupported alpn"));
        }
        self.alpn = Some(alpn);
        Ok(rest)
    }

    fn read_encrypted_ephemeral<'a>(&mut self, bytes: &'a [u8]) -> (rest: Result<
        &'a [u8],
        TransportError,
    >)
        requires
            is_keyed(old(self)@.duplex),
        ensures
            reading(final(self)@, rest) == old(self)@.read_encrypted_ephemeral(bytes@),
            old(self)@.encrypted_ephemeral_sound(bytes@),
            is_keyed(final(self)@.duplex),
    {
        if bytes.len() < 32 {
            return Err(connection_refused("invalid crypto frame"));
        }
        let (remote_e, rest) = bytes.split_at(32);
        assert(remote_e@ =~= bytes@.take(32));
        assert(rest@ =~= bytes@.skip(32));
        let e = decrypt_bytes(&mut self.xoodyak, remote_e);
        let e = match PublicKey::from_bytes(e.as_slice()) {
            Some(e) => e,
            None => return Err(connection_refused("invalid ephemeral public key")),
        };
        self.remote_e = Some(e);
        let ee = self.e.diffie_hellman(&e);
        self.xoodyak.absorb(&ee);
        let se = self.s.diffie_hellman(&e);
        self.xoodyak.absorb(&se);
        Ok(rest)
    }

    fn read_parameters(&mut self, bytes: &[u8], next: State) -> (read: Result<(), TransportError>)
        requires
            is_keyed(old(self)@.duplex),
        ensures
            ({
                let expected = old(self)@.read_parameters(bytes@, next);
                &&& final(self)@ == expected.session
                &&& match expected.outcome {
                    Ok(_) => read is Ok,
                    Err(error) => read is Err && read->Err_0@ == error,
                }
            }),
            old(self)@.parameters_sound(bytes@),
            is_keyed(final(self)@.duplex),
    {
        if bytes.len() < 16 {
            return Err(connection_refused("invalid crypto frame"));
        }
        let (params, auth) = bytes.split_at(bytes.len() - 16);
        assert(params@ =~= bytes@.take(bytes@.len() - 16));
        assert(auth@ =~= bytes@.skip(bytes@.len() - 16));
        let params = decrypt_bytes(&mut self.xoodyak, params);
        let ghost opened = duplex_state(self.xoodyak);
        let mut tag: [u8; 16] = [0u8; 16];
        self.xoodyak.squeeze(&mut tag);
        assert(tag@ =~= squeezed(opened, 16));
        if !ct_eq(&tag, auth) {
            return Err(connection_refused("invalid authentication tag"));
        }
        match TransportParameters::read(self.side, params.as_slice()) {
            Ok(parameters) => {
                self.remote_transport_parameters = Some(parameters);
                self.state = next;
                Ok(())
            },
            Err(error) => Err(error),
        }
    }

    fn read_client_hello(&mut self, handshake: &[u8]) -> (read: Result<(), TransportError>)
        requires
            old(self)@.supported_protocols is None ==> !old(self)@.reaches_alpn(handshake@),
        ensures
            ({
                let expected = old(self)@.read_client_hello(handshake@);
                &&& final(self)@ == expected.session
                &&& match expected.outcome {
                    Ok(_) => read is Ok,
                    Err(error) => read is Err && read->Err_0@ == error,
                }
            }),
            old(self)@.client_hello_sound(handshake@),
            read is Ok || is_keyed(old(self)@.duplex) ==> is_keyed(final(self)@.duplex),
            final(self)@.remote_e != old(self)@.remote_e ==> is_keyed(final(self)@.duplex),
    {
        let rest = match self.read_protocol_id(handshake) {
            Ok(rest) => rest,
            Err(error) => return Err(error),
        };
        let rest = match self.read_ephemeral(rest) {
            Ok(rest) => rest,
            Err(error) => return Err(error),
        };
        let rest = match self.read_static(rest) {
            Ok(rest) => rest,
            Err(error) => return Err(error),
        };
        let rest = match self.read_alpn(rest) {
            Ok(rest) => rest,
            Err(error) => return Err(error),
        };
        self.read_parameters(rest, State::ZeroRtt)
    }

    fn read_server_hello(&mut self, handshake: &[u8]) -> (read: Result<(), TransportError>)
        requires
            is_keyed(old(self)@.duplex),
        ensures
            ({
                let expected = old(self)@.read_server_hello(handshake@);
                &&& final(self)@ == expected.session
                &&& match expected.outcome {
                    Ok(_) => read is Ok,
                    Err(error) => read is Err && read->Err_0@ == error,
                }
            }),
            old(self)@.server_hello_sound(handshake@),
            is_keyed(final(self)@.duplex),
    {
        let rest = match self.read_encrypted_ephemeral(handshake) {
            Ok(rest) => rest,
            Err(error) => return Err(error),
        };
        self.read_parameters(rest, State::OneRtt)
    }

    /// Reads a message of the peer.
    ///
    /// A server that gets to the application protocol of a message has to have a list of those that
    /// it offers.
    ///
    /// What a client writes, the server that it was meant for reads, and it ends up in the
    /// client's duplex with the client's keys, application protocol and transport parameters; and
    /// what that server writes, the client reads. A client that asks for an application protocol
    /// which is not offered, or that does not have the shared key, is refused.
    pub fn read_handshake(&mut self, handshake: &[u8]) -> (read: Result<bool, TransportError>)
        requires
            old(self)@.wf(),
            old(self)@.can_read(handshake@),
        ensures
            final(self)@.wf(),
            final(self)@ == old(self)@.read(handshake@).session,
            match old(self)@.read(handshake@).outcome {
                Ok(_) => read is Ok && read->Ok_0,
                Err(error) => read is Err && read->Err_0@ == error,
            },
            old(self)@.state is Initial && old(self)@.side is Server
                ==> old(self)@.client_hello_sound(handshake@),
            old(self)@.state is Handshake && old(self)@.side is Client
                ==> old(self)@.server_hello_sound(handshake@),
            forall|client: SessionView| #[trigger]
                client.greets(old(self)@) && handshake@ == client.client_hello() ==> {
                    &&& read is Ok
                    &&& final(self)@ == old(self)@.greeted_by(client)
                    &&& is_written(client.transport_parameters)
                        ==> final(self)@.remote_transport_parameters == Some(
                        client.transport_parameters,
                    )
                },
            forall|server: SessionView| #[trigger]
                server.answers(old(self)@) && handshake@ == server.server_hello() ==> {
                    &&& read is Ok
                    &&& final(self)@ == old(self)@.answered_by(server)
                    &&& is_written(server.transport_parameters)
                        ==> final(self)@.remote_transport_parameters == Some(
                        server.transport_parameters,
                    )
                },
            forall|client: SessionView| #[trigger]
                client.asks_in_vain(old(self)@) && handshake@ == client.client_hello() ==> {
                    &&& read is Err
                    &&& read->Err_0@ == refused("unsupported alpn"@)
                    &&& final(self)@.state is Initial
                    &&& final(self)@.alpn == old(self)@.alpn
                    &&& final(self)@.remote_transport_parameters
                        == old(self)@.remote_transport_parameters
                },
            forall|client: SessionView| #[trigger]
                client.is_stranger_to(old(self)@) && handshake@ == client.client_hello() ==> {
                    &&& read is Err
                    &&& read->Err_0@ == refused("unsupported alpn"@) || read->Err_0@ == refused(
                        "invalid authentication tag"@,
                    )
                    &&& final(self)@.state is Initial
                    &&& final(self)@.remote_transport_parameters
                        == old(self)@.remote_transport_parameters
                },
    {
        let ghost before = self@;
        let read = match (self.state, self.side) {
            (State::Initial, Side::Server) => self.read_client_hello(handshake),
            (State::Handshake, Side::Client) => self.read_server_hello(handshake),
            _ => Err(connection_refused("unexpected crypto frame")),
        };
        proof {
            lemma_reads_peers(before, handshake@);
            lemma_read_keeps_wf(before, handshake@);
        }
        match read {
            Ok(()) => Ok(true),
            Err(error) => Err(error),
        }
    }

    /// Whether this server gets as far as the application protocol that a message names. It reads
    /// the message up to there with a copy of what it needs for that.
    fn reaches_protocol(&self, handshake: &[u8]) -> (reached: bool)
        ensures
            reached == self@.reaches_alpn(handshake@),
    {
        let mut probe = NoiseSession::start(
            self.side,
            self.e,
            self.s,
            self.psk,
            None,
            None,
            TransportParameters { encoded: Vec::new() },
            None,
            false,
        );
        probe.xoodyak = self.xoodyak.clone();
        let rest = match probe.read_protocol_id(handshake) {
            Ok(rest) => rest,
            Err(_) => return false,
        };
        let rest = match probe.read_ephemeral(rest) {
            Ok(rest) => rest,
            Err(_) => return false,
        };
        let rest = match probe.read_static(rest) {
            Ok(rest) => rest,
            Err(_) => return false,
        };
        !rest.is_empty() && rest.len() >= 1 + rest[0] as usize
    }

    /// Reads a message of the peer as `read_handshake` does, unless this is a server without a
    /// list of application protocols that gets to the protocol which the message names: then
    /// there is no answer, and the session stays as it is.
    pub fn try_read_handshake(&mut self, handshake: &[u8]) -> (read: Option<
        Result<bool, TransportError>,
    >)
        requires
            old(self)@.wf(),
        ensures
            final(self)@.wf(),
            read is None <==> !old(self)@.can_read(handshake@),
            match read {
                None => final(self)@ == old(self)@,
                Some(read) => {
                    &&& final(self)@ == old(self)@.read(handshake@).session
                    &&& match old(self)@.read(handshake@).outcome {
                        Ok(_) => read is Ok && read->Ok_0,
                        Err(error) => read is Err && read->Err_0@ == error,
                    }
                },
            },
    {
        if self.state == State::Initial && self.side == Side::Server
            && self.supported_protocols.is_none() && self.reaches_protocol(handshake) {
            return None;
        }
        Some(self.read_handshake(handshake))
    }

    /// Appends sealed transport parameters to a message.
    fn write_parameters(&mut self, handshake: &mut Vec<u8>)
        requires
            is_keyed(old(self)@.duplex),
        ensures
            final(handshake)@ == old(handshake)@ + sealed_parameters(
                old(self)@.duplex,
                old(self)@.transport_parameters,
            ),
            final(self)@ == (SessionView {
                duplex: after_sealed_parameters(
                    old(self)@.duplex,
                    old(self)@.transport_parameters,
                ),
                ..old(self)@
            }),
            is_keyed(final(self)@.duplex),
    {
        let params = encrypt_bytes(
            &mut self.xoodyak,
            self.transport_parameters.encoded.as_slice(),
        );
        append(handshake, params.as_slice());
        let ghost sent = duplex_state(self.xoodyak);
        let mut tag: [u8; 16] = [0u8; 16];
        self.xoodyak.squeeze(&mut tag);
        assert(tag@ =~= squeezed(sent, 16));
        append(handshake, &tag);
        assert(handshake@ =~= old(handshake)@ + sealed_parameters(
            old(self)@.duplex,
            old(self)@.transport_parameters,
        ));
    }

    fn write_client_hello(&mut self, handshake: &mut Vec<u8>)
        requires
            old(self)@.remote_s is Some,
            old(self)@.alpn is Some,
        ensures
            final(handshake)@ == old(handshake)@ + old(self)@.client_hello(),
            final(self)@ == old(self)@.after_client_hello(),
            is_keyed(final(self)@.duplex),
    {
        let remote_s: PublicKey = self.remote_s.unwrap();
        self.xoodyak.absorb(&PROTOCOL_ID);
        handshake.push(33);
        append(handshake, &PROTOCOL_ID);
        self.xoodyak.absorb(self.e.public().as_bytes());
        append(handshake, self.e.public().as_bytes());
        self.xoodyak.absorb(remote_s.as_bytes());
        let es = self.e.diffie_hellman(&remote_s);
        self.xoodyak.absorb(&es);
        let ghost hashed = duplex_state(self.xoodyak);
        let mut key: [u8; 32] = [0u8; 32];
        self.xoodyak.squeeze(&mut key);
        assert(key@ =~= squeezed(hashed, 32));
        self.xoodyak = keyed(&key);
        assert(self@.duplex == old(self)@.client_hello_keyed());
        let s = encrypt_bytes(&mut self.xoodyak, self.s.public().as_bytes());
        append(handshake, s.as_slice());
        let ss = self.s.diffie_hellman(&remote_s);
        self.xoodyak.absorb(&ss);
        self.xoodyak.absorb(&self.psk);
        assert(self@.duplex == old(self)@.client_hello_bound());
        match &self.alpn {
            Some(alpn) => {
                handshake.push((alpn.len() % 256) as u8);
                let name = encrypt_bytes(&mut self.xoodyak, alpn.as_slice());
                append(handshake, name.as_slice());
            },
            None => {},
        }
        self.write_parameters(handshake);
        self.state = State::ZeroRtt;
        assert(handshake@ =~= old(handshake)@ + old(self)@.client_hello());
    }

    fn write_server_hello(&mut self, handshake: &mut Vec<u8>)
        requires
            is_keyed(old(self)@.duplex),
            old(self)@.remote_e is Some,
            old(self)@.remote_s is Some,
        ensures
            final(handshake)@ == old(handshake)@ + old(self)@.server_hello(),
            final(self)@ == old(self)@.after_server_hello(),
            is_keyed(final(self)@.duplex),
    {
        let e = encrypt_bytes(&mut self.xoodyak, self.e.public().as_bytes());
        append(handshake, e.as_slice());
        let remote_e: PublicKey = self.remote_e.unwrap();
        let ee = self.e.diffie_hellman(&remote_e);
        self.xoodyak.absorb(&ee);
        let remote_s: PublicKey = self.remote_s.unwrap();
        let se = self.e.diffie_hellman(&remote_s);
        self.xoodyak.absorb(&se);
        self.write_parameters(handshake);
        assert(handshake@ =~= old(handshake)@ + old(self)@.server_hello());
    }

    /// Appends to `handshake` what is to be sent to the peer, and hands out keys when the
    /// handshake comes to a new stage.
    ///
    /// A client has to know its server's static key and to name an application protocol before
    /// its first message.
    pub fn write_handshake(&mut self, handshake: &mut Vec<u8>) -> (keys: Option<Keys>)
        requires
            old(self)@.wf(),
            old(self)@.state is Initial && old(self)@.side is Client ==> old(self)@.remote_s is Some
                && old(self)@.alpn is Some,
        ensures
            final(self)@.wf(),
            final(self)@ == old(self)@.write().session,
            final(handshake)@ == old(handshake)@ + old(self)@.write().bytes,
            keys_bytes(keys) == old(self)@.write().keys,
    {
        let header = header_keypair();
        match (self.state, self.side) {
            (State::Initial, Side::Client) => {
                self.write_client_hello(handshake);
                None
            },
            (State::ZeroRtt, _) => {
                let packet = self.next_1rtt_keys();
                self.state = State::Handshake;
                self.zero_rtt_key = Some(packet.local);
                assert(handshake@ =~= old(handshake)@ + Seq::<u8>::empty());
                Some(Keys { header, packet })
            },
            (State::Handshake, Side::Server) => {
                self.write_server_hello(handshake);
                let packet = self.next_1rtt_keys();
                self.state = State::Data;
                Some(Keys { header, packet })
            },
            (State::OneRtt, _) => {
                let packet = self.next_1rtt_keys();
                self.state = State::Data;
                assert(handshake@ =~= old(handshake)@ + Seq::<u8>::empty());
                Some(Keys { header, packet })
            },
            _ => {
                assert(handshake@ =~= old(handshake)@ + Seq::<u8>::empty());
                None
            },
        }
    }

    /// The keys of the initial packets, which protect nothing: they are all zero.
    pub fn initial_keys(_dst_cid: &ConnectionId, _side: Side) -> (keys: Keys)
        ensures
            pair_bytes(keys.packet) == (KeyPair {
                local: Seq::new(32, |i: int| 0u8),
                remote: Seq::new(32, |i: int| 0u8),
            }),
    {
        let keys = Keys {
            header: header_keypair(),
            packet: KeyPair {
                local: ChaCha8PacketKey::new([0u8; 32]),
                remote: ChaCha8PacketKey::new([0u8; 32]),
            },
        };
        assert(keys.packet.local@ =~= Seq::new(32, |i: int| 0u8));
        assert(keys.packet.remote@ =~= Seq::new(32, |i: int| 0u8));
        keys
    }

    /// The static key of the peer, if it is known.
    pub fn peer_identity(&self) -> (identity: Option<PublicKey>)
        ensures
            option_view(identity) == self@.remote_s,
    {
        self.remote_s
    }

    /// The transport parameters of the peer, if they are known. A client that waits for its
    /// server's answer goes by its own until then.
    pub fn transport_parameters(&self) -> (parameters: Result<
        Option<TransportParameters>,
        TransportError,
    >)
        ensures
            parameters is Ok,
            option_view(parameters->Ok_0) == (if self@.state is Handshake && self@.side is Client {
                Some(self@.transport_parameters)
            } else {
                self@.remote_transport_parameters
            }),
    {
        if self.state == State::Handshake && self.side == Side::Client {
            Ok(Some(self.transport_parameters.clone()))
        } else {
            match &self.remote_transport_parameters {
                Some(parameters) => Ok(Some(parameters.clone())),
                None => Ok(None),
            }
        }
    }

    /// The application protocol, if there is one.
    pub fn handshake_data(&self) -> (alpn: Option<Vec<u8>>)
        ensures
            option_view(alpn) == self@.alpn,
    {
        match &self.alpn {
            Some(alpn) => Some(copy_bytes(alpn)),
            None => None,
        }
    }

    /// Fills `output` with keying material that both ends of the connection can derive, for the
    /// given label and context.
    pub fn export_keying_material(
        &self,
        output: &mut [u8],
        label: &[u8],
        context: &[u8],
    ) -> (exported: Result<(), ExportKeyingMaterialError>)
        requires
            is_keyed(self@.duplex),
        ensures
            exported is Ok,
            final(output)@ == self@.keying_material(label@, context@, old(output)@.len()),
            final(output)@.len() == old(output)@.len(),
            final(output)@ == squeeze_key_output(
                absorb_state(absorb_state(self@.duplex, label@), context@),
                old(output)@.len(),
            ).0,
    {
        let mut xoodyak = self.xoodyak.clone();
        xoodyak.absorb(label);
        xoodyak.absorb(context);
        xoodyak.squeeze_key(output);
        assert(output@ =~= self@.keying_material(label@, context@, old(output)@.len()));
        Ok(())
    }

    /// The keys for early data, once they were drawn.
    pub fn early_crypto(&self) -> (keys: Option<(PlaintextHeaderKey, ChaCha8PacketKey)>)
        requires
            self@.zero_rtt_key is Some,
        ensures
            keys is Some,
            Some((keys->0).1@) == self@.zero_rtt_key,
    {
        Some((PlaintextHeaderKey, self.zero_rtt_key.unwrap()))
    }

    /// Whether the peer accepts early data: it always does.
    pub fn early_data_accepted(&self) -> (accepted: Option<bool>)
        ensures
            accepted == Some(true),
    {
        Some(true)
    }

    /// The integrity tag of a retry packet.
    pub fn retry_tag(orig_dst_cid: &ConnectionId, packet: &[u8]) -> (tag: [u8; 16])
        ensures
            tag@ == integrity_tag(orig_dst_cid@, packet@),
            tag@ == aes_128_gcm_tag(
                RETRY_INTEGRITY_KEY@,
                RETRY_INTEGRITY_NONCE@,
                seq![orig_dst_cid@.len() as u8] + orig_dst_cid@ + packet@,
            ),
    {
        crate::retry::retry_tag(orig_dst_cid, packet)
    }

    /// Whether a retry packet, given as its header and the payload with the tag, is intact.
    pub fn is_valid_retry(
        orig_dst_cid: &ConnectionId,
        header: &[u8],
        payload: &[u8],
    ) -> (valid: bool)
        ensures
            valid == ends_in_tag(orig_dst_cid@, header@, payload@),
            valid ==> payload@.len() >= 16,
            payload@.len() >= 16 ==> valid == (payload@.skip(payload@.len() - 16)
                == aes_128_gcm_tag(
                RETRY_INTEGRITY_KEY@,
                RETRY_INTEGRITY_NONCE@,
                seq![orig_dst_cid@.len() as u8] + orig_dst_cid@ + (header@ + payload@.take(
                    payload@.len() - 16,
                )),
            )),
    {
        crate::retry::is_valid_retry(orig_dst_cid, header, payload)
    }

    /// Hands over the secrets that wait to be logged.
    pub fn take_key_log(&mut self) -> (entries: Vec<KeyLogEntry>)
        ensures
            entries_view(entries@) == (match old(self)@.key_log {
                Some(entries) => entries,
                None => seq![],
            }),
            final(self)@ == (SessionView {
                key_log: match old(self)@.key_log {
                    Some(_) => Some(seq![]),
                    None => None,
                },
                ..old(self)@
            }),
            old(self)@.wf() ==> final(self)@.wf(),
    {
        match self.key_log.take() {
            Some(entries) => {
                let none: Vec<KeyLogEntry> = Vec::new();
                assert(entries_view(none@) =~= seq![]);
                self.key_log = Some(none);
                entries
            },
            None => {
                let none: Vec<KeyLogEntry> = Vec::new();
                assert(entries_view(none@) =~= seq![]);
                none
            },
        }
    }
}

} // verus!
