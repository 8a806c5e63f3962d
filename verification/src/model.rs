//! What a session is and what its messages are, as mathematics.

use vstd::prelude::*;

use crate::duplex::{
    absorb_state, after_decrypt, after_encrypt, after_squeeze, after_squeeze_key, decrypted,
    encrypted, is_keyed, keyed_state, ratchet_state, squeezed, squeezed_key,
};
use crate::error::{refused, ErrorView};
use crate::keylog::KeyLogView;
use crate::keys::{public_key_valid, KeypairView};
use crate::packet_key::KeyPair;
use crate::params::parameters_outcome;
use crate::side::Side;

verus! {

/// The protocol identifier, `Noise_IKpsk1_Edx25519_ChaCha8Poly`.
pub const PROTOCOL_ID: [u8; 33] = [
    0x4e, 0x6f, 0x69, 0x73, 0x65, 0x5f, 0x49, 0x4b, 0x70, 0x73, 0x6b, 0x31, 0x5f, 0x45, 0x64, 0x78,
    0x32, 0x35, 0x35, 0x31, 0x39, 0x5f, 0x43, 0x68, 0x61, 0x43, 0x68, 0x61, 0x38, 0x50, 0x6f, 0x6c,
    0x79,
];

/// How far a session is.
#[derive(Clone, Copy, Debug, PartialEq, Eq, Structural)]
pub enum State {
    /// The first message is to be written or read.
    Initial,
    /// The keys for early data are to be handed out.
    ZeroRtt,
    /// The second message is to be written or read.
    Handshake,
    /// The second message was read; the keys for data are to be handed out.
    OneRtt,
    /// The handshake is over.
    Data,
}

/// What a session holds.
#[verifier::ext_equal]
pub struct SessionView {
    /// The state of the duplex.
    pub duplex: Seq<u8>,
    pub state: State,
    pub side: Side,
    /// The ephemeral key pair.
    pub e: KeypairView,
    /// The static key pair.
    pub s: KeypairView,
    pub psk: Seq<u8>,
    pub alpn: Option<Seq<u8>>,
    pub supported_protocols: Option<Seq<Seq<u8>>>,
    pub transport_parameters: Seq<u8>,
    pub remote_transport_parameters: Option<Seq<u8>>,
    pub remote_e: Option<Seq<u8>>,
    pub remote_s: Option<Seq<u8>>,
    pub zero_rtt_key: Option<Seq<u8>>,
    /// The secrets that wait to be logged, if they are to be logged.
    pub key_log: Option<Seq<KeyLogView>>,
}

/// A message on its way through a reader: the session so far, and the bytes that are left or the
/// error that ended it.
#[verifier::ext_equal]
pub struct Reading {
    pub session: SessionView,
    pub outcome: Result<Seq<u8>, ErrorView>,
}

impl Reading {
    /// Goes on with the next part of the message, unless an error ended it.
    pub open spec fn followed_by(
        self,
        part: spec_fn(SessionView, Seq<u8>) -> Reading,
    ) -> Reading {
        match self.outcome {
            Ok(rest) => part(self.session, rest),
            Err(_) => self,
        }
    }
}

/// What `write_handshake` does: the session after it, the bytes that it appends and the keys that
/// it hands out.
#[verifier::ext_equal]
pub struct Writing {
    pub session: SessionView,
    pub bytes: Seq<u8>,
    pub keys: Option<KeyPair<Seq<u8>>>,
}

/// The duplex after the protocol identifier, the client's ephemeral key, the server's static key
/// and their shared secret were hashed and became the key of a keyed duplex.
pub open spec fn hello_duplex(
    start: Seq<u8>,
    e: Seq<u8>,
    s: Seq<u8>,
    es: Seq<u8>,
) -> Seq<u8> {
    let id = absorb_state(start, PROTOCOL_ID@);
    let hashed = absorb_state(absorb_state(absorb_state(id, e), s), es);
    keyed_state(squeezed(hashed, 32))
}

/// Transport parameters as they are sent: encrypted, with a tag of 16 bytes behind them.
pub open spec fn sealed_parameters(duplex: Seq<u8>, parameters: Seq<u8>) -> Seq<u8> {
    encrypted(duplex, parameters) + squeezed(after_encrypt(duplex, parameters), 16)
}

/// The duplex after transport parameters and their tag were sent.
pub open spec fn after_sealed_parameters(duplex: Seq<u8>, parameters: Seq<u8>) -> Seq<u8> {
    after_squeeze(after_encrypt(duplex, parameters), 16)
}

impl SessionView {
    /// Whether the handshake goes on.
    pub open spec fn is_handshaking(self) -> bool {
        self.state !is Data
    }

    /// Whether the session is one that its methods lead to: public keys and the shared key have 32
    /// bytes; from the first message on the duplex is keyed and a server knows its client's keys;
    /// a server that knows its client's ephemeral key has turned to a keyed duplex, even if it
    /// refused what came behind that key; the key for early data stays once it was handed out;
    /// only a client waits between the second message and its keys.
    pub open spec fn wf(self) -> bool {
        &&& self.e.public.len() == 32
        &&& self.s.public.len() == 32
        &&& self.psk.len() == 32
        &&& self.remote_e matches Some(remote_e) ==> remote_e.len() == 32
        &&& self.remote_s matches Some(remote_s) ==> remote_s.len() == 32
        &&& self.state !is Initial ==> is_keyed(self.duplex)
        &&& self.state !is Initial && self.side is Server ==> self.remote_e is Some
            && self.remote_s is Some
        &&& self.side is Server && self.remote_e is Some ==> is_keyed(self.duplex)
        &&& self.state !is Initial && self.state !is ZeroRtt ==> self.zero_rtt_key is Some
        &&& self.state is OneRtt ==> self.side is Client
    }

    /// The name of the connection in a key log: the client's ephemeral key.
    pub open spec fn conn_id(self) -> Option<Seq<u8>> {
        match self.side {
            Side::Client => Some(self.e.public),
            Side::Server => self.remote_e,
        }
    }

    /// Whether the application protocol is one that this server offers.
    pub open spec fn supports(self, alpn: Seq<u8>) -> bool {
        self.supported_protocols matches Some(protocols) && protocols.contains(alpn)
    }

    /// The duplex that the next keys are drawn from: the present one during the handshake, a
    /// ratcheted one for a key update.
    pub open spec fn key_source(self) -> Seq<u8> {
        if self.is_handshaking() {
            self.duplex
        } else {
            ratchet_state(self.duplex)
        }
    }

    /// The next key of the client.
    pub open spec fn client_key(self) -> Seq<u8> {
        squeezed_key(self.key_source(), 32)
    }

    /// The next key of the server, drawn after the client's.
    pub open spec fn server_key(self) -> Seq<u8> {
        squeezed_key(after_squeeze_key(self.key_source(), 32), 32)
    }

    /// The next pair of keys as this side uses it.
    pub open spec fn next_keys(self) -> KeyPair<Seq<u8>> {
        match self.side {
            Side::Client => KeyPair { local: self.client_key(), remote: self.server_key() },
            Side::Server => KeyPair { local: self.server_key(), remote: self.client_key() },
        }
    }

    /// The session after its next keys were drawn.
    pub open spec fn after_next_keys(self) -> SessionView {
        SessionView {
            duplex: after_squeeze_key(after_squeeze_key(self.key_source(), 32), 32),
            key_log: match self.key_log {
                Some(entries) => Some(
                    entries + seq![
                        KeyLogView {
                            label: "CLIENT_KEY"@,
                            conn_id: self.conn_id()->0,
                            secret: self.client_key(),
                        },
                        KeyLogView {
                            label: "SERVER_KEY"@,
                            conn_id: self.conn_id()->0,
                            secret: self.server_key(),
                        },
                    ],
                ),
                None => None,
            },
            ..self
        }
    }

    /// Keying material for the given label and context.
    pub open spec fn keying_material(
        self,
        label: Seq<u8>,
        context: Seq<u8>,
        len: nat,
    ) -> Seq<u8> {
        squeezed_key(absorb_state(absorb_state(self.duplex, label), context), len)
    }

    /// The duplex of a client after its ephemeral key.
    pub open spec fn client_hello_keyed(self) -> Seq<u8> {
        hello_duplex(
            self.duplex,
            self.e.public,
            self.remote_s->0,
            self.e.exchange(self.remote_s->0),
        )
    }

    /// The duplex of a client after its static key, which binds in the static-static exchange and
    /// the shared key.
    pub open spec fn client_hello_bound(self) -> Seq<u8> {
        let sent = after_encrypt(self.client_hello_keyed(), self.s.public);
        absorb_state(absorb_state(sent, self.s.exchange(self.remote_s->0)), self.psk)
    }

    /// The first message, from client to server: the protocol identifier behind its length, the
    /// ephemeral key in the clear, the static key, the application protocol behind its length (of
    /// which the low byte is sent) and the sealed transport parameters.
    pub open spec fn client_hello(self) -> Seq<u8> {
        let named = after_encrypt(self.client_hello_bound(), self.alpn->0);
        seq![33u8] + PROTOCOL_ID@ + self.e.public + encrypted(
            self.client_hello_keyed(),
            self.s.public,
        ) + seq![(self.alpn->0.len() % 256) as u8] + encrypted(
            self.client_hello_bound(),
            self.alpn->0,
        ) + sealed_parameters(named, self.transport_parameters)
    }

    /// The session of a client after its message.
    pub open spec fn after_client_hello(self) -> SessionView {
        let named = after_encrypt(self.client_hello_bound(), self.alpn->0);
        SessionView {
            duplex: after_sealed_parameters(named, self.transport_parameters),
            state: State::ZeroRtt,
            ..self
        }
    }

    /// The duplex of a server after its ephemeral key, which binds in the exchanges of that key
    /// with both keys of the client.
    pub open spec fn server_hello_bound(self) -> Seq<u8> {
        let sent = after_encrypt(self.duplex, self.e.public);
        absorb_state(
            absorb_state(sent, self.e.exchange(self.remote_e->0)),
            self.e.exchange(self.remote_s->0),
        )
    }

    /// The second message, from server to client: the ephemeral key and the sealed transport
    /// parameters.
    pub open spec fn server_hello(self) -> Seq<u8> {
        encrypted(self.duplex, self.e.public) + sealed_parameters(
            self.server_hello_bound(),
            self.transport_parameters,
        )
    }

    /// The session of a server after its message, before it draws its keys.
    pub open spec fn after_server_hello(self) -> SessionView {
        SessionView {
            duplex: after_sealed_parameters(self.server_hello_bound(), self.transport_parameters),
            ..self
        }
    }

    /// What `write_handshake` does.
    pub open spec fn write(self) -> Writing {
        match (self.state, self.side) {
            (State::Initial, Side::Client) => Writing {
                session: self.after_client_hello(),
                bytes: self.client_hello(),
                keys: None,
            },
            (State::ZeroRtt, _) => Writing {
                session: SessionView {
                    state: State::Handshake,
                    zero_rtt_key: Some(self.next_keys().local),
                    ..self.after_next_keys()
                },
                bytes: seq![],
                keys: Some(self.next_keys()),
            },
            (State::Handshake, Side::Server) => Writing {
                session: SessionView {
                    state: State::Data,
                    ..self.after_server_hello().after_next_keys()
                },
                bytes: self.server_hello(),
                keys: Some(self.after_server_hello().next_keys()),
            },
            (State::OneRtt, _) => Writing {
                session: SessionView { state: State::Data, ..self.after_next_keys() },
                bytes: seq![],
                keys: Some(self.next_keys()),
            },
            _ => Writing { session: self, bytes: seq![], keys: None },
        }
    }

    /// A message refused at this point.
    pub open spec fn refuse(self, reason: Seq<char>) -> Reading {
        Reading { session: self, outcome: Err(refused(reason)) }
    }

    /// A server reads the protocol identifier.
    pub open spec fn read_protocol_id(self, bytes: Seq<u8>) -> Reading {
        if bytes.len() == 0 || bytes.len() < 1 + bytes[0] {
            self.refuse("invalid crypto frame"@)
        } else if bytes.subrange(1, 1 + bytes[0]) != PROTOCOL_ID@ {
            self.refuse("unsupported protocol id"@)
        } else {
            Reading {
                session: SessionView { duplex: absorb_state(self.duplex, PROTOCOL_ID@), ..self },
                outcome: Ok(bytes.skip(1 + bytes[0])),
            }
        }
    }

    /// A server reads its client's ephemeral key, binds in its own static key and the exchange of
    /// the two, and turns to a keyed duplex.
    pub open spec fn read_ephemeral(self, bytes: Seq<u8>) -> Reading {
        let e = bytes.take(32);
        let seen = absorb_state(self.duplex, e);
        let hashed = absorb_state(absorb_state(seen, self.s.public), self.s.exchange(e));
        if bytes.len() < 32 {
            self.refuse("invalid crypto frame"@)
        } else if !public_key_valid(e) {
            SessionView { duplex: seen, ..self }.refuse("invalid ephemeral public key"@)
        } else {
            Reading {
                session: SessionView {
                    duplex: keyed_state(squeezed(hashed, 32)),
                    remote_e: Some(e),
                    ..self
                },
                outcome: Ok(bytes.skip(32)),
            }
        }
    }

    /// A server reads its client's static key and binds in the exchange of the static keys and
    /// the shared key.
    pub open spec fn read_static(self, bytes: Seq<u8>) -> Reading {
        let s = decrypted(self.duplex, bytes.take(32));
        let seen = after_decrypt(self.duplex, bytes.take(32));
        if bytes.len() < 32 {
            self.refuse("invalid crypto frame"@)
        } else if !public_key_valid(s) {
            SessionView { duplex: seen, ..self }.refuse("invalid static public key"@)
        } else {
            Reading {
                session: SessionView {
                    duplex: absorb_state(absorb_state(seen, self.s.exchange(s)), self.psk),
                    remote_s: Some(s),
                    ..self
                },
                outcome: Ok(bytes.skip(32)),
            }
        }
    }

    /// A server reads the application protocol and accepts it if it is one that it offers.
    pub open spec fn read_alpn(self, bytes: Seq<u8>) -> Reading {
        let cipher = bytes.subrange(1, 1 + bytes[0]);
        let alpn = decrypted(self.duplex, cipher);
        let seen = SessionView { duplex: after_decrypt(self.duplex, cipher), ..self };
        if bytes.len() == 0 || bytes.len() < 1 + bytes[0] {
            self.refuse("invalid crypto frame"@)
        } else if !self.supports(alpn) {
            seen.refuse("unsupported alpn"@)
        } else {
            Reading {
                session: SessionView { alpn: Some(alpn), ..seen },
                outcome: Ok(bytes.skip(1 + bytes[0])),
            }
        }
    }

    /// A client reads its server's ephemeral key and binds in the exchanges of that key with both
    /// of its own.
    pub open spec fn read_encrypted_ephemeral(self, bytes: Seq<u8>) -> Reading {
        let e = decrypted(self.duplex, bytes.take(32));
        let seen = after_decrypt(self.duplex, bytes.take(32));
        if bytes.len() < 32 {
            self.refuse("invalid crypto frame"@)
        } else if !public_key_valid(e) {
            SessionView { duplex: seen, ..self }.refuse("invalid ephemeral public key"@)
        } else {
            Reading {
                session: SessionView {
                    duplex: absorb_state(
                        absorb_state(seen, self.e.exchange(e)),
                        self.s.exchange(e),
                    ),
                    remote_e: Some(e),
                    ..self
                },
                outcome: Ok(bytes.skip(32)),
            }
        }
    }

    /// A server reads the first message as far as its client's keys go.
    pub open spec fn read_keys(self, bytes: Seq<u8>) -> Reading {
        self.read_protocol_id(bytes).followed_by(
            |session: SessionView, rest: Seq<u8>| session.read_ephemeral(rest),
        ).followed_by(|session: SessionView, rest: Seq<u8>| session.read_static(rest))
    }

    /// A server reads the first message as far as the transport parameters.
    pub open spec fn read_to_parameters(self, bytes: Seq<u8>) -> Reading {
        self.read_keys(bytes).followed_by(
            |session: SessionView, rest: Seq<u8>| session.read_alpn(rest),
        )
    }

    /// Whether this server gets to the tag of a first message and finds it in order: the message
    /// ends in what the server squeezes behind the transport parameters.
    pub open spec fn finds_tag(self, bytes: Seq<u8>) -> bool {
        let reading = self.read_to_parameters(bytes);
        reading.outcome matches Ok(rest) && rest.len() >= 16 && squeezed(
            after_decrypt(reading.session.duplex, rest.take(rest.len() - 16)),
            16,
        ) == rest.skip(rest.len() - 16)
    }

    /// Whether this server gets as far as the application protocol that a message names: what comes
    /// before it is in order, and the name is there.
    pub open spec fn reaches_alpn(self, bytes: Seq<u8>) -> bool {
        self.read_keys(bytes).outcome matches Ok(rest) && rest.len() > 0 && rest.len() >= 1
            + rest[0]
    }

    /// Whether `read_handshake` can read the message: a server that gets to an application
    /// protocol has to have a list of those that it offers.
    pub open spec fn can_read(self, bytes: Seq<u8>) -> bool {
        self.state is Initial && self.side is Server && self.supported_protocols is None
            ==> !self.reaches_alpn(bytes)
    }

    /// Either side reads the sealed transport parameters that end a message; if all is well, the
    /// session is in the state `next`.
    pub open spec fn read_parameters(self, bytes: Seq<u8>, next: State) -> Reading {
        let cipher = bytes.take(bytes.len() - 16);
        let tag = bytes.skip(bytes.len() - 16);
        let opened = after_decrypt(self.duplex, cipher);
        let seen = SessionView { duplex: after_squeeze(opened, 16), ..self };
        if bytes.len() < 16 {
            self.refuse("invalid crypto frame"@)
        } else if tag != squeezed(opened, 16) {
            seen.refuse("invalid authentication tag"@)
        } else {
            match parameters_outcome(self.side, decrypted(self.duplex, cipher)) {
                Err(error) => Reading { session: seen, outcome: Err(error) },
                Ok(parameters) => Reading {
                    session: SessionView {
                        remote_transport_parameters: Some(parameters),
                        state: next,
                        ..seen
                    },
                    outcome: Ok(seq![]),
                },
            }
        }
    }

    /// A server reads the first message.
    pub open spec fn read_client_hello(self, bytes: Seq<u8>) -> Reading {
        self.read_to_parameters(bytes).followed_by(
            |session: SessionView, rest: Seq<u8>| session.read_parameters(rest, State::ZeroRtt),
        )
    }

    /// A client reads the second message.
    pub open spec fn read_server_hello(self, bytes: Seq<u8>) -> Reading {
        self.read_encrypted_ephemeral(bytes).followed_by(
            |session: SessionView, rest: Seq<u8>| session.read_parameters(rest, State::OneRtt),
        )
    }

    /// What `read_handshake` does where it can read. A message is read in full or refused; one
    /// that does not fit the state is refused and changes nothing.
    pub open spec fn read(self, bytes: Seq<u8>) -> Reading {
        match (self.state, self.side) {
            (State::Initial, Side::Server) => self.read_client_hello(bytes),
            (State::Handshake, Side::Client) => self.read_server_hello(bytes),
            _ => self.refuse("unexpected crypto frame"@),
        }
    }
}

/// Reading keeps a session well-formed, given that the duplex is keyed where it has to be: after a
/// message was read in full, where it was keyed before, and where a server took its client's
/// ephemeral key.
pub(crate) proof fn lemma_read_keeps_wf(session: SessionView, bytes: Seq<u8>)
    requires
        session.wf(),
        ({
            let reading = session.read(bytes);
            ||| is_keyed(reading.session.duplex)
            ||| {
                &&& reading.outcome is Err
                &&& !is_keyed(session.duplex)
                &&& reading.session.remote_e == session.remote_e
            }
        }),
    ensures
        session.read(bytes).session.wf(),
{
    match (session.state, session.side) {
        (State::Initial, Side::Server) => {
            let id = session.read_protocol_id(bytes);
            let ephemeral = id.session.read_ephemeral(id.outcome->Ok_0);
            let fixed = ephemeral.session.read_static(ephemeral.outcome->Ok_0);
            let alpn = fixed.session.read_alpn(fixed.outcome->Ok_0);
            assert(id.session.remote_s == session.remote_s);
            assert(ephemeral.session.remote_s == session.remote_s);
            assert(fixed.outcome is Ok ==> fixed.session.remote_s->0.len() == 32);
            assert(alpn.session.remote_s == fixed.session.remote_s);
        },
        _ => {},
    }
}

} // verus!
