//! Two sessions that talk to each other: when one understands the other, and what both then share.

use vstd::prelude::*;

use crate::duplex::{absorb_state, after_encrypt, decrypt_inverts, decrypted, encrypted, squeezed};
use crate::error::{refused, ErrorView};
use crate::keys::{exchange_symmetric, public_key_valid};
use crate::model::{
    after_sealed_parameters, sealed_parameters, Reading, SessionView, State, PROTOCOL_ID,
};
use crate::params::{is_written, parameters_outcome};
use crate::side::Side;

verus! {

impl SessionView {
    /// Whether this client's first message is for `server`: both start from the same duplex, the
    /// client knows the server's static key and names an application protocol, and the key pairs
    /// that are used are sound.
    pub open spec fn calls(self, server: SessionView) -> bool {
        &&& self.side is Client
        &&& self.state is Initial
        &&& server.side is Server
        &&& server.state is Initial
        &&& self.duplex == server.duplex
        &&& self.e.matched()
        &&& self.s.matched()
        &&& server.s.matched()
        &&& self.remote_s == Some(server.s.public)
        &&& self.alpn is Some
    }

    /// Whether this client's first message is for `server`, and the length of the application
    /// protocol's name fits its length byte.
    pub open spec fn addresses(self, server: SessionView) -> bool {
        &&& self.calls(server)
        &&& self.alpn->0.len() <= 255
    }

    /// Whether this client is about to greet `server`: its message is for the server, both have
    /// the same shared key, and the server offers the client's application protocol and may
    /// receive its transport parameters.
    pub open spec fn greets(self, server: SessionView) -> bool {
        &&& self.addresses(server)
        &&& self.psk == server.psk
        &&& server.supports(self.alpn->0)
        &&& parameters_outcome(Side::Server, self.transport_parameters) is Ok
    }

    /// Whether this client asks `server` for an application protocol that the server does not
    /// offer; the shared key is the same.
    pub open spec fn asks_in_vain(self, server: SessionView) -> bool {
        &&& self.addresses(server)
        &&& self.psk == server.psk
        &&& server.supported_protocols matches Some(protocols) ==> !protocols.contains(self.alpn->0)
    }

    /// Whether this client does not have the shared key of `server`, and the tags of the two do
    /// not collide: the client's message does not happen to end in the tag that the server
    /// squeezes over it with another key.
    pub open spec fn is_stranger_to(self, server: SessionView) -> bool {
        &&& self.calls(server)
        &&& self.psk != server.psk
        &&& !server.finds_tag(self.client_hello())
    }

    /// This server after it read the first message of `client`: it is where the client is, and
    /// knows the client's keys, application protocol and transport parameters.
    pub open spec fn greeted_by(self, client: SessionView) -> SessionView {
        SessionView {
            duplex: client.after_client_hello().duplex,
            state: State::ZeroRtt,
            alpn: client.alpn,
            remote_transport_parameters: Some(
                parameters_outcome(Side::Server, client.transport_parameters)->Ok_0,
            ),
            remote_e: Some(client.e.public),
            remote_s: Some(client.s.public),
            ..self
        }
    }

    /// Whether this server is about to answer `client`: both are in the same duplex, the server
    /// knows the client's keys, the client may receive its transport parameters, and the key pairs
    /// that are used are sound.
    pub open spec fn answers(self, client: SessionView) -> bool {
        &&& self.side is Server
        &&& self.state is Handshake
        &&& client.side is Client
        &&& client.state is Handshake
        &&& self.duplex == client.duplex
        &&& self.e.matched()
        &&& client.e.matched()
        &&& client.s.matched()
        &&& self.remote_e == Some(client.e.public)
        &&& self.remote_s == Some(client.s.public)
        &&& parameters_outcome(Side::Client, self.transport_parameters) is Ok
    }

    /// This client after it read the second message of `server`: it is where the server is after
    /// it sent the message, and knows the server's ephemeral key and transport parameters.
    pub open spec fn answered_by(self, server: SessionView) -> SessionView {
        SessionView {
            duplex: server.after_server_hello().duplex,
            state: State::OneRtt,
            remote_transport_parameters: Some(
                parameters_outcome(Side::Client, server.transport_parameters)->Ok_0,
            ),
            remote_e: Some(server.e.public),
            ..self
        }
    }

    /// The exchange with the ephemeral key at the front of `bytes` is symmetric.
    pub open spec fn ephemeral_sound(self, bytes: Seq<u8>) -> bool {
        bytes.len() >= 32 && public_key_valid(bytes.take(32)) ==> exchange_symmetric(
            self.s.secret,
            bytes.take(32),
        )
    }

    /// Decrypting the static key at the front of `bytes` undoes its encryption, and the exchange
    /// with it is symmetric.
    pub open spec fn static_sound(self, bytes: Seq<u8>) -> bool {
        let s = decrypted(self.duplex, bytes.take(32));
        bytes.len() >= 32 ==> {
            &&& decrypt_inverts(self.duplex, bytes.take(32))
            &&& public_key_valid(s) ==> exchange_symmetric(self.s.secret, s)
        }
    }

    /// Decrypting the application protocol at the front of `bytes` undoes its encryption.
    pub open spec fn alpn_sound(self, bytes: Seq<u8>) -> bool {
        bytes.len() > 0 && bytes.len() >= 1 + bytes[0] ==> decrypt_inverts(
            self.duplex,
            bytes.subrange(1, 1 + bytes[0]),
        )
    }

    /// Decrypting the server's ephemeral key at the front of `bytes` undoes its encryption, and
    /// the exchanges with it are symmetric.
    pub open spec fn encrypted_ephemeral_sound(self, bytes: Seq<u8>) -> bool {
        let e = decrypted(self.duplex, bytes.take(32));
        bytes.len() >= 32 ==> {
            &&& decrypt_inverts(self.duplex, bytes.take(32))
            &&& public_key_valid(e) ==> exchange_symmetric(self.e.secret, e) && exchange_symmetric(
                self.s.secret,
                e,
            )
        }
    }

    /// Decrypting the transport parameters in `bytes` undoes their encryption, and if they are
    /// accepted in the form in which parameters are written, they are the ones that were written.
    pub open spec fn parameters_sound(self, bytes: Seq<u8>) -> bool {
        let plain = decrypted(self.duplex, bytes.take(bytes.len() - 16));
        bytes.len() >= 16 ==> {
            &&& decrypt_inverts(self.duplex, bytes.take(bytes.len() - 16))
            &&& self.read_parameters(bytes, State::Data).outcome is Ok && is_written(plain)
                ==> parameters_outcome(self.side, plain)->Ok_0 == plain
        }
    }

    /// Every part of the first message that this server gets to is read soundly.
    pub open spec fn client_hello_sound(self, bytes: Seq<u8>) -> bool {
        let id = self.read_protocol_id(bytes);
        let ephemeral = id.session.read_ephemeral(id.outcome->Ok_0);
        let fixed = ephemeral.session.read_static(ephemeral.outcome->Ok_0);
        let alpn = fixed.session.read_alpn(fixed.outcome->Ok_0);
        id.outcome is Ok ==> {
            &&& id.session.ephemeral_sound(id.outcome->Ok_0)
            &&& ephemeral.outcome is Ok ==> {
                &&& ephemeral.session.static_sound(ephemeral.outcome->Ok_0)
                &&& fixed.outcome is Ok ==> {
                    &&& fixed.session.alpn_sound(fixed.outcome->Ok_0)
                    &&& alpn.outcome is Ok ==> alpn.session.parameters_sound(alpn.outcome->Ok_0)
                }
            }
        }
    }

    /// Every part of the second message that this client gets to is read soundly.
    pub open spec fn server_hello_sound(self, bytes: Seq<u8>) -> bool {
        let ephemeral = self.read_encrypted_ephemeral(bytes);
        &&& self.encrypted_ephemeral_sound(bytes)
        &&& ephemeral.outcome is Ok ==> ephemeral.session.parameters_sound(
            ephemeral.outcome->Ok_0,
        )
    }
}

/// Sealed transport parameters are read by whoever is in the duplex that sealed them.
proof fn lemma_reads_sealed_parameters(reader: SessionView, parameters: Seq<u8>, next: State)
    requires
        reader.parameters_sound(sealed_parameters(reader.duplex, parameters)),
        parameters_outcome(reader.side, parameters) is Ok,
    ensures
        reader.read_parameters(sealed_parameters(reader.duplex, parameters), next) == (Reading {
            session: SessionView {
                duplex: after_sealed_parameters(reader.duplex, parameters),
                remote_transport_parameters: Some(
                    parameters_outcome(reader.side, parameters)->Ok_0,
                ),
                state: next,
                ..reader
            },
            outcome: Ok(seq![]),
        }),
        is_written(parameters) ==> parameters_outcome(reader.side, parameters)->Ok_0 == parameters,
{
    let bytes = sealed_parameters(reader.duplex, parameters);
    let cipher = encrypted(reader.duplex, parameters);
    let tag = squeezed(after_encrypt(reader.duplex, parameters), 16);
    assert(bytes.take(bytes.len() - 16) =~= cipher);
    assert(bytes.skip(bytes.len() - 16) =~= tag);
}

/// What a client's message holds behind its keys: its application protocol and its transport
/// parameters.
spec fn behind_keys(client: SessionView) -> Seq<u8> {
    let alpn = client.alpn->0;
    let named = after_encrypt(client.client_hello_bound(), alpn);
    seq![(alpn.len() % 256) as u8] + encrypted(client.client_hello_bound(), alpn)
        + sealed_parameters(named, client.transport_parameters)
}

/// A server reads the keys of the client whose message is for it, and binds in its own shared key.
proof fn lemma_reads_client_keys(client: SessionView, server: SessionView)
    requires
        client.calls(server),
        server.client_hello_sound(client.client_hello()),
    ensures
        server.read_keys(client.client_hello()) == (Reading {
            session: SessionView {
                duplex: absorb_state(
                    absorb_state(
                        after_encrypt(client.client_hello_keyed(), client.s.public),
                        client.s.exchange(server.s.public),
                    ),
                    server.psk,
                ),
                remote_e: Some(client.e.public),
                remote_s: Some(client.s.public),
                ..server
            },
            outcome: Ok(behind_keys(client)),
        }),
{
    let alpn_part = behind_keys(client);
    let static_cipher = encrypted(client.client_hello_keyed(), client.s.public);
    let static_part = static_cipher + alpn_part;
    let ephemeral_part = client.e.public + static_part;
    let hello = client.client_hello();

    assert(hello =~= seq![33u8] + PROTOCOL_ID@ + ephemeral_part);
    assert(hello.subrange(1, 1 + hello[0]) =~= PROTOCOL_ID@);
    assert(hello.skip(1 + hello[0]) =~= ephemeral_part);
    let id = server.read_protocol_id(hello);
    assert(id.outcome->Ok_0 == ephemeral_part);

    assert(ephemeral_part.take(32) =~= client.e.public);
    assert(ephemeral_part.skip(32) =~= static_part);
    let ephemeral = id.session.read_ephemeral(ephemeral_part);
    assert(server.s.exchange(client.e.public) == client.e.exchange(server.s.public));
    assert(ephemeral.session.duplex == client.client_hello_keyed());
    assert(ephemeral.outcome->Ok_0 == static_part);

    assert(static_part.take(32) =~= static_cipher);
    assert(static_part.skip(32) =~= alpn_part);
    assert(decrypted(ephemeral.session.duplex, static_cipher) == client.s.public);
    assert(server.s.exchange(client.s.public) == client.s.exchange(server.s.public));
}

/// A server finds the name of an application protocol and the sealed transport parameters behind
/// a client's keys.
proof fn lemma_splits_behind_keys(client: SessionView)
    requires
        client.alpn is Some,
        client.alpn->0.len() <= 255,
    ensures
        ({
            let alpn = client.alpn->0;
            let bytes = behind_keys(client);
            let named = after_encrypt(client.client_hello_bound(), alpn);
            &&& bytes.len() >= 1 + bytes[0]
            &&& bytes.subrange(1, 1 + bytes[0]) == encrypted(client.client_hello_bound(), alpn)
            &&& bytes.skip(1 + bytes[0]) == sealed_parameters(named, client.transport_parameters)
        }),
{
    let alpn = client.alpn->0;
    let bytes = behind_keys(client);
    let named = after_encrypt(client.client_hello_bound(), alpn);
    assert(bytes[0] == alpn.len());
    assert(bytes.subrange(1, 1 + bytes[0]) =~= encrypted(client.client_hello_bound(), alpn));
    assert(bytes.skip(1 + bytes[0]) =~= sealed_parameters(named, client.transport_parameters));
}

/// A server understands the client that greets it.
proof fn lemma_reads_client_hello(client: SessionView, server: SessionView)
    requires
        client.greets(server),
        server.client_hello_sound(client.client_hello()),
    ensures
        server.read(client.client_hello()) == (Reading {
            session: server.greeted_by(client),
            outcome: Ok(seq![]),
        }),
        is_written(client.transport_parameters) ==> parameters_outcome(
            Side::Server,
            client.transport_parameters,
        )->Ok_0 == client.transport_parameters,
{
    let alpn = client.alpn->0;
    lemma_reads_client_keys(client, server);
    lemma_splits_behind_keys(client);
    let keys = server.read_keys(client.client_hello());
    assert(keys.session.duplex == client.client_hello_bound());
    let accepted = keys.session.read_alpn(behind_keys(client));
    assert(decrypted(keys.session.duplex, encrypted(client.client_hello_bound(), alpn)) == alpn);
    assert(keys.session.supports(alpn));
    lemma_reads_sealed_parameters(accepted.session, client.transport_parameters, State::ZeroRtt);
}

/// A server refuses the client that asks it for an application protocol which it does not offer.
pub(crate) proof fn lemma_refuses_protocol(client: SessionView, server: SessionView)
    requires
        client.asks_in_vain(server),
        server.client_hello_sound(client.client_hello()),
    ensures
        server.read(client.client_hello()).outcome == Err::<Seq<u8>, ErrorView>(
            refused("unsupported alpn"@),
        ),
        server.read(client.client_hello()).session.state is Initial,
        server.read(client.client_hello()).session.alpn == server.alpn,
        server.read(client.client_hello()).session.remote_transport_parameters
            == server.remote_transport_parameters,
{
    let alpn = client.alpn->0;
    lemma_reads_client_keys(client, server);
    lemma_splits_behind_keys(client);
    let keys = server.read_keys(client.client_hello());
    assert(keys.session.duplex == client.client_hello_bound());
    assert(decrypted(keys.session.duplex, encrypted(client.client_hello_bound(), alpn)) == alpn);
    assert(!keys.session.supports(alpn));
}

/// A server refuses the client that does not have its shared key.
pub(crate) proof fn lemma_refuses_stranger(client: SessionView, server: SessionView)
    requires
        client.is_stranger_to(server),
        server.client_hello_sound(client.client_hello()),
    ensures
        ({
            let outcome = server.read(client.client_hello()).outcome;
            ||| outcome == Err::<Seq<u8>, ErrorView>(refused("unsupported alpn"@))
            ||| outcome == Err::<Seq<u8>, ErrorView>(refused("invalid authentication tag"@))
        }),
        server.read(client.client_hello()).session.state is Initial,
        server.read(client.client_hello()).session.remote_transport_parameters
            == server.remote_transport_parameters,
{
    lemma_reads_client_keys(client, server);
    let bytes = behind_keys(client);
    assert(bytes.len() >= 1 + bytes[0] + 16);
}

/// A client understands the server that answers it.
proof fn lemma_reads_server_hello(client: SessionView, server: SessionView)
    requires
        server.answers(client),
        client.server_hello_sound(server.server_hello()),
    ensures
        client.read(server.server_hello()) == (Reading {
            session: client.answered_by(server),
            outcome: Ok(seq![]),
        }),
        is_written(server.transport_parameters) ==> parameters_outcome(
            Side::Client,
            server.transport_parameters,
        )->Ok_0 == server.transport_parameters,
{
    let cipher = encrypted(server.duplex, server.e.public);
    let sealed = sealed_parameters(server.server_hello_bound(), server.transport_parameters);
    let hello = server.server_hello();
    assert(hello.take(32) =~= cipher);
    assert(hello.skip(32) =~= sealed);
    assert(decrypted(client.duplex, cipher) == server.e.public);
    assert(client.e.exchange(server.e.public) == server.e.exchange(client.e.public));
    assert(client.s.exchange(server.e.public) == server.e.exchange(client.s.public));
    let ephemeral = client.read_encrypted_ephemeral(hello);
    assert(ephemeral.session.duplex == server.server_hello_bound());
    lemma_reads_sealed_parameters(ephemeral.session, server.transport_parameters, State::OneRtt);
}

/// What comes of the messages of the peers that a session may meet.
pub(crate) proof fn lemma_reads_peers(session: SessionView, bytes: Seq<u8>)
    requires
        session.state is Initial && session.side is Server ==> session.client_hello_sound(bytes),
        session.state is Handshake && session.side is Client ==> session.server_hello_sound(bytes),
    ensures
        forall|client: SessionView| #[trigger]
            client.greets(session) && bytes == client.client_hello() ==> {
                &&& session.read(bytes) == (Reading {
                    session: session.greeted_by(client),
                    outcome: Ok(seq![]),
                })
                &&& is_written(client.transport_parameters)
                    ==> session.read(bytes).session.remote_transport_parameters == Some(
                    client.transport_parameters,
                )
            },
        forall|server: SessionView| #[trigger]
            server.answers(session) && bytes == server.server_hello() ==> {
                &&& session.read(bytes) == (Reading {
                    session: session.answered_by(server),
                    outcome: Ok(seq![]),
                })
                &&& is_written(server.transport_parameters)
                    ==> session.read(bytes).session.remote_transport_parameters == Some(
                    server.transport_parameters,
                )
            },
        forall|client: SessionView| #[trigger]
            client.asks_in_vain(session) && bytes == client.client_hello() ==> {
                let reading = session.read(bytes);
                &&& reading.outcome == Err::<Seq<u8>, ErrorView>(refused("unsupported alpn"@))
                &&& reading.session.state is Initial
                &&& reading.session.alpn == session.alpn
                &&& reading.session.remote_transport_parameters
                    == session.remote_transport_parameters
            },
        forall|client: SessionView| #[trigger]
            client.is_stranger_to(session) && bytes == client.client_hello() ==> {
                let reading = session.read(bytes);
                &&& reading.outcome == Err::<Seq<u8>, ErrorView>(refused("unsupported alpn"@))
                    || reading.outcome == Err::<Seq<u8>, ErrorView>(
                    refused("invalid authentication tag"@),
                )
                &&& reading.session.state is Initial
                &&& reading.session.remote_transport_parameters
                    == session.remote_transport_parameters
            },
{
    assert forall|client: SessionView| #[trigger]
        client.greets(session) && bytes == client.client_hello() implies {
        &&& session.read(bytes) == (Reading {
            session: session.greeted_by(client),
            outcome: Ok(seq![]),
        })
        &&& is_written(client.transport_parameters)
            ==> session.read(bytes).session.remote_transport_parameters == Some(
            client.transport_parameters,
        )
    } by {
        lemma_reads_client_hello(client, session);
    }
    assert forall|server: SessionView| #[trigger]
        server.answers(session) && bytes == server.server_hello() implies {
        &&& session.read(bytes) == (Reading {
            session: session.answered_by(server),
            outcome: Ok(seq![]),
        })
        &&& is_written(server.transport_parameters)
            ==> session.read(bytes).session.remote_transport_parameters == Some(
            server.transport_parameters,
        )
    } by {
        lemma_reads_server_hello(session, server);
    }
    assert forall|client: SessionView| #[trigger]
        client.asks_in_vain(session) && bytes == client.client_hello() implies {
        let reading = session.read(bytes);
        &&& reading.outcome == Err::<Seq<u8>, ErrorView>(refused("unsupported alpn"@))
        &&& reading.session.state is Initial
        &&& reading.session.alpn == session.alpn
        &&& reading.session.remote_transport_parameters == session.remote_transport_parameters
    } by {
        lemma_refuses_protocol(client, session);
    }
    assert forall|client: SessionView| #[trigger]
        client.is_stranger_to(session) && bytes == client.client_hello() implies {
        let reading = session.read(bytes);
        &&& reading.outcome == Err::<Seq<u8>, ErrorView>(refused("unsupported alpn"@))
            || reading.outcome == Err::<Seq<u8>, ErrorView>(refused("invalid authentication tag"@))
        &&& reading.session.state is Initial
        &&& reading.session.remote_transport_parameters == session.remote_transport_parameters
    } by {
        lemma_refuses_stranger(client, session);
    }
}

} // verus!
