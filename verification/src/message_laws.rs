//! Laws of the handshake messages, of the keys and of exported keying material, byte by byte.

use vstd::prelude::*;

use crate::duplex::{
    absorb_state, after_decrypt, after_encrypt, after_squeeze, after_squeeze_key, decrypt_output,
    decrypted, encrypt_output, encrypted, keyed_state, ratchet_state, squeeze_key_output,
    squeeze_output, squeezed, squeezed_key,
};
use crate::error::{ErrorView, TransportErrorCode};
use crate::keylog::KeyLogView;
use crate::keys::{public_key_of, public_key_valid, shared_secret, KeypairView};
use crate::model::{Reading, SessionView, State, PROTOCOL_ID};
use crate::params::parameters_outcome;
use crate::side::Side;

verus! {

/// What is squeezed, encrypted or decrypted has the length that was asked for, and every byte of
/// it is the byte that Xoodyak gives; the duplex goes on in the state that Xoodyak leaves.
pub proof fn law_duplex_bytes(state: Seq<u8>, bytes: Seq<u8>, len: nat)
    ensures
        squeezed(state, len).len() == len,
        forall|i: int| 0 <= i < len ==> squeezed(state, len)[i] == squeeze_output(state, len).0[i],
        after_squeeze(state, len) == squeeze_output(state, len).1,
        squeezed_key(state, len).len() == len,
        forall|i: int|
            0 <= i < len ==> squeezed_key(state, len)[i] == squeeze_key_output(state, len).0[i],
        after_squeeze_key(state, len) == squeeze_key_output(state, len).1,
        encrypted(state, bytes).len() == bytes.len(),
        forall|i: int|
            0 <= i < bytes.len() ==> encrypted(state, bytes)[i] == encrypt_output(
                state,
                bytes,
            ).0[i],
        after_encrypt(state, bytes) == encrypt_output(state, bytes).1,
        decrypted(state, bytes).len() == bytes.len(),
        forall|i: int|
            0 <= i < bytes.len() ==> decrypted(state, bytes)[i] == decrypt_output(
                state,
                bytes,
            ).0[i],
        after_decrypt(state, bytes) == decrypt_output(state, bytes).1,
{
}

/// An exchange is that of the secret half with the other's public key, and a key pair is matched
/// exactly if it is a secret of 32 bytes with the valid public key that belongs to it.
pub proof fn law_exchange(keypair: KeypairView, public: Seq<u8>)
    ensures
        keypair.exchange(public) == shared_secret(keypair.secret, public),
        keypair.matched() <==> keypair.secret.len() == 32 && keypair.public.len() == 32
            && public_key_valid(keypair.public) && keypair.public == public_key_of(keypair.secret),
{
}

/// A connection is named by its client's ephemeral key on both sides, and the handshake lasts
/// until the data phase.
pub proof fn law_session_facts(session: SessionView)
    ensures
        session.side is Client ==> session.conn_id() == Some(session.e.public),
        session.side is Server ==> session.conn_id() == session.remote_e,
        session.is_handshaking() <==> session.state != State::Data,
{
}

/// A server offers exactly the application protocols that are in its list, compared as a whole.
pub proof fn law_offers_what_is_listed(server: SessionView, alpn: Seq<u8>)
    ensures
        server.supported_protocols is None ==> !server.supports(alpn),
        server.supported_protocols matches Some(protocols) ==> (server.supports(alpn) <==> exists|
            i: int,
        |
            0 <= i < protocols.len() && #[trigger] protocols[i] == alpn),
{
}

/// The next keys are 32 bytes for the client and then 32 bytes for the server, drawn as keys from
/// the duplex, which is ratcheted before if the handshake is over. A client encrypts with the
/// first and a server with the second. Nothing but the duplex and the key log changes, and a key
/// log that is kept goes on with both keys under the name of the connection.
pub proof fn law_next_keys(session: SessionView)
    ensures
        ({
            let source = if session.state == State::Data {
                ratchet_state(session.duplex)
            } else {
                session.duplex
            };
            let client = squeezed_key(source, 32);
            let server = squeezed_key(after_squeeze_key(source, 32), 32);
            let keys = session.next_keys();
            let after = session.after_next_keys();
            &&& session.side is Client ==> keys.local == client && keys.remote == server
            &&& session.side is Server ==> keys.local == server && keys.remote == client
            &&& after == (SessionView {
                duplex: after_squeeze_key(after_squeeze_key(source, 32), 32),
                key_log: after.key_log,
                ..session
            })
            &&& after.key_log is Some <==> session.key_log is Some
            &&& session.key_log matches Some(entries) ==> {
                let id = if session.side is Client {
                    session.e.public
                } else {
                    session.remote_e->0
                };
                let all = after.key_log->0;
                let n = entries.len() as int;
                &&& all.len() == n + 2
                &&& all.take(n) == entries
                &&& all[n] == (KeyLogView { label: "CLIENT_KEY"@, conn_id: id, secret: client })
                &&& all[n + 1] == (KeyLogView { label: "SERVER_KEY"@, conn_id: id, secret: server })
            }
        }),
{
    match session.key_log {
        Some(entries) => {
            assert(session.after_next_keys().key_log->0.take(entries.len() as int) =~= entries);
        },
        None => {},
    }
}

/// Exported keying material has the length that was asked for, and every byte of it is the byte
/// that Xoodyak squeezes as a key of that length after the label and then the context.
pub proof fn law_exported_bytes(
    session: SessionView,
    label: Seq<u8>,
    context: Seq<u8>,
    len: nat,
)
    ensures
        session.keying_material(label, context, len).len() == len,
        forall|i: int|
            0 <= i < len ==> session.keying_material(label, context, len)[i] == squeeze_key_output(
                absorb_state(absorb_state(session.duplex, label), context),
                len,
            ).0[i],
{
}

/// The first message, as a client writes it: the protocol identifier behind its length, the
/// ephemeral key, the encrypted static key, the encrypted application protocol behind the low byte
/// of its length, the encrypted transport parameters and the tag. The identifier, the ephemeral
/// key, the server's static key and their exchange make the key; the exchange of the static keys
/// and the whole shared key are bound in before the application protocol.
pub proof fn law_client_writes_first_message(client: SessionView)
    requires
        client.side is Client,
        client.state is Initial,
        client.remote_s is Some,
        client.alpn is Some,
    ensures
        ({
            let server_s = client.remote_s->0;
            let alpn = client.alpn->0;
            let id = absorb_state(client.duplex, PROTOCOL_ID@);
            let keys = absorb_state(absorb_state(id, client.e.public), server_s);
            let es = shared_secret(client.e.secret, server_s);
            let ss = shared_secret(client.s.secret, server_s);
            let keyed = keyed_state(squeezed(absorb_state(keys, es), 32));
            let fixed = after_encrypt(keyed, client.s.public);
            let bound = absorb_state(absorb_state(fixed, ss), client.psk);
            let named = after_encrypt(bound, alpn);
            let sent = after_encrypt(named, client.transport_parameters);
            &&& client.write().keys is None
            &&& client.write().session == (SessionView {
                duplex: after_squeeze(sent, 16),
                state: State::ZeroRtt,
                ..client
            })
            &&& client.write().bytes == seq![33u8] + PROTOCOL_ID@ + client.e.public + encrypted(
                keyed,
                client.s.public,
            ) + seq![(alpn.len() % 256) as u8] + encrypted(bound, alpn) + encrypted(
                named,
                client.transport_parameters,
            ) + squeezed(sent, 16)
        }),
{
    let hello = client.client_hello();
    let alpn = client.alpn->0;
    let named = after_encrypt(client.client_hello_bound(), alpn);
    assert(hello =~= seq![33u8] + PROTOCOL_ID@ + client.e.public + encrypted(
        client.client_hello_keyed(),
        client.s.public,
    ) + seq![(alpn.len() % 256) as u8] + encrypted(client.client_hello_bound(), alpn) + encrypted(
        named,
        client.transport_parameters,
    ) + squeezed(after_encrypt(named, client.transport_parameters), 16));
}

/// The second message, as a server writes it: the encrypted ephemeral key, the encrypted transport
/// parameters and the tag. The exchanges of the ephemeral key with the client's ephemeral and
/// static key are bound in before the parameters. The server then draws its keys and is done.
pub proof fn law_server_writes_second_message(server: SessionView)
    requires
        server.side is Server,
        server.state is Handshake,
        server.remote_e is Some,
        server.remote_s is Some,
    ensures
        ({
            let ee = shared_secret(server.e.secret, server.remote_e->0);
            let se = shared_secret(server.e.secret, server.remote_s->0);
            let keyed = after_encrypt(server.duplex, server.e.public);
            let bound = absorb_state(absorb_state(keyed, ee), se);
            let sent = after_encrypt(bound, server.transport_parameters);
            let tagged = SessionView { duplex: after_squeeze(sent, 16), ..server };
            &&& server.write().keys == Some(tagged.next_keys())
            &&& server.write().session == (SessionView {
                state: State::Data,
                ..tagged.after_next_keys()
            })
            &&& server.write().bytes == encrypted(server.duplex, server.e.public) + encrypted(
                bound,
                server.transport_parameters,
            ) + squeezed(sent, 16)
        }),
{
    let bound = server.server_hello_bound();
    assert(server.server_hello() =~= encrypted(server.duplex, server.e.public) + encrypted(
        bound,
        server.transport_parameters,
    ) + squeezed(after_encrypt(bound, server.transport_parameters), 16));
}

/// Whatever else is written: nothing but keys between the messages, of which the first pair is
/// kept for early data, and nothing at all where the peer has to speak or the handshake is over.
pub proof fn law_writes_between_messages(session: SessionView)
    ensures
        session.state is ZeroRtt ==> {
            &&& session.write().bytes.len() == 0
            &&& session.write().keys == Some(session.next_keys())
            &&& session.write().session == (SessionView {
                state: State::Handshake,
                zero_rtt_key: Some(session.next_keys().local),
                ..session.after_next_keys()
            })
        },
        session.state is OneRtt ==> {
            &&& session.write().bytes.len() == 0
            &&& session.write().keys == Some(session.next_keys())
            &&& session.write().session == (SessionView {
                state: State::Data,
                ..session.after_next_keys()
            })
        },
        session.state is Data || (session.state is Initial && session.side is Server) || (
        session.state is Handshake && session.side is Client) ==> {
            &&& session.write().bytes.len() == 0
            &&& session.write().keys is None
            &&& session.write().session == session
        },
{
}

/// The first message, as a server reads it, part by part at its place. Every message comes to one
/// of these ends, and the session keeps what was read up to there.
pub proof fn law_server_reads_first_message(server: SessionView, bytes: Seq<u8>)
    requires
        server.side is Server,
        server.state is Initial,
    ensures
        ({
            let refused = |reason: Seq<char>|
                Err::<Seq<u8>, ErrorView>(
                    ErrorView { code: TransportErrorCode::ConnectionRefused, frame: None, reason },
                );
            let reading = server.read(bytes);
            let len = bytes.len() as int;
            // The ephemeral key.
            let id = absorb_state(server.duplex, PROTOCOL_ID@);
            let e = bytes.subrange(34, 66);
            let es = shared_secret(server.s.secret, e);
            let keys = absorb_state(absorb_state(id, e), server.s.public);
            let keyed = keyed_state(squeezed(absorb_state(keys, es), 32));
            // The static key.
            let s = decrypted(keyed, bytes.subrange(66, 98));
            let fixed = after_decrypt(keyed, bytes.subrange(66, 98));
            let ss = shared_secret(server.s.secret, s);
            let bound = absorb_state(absorb_state(fixed, ss), server.psk);
            // The application protocol.
            let end = 99 + bytes[98];
            let alpn = decrypted(bound, bytes.subrange(99, end));
            let named = after_decrypt(bound, bytes.subrange(99, end));
            // The transport parameters and the tag.
            let plain = decrypted(named, bytes.subrange(end, len - 16));
            let opened = after_decrypt(named, bytes.subrange(end, len - 16));
            if len == 0 || len < 1 + bytes[0] {
                reading == (Reading {
                    session: server,
                    outcome: refused("invalid crypto frame"@),
                })
            } else if bytes.subrange(1, 1 + bytes[0]) != PROTOCOL_ID@ {
                reading == (Reading {
                    session: server,
                    outcome: refused("unsupported protocol id"@),
                })
            } else if len < 66 {
                reading == (Reading {
                    session: SessionView { duplex: id, ..server },
                    outcome: refused("invalid crypto frame"@),
                })
            } else if !public_key_valid(e) {
                reading == (Reading {
                    session: SessionView { duplex: absorb_state(id, e), ..server },
                    outcome: refused("invalid ephemeral public key"@),
                })
            } else if len < 98 {
                reading == (Reading {
                    session: SessionView { duplex: keyed, remote_e: Some(e), ..server },
                    outcome: refused("invalid crypto frame"@),
                })
            } else if !public_key_valid(s) {
                reading == (Reading {
                    session: SessionView { duplex: fixed, remote_e: Some(e), ..server },
                    outcome: refused("invalid static public key"@),
                })
            } else if len < 99 || len < end {
                reading == (Reading {
                    session: SessionView {
                        duplex: bound,
                        remote_e: Some(e),
                        remote_s: Some(s),
                        ..server
                    },
                    outcome: refused("invalid crypto frame"@),
                })
            } else if server.supported_protocols is None
                || !server.supported_protocols->0.contains(alpn) {
                reading == (Reading {
                    session: SessionView {
                        duplex: named,
                        remote_e: Some(e),
                        remote_s: Some(s),
                        ..server
                    },
                    outcome: refused("unsupported alpn"@),
                })
            } else if len < end + 16 {
                reading == (Reading {
                    session: SessionView {
                        duplex: named,
                        remote_e: Some(e),
                        remote_s: Some(s),
                        alpn: Some(alpn),
                        ..server
                    },
                    outcome: refused("invalid crypto frame"@),
                })
            } else {
                let seen = SessionView {
                    duplex: after_squeeze(opened, 16),
                    remote_e: Some(e),
                    remote_s: Some(s),
                    alpn: Some(alpn),
                    ..server
                };
                if bytes.skip(len - 16) != squeezed(opened, 16) {
                    reading == (Reading {
                        session: seen,
                        outcome: refused("invalid authentication tag"@),
                    })
                } else {
                    match parameters_outcome(Side::Server, plain) {
                        Err(error) => reading == (Reading { session: seen, outcome: Err(error) }),
                        Ok(parameters) => reading.outcome is Ok && reading.session == (SessionView {
                            state: State::ZeroRtt,
                            remote_transport_parameters: Some(parameters),
                            ..seen
                        }),
                    }
                }
            }
        }),
{
    let len = bytes.len() as int;
    if len > 0 && len >= 1 + bytes[0] && bytes.subrange(1, 1 + bytes[0]) == PROTOCOL_ID@ {
        assert(bytes.subrange(1, 1 + bytes[0]).len() == bytes[0]);
        let behind_id = server.read_protocol_id(bytes);
        let rest = bytes.skip(34);
        assert(behind_id.outcome == Ok::<Seq<u8>, ErrorView>(rest));
        if len >= 66 {
            assert(rest.take(32) =~= bytes.subrange(34, 66));
            assert(rest.skip(32) =~= bytes.skip(66));
            let behind_e = behind_id.session.read_ephemeral(rest);
            if public_key_valid(bytes.subrange(34, 66)) && len >= 98 {
                let rest = bytes.skip(66);
                assert(rest.take(32) =~= bytes.subrange(66, 98));
                assert(rest.skip(32) =~= bytes.skip(98));
                let behind_s = behind_e.session.read_static(rest);
                if behind_s.outcome is Ok && len >= 99 && len >= 99 + bytes[98] {
                    let rest = bytes.skip(98);
                    let end = 99 + bytes[98];
                    assert(rest[0] == bytes[98]);
                    assert(rest.subrange(1, 1 + rest[0]) =~= bytes.subrange(99, end));
                    assert(rest.skip(1 + rest[0]) =~= bytes.skip(end));
                    let behind_alpn = behind_s.session.read_alpn(rest);
                    if behind_alpn.outcome is Ok && len >= end + 16 {
                        let rest = bytes.skip(end);
                        assert(rest.take(rest.len() - 16) =~= bytes.subrange(end, len - 16));
                        assert(rest.skip(rest.len() - 16) =~= bytes.skip(len - 16));
                    }
                }
            }
        }
    }
}

/// The second message, as a client reads it, part by part at its place. Every message comes to one
/// of these ends, and the session keeps what was read up to there.
pub proof fn law_client_reads_second_message(client: SessionView, bytes: Seq<u8>)
    requires
        client.side is Client,
        client.state is Handshake,
    ensures
        ({
            let refused = |reason: Seq<char>|
                Err::<Seq<u8>, ErrorView>(
                    ErrorView { code: TransportErrorCode::ConnectionRefused, frame: None, reason },
                );
            let reading = client.read(bytes);
            let len = bytes.len() as int;
            let e = decrypted(client.duplex, bytes.subrange(0, 32));
            let keyed = after_decrypt(client.duplex, bytes.subrange(0, 32));
            let ee = shared_secret(client.e.secret, e);
            let se = shared_secret(client.s.secret, e);
            let bound = absorb_state(absorb_state(keyed, ee), se);
            let plain = decrypted(bound, bytes.subrange(32, len - 16));
            let opened = after_decrypt(bound, bytes.subrange(32, len - 16));
            if len < 32 {
                reading == (Reading {
                    session: client,
                    outcome: refused("invalid crypto frame"@),
                })
            } else if !public_key_valid(e) {
                reading == (Reading {
                    session: SessionView { duplex: keyed, ..client },
                    outcome: refused("invalid ephemeral public key"@),
                })
            } else if len < 48 {
                reading == (Reading {
                    session: SessionView { duplex: bound, remote_e: Some(e), ..client },
                    outcome: refused("invalid crypto frame"@),
                })
            } else {
                let seen = SessionView {
                    duplex: after_squeeze(opened, 16),
                    remote_e: Some(e),
                    ..client
                };
                if bytes.skip(len - 16) != squeezed(opened, 16) {
                    reading == (Reading {
                        session: seen,
                        outcome: refused("invalid authentication tag"@),
                    })
                } else {
                    match parameters_outcome(Side::Client, plain) {
                        Err(error) => reading == (Reading { session: seen, outcome: Err(error) }),
                        Ok(parameters) => reading.outcome is Ok && reading.session == (SessionView {
                            state: State::OneRtt,
                            remote_transport_parameters: Some(parameters),
                            ..seen
                        }),
                    }
                }
            }
        }),
{
    let len = bytes.len() as int;
    if len >= 32 {
        let rest = bytes.skip(32);
        assert(bytes.take(32) =~= bytes.subrange(0, 32));
        if len >= 48 {
            assert(rest.take(rest.len() - 16) =~= bytes.subrange(32, len - 16));
            assert(rest.skip(rest.len() - 16) =~= bytes.skip(len - 16));
        }
    }
}

/// A message that does not fit the state is refused and changes nothing.
pub proof fn law_unexpected_message_is_refused(session: SessionView, bytes: Seq<u8>)
    requires
        !(session.state is Initial && session.side is Server),
        !(session.state is Handshake && session.side is Client),
    ensures
        session.read(bytes).session == session,
        session.read(bytes).outcome == Err::<Seq<u8>, ErrorView>(
            ErrorView {
                code: TransportErrorCode::ConnectionRefused,
                frame: None,
                reason: "unexpected crypto frame"@,
            },
        ),
{
}

/// A message cannot be read exactly where a server without a list of application protocols finds
/// a name behind a protocol identifier and two keys that are all in order.
pub proof fn law_can_read(session: SessionView, bytes: Seq<u8>)
    ensures
        !session.can_read(bytes) <==> {
            let id = absorb_state(session.duplex, PROTOCOL_ID@);
            let e = bytes.subrange(34, 66);
            let keys = absorb_state(absorb_state(id, e), session.s.public);
            let es = shared_secret(session.s.secret, e);
            let keyed = keyed_state(squeezed(absorb_state(keys, es), 32));
            &&& session.state is Initial
            &&& session.side is Server
            &&& session.supported_protocols is None
            &&& bytes.len() >= 99
            &&& bytes[0] == 33
            &&& bytes.subrange(1, 34) == PROTOCOL_ID@
            &&& public_key_valid(e)
            &&& public_key_valid(decrypted(keyed, bytes.subrange(66, 98)))
            &&& bytes.len() >= 99 + bytes[98]
        },
{
    let len = bytes.len() as int;
    if len > 0 && len >= 1 + bytes[0] && bytes.subrange(1, 1 + bytes[0]) == PROTOCOL_ID@ {
        assert(bytes.subrange(1, 1 + bytes[0]).len() == bytes[0]);
        let behind_id = session.read_protocol_id(bytes);
        let rest = bytes.skip(34);
        assert(behind_id.outcome == Ok::<Seq<u8>, ErrorView>(rest));
        if len >= 66 {
            assert(rest.take(32) =~= bytes.subrange(34, 66));
            assert(rest.skip(32) =~= bytes.skip(66));
            if len >= 98 {
                let rest = bytes.skip(66);
                assert(rest.take(32) =~= bytes.subrange(66, 98));
                assert(rest.skip(32) =~= bytes.skip(98));
            }
        }
    }
}

/// A client takes its server's answer only if it ends in the 16 bytes that the client squeezes
/// after it decrypted what stands between the ephemeral key and them, however long that is. With
/// any other tag the message is refused, and neither the state nor what the client knows of the
/// server's transport parameters changes.
pub proof fn law_client_checks_tag(client: SessionView, bytes: Seq<u8>)
    requires
        client.side is Client,
        client.state is Handshake,
        bytes.len() >= 48,
        ({
            let len = bytes.len() as int;
            let e = decrypted(client.duplex, bytes.subrange(0, 32));
            let keyed = after_decrypt(client.duplex, bytes.subrange(0, 32));
            let ee = absorb_state(keyed, shared_secret(client.e.secret, e));
            let bound = absorb_state(ee, shared_secret(client.s.secret, e));
            let opened = decrypt_output(bound, bytes.subrange(32, len - 16)).1;
            exists|i: int|
                0 <= i < 16 && #[trigger] squeeze_output(opened, 16).0[i] != bytes[len - 16 + i]
        }),
    ensures
        client.read(bytes).outcome is Err,
        client.read(bytes).session.state == client.state,
        client.read(bytes).session.remote_transport_parameters
            == client.remote_transport_parameters,
{
    law_client_reads_second_message(client, bytes);
    let len = bytes.len() as int;
    let e = decrypted(client.duplex, bytes.subrange(0, 32));
    let keyed = after_decrypt(client.duplex, bytes.subrange(0, 32));
    let ee = absorb_state(keyed, shared_secret(client.e.secret, e));
    let bound = absorb_state(ee, shared_secret(client.s.secret, e));
    let opened = after_decrypt(bound, bytes.subrange(32, len - 16));
    let i = choose|i: int|
        0 <= i < 16 && #[trigger] squeeze_output(opened, 16).0[i] != bytes[len - 16 + i];
    assert(squeezed(opened, 16)[i] != bytes.skip(len - 16)[i]);
}

/// What a server accepted: the message ends in the 16 bytes that the server squeezes over all that
/// comes before them, the client's keys are valid and are those in the message, and the
/// application protocol is in the server's list, whole, and of the length that was sent.
pub proof fn law_accepted_first_message(server: SessionView, bytes: Seq<u8>)
    requires
        server.side is Server,
        server.state is Initial,
        server.read(bytes).outcome is Ok,
    ensures
        ({
            let after = server.read(bytes).session;
            let len = bytes.len() as int;
            let end = 99 + bytes[98];
            let id = absorb_state(server.duplex, PROTOCOL_ID@);
            let e = bytes.subrange(34, 66);
            let keys = absorb_state(absorb_state(id, e), server.s.public);
            let es = shared_secret(server.s.secret, e);
            let keyed = keyed_state(squeezed(absorb_state(keys, es), 32));
            let s = decrypted(keyed, bytes.subrange(66, 98));
            let fixed = after_decrypt(keyed, bytes.subrange(66, 98));
            let ss = shared_secret(server.s.secret, s);
            let bound = absorb_state(absorb_state(fixed, ss), server.psk);
            let named = after_decrypt(bound, bytes.subrange(99, end));
            let opened = after_decrypt(named, bytes.subrange(end, len - 16));
            &&& after.state is ZeroRtt
            &&& len >= end + 16
            &&& bytes[0] == 33
            &&& bytes.subrange(1, 34) == PROTOCOL_ID@
            &&& after.remote_e == Some(e)
            &&& public_key_valid(e)
            &&& after.remote_s == Some(s)
            &&& public_key_valid(s)
            &&& after.alpn is Some
            &&& after.alpn->0.len() == bytes[98]
            &&& server.supported_protocols is Some
            &&& server.supported_protocols->0.contains(after.alpn->0)
            &&& after.supported_protocols == server.supported_protocols
            &&& bytes.subrange(len - 16, len) == squeezed(opened, 16)
        }),
{
    law_server_reads_first_message(server, bytes);
    assert(bytes.subrange(1, 1 + bytes[0]).len() == bytes[0]);
    let len = bytes.len() as int;
    assert(bytes.subrange(len - 16, len) =~= bytes.skip(len - 16));
}

/// A client that matches in keys and shared key and names an application protocol that is not in
/// the server's list, as a whole, is refused for it, whatever is in the list.
/// `read_handshake` vouches for the decryption that this rests on.
pub proof fn law_name_that_is_not_listed_is_refused(
    client: SessionView,
    server: SessionView,
    protocols: Seq<Seq<u8>>,
)
    requires
        client.side is Client,
        client.state is Initial,
        server.side is Server,
        server.state is Initial,
        client.duplex == server.duplex,
        client.e.matched(),
        client.s.matched(),
        server.s.matched(),
        client.remote_s == Some(server.s.public),
        client.psk == server.psk,
        client.alpn is Some,
        client.alpn->0.len() <= 255,
        server.supported_protocols == Some(protocols),
        !protocols.contains(client.alpn->0),
        server.client_hello_sound(client.write().bytes),
    ensures
        server.read(client.write().bytes).outcome == Err::<Seq<u8>, ErrorView>(
            ErrorView {
                code: TransportErrorCode::ConnectionRefused,
                frame: None,
                reason: "unsupported alpn"@,
            },
        ),
        server.read(client.write().bytes).session.state is Initial,
        server.read(client.write().bytes).session.alpn == server.alpn,
        server.read(client.write().bytes).session.remote_transport_parameters
            == server.remote_transport_parameters,
{
    crate::laws::law_protocol_that_is_not_offered_is_refused(client, server);
}

} // verus!
