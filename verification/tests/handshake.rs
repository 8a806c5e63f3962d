use quinn_noise::error::TransportErrorCode;
use quinn_noise::keys::{Keypair, PublicKey};
use quinn_noise::model::PROTOCOL_ID;
use quinn_noise::packet_key::{ChaCha8PacketKey, KeyPair, Keys};
use quinn_noise::params::TransportParameters;
use quinn_noise::side::Side;
use quinn_noise::{NoiseClientConfig, NoiseConfig, NoiseServerConfig, NoiseSession};
use xoodoo::Xoodyak;

const PSK: [u8; 32] = [7; 32];
const ALPN: &[u8] = b"test-protocol";

fn keypair(seed: u8) -> Keypair {
    let secret = ed25519_dalek::SecretKey::from_bytes(&[seed; 32]).unwrap();
    let public = ed25519_dalek::PublicKey::from(&secret);
    Keypair::from_bytes(&[secret.to_bytes(), public.to_bytes()].concat()).unwrap()
}

fn not_a_point() -> [u8; 32] {
    for first in 0..=255 {
        let mut bytes = [0; 32];
        bytes[0] = first;
        if PublicKey::from_bytes(&bytes).is_none() {
            return bytes;
        }
    }
    unreachable!()
}

fn parameters(max_data: u8) -> TransportParameters {
    TransportParameters::read(Side::Client, &[0x04, 0x01, max_data]).unwrap()
}

fn client_config(psk: Option<[u8; 32]>, alpn: &[u8], keylogger: bool) -> NoiseConfig {
    NoiseConfig::from(NoiseClientConfig {
        keypair: keypair(1),
        psk,
        keylogger,
        remote_public_key: *keypair(3).public(),
        alpn: alpn.to_vec(),
    })
}

fn server_config(psk: Option<[u8; 32]>, protocols: &[&[u8]], keylogger: bool) -> NoiseConfig {
    NoiseConfig::from(NoiseServerConfig {
        keypair: keypair(3),
        psk,
        keylogger,
        supported_protocols: protocols.iter().map(|name| name.to_vec()).collect(),
    })
}

fn client_of(config: &NoiseConfig) -> NoiseSession {
    config.start_session_with(Side::Client, &parameters(11), keypair(1), keypair(2))
}

fn server_of(config: &NoiseConfig) -> NoiseSession {
    config.start_session_with(Side::Server, &parameters(12), keypair(3), keypair(4))
}

fn peers() -> (NoiseSession, NoiseSession) {
    (
        client_of(&client_config(Some(PSK), ALPN, false)),
        server_of(&server_config(Some(PSK), &[b"other", ALPN], false)),
    )
}

fn write(session: &mut NoiseSession) -> (Vec<u8>, Option<Keys>) {
    let mut bytes = Vec::new();
    let keys = session.write_handshake(&mut bytes);
    (bytes, keys)
}

fn assert_fit(client: &KeyPair<ChaCha8PacketKey>, server: &KeyPair<ChaCha8PacketKey>) {
    assert_eq!(client.local.as_bytes(), server.remote.as_bytes());
    assert_eq!(client.remote.as_bytes(), server.local.as_bytes());
    assert_ne!(client.local.as_bytes(), client.remote.as_bytes());
}

fn early() -> (NoiseSession, NoiseSession) {
    let (mut client, mut server) = peers();
    let (hello, _) = write(&mut client);
    server.read_handshake(&hello).unwrap();
    write(&mut client);
    write(&mut server);
    (client, server)
}

fn connected() -> (NoiseSession, NoiseSession) {
    let (mut client, mut server) = early();
    let (answer, _) = write(&mut server);
    client.read_handshake(&answer).unwrap();
    write(&mut client);
    (client, server)
}

fn refusal(session: &mut NoiseSession, bytes: &[u8]) -> String {
    let error = session.read_handshake(bytes).unwrap_err();
    assert_eq!(error.code, TransportErrorCode::ConnectionRefused);
    assert_eq!(error.frame, None);
    assert!(session.is_handshaking());
    error.reason
}

fn rejection(session: &mut NoiseSession, bytes: &[u8]) -> String {
    let error = session.read_handshake(bytes).unwrap_err();
    assert_eq!(error.code, TransportErrorCode::TransportParameterError);
    assert_eq!(error.frame, None);
    assert!(session.is_handshaking());
    error.reason
}

/// The first message from its parts, and the duplex behind it.
fn hello_of(static_key: &[u8; 32], alpn: &[u8], parameters: &[u8]) -> (Vec<u8>, Xoodyak) {
    let server = *keypair(3).public();
    let mut hash = Xoodyak::hash();
    hash.absorb(b"Noise_IKpsk1_Edx25519_ChaCha8Poly");
    hash.absorb(keypair(2).public().as_bytes());
    hash.absorb(server.as_bytes());
    hash.absorb(&keypair(2).diffie_hellman(&server));
    let mut key = [0; 32];
    hash.squeeze(&mut key);
    let mut duplex = Xoodyak::keyed(&key, None, None, None);

    let mut hello = vec![33];
    hello.extend_from_slice(b"Noise_IKpsk1_Edx25519_ChaCha8Poly");
    hello.extend_from_slice(keypair(2).public().as_bytes());
    let mut sent = *static_key;
    duplex.encrypt_in_place(&mut sent);
    hello.extend_from_slice(&sent);
    duplex.absorb(&keypair(1).diffie_hellman(&server));
    duplex.absorb(&PSK);
    hello.push(alpn.len() as u8);
    let mut sent = alpn.to_vec();
    duplex.encrypt_in_place(&mut sent);
    hello.extend_from_slice(&sent);
    seal(&mut duplex, parameters, &mut hello);
    (hello, duplex)
}

/// The second message from its parts, for the duplex that the early keys were drawn from.
fn answer_of(mut duplex: Xoodyak, ephemeral: &[u8; 32], parameters: &[u8]) -> (Vec<u8>, Xoodyak) {
    let mut answer = ephemeral.to_vec();
    duplex.encrypt_in_place(&mut answer);
    duplex.absorb(&keypair(4).diffie_hellman(keypair(2).public()));
    duplex.absorb(&keypair(4).diffie_hellman(keypair(1).public()));
    seal(&mut duplex, parameters, &mut answer);
    (answer, duplex)
}

fn seal(duplex: &mut Xoodyak, parameters: &[u8], message: &mut Vec<u8>) {
    let mut sent = parameters.to_vec();
    duplex.encrypt_in_place(&mut sent);
    message.extend_from_slice(&sent);
    let mut tag = [0; 16];
    duplex.squeeze(&mut tag);
    message.extend_from_slice(&tag);
}

fn key_of(duplex: &mut Xoodyak) -> [u8; 32] {
    let mut key = [0; 32];
    duplex.squeeze_key(&mut key);
    key
}

fn good_hello() -> (Vec<u8>, Xoodyak) {
    hello_of(keypair(1).public().as_bytes(), ALPN, &parameters(11).encoded)
}

/// A client that waits for its server's answer, and the duplex that it is in.
fn waiting_client() -> (NoiseSession, Xoodyak) {
    let (client, _) = early();
    let (_, mut duplex) = good_hello();
    key_of(&mut duplex);
    key_of(&mut duplex);
    (client, duplex)
}

#[test]
fn protocol_identifier() {
    assert_eq!(&PROTOCOL_ID, b"Noise_IKpsk1_Edx25519_ChaCha8Poly");
}

#[test]
fn first_message_and_early_keys_are_exact() {
    let (mut client, mut server) = peers();
    let (hello, mut duplex) = good_hello();
    let (bytes, keys) = write(&mut client);
    assert_eq!(bytes, hello);
    assert!(keys.is_none());
    assert!(server.read_handshake(&hello).unwrap());

    let client_key = key_of(&mut duplex);
    let server_key = key_of(&mut duplex);
    let (bytes, keys) = write(&mut client);
    assert!(bytes.is_empty());
    let packet = keys.unwrap().packet;
    assert_eq!(packet.local.as_bytes(), &client_key);
    assert_eq!(packet.remote.as_bytes(), &server_key);
    let (bytes, keys) = write(&mut server);
    assert!(bytes.is_empty());
    let packet = keys.unwrap().packet;
    assert_eq!(packet.local.as_bytes(), &server_key);
    assert_eq!(packet.remote.as_bytes(), &client_key);
    assert_eq!(client.early_crypto().unwrap().1.as_bytes(), &client_key);
    assert_eq!(server.early_crypto().unwrap().1.as_bytes(), &server_key);
}

#[test]
fn second_message_and_keys_are_exact() {
    let (mut client, mut server) = early();
    let (_, duplex) = waiting_client();
    let (answer, mut duplex) =
        answer_of(duplex, keypair(4).public().as_bytes(), &parameters(12).encoded);
    let (bytes, keys) = write(&mut server);
    assert_eq!(bytes, answer);
    let client_key = key_of(&mut duplex);
    let server_key = key_of(&mut duplex);
    let packet = keys.unwrap().packet;
    assert_eq!(packet.local.as_bytes(), &server_key);
    assert_eq!(packet.remote.as_bytes(), &client_key);

    assert!(client.read_handshake(&answer).unwrap());
    let packet = write(&mut client).1.unwrap().packet;
    assert_eq!(packet.local.as_bytes(), &client_key);
    assert_eq!(packet.remote.as_bytes(), &server_key);

    duplex.ratchet();
    let next = client.next_1rtt_keys();
    assert_eq!(next.local.as_bytes(), &key_of(&mut duplex));
    assert_eq!(next.remote.as_bytes(), &key_of(&mut duplex));
}

#[test]
fn handshake_completes() {
    let (mut client, mut server) = peers();
    let (hello, keys) = write(&mut client);
    assert!(keys.is_none());
    assert!(server.read_handshake(&hello).unwrap());
    let client_early = write(&mut client).1.unwrap().packet;
    let server_early = write(&mut server).1.unwrap().packet;
    assert_fit(&client_early, &server_early);
    assert!(client.is_handshaking());
    assert!(server.is_handshaking());

    let (answer, server_keys) = write(&mut server);
    assert!(!server.is_handshaking());
    assert!(client.read_handshake(&answer).unwrap());
    assert!(client.is_handshaking());
    let (nothing, client_keys) = write(&mut client);
    assert!(nothing.is_empty());
    assert!(!client.is_handshaking());
    let client_keys = client_keys.unwrap().packet;
    assert_fit(&client_keys, &server_keys.unwrap().packet);
    assert_ne!(client_keys.local.as_bytes(), client_early.local.as_bytes());

    assert_eq!(client.peer_identity().unwrap().as_bytes(), keypair(3).public().as_bytes());
    assert_eq!(server.peer_identity().unwrap().as_bytes(), keypair(1).public().as_bytes());
    assert_eq!(client.handshake_data().unwrap(), ALPN);
    assert_eq!(server.handshake_data().unwrap(), ALPN);
    let of_server = client.transport_parameters().unwrap().unwrap();
    assert_eq!(of_server.encoded, parameters(12).encoded);
    let of_client = server.transport_parameters().unwrap().unwrap();
    assert_eq!(of_client.encoded, parameters(11).encoded);
    assert_eq!(client.conn_id(), server.conn_id());
    assert_eq!(client.conn_id().unwrap(), keypair(2).public().as_bytes());
}

#[test]
fn handshake_completes_with_new_keys() {
    let client_config = client_config(None, ALPN, false);
    let server_config = server_config(None, &[ALPN], false);
    let mut client = client_config.start_session(Side::Client, &parameters(1));
    let mut server = server_config.start_session(Side::Server, &parameters(2));
    let (hello, _) = write(&mut client);
    server.read_handshake(&hello).unwrap();
    write(&mut client);
    write(&mut server);
    let (answer, server_keys) = write(&mut server);
    client.read_handshake(&answer).unwrap();
    let client_keys = write(&mut client).1.unwrap();
    assert_fit(&client_keys.packet, &server_keys.unwrap().packet);
    assert_eq!(server.peer_identity().unwrap().as_bytes(), keypair(1).public().as_bytes());
}

#[test]
fn message_is_appended() {
    let (mut client, mut server) = peers();
    let mut bytes = vec![1, 2, 3];
    client.write_handshake(&mut bytes);
    assert_eq!(&bytes[..3], &[1, 2, 3]);
    assert!(server.read_handshake(&bytes[3..]).unwrap());
}

#[test]
fn server_has_nothing_to_write_at_first() {
    let (_, mut server) = peers();
    let (bytes, keys) = write(&mut server);
    assert!(bytes.is_empty());
    assert!(keys.is_none());
    assert!(server.conn_id().is_none());
    assert!(server.peer_identity().is_none());
    assert!(server.transport_parameters().unwrap().is_none());
    assert!(server.handshake_data().is_none());
}

#[test]
fn waiting_client_goes_by_its_own_parameters() {
    let (mut client, mut server) = peers();
    assert!(client.transport_parameters().unwrap().is_none());
    let (hello, _) = write(&mut client);
    assert!(client.transport_parameters().unwrap().is_none());
    write(&mut client);
    let own = client.transport_parameters().unwrap().unwrap();
    assert_eq!(own.encoded, parameters(11).encoded);
    assert!(client.write_handshake(&mut Vec::new()).is_none());
    server.read_handshake(&hello).unwrap();
    write(&mut server);
    let of_client = server.transport_parameters().unwrap().unwrap();
    assert_eq!(of_client.encoded, parameters(11).encoded);
}

#[test]
fn key_updates_fit() {
    let (mut client, mut server) = connected();
    let mut last = [0; 32];
    for _ in 0..5 {
        let client_keys = client.next_1rtt_keys();
        let server_keys = server.next_1rtt_keys();
        assert_fit(&client_keys, &server_keys);
        assert_ne!(client_keys.local.as_bytes(), &last);
        last = *client_keys.local.as_bytes();
    }
}

#[test]
fn exports_agree() {
    let (client, server) = connected();
    let mut of_client = [0; 50];
    let mut of_server = [1; 50];
    client.export_keying_material(&mut of_client, b"label", b"context").unwrap();
    server.export_keying_material(&mut of_server, b"label", b"context").unwrap();
    assert_eq!(of_client, of_server);
    client.export_keying_material(&mut of_server, b"label", b"other").unwrap();
    assert_ne!(of_client, of_server);
    client.export_keying_material(&mut of_server, b"other", b"context").unwrap();
    assert_ne!(of_client, of_server);
    client.export_keying_material(&mut of_server, b"label", b"context").unwrap();
    assert_eq!(of_client, of_server);
    client.export_keying_material(&mut [], b"label", b"context").unwrap();
}

#[test]
fn exports_are_exact() {
    let (client, mut duplex) = waiting_client();
    duplex.absorb(b"label");
    duplex.absorb(b"context");
    let mut exported = [0; 32];
    client.export_keying_material(&mut exported, b"label", b"context").unwrap();
    assert_eq!(exported, key_of(&mut duplex));
}

#[test]
fn secrets_are_logged() {
    let mut client = client_of(&client_config(Some(PSK), ALPN, true));
    let mut server = server_of(&server_config(Some(PSK), &[ALPN], true));
    let (hello, _) = write(&mut client);
    assert!(client.take_key_log().is_empty());
    server.read_handshake(&hello).unwrap();
    let client_keys = write(&mut client).1.unwrap().packet;
    let server_keys = write(&mut server).1.unwrap().packet;
    assert_fit(&client_keys, &server_keys);
    for entries in [client.take_key_log(), server.take_key_log()] {
        assert_eq!(entries.len(), 2);
        assert_eq!(entries[0].label, "CLIENT_KEY");
        assert_eq!(&entries[0].conn_id, keypair(2).public().as_bytes());
        assert_eq!(&entries[0].secret, client_keys.local.as_bytes());
        assert_eq!(entries[1].label, "SERVER_KEY");
        assert_eq!(&entries[1].conn_id, keypair(2).public().as_bytes());
        assert_eq!(&entries[1].secret, client_keys.remote.as_bytes());
    }
    assert!(client.take_key_log().is_empty());
    client.next_1rtt_keys();
    client.next_1rtt_keys();
    assert_eq!(client.take_key_log().len(), 4);
}

#[test]
fn secrets_are_not_logged_unless_asked_for() {
    let (mut client, mut server) = connected();
    assert!(client.take_key_log().is_empty());
    client.next_1rtt_keys();
    assert!(client.take_key_log().is_empty());
    assert!(server.take_key_log().is_empty());
}

#[test]
fn early_data_is_accepted() {
    let (client, server) = peers();
    assert_eq!(client.early_data_accepted(), Some(true));
    assert_eq!(server.early_data_accepted(), Some(true));
}

#[test]
fn data_phase_is_final() {
    let (mut client, mut server) = connected();
    for session in [&mut client, &mut server] {
        let mut before = [0; 32];
        session.export_keying_material(&mut before, b"", b"").unwrap();
        let (bytes, keys) = write(session);
        assert!(bytes.is_empty());
        assert!(keys.is_none());
        let error = session.read_handshake(&good_hello().0).unwrap_err();
        assert_eq!(error.reason, "unexpected crypto frame");
        assert_eq!(error.code, TransportErrorCode::ConnectionRefused);
        assert_eq!(error.frame, None);
        assert!(!session.is_handshaking());
        let mut after = [0; 32];
        session.export_keying_material(&mut after, b"", b"").unwrap();
        assert_eq!(before, after);
    }
}

#[test]
fn unexpected_frames() {
    let (mut client, mut server) = peers();
    assert_eq!(refusal(&mut client, &[]), "unexpected crypto frame");
    let (hello, _) = write(&mut client);
    assert_eq!(refusal(&mut client, &hello), "unexpected crypto frame");
    server.read_handshake(&hello).unwrap();
    assert_eq!(refusal(&mut server, &hello), "unexpected crypto frame");
    write(&mut server);
    assert_eq!(refusal(&mut server, &hello), "unexpected crypto frame");
}

#[test]
fn frames_that_are_cut_off() {
    let (hello, _) = good_hello();
    let tag_start = 34 + 32 + 32 + 1 + ALPN.len();
    for len in (0..34).chain(34..66).chain(66..98).chain([98, 99]).chain(tag_start..tag_start + 16)
    {
        let (_, mut server) = peers();
        assert_eq!(refusal(&mut server, &hello[..len]), "invalid crypto frame", "{}", len);
    }
    let (client, duplex) = waiting_client();
    drop(client);
    let (answer, _) = answer_of(duplex, keypair(4).public().as_bytes(), &parameters(12).encoded);
    for len in 0..48 {
        let (mut client, _) = waiting_client();
        assert_eq!(refusal(&mut client, &answer[..len]), "invalid crypto frame", "{}", len);
    }
}

#[test]
fn other_protocols() {
    let (hello, _) = good_hello();
    let (_, mut server) = peers();
    assert_eq!(refusal(&mut server, &[0]), "unsupported protocol id");
    let mut other = hello.clone();
    other[10] ^= 1;
    assert_eq!(refusal(&mut server, &other), "unsupported protocol id");
    let mut short = hello.clone();
    short[0] = 32;
    assert_eq!(refusal(&mut server, &short), "unsupported protocol id");
    let mut long = hello.clone();
    long[0] = 34;
    assert_eq!(refusal(&mut server, &long), "unsupported protocol id");
    assert!(server.read_handshake(&hello).unwrap());
}

#[test]
fn ephemeral_key_that_is_no_point() {
    let (mut hello, _) = good_hello();
    hello[34..66].copy_from_slice(&not_a_point());
    let (_, mut server) = peers();
    assert_eq!(refusal(&mut server, &hello), "invalid ephemeral public key");
    assert!(server.conn_id().is_none());

    let (mut client, duplex) = waiting_client();
    let (answer, _) = answer_of(duplex, &not_a_point(), &parameters(12).encoded);
    assert_eq!(refusal(&mut client, &answer), "invalid ephemeral public key");
}

#[test]
fn static_key_that_is_no_point() {
    let (hello, _) = hello_of(&not_a_point(), ALPN, &parameters(11).encoded);
    let (_, mut server) = peers();
    assert_eq!(refusal(&mut server, &hello), "invalid static public key");
    assert!(server.peer_identity().is_none());
}

#[test]
fn application_protocol_that_is_not_offered() {
    let (hello, _) = hello_of(keypair(1).public().as_bytes(), b"unknown", &parameters(11).encoded);
    let (_, mut server) = peers();
    assert_eq!(refusal(&mut server, &hello), "unsupported alpn");
    assert!(server.handshake_data().is_none());
    assert!(server.transport_parameters().unwrap().is_none());
    let mut none = server_of(&server_config(Some(PSK), &[], false));
    assert_eq!(refusal(&mut none, &good_hello().0), "unsupported alpn");
}

#[test]
fn other_shared_key() {
    for psk in [None, Some([8; 32])] {
        let mut server = server_of(&server_config(psk, &[ALPN], false));
        assert_eq!(refusal(&mut server, &good_hello().0), "unsupported alpn");
        assert!(server.transport_parameters().unwrap().is_none());
    }
}

#[test]
fn missing_shared_key_is_all_zero() {
    let mut client = client_of(&client_config(None, ALPN, false));
    let mut server = server_of(&server_config(Some([0; 32]), &[ALPN], false));
    assert!(server.read_handshake(&write(&mut client).0).unwrap());
}

#[test]
fn application_protocol_of_any_length_byte() {
    for len in [0, 1, 24, 255] {
        let name = vec![9; len];
        let mut client = client_of(&client_config(Some(PSK), &name, false));
        let mut server = server_of(&server_config(Some(PSK), &[&name], false));
        assert!(server.read_handshake(&write(&mut client).0).unwrap());
        assert_eq!(server.handshake_data().unwrap(), name);
    }
}

#[test]
fn application_protocol_longer_than_its_length_byte() {
    let name = vec![9; 256];
    let mut client = client_of(&client_config(Some(PSK), &name, false));
    let (hello, _) = write(&mut client);
    assert_eq!(hello[98], 0);
    let mut server = server_of(&server_config(Some(PSK), &[&name], false));
    assert_eq!(refusal(&mut server, &hello), "unsupported alpn");
}

#[test]
fn tag_that_does_not_fit() {
    let (mut hello, _) = good_hello();
    let last = hello.len() - 1;
    hello[last] ^= 1;
    let (_, mut server) = peers();
    assert_eq!(refusal(&mut server, &hello), "invalid authentication tag");
    assert!(server.transport_parameters().unwrap().is_none());
    let (bytes, keys) = write(&mut server);
    assert!(bytes.is_empty());
    assert!(keys.is_none());

    let (mut client, duplex) = waiting_client();
    let (mut answer, _) =
        answer_of(duplex, keypair(4).public().as_bytes(), &parameters(12).encoded);
    answer[32] ^= 1;
    assert_eq!(refusal(&mut client, &answer), "invalid authentication tag");
    let own = client.transport_parameters().unwrap().unwrap();
    assert_eq!(own.encoded, parameters(11).encoded);
}

#[test]
fn parameters_that_are_rejected() {
    let static_key = *keypair(1).public().as_bytes();
    for (encoded, reason) in [
        (vec![0x0a, 0x01, 21], "illegal value"),
        (vec![0x0a], "malformed"),
        (vec![0x20, 0x00], "malformed"),
    ] {
        let (_, mut server) = peers();
        let (hello, _) = hello_of(&static_key, ALPN, &encoded);
        assert_eq!(rejection(&mut server, &hello), reason);
        assert!(server.transport_parameters().unwrap().is_none());
        let (mut client, duplex) = waiting_client();
        let (answer, _) = answer_of(duplex, keypair(4).public().as_bytes(), &encoded);
        assert_eq!(rejection(&mut client, &answer), reason);
    }
}

#[test]
fn parameters_that_only_a_client_may_receive() {
    let mut token = vec![0x02, 0x10];
    token.extend_from_slice(&[5; 16]);
    let (_, mut server) = peers();
    let (hello, _) = hello_of(keypair(1).public().as_bytes(), ALPN, &token);
    assert_eq!(rejection(&mut server, &hello), "illegal value");
    let (mut client, duplex) = waiting_client();
    let (answer, _) = answer_of(duplex, keypair(4).public().as_bytes(), &token);
    assert!(client.read_handshake(&answer).unwrap());
    let read = client.read_handshake(&answer).unwrap_err();
    assert_eq!(read.reason, "unexpected crypto frame");
}

#[test]
fn server_without_a_list_of_protocols() {
    let config = NoiseConfig::new();
    let mut server = server_of(&config);
    let mut missing = server_of(&config);
    let mut client = client_of(&client_config(None, ALPN, false));
    let (hello, _) = write(&mut client);
    assert!(server.try_read_handshake(&hello).is_none());
    assert!(server.conn_id().is_none());
    assert!(server.is_handshaking());

    let cut_off = server.try_read_handshake(&hello[..98]).unwrap().unwrap_err();
    assert_eq!(cut_off.reason, "invalid crypto frame");
    let mut bad = hello.clone();
    bad[34..66].copy_from_slice(&not_a_point());
    let no_point = missing.try_read_handshake(&bad).unwrap().unwrap_err();
    assert_eq!(no_point.reason, "invalid ephemeral public key");
    assert_eq!(refusal(&mut missing, &bad), "invalid ephemeral public key");

    let (bad, _) = hello_of(&not_a_point(), ALPN, &parameters(11).encoded);
    let mut missing = server_of(&config);
    let no_point = missing.try_read_handshake(&bad).unwrap().unwrap_err();
    assert_eq!(no_point.reason, "invalid static public key");
    let mut missing = server_of(&config);
    assert!(missing.try_read_handshake(&hello[..99 + ALPN.len()]).is_none());
    let cut_off = missing.try_read_handshake(&hello[..98 + ALPN.len()]).unwrap().unwrap_err();
    assert_eq!(cut_off.reason, "invalid crypto frame");
}

#[test]
fn server_that_refused_behind_the_ephemeral_key_is_keyed() {
    let (hello, _) = hello_of(&not_a_point(), ALPN, &parameters(11).encoded);
    let (_, mut server) = peers();
    assert_eq!(refusal(&mut server, &hello), "invalid static public key");
    assert_eq!(server.conn_id().unwrap(), keypair(2).public().as_bytes());
    server.export_keying_material(&mut [0; 32], b"label", b"context").unwrap();
    server.next_1rtt_keys();
    assert_eq!(refusal(&mut server, &[0]), "unsupported protocol id");
    server.next_1rtt_keys();
}

#[test]
fn parameters_in_more_bytes_than_they_need() {
    let encoded = [0x01, 0x02, 0x80, 0x00, 0x20, 0x00];
    let (hello, _) = hello_of(keypair(1).public().as_bytes(), ALPN, &encoded);
    let (_, mut server) = peers();
    assert!(server.read_handshake(&hello).unwrap());
    let read = server.transport_parameters().unwrap().unwrap();
    assert_eq!(read.encoded, [0x01, 0x02, 0x60, 0x00, 0x40, 0xb6, 0x00]);

    let encoded = [0x01, 0x01, 0x40, 0x05, 0x20, 0x00];
    let (hello, _) = hello_of(keypair(1).public().as_bytes(), ALPN, &encoded);
    let (_, mut server) = peers();
    assert_eq!(rejection(&mut server, &hello), "malformed");
}

#[test]
fn other_shared_key_where_every_name_is_offered() {
    let mut client = client_of(&client_config(Some(PSK), &[], false));
    let (hello, _) = write(&mut client);
    for psk in [None, Some([8; 32])] {
        let mut server = server_of(&server_config(psk, &[&[]], false));
        assert_eq!(refusal(&mut server, &hello), "invalid authentication tag");
        assert!(server.transport_parameters().unwrap().is_none());
        assert!(write(&mut server).1.is_none());
    }
}

#[test]
fn tried_messages_are_read() {
    let (mut client, mut server) = peers();
    let (hello, _) = write(&mut client);
    assert!(server.try_read_handshake(&hello).unwrap().unwrap());
    write(&mut client);
    write(&mut server);
    let (answer, _) = write(&mut server);
    assert!(client.try_read_handshake(&answer).unwrap().unwrap());
    let again = client.try_read_handshake(&answer).unwrap().unwrap_err();
    assert_eq!(again.reason, "unexpected crypto frame");
}

#[test]
fn lengths_of_the_messages() {
    let (mut client, mut server) = peers();
    let (hello, _) = write(&mut client);
    assert_eq!(hello.len(), 115 + ALPN.len() + parameters(11).encoded.len());
    assert_eq!(hello[0], 33);
    assert_eq!(&hello[1..34], &PROTOCOL_ID);
    assert_eq!(&hello[34..66], keypair(2).public().as_bytes());
    assert_eq!(usize::from(hello[98]), ALPN.len());
    server.read_handshake(&hello).unwrap();
    write(&mut server);
    let (answer, _) = write(&mut server);
    assert_eq!(answer.len(), 48 + parameters(12).encoded.len());
}

#[test]
fn other_shared_key_with_a_long_name() {
    for len in [256, 257, 300] {
        let name = vec![9; len];
        let mut client = client_of(&client_config(Some(PSK), &name, false));
        let (hello, _) = write(&mut client);
        let mut server = server_of(&server_config(Some([8; 32]), &[b"", &name], false));
        let expected = if len == 256 { "invalid authentication tag" } else { "unsupported alpn" };
        assert_eq!(refusal(&mut server, &hello), expected);
        assert!(server.transport_parameters().unwrap().is_none());
    }
}

#[test]
fn refused_client_keeps_its_server_and_protocol() {
    let (mut client, duplex) = waiting_client();
    let (mut answer, _) =
        answer_of(duplex, keypair(4).public().as_bytes(), &parameters(12).encoded);
    answer[40] ^= 1;
    assert_eq!(refusal(&mut client, &answer), "invalid authentication tag");
    assert_eq!(client.peer_identity().unwrap().as_bytes(), keypair(3).public().as_bytes());
    assert_eq!(client.handshake_data().unwrap(), ALPN);
}
