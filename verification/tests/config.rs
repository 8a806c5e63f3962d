use quinn_noise::keys::Keypair;
use quinn_noise::params::TransportParameters;
use quinn_noise::retry::ConnectionId;
use quinn_noise::side::Side;
use quinn_noise::{NoiseClientConfig, NoiseConfig, NoiseServerConfig, NoiseSession};

fn parameters() -> TransportParameters {
    TransportParameters { encoded: vec![0x04, 0x01, 0x05] }
}

fn client_config(keypair: Keypair, server: &Keypair) -> NoiseConfig {
    NoiseConfig::from(NoiseClientConfig {
        keypair,
        psk: Some([1; 32]),
        keylogger: true,
        remote_public_key: *server.public(),
        alpn: b"name".to_vec(),
    })
}

fn first_message(config: &NoiseConfig, s: Keypair, e: Keypair) -> Vec<u8> {
    let mut session = config.start_session_with(Side::Client, &parameters(), s, e);
    let mut bytes = Vec::new();
    assert!(session.write_handshake(&mut bytes).is_none());
    bytes
}

#[test]
fn client_configuration() {
    let (keypair, server) = (Keypair::generate(), Keypair::generate());
    let session = client_config(keypair, &server).start_session(Side::Client, &parameters());
    assert_eq!(session.peer_identity().unwrap().as_bytes(), server.public().as_bytes());
    assert_eq!(session.handshake_data().unwrap(), b"name");
    assert!(session.is_handshaking());
}

#[test]
fn server_configuration() {
    let config = NoiseConfig::from(NoiseServerConfig {
        keypair: Keypair::generate(),
        psk: None,
        keylogger: false,
        supported_protocols: vec![b"name".to_vec()],
    });
    let session = config.start_session(Side::Server, &parameters());
    assert!(session.peer_identity().is_none());
    assert!(session.handshake_data().is_none());
    assert!(session.conn_id().is_none());
}

#[test]
fn empty_configuration() {
    for config in [NoiseConfig::new(), NoiseConfig::default()] {
        let mut session = config.start_session(Side::Server, &parameters());
        assert!(session.peer_identity().is_none());
        assert!(session.handshake_data().is_none());
        assert!(session.take_key_log().is_empty());
        let error = session.read_handshake(&[]).unwrap_err();
        assert_eq!(error.reason, "invalid crypto frame");
    }
}

#[test]
fn copied_configuration() {
    let (keypair, server, e) = (Keypair::generate(), Keypair::generate(), Keypair::generate());
    let config = client_config(keypair, &server);
    assert_eq!(
        first_message(&config, keypair, e),
        first_message(&config.clone(), keypair, e)
    );
    let copied = NoiseConfig::from(NoiseServerConfig {
        keypair: server,
        psk: Some([1; 32]),
        keylogger: false,
        supported_protocols: vec![b"other".to_vec(), b"name".to_vec()],
    })
    .clone();
    let mut session = copied.start_session(Side::Server, &parameters());
    assert!(session.read_handshake(&first_message(&config, keypair, e)).unwrap());
    assert_eq!(session.peer_identity().unwrap().as_bytes(), keypair.public().as_bytes());
}

#[test]
fn ephemeral_keys_are_new() {
    let config = client_config(Keypair::generate(), &Keypair::generate());
    let one = config.start_session(Side::Client, &parameters());
    let other = config.start_session(Side::Client, &parameters());
    assert_ne!(one.conn_id().unwrap(), other.conn_id().unwrap());
}

#[test]
fn initial_keys_protect_nothing() {
    for side in [Side::Client, Side::Server] {
        let keys = NoiseSession::initial_keys(&ConnectionId::new(&[1, 2, 3]), side);
        assert_eq!(keys.packet.local.as_bytes(), &[0; 32]);
        assert_eq!(keys.packet.remote.as_bytes(), &[0; 32]);
    }
}

#[test]
fn draws_become_keys() {
    let (keypair, server) = (Keypair::generate(), Keypair::generate());
    let config = client_config(keypair, &server);
    let none = NoiseConfig::from(NoiseServerConfig {
        keypair: server,
        psk: Some([1; 32]),
        keylogger: false,
        supported_protocols: vec![b"name".to_vec()],
    });
    let mut messages = Vec::new();
    for _ in 0..2 {
        let (s, e) = (Keypair::generate(), Keypair::generate());
        let mut session = config.start_session_drawn(Side::Client, &parameters(), s, e);
        assert_eq!(session.conn_id().unwrap(), e.public().as_bytes());
        let mut bytes = Vec::new();
        session.write_handshake(&mut bytes);
        let mut peer = none.start_session(Side::Server, &parameters());
        assert!(peer.read_handshake(&bytes).unwrap());
        assert_eq!(peer.peer_identity().unwrap().as_bytes(), keypair.public().as_bytes());
        messages.push(bytes);
    }
    assert_ne!(messages[0], messages[1]);
}

#[test]
fn drawn_identity_where_none_is_configured() {
    // The message is for the drawn key, so the server always gets to the protocol, for which it has
    // no list.
    for _ in 0..32 {
        let (s, e, other) = (Keypair::generate(), Keypair::generate(), Keypair::generate());
        let mut server = NoiseConfig::new().start_session_drawn(Side::Server, &parameters(), s, e);
        let message = first_message(&client_config(other, &s), other, other);
        assert!(server.try_read_handshake(&message).is_none());
    }
}
