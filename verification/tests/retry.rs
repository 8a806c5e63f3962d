use quinn_noise::retry::ConnectionId;
use quinn_noise::NoiseSession;

const ORIGINAL_ID: [u8; 8] = [0x83, 0x94, 0xc8, 0xf0, 0x3e, 0x51, 0x57, 0x08];

const PACKET: [u8; 20] = [
    0xff, 0xff, 0x00, 0x00, 0x1d, 0x00, 0x08, 0xf0, 0x67, 0xa5, 0x50, 0x2a, 0x42, 0x62, 0xb5, 0x74,
    0x6f, 0x6b, 0x65, 0x6e,
];

const TAG: [u8; 16] = [
    0xd1, 0x69, 0x26, 0xd8, 0x1f, 0x6f, 0x9c, 0xa2, 0x95, 0x3a, 0x8a, 0xa4, 0x57, 0x5e, 0x1e, 0x49,
];

#[test]
fn tag_of_a_known_packet() {
    let id = ConnectionId::new(&ORIGINAL_ID);
    assert_eq!(NoiseSession::retry_tag(&id, &PACKET), TAG);
}

#[test]
fn tag_depends_on_the_original_id_and_the_packet() {
    let id = ConnectionId::new(&ORIGINAL_ID);
    let other = ConnectionId::new(&ORIGINAL_ID[1..]);
    assert_ne!(NoiseSession::retry_tag(&other, &PACKET), TAG);
    assert_ne!(NoiseSession::retry_tag(&id, &PACKET[1..]), TAG);
    assert_eq!(id.as_bytes(), &ORIGINAL_ID);
}

#[test]
fn tagged_packet_is_valid() {
    let id = ConnectionId::new(&ORIGINAL_ID);
    let packet = [&PACKET[..], &TAG[..]].concat();
    for split in 0..=PACKET.len() {
        let (header, payload) = packet.split_at(split);
        assert!(NoiseSession::is_valid_retry(&id, header, payload));
    }
}

#[test]
fn other_tags_are_not_valid() {
    let id = ConnectionId::new(&ORIGINAL_ID);
    for byte in 0..TAG.len() {
        let mut tag = TAG;
        tag[byte] ^= 0x80;
        assert!(!NoiseSession::is_valid_retry(&id, &PACKET, &tag));
    }
    assert!(!NoiseSession::is_valid_retry(&ConnectionId::new(&[]), &PACKET, &TAG));
    assert!(!NoiseSession::is_valid_retry(&id, &PACKET[1..], &TAG));
}

#[test]
fn payload_without_room_for_a_tag_is_not_valid() {
    let id = ConnectionId::new(&ORIGINAL_ID);
    let packet = [&PACKET[..], &TAG[..]].concat();
    let (header, payload) = packet.split_at(packet.len() - 15);
    assert!(!NoiseSession::is_valid_retry(&id, header, payload));
    assert!(!NoiseSession::is_valid_retry(&id, &packet, &[]));
}
