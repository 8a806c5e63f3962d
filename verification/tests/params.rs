use quinn_noise::error::{connection_refused, TransportErrorCode};
use quinn_noise::params::TransportParameters;
use quinn_noise::side::Side;

const SIDES: [Side; 2] = [Side::Client, Side::Server];

fn reason(side: Side, encoded: &[u8]) -> String {
    let error = TransportParameters::read(side, encoded).unwrap_err();
    assert_eq!(error.code, TransportErrorCode::TransportParameterError);
    assert_eq!(error.frame, None);
    error.reason
}

#[test]
fn refused_connection() {
    let error = connection_refused("for a reason");
    assert_eq!(error.code, TransportErrorCode::ConnectionRefused);
    assert_eq!(error.frame, None);
    assert_eq!(error.reason, "for a reason");
}

#[test]
fn no_parameters_are_the_default() {
    let mut written = Vec::new();
    quinn_proto::transport_parameters::TransportParameters::default().write(&mut written);
    for side in SIDES {
        assert_eq!(TransportParameters::read(side, &[]).unwrap().encoded, written);
    }
}

#[test]
fn written_parameters_are_read_as_they_are() {
    let encoded = [0x04, 0x02, 0x41, 0x00, 0x0c, 0x00, 0x20, 0x01, 0x3f, 0x0f, 0x02, 0xaa, 0xbb];
    for side in SIDES {
        let first = TransportParameters::read(side, &encoded).unwrap();
        for again in SIDES {
            let second = TransportParameters::read(again, &first.encoded).unwrap();
            assert_eq!(second.encoded, first.encoded);
        }
        assert_eq!(first.clone().encoded, first.encoded);
    }
}

#[test]
fn illegal_values() {
    for side in SIDES {
        assert_eq!(reason(side, &[0x0a, 0x01, 21]), "illegal value");
        assert_eq!(reason(side, &[0x03, 0x01, 0x00]), "illegal value");
    }
    assert!(TransportParameters::read(Side::Client, &[0x0a, 0x01, 20]).is_ok());
    let token = [&[0x02, 0x10][..], &[9; 16]].concat();
    assert_eq!(reason(Side::Server, &token), "illegal value");
    assert!(TransportParameters::read(Side::Client, &token).is_ok());
}

#[test]
fn malformed_parameters() {
    for side in SIDES {
        assert_eq!(reason(side, &[0x0a]), "malformed");
        assert_eq!(reason(side, &[0x0a, 0x02, 0x01]), "malformed");
        assert_eq!(reason(side, &[0x04, 0x01, 0x01, 0x04, 0x01, 0x01]), "malformed");
        assert_eq!(reason(side, &[0x20, 0x09, 0, 0, 0, 0, 0, 0, 0, 0, 0]), "malformed");
    }
}

#[test]
fn datagram_size_that_is_cut_off() {
    for side in SIDES {
        assert_eq!(reason(side, &[0x20, 0x00]), "malformed");
        assert_eq!(reason(side, &[0x20, 0x01, 0x40]), "malformed");
        assert_eq!(reason(side, &[0x20, 0x02, 0x80, 0x00]), "malformed");
        assert_eq!(reason(side, &[0x20, 0x07, 0xc0, 0, 0, 0, 0, 0, 0]), "malformed");
        assert_eq!(reason(side, &[0x40, 0x20, 0x00]), "malformed");
        assert_eq!(reason(side, &[0x04, 0x01, 0x05, 0x20, 0x00]), "malformed");
        assert!(TransportParameters::read(side, &[0x20, 0x01, 0x00]).is_ok());
        assert!(TransportParameters::read(side, &[0x20, 0x02, 0x40, 0x00]).is_ok());
    }
}

#[test]
fn datagram_size_behind_a_preferred_address() {
    let mut address = vec![127, 0, 0, 1, 0x11, 0x22];
    address.extend_from_slice(&[0; 18]);
    address.push(2);
    address.extend_from_slice(&[7; 18]);
    let mut encoded = vec![0x0d, address.len() as u8];
    encoded.extend_from_slice(&address);
    assert!(TransportParameters::read(Side::Client, &encoded).is_ok());
    assert_eq!(reason(Side::Server, &encoded), "illegal value");
    encoded.extend_from_slice(&[0x20, 0x00]);
    assert_eq!(reason(Side::Client, &encoded), "malformed");

    let mut nowhere = vec![0x0d, 41];
    nowhere.extend_from_slice(&[0; 41]);
    nowhere.extend_from_slice(&[0x20, 0x00]);
    assert_eq!(reason(Side::Client, &nowhere), "illegal value");

    // The value is longer than the address in it, so that its end is read as a parameter.
    let mut longer = vec![0x0d, address.len() as u8 + 2];
    longer.extend_from_slice(&address);
    longer.extend_from_slice(&[0x20, 0x00]);
    assert_eq!(reason(Side::Client, &longer), "malformed");
}

#[test]
fn integers_in_more_bytes_than_they_need() {
    for side in SIDES {
        // The length fits the shortest encoding, and what comes next is behind the longer one.
        assert_eq!(reason(side, &[0x01, 0x01, 0x40, 0x05, 0x20, 0x00]), "malformed");
        assert_eq!(reason(side, &[0x04, 0x01, 0xc0, 0, 0, 0, 0, 0, 0, 5, 0x20, 0x00]), "malformed");
        let read = TransportParameters::read(side, &[0x01, 0x02, 0x80, 0x00, 0x20, 0x00]).unwrap();
        assert_eq!(read.encoded, [0x01, 0x02, 0x60, 0x00, 0x40, 0xb6, 0x00]);
        let read = TransportParameters::read(side, &[0x01, 0x01, 0x40, 0x05]).unwrap();
        assert_eq!(read.encoded, [0x01, 0x01, 0x05, 0x40, 0xb6, 0x00]);
        // The length is that of the longer encoding.
        assert_eq!(reason(side, &[0x01, 0x02, 0x40, 0x05]), "malformed");
        assert_eq!(reason(side, &[0x01, 0x02, 0x40, 0x05, 0x20, 0x00]), "malformed");
        // Parameters that are not known are skipped by their length.
        assert_eq!(reason(side, &[0x21, 0x01, 0x40, 0x20, 0x00]), "malformed");
        let skipped = [0x21, 0x02, 0x40, 0x20, 0x20, 0x01, 0x00];
        assert!(TransportParameters::read(side, &skipped).is_ok());
    }
}

#[test]
fn every_integer_parameter_takes_its_encoded_size() {
    for id in [0x01, 0x03, 0x04, 0x05, 0x06, 0x07, 0x08, 0x09, 0x0a, 0x0b, 0x0e] {
        assert_eq!(reason(Side::Client, &[id, 0x01, 0x40, 0x05, 0x20, 0x00]), "malformed");
        assert_eq!(reason(Side::Client, &[id, 0x01]), "malformed");
    }
    for id in [0x04, 0x05, 0x06, 0x07, 0x08, 0x09, 0x0a, 0x0b, 0x0e] {
        let longer = TransportParameters::read(Side::Client, &[id, 0x01, 0x40, 0x05]).unwrap();
        let shorter = TransportParameters::read(Side::Client, &[id, 0x01, 0x05]).unwrap();
        assert_eq!(longer.encoded, shorter.encoded);
    }
}

#[test]
fn any_bytes_are_read_or_rejected() {
    let alphabet = [
        0x00, 0x01, 0x02, 0x03, 0x04, 0x05, 0x08, 0x0b, 0x0c, 0x0d, 0x0e, 0x0f, 0x10, 0x20, 0x20,
        0x20, 0x21, 0x40, 0x41, 0x60, 0x80, 0xc0,
    ];
    let mut seed: u64 = 1;
    let mut rejected = 0;
    for _ in 0..300_000 {
        let mut encoded = Vec::new();
        for _ in 0..14 {
            seed = seed.wrapping_mul(6364136223846793005).wrapping_add(1442695040888963407);
            encoded.push(alphabet[(seed >> 33) as usize % alphabet.len()]);
        }
        let len = (seed >> 59) as usize % 15;
        rejected += usize::from(TransportParameters::read(Side::Client, &encoded[..len]).is_err());
    }
    assert!(rejected > 0 && rejected < 300_000);
}
