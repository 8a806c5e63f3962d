use curve25519_dalek::edwards::CompressedEdwardsY;
use curve25519_dalek::scalar::Scalar;
use quinn_noise::keys::{Keypair, PublicKey};

fn bytes_of(seed: u8) -> Vec<u8> {
    let secret = ed25519_dalek::SecretKey::from_bytes(&[seed; 32]).unwrap();
    let public = ed25519_dalek::PublicKey::from(&secret);
    [secret.to_bytes(), public.to_bytes()].concat()
}

#[test]
fn public_key_bytes() {
    let bytes = bytes_of(1);
    let key = PublicKey::from_bytes(&bytes[32..]).unwrap();
    assert_eq!(&key.as_bytes()[..], &bytes[32..]);
    assert!(PublicKey::from_bytes(&[]).is_none());
    assert!(PublicKey::from_bytes(&bytes[..31]).is_none());
    assert!(PublicKey::from_bytes(&bytes).is_none());
}

#[test]
fn half_of_all_bytes_are_no_point() {
    let mut rejected = 0;
    for first in 0..=255 {
        let mut bytes = [0; 32];
        bytes[0] = first;
        let expected = ed25519_dalek::PublicKey::from_bytes(&bytes).is_ok();
        assert_eq!(PublicKey::from_bytes(&bytes).is_some(), expected);
        rejected += usize::from(!expected);
    }
    assert!(rejected > 0 && rejected < 256);
}

#[test]
fn keypair_bytes() {
    let bytes = bytes_of(2);
    let keypair = Keypair::from_bytes(&bytes).unwrap();
    assert_eq!(&keypair.public().as_bytes()[..], &bytes[32..]);
    assert!(Keypair::from_bytes(&bytes[..63]).is_none());
    assert!(Keypair::from_bytes(&[bytes.as_slice(), &[0]].concat()).is_none());
    let mixed = [&bytes[..32], &bytes_of(3)[32..]].concat();
    let keypair = Keypair::from_bytes(&mixed).unwrap();
    assert_eq!(&keypair.public().as_bytes()[..], &bytes_of(3)[32..]);
}

#[test]
fn exchange_is_symmetric() {
    let (one, other) = (Keypair::generate(), Keypair::generate());
    assert_ne!(one.public().as_bytes(), other.public().as_bytes());
    assert_eq!(one.diffie_hellman(other.public()), other.diffie_hellman(one.public()));
    assert_ne!(one.diffie_hellman(one.public()), one.diffie_hellman(other.public()));
}

#[test]
fn exchange_is_the_product_on_the_curve() {
    let (one, other) = (bytes_of(4), bytes_of(5));
    let secret = ed25519_dalek::SecretKey::from_bytes(&one[..32]).unwrap();
    let expanded = ed25519_dalek::ExpandedSecretKey::from(&secret).to_bytes();
    let mut scalar = [0; 32];
    scalar.copy_from_slice(&expanded[..32]);
    let point = CompressedEdwardsY::from_slice(&other[32..]).decompress().unwrap();
    let product = (Scalar::from_bits(scalar) * point).to_montgomery().to_bytes();

    let one = Keypair::from_bytes(&one).unwrap();
    let other = Keypair::from_bytes(&other).unwrap();
    assert_eq!(one.diffie_hellman(other.public()), product);
    assert_eq!(other.diffie_hellman(one.public()), product);
}
