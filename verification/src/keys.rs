//! Ed25519 keys and the Diffie-Hellman exchange on them.

use vstd::prelude::*;
use vstd::slice::slice_subrange;

use crate::bytes::to_array_32;

verus! {

/// Whether `ed25519_dalek::PublicKey::from_bytes` accepts the bytes.
pub uninterp spec fn public_key_valid(bytes: Seq<u8>) -> bool;

/// The bytes of the public key that `ed25519_dalek::PublicKey::from` derives from a secret key.
pub uninterp spec fn public_key_of(secret: Seq<u8>) -> Seq<u8>;

/// The X25519 product of the scalar behind a secret key and the point behind a public key.
pub uninterp spec fn shared_secret(secret: Seq<u8>, public: Seq<u8>) -> Seq<u8>;

/// The exchange of `secret` with `public` is symmetric: whoever holds the secret behind `public`
/// finds the same value with the public key of `secret`.
pub open spec fn exchange_symmetric(secret: Seq<u8>, public: Seq<u8>) -> bool {
    forall|other: Seq<u8>|
        other.len() == 32 && #[trigger] public_key_of(other) == public ==> shared_secret(
            other,
            public_key_of(secret),
        ) == shared_secret(secret, public)
}

/// `ed25519_dalek::PublicKey::from_bytes`: whether the bytes are the compressed form of a point of
/// the curve. Only 32 bytes can be.
#[verifier::external_body]
fn check_public_key(bytes: &[u8]) -> (valid: bool)
    ensures
        valid == public_key_valid(bytes@),
        valid ==> bytes@.len() == 32,
{
    ed25519_dalek::PublicKey::from_bytes(bytes).is_ok()
}

/// `ed25519_dalek::Keypair::generate` with the random number generator of the operating system:
/// a secret key, of which nothing is said, and the public key that belongs to it.
#[verifier::external_body]
fn generate_keypair() -> (keypair: ([u8; 32], [u8; 32]))
    ensures
        keypair.1@ == public_key_of(keypair.0@),
        public_key_valid(keypair.1@),
{
    let keypair = ed25519_dalek::Keypair::generate(&mut rand_core::OsRng {});
    (keypair.secret.to_bytes(), keypair.public.to_bytes())
}

/// X25519 with `curve25519_dalek`: the scalar that `ed25519_dalek::ExpandedSecretKey` holds for
/// the secret key, times the Montgomery form of the public key's point. The product depends on
/// the two keys alone, and it is the same when the two owners change places, as both find the
/// product of both scalars and the base point. The public key has to be a point of the curve.
#[verifier::external_body]
fn x25519(secret: &[u8; 32], public: &[u8; 32]) -> (shared: [u8; 32])
    requires
        public_key_valid(public@),
    ensures
        shared@ == shared_secret(secret@, public@),
        forall|other: Seq<u8>|
            other.len() == 32 && #[trigger] public_key_of(other) == public@ ==> shared@
                == shared_secret(other, public_key_of(secret@)),
{
    let secret = ed25519_dalek::SecretKey::from_bytes(secret).unwrap();
    let expanded = ed25519_dalek::ExpandedSecretKey::from(&secret).to_bytes();
    let mut scalar = [0u8; 32];
    scalar.copy_from_slice(&expanded[..32]);
    let scalar = curve25519_dalek::scalar::Scalar::from_bits(scalar);
    let point = curve25519_dalek::edwards::CompressedEdwardsY(*public).decompress().unwrap();
    (scalar * point.to_montgomery()).to_bytes()
}

/// An Ed25519 public key: 32 bytes that are a point of the curve.
#[derive(Clone, Copy)]
pub struct PublicKey {
    bytes: [u8; 32],
}

impl View for PublicKey {
    type V = Seq<u8>;

    closed spec fn view(&self) -> Seq<u8> {
        self.bytes@
    }
}

impl PublicKey {
    #[verifier::type_invariant]
    spec fn is_point(self) -> bool {
        public_key_valid(self.bytes@)
    }

    /// Takes the bytes of a public key, if they are one.
    pub fn from_bytes(bytes: &[u8]) -> (key: Option<PublicKey>)
        ensures
            key is Some <==> public_key_valid(bytes@),
            key matches Some(key) ==> key@ == bytes@,
    {
        if check_public_key(bytes) {
            Some(PublicKey { bytes: to_array_32(bytes) })
        } else {
            None
        }
    }

    /// The bytes of the key.
    pub fn as_bytes(&self) -> (bytes: &[u8; 32])
        ensures
            bytes@ == self@,
            public_key_valid(bytes@),
    {
        proof {
            use_type_invariant(self);
        }
        &self.bytes
    }
}

/// A public key has 32 bytes.
pub(crate) proof fn lemma_public_key_len(key: PublicKey)
    ensures
        key@.len() == 32,
{
}

/// What a key pair stands for.
#[verifier::ext_equal]
pub struct KeypairView {
    pub secret: Seq<u8>,
    pub public: Seq<u8>,
}

impl KeypairView {
    /// A secret key of the right length, a public key that is a point, and the two belong together.
    pub open spec fn matched(self) -> bool {
        &&& self.secret.len() == 32
        &&& public_key_valid(self.public)
        &&& self.public.len() == 32
        &&& self.public == public_key_of(self.secret)
    }

    /// The Diffie-Hellman exchange of this pair with another's public key.
    pub open spec fn exchange(self, public: Seq<u8>) -> Seq<u8> {
        shared_secret(self.secret, public)
    }
}

/// An Ed25519 key pair.
#[derive(Clone, Copy)]
pub struct Keypair {
    secret: [u8; 32],
    public: PublicKey,
}

impl View for Keypair {
    type V = KeypairView;

    closed spec fn view(&self) -> KeypairView {
        KeypairView { secret: self.secret@, public: self.public@ }
    }
}

/// The public half of a key pair has 32 bytes.
pub(crate) proof fn lemma_keypair_public_len(keypair: Keypair)
    ensures
        keypair@.public.len() == 32,
{
    lemma_public_key_len(keypair.public);
}

impl Keypair {
    /// Takes the 32 bytes of a secret key and the 32 bytes of a public key after them. That the
    /// two belong together is not checked.
    pub fn from_bytes(bytes: &[u8]) -> (keypair: Option<Keypair>)
        ensures
            keypair is Some <==> bytes@.len() == 64 && public_key_valid(bytes@.subrange(32, 64)),
            keypair matches Some(keypair) ==> keypair@ == (KeypairView {
                secret: bytes@.subrange(0, 32),
                public: bytes@.subrange(32, 64),
            }),
    {
        if bytes.len() != 64 {
            return None;
        }
        match PublicKey::from_bytes(slice_subrange(bytes, 32, 64)) {
            Some(public) => Some(
                Keypair { secret: to_array_32(slice_subrange(bytes, 0, 32)), public },
            ),
            None => None,
        }
    }

    /// Draws a new key pair from the operating system's random numbers.
    pub fn generate() -> (keypair: Keypair)
        ensures
            keypair@.matched(),
            keypair@.public == public_key_of(keypair@.secret),
    {
        let (secret, public) = generate_keypair();
        Keypair { secret, public: PublicKey { bytes: public } }
    }

    /// The public half.
    pub fn public(&self) -> (public: &PublicKey)
        ensures
            public@ == self@.public,
    {
        &self.public
    }

    /// The secret that this pair shares with the owner of `public`.
    pub fn diffie_hellman(&self, public: &PublicKey) -> (shared: [u8; 32])
        ensures
            shared@ == self@.exchange(public@),
            shared@ == shared_secret(self@.secret, public@),
            exchange_symmetric(self@.secret, public@),
    {
        x25519(&self.secret, public.as_bytes())
    }
}

} // verus!
