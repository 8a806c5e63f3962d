//! The Xoodyak duplex that both peers of a handshake feed in the same order.

use vstd::prelude::*;
use xoodoo::Xoodyak;

verus! {

#[verifier::external_type_specification]
#[verifier::external_body]
pub struct ExXoodyak(Xoodyak);

/// What a duplex holds: the 48 bytes of its permutation state, then one byte for its mode (0 for
/// hashing, 1 for keyed) and one byte for its phase (0 for up, 1 for down).
pub uninterp spec fn duplex_state(duplex: Xoodyak) -> Seq<u8>;

/// What `Xoodyak::keyed` holds for a key without an id, a nonce or a counter.
pub uninterp spec fn keyed_state(key: Seq<u8>) -> Seq<u8>;

/// What `Xoodyak::absorb` turns a state into.
pub uninterp spec fn absorb_state(state: Seq<u8>, data: Seq<u8>) -> Seq<u8>;

/// What `Xoodyak::ratchet` turns a state into.
pub uninterp spec fn ratchet_state(state: Seq<u8>) -> Seq<u8>;

/// What `Xoodyak::squeeze` writes into `len` bytes, and the state that it leaves.
pub uninterp spec fn squeeze_output(state: Seq<u8>, len: nat) -> (Seq<u8>, Seq<u8>);

/// What `Xoodyak::squeeze_key` writes into `len` bytes, and the state that it leaves.
pub uninterp spec fn squeeze_key_output(state: Seq<u8>, len: nat) -> (Seq<u8>, Seq<u8>);

/// The ciphertext that `Xoodyak::encrypt` writes, and the state that it leaves.
pub uninterp spec fn encrypt_output(state: Seq<u8>, plain: Seq<u8>) -> (Seq<u8>, Seq<u8>);

/// The plaintext that `Xoodyak::decrypt` writes, and the state that it leaves.
pub uninterp spec fn decrypt_output(state: Seq<u8>, cipher: Seq<u8>) -> (Seq<u8>, Seq<u8>);

/// Whether the state is that of a keyed duplex.
pub open spec fn is_keyed(state: Seq<u8>) -> bool {
    state.len() == 50 && state[48] == 1u8
}

/// `output` taken at the length `len` that the call which wrote it was asked for.
pub open spec fn sized(output: Seq<u8>, len: nat) -> Seq<u8> {
    Seq::new(len, |i: int| output[i])
}

/// The `len` bytes that a squeeze gives.
pub open spec fn squeezed(state: Seq<u8>, len: nat) -> Seq<u8> {
    sized(squeeze_output(state, len).0, len)
}

/// The state after a squeeze of `len` bytes.
pub open spec fn after_squeeze(state: Seq<u8>, len: nat) -> Seq<u8> {
    squeeze_output(state, len).1
}

/// The `len` bytes that a key squeeze gives.
pub open spec fn squeezed_key(state: Seq<u8>, len: nat) -> Seq<u8> {
    sized(squeeze_key_output(state, len).0, len)
}

/// The state after a key squeeze of `len` bytes.
pub open spec fn after_squeeze_key(state: Seq<u8>, len: nat) -> Seq<u8> {
    squeeze_key_output(state, len).1
}

/// The ciphertext of `plain`, of the same length.
pub open spec fn encrypted(state: Seq<u8>, plain: Seq<u8>) -> Seq<u8> {
    sized(encrypt_output(state, plain).0, plain.len())
}

/// The state after `plain` was encrypted.
pub open spec fn after_encrypt(state: Seq<u8>, plain: Seq<u8>) -> Seq<u8> {
    encrypt_output(state, plain).1
}

/// The plaintext of `cipher`, of the same length.
pub open spec fn decrypted(state: Seq<u8>, cipher: Seq<u8>) -> Seq<u8> {
    sized(decrypt_output(state, cipher).0, cipher.len())
}

/// The state after `cipher` was decrypted.
pub open spec fn after_decrypt(state: Seq<u8>, cipher: Seq<u8>) -> Seq<u8> {
    decrypt_output(state, cipher).1
}

/// Decryption in `state` undoes encryption: if `cipher` is what encrypting some plaintext in the
/// same state gives, that plaintext comes back and both duplexes go on in the same state.
pub open spec fn decrypt_inverts(state: Seq<u8>, cipher: Seq<u8>) -> bool {
    forall|plain: Seq<u8>| #[trigger]
        encrypted(state, plain) == cipher ==> {
            &&& decrypted(state, cipher) == plain
            &&& after_decrypt(state, cipher) == after_encrypt(state, plain)
        }
}

/// `Xoodyak::hash`: an all-zero state, hashing, in the up phase.
pub assume_specification[ Xoodyak::hash ]() -> (duplex: Xoodyak)
    ensures
        duplex_state(duplex) == Seq::new(50, |i: int| 0u8),
;

/// `Xoodyak::keyed` without id, nonce and counter: a keyed duplex that depends on the key alone.
/// The key has to leave room for the byte that gives the length of the id.
#[verifier::external_body]
pub(crate) fn keyed(key: &[u8]) -> (duplex: Xoodyak)
    requires
        key@.len() <= 43,
    ensures
        duplex_state(duplex) == keyed_state(key@),
        is_keyed(duplex_state(duplex)),
{
    Xoodyak::keyed(key, None, None, None)
}

/// `Xoodyak::clone`, which is derived: the copy holds the same.
pub assume_specification[ <Xoodyak as Clone>::clone ](duplex: &Xoodyak) -> (cloned: Xoodyak)
    ensures
        duplex_state(cloned) == duplex_state(*duplex),
;

/// `Xoodyak::absorb`: the next state depends on the state and the data, the mode stays.
pub assume_specification[ Xoodyak::absorb ](duplex: &mut Xoodyak, bin: &[u8])
    ensures
        duplex_state(*final(duplex)) == absorb_state(duplex_state(*old(duplex)), bin@),
        is_keyed(duplex_state(*final(duplex))) == is_keyed(duplex_state(*old(duplex))),
;

/// `Xoodyak::ratchet`: the next state depends on the state alone, the mode stays. Debug builds
/// check that the duplex is keyed.
pub assume_specification[ Xoodyak::ratchet ](duplex: &mut Xoodyak)
    requires
        is_keyed(duplex_state(*old(duplex))),
    ensures
        duplex_state(*final(duplex)) == ratchet_state(duplex_state(*old(duplex))),
        is_keyed(duplex_state(*final(duplex))),
;

/// `Xoodyak::squeeze`: the whole of `out` is written; what is written and the next state depend on
/// the state and the length, the mode stays.
pub assume_specification[ Xoodyak::squeeze ](duplex: &mut Xoodyak, out: &mut [u8])
    ensures
        final(out)@.len() == old(out)@.len(),
        (final(out)@, duplex_state(*final(duplex))) == squeeze_output(
            duplex_state(*old(duplex)),
            old(out)@.len(),
        ),
        is_keyed(duplex_state(*final(duplex))) == is_keyed(duplex_state(*old(duplex))),
;

/// `Xoodyak::squeeze_key`: like `squeeze`, in the domain of keys. Debug builds check that the
/// duplex is keyed.
pub assume_specification[ Xoodyak::squeeze_key ](duplex: &mut Xoodyak, out: &mut [u8])
    requires
        is_keyed(duplex_state(*old(duplex))),
    ensures
        final(out)@.len() == old(out)@.len(),
        (final(out)@, duplex_state(*final(duplex))) == squeeze_key_output(
            duplex_state(*old(duplex)),
            old(out)@.len(),
        ),
        is_keyed(duplex_state(*final(duplex))),
;

/// `Xoodyak::encrypt` between buffers of one length: what is written and the next state depend on
/// the state and the plaintext, the mode stays. Debug builds check that the duplex is keyed.
pub assume_specification[ Xoodyak::encrypt ](duplex: &mut Xoodyak, bin: &[u8], out: &mut [u8])
    requires
        is_keyed(duplex_state(*old(duplex))),
        bin@.len() == old(out)@.len(),
    ensures
        final(out)@.len() == bin@.len(),
        (final(out)@, duplex_state(*final(duplex))) == encrypt_output(
            duplex_state(*old(duplex)),
            bin@,
        ),
        is_keyed(duplex_state(*final(duplex))),
;

/// `Xoodyak::decrypt` between buffers of one length: what is written and the next state depend on
/// the state and the ciphertext, the mode stays. It draws the same key stream as `encrypt` and
/// feeds the plaintext back as `encrypt` does, so a ciphertext that was made in the same state
/// gives its plaintext, and leaves the state that `encrypt` left. Debug builds check that the
/// duplex is keyed.
pub assume_specification[ Xoodyak::decrypt ](duplex: &mut Xoodyak, bin: &[u8], out: &mut [u8])
    requires
        is_keyed(duplex_state(*old(duplex))),
        bin@.len() == old(out)@.len(),
    ensures
        final(out)@.len() == bin@.len(),
        (final(out)@, duplex_state(*final(duplex))) == decrypt_output(
            duplex_state(*old(duplex)),
            bin@,
        ),
        forall|plain: Seq<u8>| #[trigger]
            encrypted(duplex_state(*old(duplex)), plain) == bin@ ==> {
                &&& final(out)@ == plain
                &&& duplex_state(*final(duplex)) == after_encrypt(
                    duplex_state(*old(duplex)),
                    plain,
                )
            },
        is_keyed(duplex_state(*final(duplex))),
;

/// Encrypts `plain` into a buffer of its own.
pub(crate) fn encrypt_bytes(duplex: &mut Xoodyak, plain: &[u8]) -> (cipher: Vec<u8>)
    requires
        is_keyed(duplex_state(*old(duplex))),
    ensures
        cipher@ == encrypted(duplex_state(*old(duplex)), plain@),
        duplex_state(*final(duplex)) == after_encrypt(duplex_state(*old(duplex)), plain@),
        is_keyed(duplex_state(*final(duplex))),
{
    let mut cipher: Vec<u8> = vec![0u8; plain.len()];
    duplex.encrypt(plain, cipher.as_mut_slice());
    cipher
}

/// Decrypts `cipher` into a buffer of its own.
pub(crate) fn decrypt_bytes(duplex: &mut Xoodyak, cipher: &[u8]) -> (plain: Vec<u8>)
    requires
        is_keyed(duplex_state(*old(duplex))),
    ensures
        plain@ == decrypted(duplex_state(*old(duplex)), cipher@),
        duplex_state(*final(duplex)) == after_decrypt(duplex_state(*old(duplex)), cipher@),
        is_keyed(duplex_state(*final(duplex))),
        decrypt_inverts(duplex_state(*old(duplex)), cipher@),
{
    let mut plain: Vec<u8> = vec![0u8; cipher.len()];
    duplex.decrypt(cipher, plain.as_mut_slice());
    assert(plain@ == decrypted(duplex_state(*old(duplex)), cipher@));
    plain
}

} // verus!
