//! The integrity tag of retry packets.

use ring::aead;
use vstd::prelude::*;
use vstd::slice::slice_subrange;

use crate::bytes::append;

verus! {

/// The key of the retry integrity tag.
pub const RETRY_INTEGRITY_KEY: [u8; 16] = [
    0xcc, 0xce, 0x18, 0x7e, 0xd0, 0x9a, 0x09, 0xd0, 0x57, 0x28, 0x15, 0x5a, 0x6c, 0xb9, 0x6b, 0xe1,
];

/// The nonce of the retry integrity tag.
pub const RETRY_INTEGRITY_NONCE: [u8; 12] = [
    0xe5, 0x49, 0x30, 0xf9, 0x7f, 0x21, 0x36, 0xf0, 0x53, 0x0a, 0x8c, 0x1c,
];

/// The tag that AES-128-GCM gives an empty message with associated data.
pub uninterp spec fn aes_128_gcm_tag(key: Seq<u8>, nonce: Seq<u8>, associated: Seq<u8>) -> Seq<u8>;

/// `LessSafeKey::seal_in_place_separate_tag` of `ring` with AES-128-GCM on an empty message: the
/// tag depends on the key, the nonce and the associated data, and has 16 bytes.
#[verifier::external_body]
fn seal_empty(key: &[u8; 16], nonce: &[u8; 12], associated: &[u8]) -> (tag: [u8; 16])
    ensures
        tag@ == aes_128_gcm_tag(key@, nonce@, associated@),
{
    let key = aead::LessSafeKey::new(aead::UnboundKey::new(&aead::AES_128_GCM, key).unwrap());
    let nonce = aead::Nonce::assume_unique_for_key(*nonce);
    let tag = key.seal_in_place_separate_tag(nonce, aead::Aad::from(associated), &mut []).unwrap();
    let mut result = [0; 16];
    result.copy_from_slice(tag.as_ref());
    result
}

/// `LessSafeKey::open_in_place` of `ring` with AES-128-GCM on a tag without a ciphertext: it
/// succeeds exactly on the tag that sealing the empty message with the same key, nonce and
/// associated data gives.
#[verifier::external_body]
fn open_empty(key: &[u8; 16], nonce: &[u8; 12], associated: &[u8], tag: &mut [u8]) -> (opened: bool)
    requires
        old(tag)@.len() == 16,
    ensures
        opened == (old(tag)@ == aes_128_gcm_tag(key@, nonce@, associated@)),
{
    let key = aead::LessSafeKey::new(aead::UnboundKey::new(&aead::AES_128_GCM, key).unwrap());
    let nonce = aead::Nonce::assume_unique_for_key(*nonce);
    key.open_in_place(nonce, aead::Aad::from(associated), tag).is_ok()
}

/// A connection id: at most 20 bytes.
#[derive(Debug)]
pub struct ConnectionId {
    bytes: Vec<u8>,
}

impl View for ConnectionId {
    type V = Seq<u8>;

    closed spec fn view(&self) -> Seq<u8> {
        self.bytes@
    }
}

impl ConnectionId {
    #[verifier::type_invariant]
    spec fn fits(self) -> bool {
        self.bytes@.len() <= 20
    }

    /// The connection id with the given bytes.
    pub fn new(bytes: &[u8]) -> (id: ConnectionId)
        requires
            bytes@.len() <= 20,
        ensures
            id@ == bytes@,
    {
        ConnectionId { bytes: vstd::slice::slice_to_vec(bytes) }
    }

    /// The bytes of the id.
    pub fn as_bytes(&self) -> (bytes: &[u8])
        ensures
            bytes@ == self@,
            bytes@.len() <= 20,
    {
        proof {
            use_type_invariant(self);
        }
        self.bytes.as_slice()
    }
}

/// The retry pseudo-packet: the length of the original connection id, the id and the packet.
pub open spec fn pseudo_packet(orig_dst_cid: Seq<u8>, packet: Seq<u8>) -> Seq<u8> {
    seq![orig_dst_cid.len() as u8] + orig_dst_cid + packet
}

/// The integrity tag of a retry packet that answers the original connection id.
pub open spec fn integrity_tag(orig_dst_cid: Seq<u8>, packet: Seq<u8>) -> Seq<u8> {
    aes_128_gcm_tag(
        RETRY_INTEGRITY_KEY@,
        RETRY_INTEGRITY_NONCE@,
        pseudo_packet(orig_dst_cid, packet),
    )
}

/// Whether a retry packet ends in the integrity tag of what precedes it.
pub open spec fn ends_in_tag(orig_dst_cid: Seq<u8>, header: Seq<u8>, payload: Seq<u8>) -> bool {
    payload.len() >= 16 && payload.skip(payload.len() - 16) == integrity_tag(
        orig_dst_cid,
        header + payload.take(payload.len() - 16),
    )
}

/// The integrity tag of a retry packet.
pub(crate) fn retry_tag(orig_dst_cid: &ConnectionId, packet: &[u8]) -> (tag: [u8; 16])
    ensures
        tag@ == integrity_tag(orig_dst_cid@, packet@),
{
    let id = orig_dst_cid.as_bytes();
    let mut pseudo: Vec<u8> = Vec::new();
    pseudo.push(id.len() as u8);
    append(&mut pseudo, id);
    append(&mut pseudo, packet);
    assert(pseudo@ == pseudo_packet(orig_dst_cid@, packet@));
    seal_empty(&RETRY_INTEGRITY_KEY, &RETRY_INTEGRITY_NONCE, pseudo.as_slice())
}

/// Whether a retry packet, given as its header and the payload with the tag, is intact.
pub(crate) fn is_valid_retry(
    orig_dst_cid: &ConnectionId,
    header: &[u8],
    payload: &[u8],
) -> (valid: bool)
    ensures
        valid == ends_in_tag(orig_dst_cid@, header@, payload@),
{
    if payload.len() < 16 {
        return false;
    }
    let tag_start: usize = payload.len() - 16;
    let id = orig_dst_cid.as_bytes();
    let body = slice_subrange(payload, 0, tag_start);
    let mut pseudo: Vec<u8> = Vec::new();
    pseudo.push(id.len() as u8);
    append(&mut pseudo, id);
    append(&mut pseudo, header);
    append(&mut pseudo, body);
    assert(body@ == payload@.take(tag_start as int));
    assert(pseudo@ == pseudo_packet(orig_dst_cid@, header@ + body@));
    let mut tag = vstd::slice::slice_to_vec(slice_subrange(payload, tag_start, payload.len()));
    assert(tag@ == payload@.skip(tag_start as int));
    open_empty(
        &RETRY_INTEGRITY_KEY,
        &RETRY_INTEGRITY_NONCE,
        pseudo.as_slice(),
        tag.as_mut_slice(),
    )
}

} // verus!
