//! The keys that protect packets.

use vstd::prelude::*;

verus! {

/// A pair of keys for bidirectional communication.
pub struct KeyPair<T> {
    /// Key for encrypting data.
    pub local: T,
    /// Key for decrypting data.
    pub remote: T,
}

/// The header key: packet headers are sent as they are.
#[derive(Clone, Copy, Debug, PartialEq, Eq, Structural)]
pub struct PlaintextHeaderKey;

/// The header keys of every packet space.
pub fn header_keypair() -> (pair: KeyPair<PlaintextHeaderKey>)
    ensures
        pair == (KeyPair { local: PlaintextHeaderKey, remote: PlaintextHeaderKey }),
{
    KeyPair { local: PlaintextHeaderKey, remote: PlaintextHeaderKey }
}

/// A ChaCha8 key for packet payloads.
#[derive(Clone, Copy)]
pub struct ChaCha8PacketKey {
    key: [u8; 32],
}

impl View for ChaCha8PacketKey {
    type V = Seq<u8>;

    closed spec fn view(&self) -> Seq<u8> {
        self.key@
    }
}

impl ChaCha8PacketKey {
    /// The packet key with the given bytes.
    pub fn new(key: [u8; 32]) -> (packet_key: ChaCha8PacketKey)
        ensures
            packet_key@ == key@,
    {
        ChaCha8PacketKey { key }
    }

    /// The bytes of the key.
    pub fn as_bytes(&self) -> (bytes: &[u8; 32])
        ensures
            bytes@ == self@,
    {
        &self.key
    }
}

/// A complete set of keys for a packet space.
pub struct Keys {
    /// Header protection keys.
    pub header: KeyPair<PlaintextHeaderKey>,
    /// Packet protection keys.
    pub packet: KeyPair<ChaCha8PacketKey>,
}

/// The bytes of a pair of packet keys.
pub open spec fn pair_bytes(pair: KeyPair<ChaCha8PacketKey>) -> KeyPair<Seq<u8>> {
    KeyPair { local: pair.local@, remote: pair.remote@ }
}

/// The bytes of the packet keys that were handed out, if any were.
pub open spec fn keys_bytes(keys: Option<Keys>) -> Option<KeyPair<Seq<u8>>> {
    match keys {
        Some(keys) => Some(pair_bytes(keys.packet)),
        None => None,
    }
}

} // verus!
