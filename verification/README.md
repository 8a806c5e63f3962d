# quinn-noise

Noise handshakes for QUIC, verified with Verus.

A client that knows its server's static Ed25519 key, and the server, set up the keys of a QUIC
connection in one round trip (pattern `IKpsk1`). Keys, messages and exported keying material come
out of a Xoodyak duplex that both ends feed in the same order.

- `src/` is the library. `model.rs` says what a session is, what its two messages are and what
  reading and writing them does; `session.rs` does it. `agreement.rs` and `laws.rs` state what holds
  of two sessions that talk to each other.
- The outside crates are called through the items of `duplex.rs` (Xoodyak), `keys.rs` (Ed25519 and
  X25519), `params.rs` (transport parameters), `retry.rs` (AES-128-GCM) and `session.rs`
  (constant-time comparison). Their contracts are believed, not proved.
- `app/` plugs sessions into `quinn_proto`, for any packet cipher with 32-byte keys.
- `tests/` runs the library with the real crates.
