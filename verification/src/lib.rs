//! Noise handshakes for QUIC connections.
//!
//! A client that knows its server's static key and the server set up the keys of a QUIC connection
//! in one round trip, by the pattern IK with a shared key. Ephemeral and static keys are Ed25519
//! keys, exchanged in their Montgomery form, and everything that is sent or agreed on goes through
//! a Xoodyak duplex.
//!
//! - `config` holds the configuration of both ends and starts sessions,
//! - `session` holds the session, which reads and writes the two messages and draws keys,
//! - `model` says what a session is and what its messages are,
//! - `agreement` and `laws` say what holds of two sessions that talk to each other, and of retry
//!   packets,
//! - `message_laws`, `config_laws` and `parameter_laws` say what holds of every message,
//!   configuration and transport parameter,
//! - `duplex`, `keys`, `params` and `retry` hold what comes from other crates.

pub mod agreement;
pub mod bytes;
pub mod config;
pub mod config_laws;
pub mod duplex;
pub mod error;
pub mod keylog;
pub mod keys;
pub mod laws;
pub mod message_laws;
pub mod model;
pub mod packet_key;
pub mod parameter_laws;
pub mod params;
pub mod retry;
pub mod session;
pub mod side;

pub use crate::config::{NoiseClientConfig, NoiseConfig, NoiseServerConfig};
pub use crate::session::NoiseSession;
