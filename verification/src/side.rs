//! The two ends of a connection.

use vstd::prelude::*;

verus! {

/// The two ends of a connection.
#[derive(Clone, Copy, Debug, PartialEq, Eq, Structural)]
pub enum Side {
    /// The initiator of a connection.
    Client,
    /// The acceptor of a connection.
    Server,
}

} // verus!
