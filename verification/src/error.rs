//! The errors that close a connection.

use vstd::prelude::*;

verus! {

/// Transport-level error codes that a handshake ends with.
#[derive(Clone, Copy, Debug, PartialEq, Eq, Structural)]
pub enum TransportErrorCode {
    /// The server refused to accept a new connection.
    ConnectionRefused,
    /// Received transport parameters that were badly formatted or held an invalid value.
    TransportParameterError,
}

/// A transport-level error.
#[derive(Debug)]
pub struct TransportError {
    /// Type of error.
    pub code: TransportErrorCode,
    /// Type of the frame that triggered the error.
    pub frame: Option<u64>,
    /// Human-readable explanation of the reason.
    pub reason: String,
}

/// What a transport error says.
#[verifier::ext_equal]
pub struct ErrorView {
    pub code: TransportErrorCode,
    pub frame: Option<u64>,
    pub reason: Seq<char>,
}

impl View for TransportError {
    type V = ErrorView;

    open spec fn view(&self) -> ErrorView {
        ErrorView { code: self.code, frame: self.frame, reason: self.reason@ }
    }
}

/// A connection refused for `reason`.
pub open spec fn refused(reason: Seq<char>) -> ErrorView {
    ErrorView { code: TransportErrorCode::ConnectionRefused, frame: None, reason }
}

/// Transport parameters rejected for `reason`.
pub open spec fn bad_parameters(reason: Seq<char>) -> ErrorView {
    ErrorView { code: TransportErrorCode::TransportParameterError, frame: None, reason }
}

/// The error for a connection that is refused for `reason`.
pub fn connection_refused(reason: &str) -> (error: TransportError)
    ensures
        error@ == refused(reason@),
        error.code == TransportErrorCode::ConnectionRefused,
        error.frame is None,
        error.reason@ == reason@,
{
    TransportError {
        code: TransportErrorCode::ConnectionRefused,
        frame: None,
        reason: reason.to_string(),
    }
}

/// The error for transport parameters that are rejected for `reason`.
pub(crate) fn transport_parameter_error(reason: &str) -> (error: TransportError)
    ensures
        error@ == bad_parameters(reason@),
{
    TransportError {
        code: TransportErrorCode::TransportParameterError,
        frame: None,
        reason: reason.to_string(),
    }
}

} // verus!
