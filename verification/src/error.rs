//! The failure taxonomy of one relay invocation, and its mapping to
//! response status classes.
//!
//! Every failure is a value returned to the caller of that one
//! invocation, never a process-level fault; only configuration failures
//! (see [`crate::config`]) are fatal, and those happen before any request
//! is served.

use vstd::prelude::*;

verus! {

/// Building the outbound request failed.
#[derive(Clone, Copy, Debug, PartialEq, Eq, Structural)]
pub enum TranslationError {
    /// The configured target and the inbound path cannot form a valid URL.
    BadTargetUrl,
}

/// The outbound call failed.
#[derive(Clone, Debug)]
pub enum TransportError {
    /// The call did not complete within the configured timeout; the
    /// attempt is abandoned, never retried.
    Timeout,
    /// Connection, DNS or TLS failure, with its cause.
    Unreachable(String),
}

/// Any failure of one relay invocation.
#[derive(Clone, Debug)]
pub enum RelayError {
    Translation(TranslationError),
    Transport(TransportError),
    /// An unexpected internal failure; never crashes the process.
    Internal(String),
}

/// The status class each failure is surfaced as: translation and
/// internal failures as 500, a timeout as 504, an unreachable upstream
/// as 502.
pub open spec fn spec_error_status(e: RelayError) -> u16 {
    match e {
        RelayError::Translation(_) => 500,
        RelayError::Transport(TransportError::Timeout) => 504,
        RelayError::Transport(TransportError::Unreachable(_)) => 502,
        RelayError::Internal(_) => 500,
    }
}

/// The response status code for a failed invocation.
pub fn status_for_error(e: &RelayError) -> (s: u16)
    ensures
        s == spec_error_status(*e),
{
    match e {
        RelayError::Translation(_) => 500,
        RelayError::Transport(TransportError::Timeout) => 504,
        RelayError::Transport(TransportError::Unreachable(_)) => 502,
        RelayError::Internal(_) => 500,
    }
}

} // verus!
