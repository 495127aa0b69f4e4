//! The error taxonomy: transport faults, framing faults, and the message- and
//! action-level errors the host reports.

use vstd::prelude::*;

verus! {

/// Errors at the message and action level.
#[derive(Debug, Clone, Copy, PartialEq, Eq, Structural)]
pub enum MessageError {
    /// No command is registered under the requested index.
    NoMatchingCommand,
    /// The host process for a command action could not be started.
    CommandLaunch,
    /// The host process started but exited with a failure status.
    CommandExitFailure,
    /// A key code in a keyboard action maps to no known key.
    NoMatchingKey,
    /// A packet write to the transport was refused.
    USBWriteFailure,
    /// A byte buffer does not hold a valid message encoding.
    Cbor,
}

/// Errors of one packet exchange with a transport endpoint.
#[derive(Debug, Clone, Copy, PartialEq, Eq, Structural)]
pub enum TransportError {
    /// The endpoint is not currently connected; wait for a connection.
    Disabled,
    /// A received packet exceeded the caller's buffer: a configuration bug.
    Overflow,
    /// The connection is gone and no further packet will arrive.
    Closed,
}

impl TransportError {
    /// Whether the error is a fatal configuration bug rather than a
    /// recoverable connection event.
    pub fn is_fatal(&self) -> (r: bool)
        ensures
            r == (*self == TransportError::Overflow),
    {
        match self {
            TransportError::Overflow => true,
            _ => false,
        }
    }
}

/// Errors of receiving one framed message.
#[derive(Debug, Clone, Copy, PartialEq, Eq, Structural)]
pub enum FrameError {
    /// The accumulated bytes do not decode to a message.
    Cbor,
    /// The transport failed before a terminator packet arrived.
    TransportClosed,
}

/// A catch-all error for the device-side executable.
#[derive(Debug, Clone, Copy, PartialEq)]
pub enum MyError<'a> {
    /// An error described only by a message.
    _Generic(&'a str),
}

} // verus!
