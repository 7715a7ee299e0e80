//! Error taxonomy of the client: every recoverable condition is an ordinary
//! value the session manager can react to; only configuration faults are
//! fatal.

use vstd::prelude::*;

verus! {

/// What went wrong, and whether the run loop may reconnect afterwards.
#[derive(Clone, Copy, Debug, PartialEq, Eq, Structural)]
pub enum Error {
    /// Connect, read or write failure at the socket layer; recoverable,
    /// triggers a reconnect.
    TransportError,
    /// A frame did not decode as the envelope shape its opcode implies;
    /// recoverable, the frame is discarded and the connection continues.
    MalformedFrame,
    /// A heartbeat acknowledgment did not arrive within one interval;
    /// recoverable, triggers a reconnect.
    LivenessTimeout,
    /// The server declared the session not resumable, or state ordering was
    /// broken; recoverable, forces a fresh identify.
    ProtocolViolation,
    /// Missing or invalid token or bootstrap URL; fatal, surfaced to the
    /// caller at startup.
    ConfigurationError,
}

impl Error {
    /// Whether the run loop is allowed to reconnect after this error.
    pub fn recoverable(&self) -> (r: bool)
        ensures
            r == (*self != Error::ConfigurationError),
    {
        match self {
            Error::ConfigurationError => false,
            _ => true,
        }
    }
}

} // verus!
