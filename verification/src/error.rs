//! Session-fatal error taxonomy.

use vstd::prelude::*;

verus! {

/// Why a session failed.  Every variant is fatal to its session and drives
/// the state machine into the `Disconnected` terminal state.
#[derive(Clone, Copy, Debug, PartialEq, Eq, Structural)]
pub enum TransferError {
    /// Unexpected frame for the current state, bad sequence number,
    /// commitment mismatch, oversize or malformed frame.
    ProtocolViolation,
    /// MAC mismatch, padding error, invalid EC point, key derivation failure.
    CryptoFailure,
    /// Socket read or write failure, unexpected end of stream.
    TransportFailure,
    /// File create, write or sync failure.
    IoFailure,
}

} // verus!
