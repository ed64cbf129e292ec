//! Core protocol engine for a Quick Share compatible file-transfer agent.
//!
//! The crate covers the protocol layer that drives an established reliable
//! byte stream through UKEY2 key agreement, a framed and authenticated
//! record layer, a session state machine with consent gating, and chunked
//! payload transfer with progress reporting.  Socket, file and timer I/O
//! stay outside; the session engine consumes plain events and returns the
//! actions the caller must perform.

pub mod channel;
pub mod crypto;
pub mod discovery;
pub mod error;
pub mod frames;
pub mod record;
pub mod session;
pub mod state;
pub mod text;
pub mod ukey2;
pub mod wire;
