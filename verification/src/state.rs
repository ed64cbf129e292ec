//! Session states and the transition discipline.

use vstd::prelude::*;

verus! {

/// The state of one transfer session.  `Initial` is the starting state;
/// `Finished`, `Cancelled`, `Rejected` and `Disconnected` are terminal.
#[derive(Clone, Copy, Debug, PartialEq, Eq, Structural)]
pub enum TransferState {
    Initial,
    ReceivedConnectionRequest,
    SentUkeyServerInit,
    SentUkeyClientInit,
    SentUkeyClientFinish,
    SentPairedKeyEncryption,
    ReceivedUkeyClientFinish,
    SentConnectionResponse,
    SentPairedKeyResult,
    SentIntroduction,
    ReceivedPairedKeyResult,
    WaitingForUserConsent,
    ReceivingFiles,
    SendingFiles,
    Disconnected,
    Rejected,
    Cancelled,
    Finished,
}

impl Default for TransferState {
    /// A fresh session starts in `Initial`.
    fn default() -> (r: Self)
        ensures
            r == TransferState::Initial,
    {
        TransferState::Initial
    }
}

/// Whether a state is terminal.  Terminal states are absorbing: no event
/// moves a session out of one.
pub open spec fn is_terminal(s: TransferState) -> bool {
    s == TransferState::Finished || s == TransferState::Cancelled || s == TransferState::Rejected
        || s == TransferState::Disconnected
}

/// Whether a session in state `s` may move to state `t` on one event:
/// either along the handshake and transfer graph of its role, or to a
/// terminal state (cancellation, decline, failure, completion).
pub open spec fn step_allowed(s: TransferState, t: TransferState) -> bool {
    ||| t == s
    ||| is_terminal(t) && !is_terminal(s)
    ||| !is_terminal(s) && match (s, t) {
        // Inbound role.
        (TransferState::Initial, TransferState::ReceivedConnectionRequest) => true,
        (TransferState::ReceivedConnectionRequest, TransferState::SentUkeyServerInit) => true,
        (TransferState::SentUkeyServerInit, TransferState::ReceivedUkeyClientFinish) => true,
        (TransferState::ReceivedUkeyClientFinish, TransferState::SentConnectionResponse) => true,
        (TransferState::SentConnectionResponse, TransferState::SentPairedKeyEncryption) => true,
        (TransferState::SentPairedKeyEncryption, TransferState::ReceivedPairedKeyResult) => true,
        (TransferState::ReceivedPairedKeyResult, TransferState::SentPairedKeyResult) => true,
        (TransferState::SentPairedKeyResult, TransferState::WaitingForUserConsent) => true,
        (TransferState::WaitingForUserConsent, TransferState::ReceivingFiles) => true,
        // Outbound role.
        (TransferState::Initial, TransferState::SentUkeyClientInit) => true,
        (TransferState::SentUkeyClientInit, TransferState::SentUkeyClientFinish) => true,
        (TransferState::SentUkeyClientFinish, TransferState::SentPairedKeyEncryption) => true,
        (TransferState::SentPairedKeyResult, TransferState::SentIntroduction) => true,
        (TransferState::SentIntroduction, TransferState::SendingFiles) => true,
        _ => false,
    }
}


/// Whether one session step may move a session from `s` to `t`: along the
/// transition graph, passing through at most two intermediate states (a
/// single frame can carry a session through transient states, such as
/// answering an opened commitment).
pub open spec fn reachable_in_three(s: TransferState, t: TransferState) -> bool {
    ||| step_allowed(s, t)
    ||| exists|m: TransferState| step_allowed(s, m) && #[trigger] step_allowed(m, t)
    ||| exists|m1: TransferState, m2: TransferState|
        step_allowed(s, m1) && #[trigger] step_allowed(m1, m2) && #[trigger] step_allowed(m2, t)
}

/// Exactly four states are terminal, and `step_allowed` never leaves one.
pub proof fn lemma_terminal_absorbing(s: TransferState, t: TransferState)
    requires
        is_terminal(s),
        step_allowed(s, t),
    ensures
        t == s,
{
}

/// Tests whether a state is terminal.
pub fn state_is_terminal(s: &TransferState) -> (r: bool)
    ensures
        r == is_terminal(*s),
{
    match s {
        TransferState::Finished => true,
        TransferState::Cancelled => true,
        TransferState::Rejected => true,
        TransferState::Disconnected => true,
        _ => false,
    }
}

} // verus!
