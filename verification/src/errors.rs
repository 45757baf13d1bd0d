//! The caller-visible failure taxonomy of the core. Every variant is a
//! recoverable outcome, never a process-fatal condition.

use vstd::prelude::*;

verus! {

/// Failure kinds reported by the lottery, ledger, clock and session
/// operations.
#[derive(Clone, Copy, Debug, PartialEq, Eq, Structural)]
pub enum DjSystemError {
    /// `start_event` found an event that is still active.
    EventAlreadyActive,
    /// An operation needed an active event and none exists.
    NoActiveEvent,
    /// The ledger was asked to insert a candidate that already holds a
    /// queue position.
    AlreadyQueued,
    /// The ledger was asked to move a candidate that holds no queue
    /// position.
    NotQueued,
    /// A requested queue position lies outside `[1, N]`.
    OutOfRange,
    /// A draw was requested over an empty candidate pool; treated as
    /// "nothing to draw", not as a fault.
    EmptyCandidatePool,
    /// A weight update carried a weight of zero or one above the admissible
    /// maximum.
    InvalidWeight,
    /// `start_session` found the performer already holds an open session.
    DjAlreadyInSession,
    /// `end_session` was called on a session that has already ended.
    SessionAlreadyEnded,
    /// A back-to-back session needs at least two performers.
    B2BRequiresTwoDjs,
}

impl DjSystemError {
    /// A human-readable description of the failure.
    pub fn message(&self) -> (r: &'static str)
        ensures
            r@.len() > 0,
    {
        proof {
            reveal_strlit("an event is already running; end the current event first");
            reveal_strlit("no active event found");
            reveal_strlit("candidate already holds a queue position");
            reveal_strlit("candidate holds no queue position");
            reveal_strlit("queue position out of range");
            reveal_strlit("no eligible candidates to draw from");
            reveal_strlit("weight must be positive and within the admissible range");
            reveal_strlit("DJ already has an active session");
            reveal_strlit("session already ended");
            reveal_strlit("B2B session requires at least 2 DJs");
        }
        match self {
            DjSystemError::EventAlreadyActive => {
                "an event is already running; end the current event first"
            },
            DjSystemError::NoActiveEvent => "no active event found",
            DjSystemError::AlreadyQueued => "candidate already holds a queue position",
            DjSystemError::NotQueued => "candidate holds no queue position",
            DjSystemError::OutOfRange => "queue position out of range",
            DjSystemError::EmptyCandidatePool => "no eligible candidates to draw from",
            DjSystemError::InvalidWeight => "weight must be positive and within the admissible range",
            DjSystemError::DjAlreadyInSession => "DJ already has an active session",
            DjSystemError::SessionAlreadyEnded => "session already ended",
            DjSystemError::B2BRequiresTwoDjs => "B2B session requires at least 2 DJs",
        }
    }
}

} // verus!
