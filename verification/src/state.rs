//! The status that a context transfer hands to the side that resumes.

use vstd::prelude::*;

verus! {

/// What the scheduler learns when control comes back from a task.
#[derive(Clone, Copy, Debug, PartialEq, Eq, Structural)]
pub enum State {
    /// The task yielded and can be resumed again.
    Pending,
    /// The task is finished: its closure returned, panicked or was cancelled.
    Ready,
}

/// The tag that a transfer leaves in the accumulator for `Pending`.
pub const PENDING_CODE: u64 = 0;

/// The tag that a transfer leaves in the accumulator for `Ready`.
pub const READY_CODE: u64 = 1;

impl State {
    /// The tag of a status as a machine word.
    pub open spec fn spec_code(self) -> u64 {
        match self {
            State::Pending => PENDING_CODE,
            State::Ready => READY_CODE,
        }
    }

    /// The status that a machine word stands for, if any.
    pub open spec fn spec_from_code(code: u64) -> Option<State> {
        if code == PENDING_CODE {
            Some(State::Pending)
        } else if code == READY_CODE {
            Some(State::Ready)
        } else {
            None
        }
    }

    /// The tag of a status as a machine word.
    #[verifier::when_used_as_spec(spec_code)]
    pub fn code(self) -> (c: u64)
        ensures
            c == self.spec_code(),
    {
        match self {
            State::Pending => PENDING_CODE,
            State::Ready => READY_CODE,
        }
    }

    /// Decodes a machine word; any word but the two tags gives `None`.
    pub fn from_code(code: u64) -> (s: Option<State>)
        ensures
            s == State::spec_from_code(code),
    {
        if code == PENDING_CODE {
            Some(State::Pending)
        } else if code == READY_CODE {
            Some(State::Ready)
        } else {
            None
        }
    }

    /// Whether the task can be resumed again.
    pub fn is_pending(self) -> (b: bool)
        ensures
            b == (self == State::Pending),
    {
        match self {
            State::Pending => true,
            State::Ready => false,
        }
    }
}

/// Decoding the tag of a status gives the status back.
pub proof fn lemma_code_round_trip(s: State)
    ensures
        State::spec_from_code(s.spec_code()) == Some(s),
{
}

} // verus!
