//! Whether a worker process has jobs in flight.

use crate::model::error::RsrqError;
use crate::model::types::RsrqResult;
use crate::util::text::str_eq;
use vstd::prelude::*;

verus! {

/// The state of a worker process.
#[derive(Debug, Clone, Copy, PartialEq, Eq, Structural)]
pub enum ProcessState {
    Idle,
    Running,
}

impl ProcessState {
    /// The name of the state as Redis stores it.
    pub open spec fn name(self) -> Seq<char> {
        match self {
            ProcessState::Idle => "idle"@,
            ProcessState::Running => "running"@,
        }
    }

    /// The state that Redis stores under the name `s`, if there is one.
    pub open spec fn named(s: Seq<char>) -> Option<ProcessState> {
        if s == "idle"@ {
            Some(ProcessState::Idle)
        } else if s == "running"@ {
            Some(ProcessState::Running)
        } else {
            None
        }
    }

    /// The state is found again from its name.
    pub proof fn lemma_named_name(self)
        ensures
            ProcessState::named(self.name()) == Some(self),
    {
        reveal_strlit("idle");
        reveal_strlit("running");
        assert("idle"@.len() == 4);
        assert("running"@.len() == 7);
    }

    /// The name of the state as Redis stores it.
    pub fn to_string(&self) -> (r: String)
        ensures
            r@ == self.name(),
    {
        match self {
            ProcessState::Idle => "idle".to_owned(),
            ProcessState::Running => "running".to_owned(),
        }
    }

    /// The state that Redis stores under the name `value`.
    pub fn from_string(value: &str) -> (r: RsrqResult<ProcessState>)
        ensures
            match ProcessState::named(value@) {
                Some(k) => r == Ok::<ProcessState, RsrqError>(k),
                None => r matches Err(RsrqError::ParserError(m)) && m@ == value@,
            },
    {
        if str_eq(value, "idle") {
            Ok(ProcessState::Idle)
        } else if str_eq(value, "running") {
            Ok(ProcessState::Running)
        } else {
            Err(RsrqError::ParserError(value.to_owned()))
        }
    }
}

} // verus!
