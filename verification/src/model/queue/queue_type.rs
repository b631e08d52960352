//! The four kinds of state container.

use crate::config::{Q_FAILED, Q_FINISHED, Q_QUEUED, Q_RUNNING};
use crate::model::error::RsrqError;
use crate::model::types::RsrqResult;
use crate::util::text::{concat, str_eq};
use vstd::prelude::*;

verus! {

/// The state that a container holds the jobs of. Queued and running jobs are
/// kept in lists, finished and failed ones in sets.
#[derive(Debug, Clone, Copy, PartialEq, Eq, Structural)]
pub enum QueueType {
    Queued,
    Running,
    Finished,
    Failed,
}

impl QueueType {
    /// The key prefix of the kind.
    pub open spec fn name(self) -> Seq<char> {
        match self {
            QueueType::Queued => Q_QUEUED@,
            QueueType::Running => Q_RUNNING@,
            QueueType::Finished => Q_FINISHED@,
            QueueType::Failed => Q_FAILED@,
        }
    }

    /// The kind with the key prefix `s`, if there is one.
    pub open spec fn named(s: Seq<char>) -> Option<QueueType> {
        if s == Q_QUEUED@ {
            Some(QueueType::Queued)
        } else if s == Q_RUNNING@ {
            Some(QueueType::Running)
        } else if s == Q_FINISHED@ {
            Some(QueueType::Finished)
        } else if s == Q_FAILED@ {
            Some(QueueType::Failed)
        } else {
            None
        }
    }

    /// Whether the container is a list; the others are sets.
    pub open spec fn is_list(self) -> bool {
        self == QueueType::Queued || self == QueueType::Running
    }

    /// The kind is found again from its key prefix.
    pub proof fn lemma_named_name(self)
        ensures
            QueueType::named(self.name()) == Some(self),
    {
        reveal_strlit("rsrq:queued");
        reveal_strlit("rsrq:running");
        reveal_strlit("rsrq:finished");
        reveal_strlit("rsrq:failed");
        assert(Q_QUEUED@[5] == 'q');
        assert(Q_RUNNING@[5] == 'r');
        assert(Q_FINISHED@[6] == 'i');
        assert(Q_FAILED@[6] == 'a');
    }

    /// Whether the container is a list; the others are sets. The length of a
    /// list is asked for with `LLEN`, that of a set with `SCARD`.
    pub fn stores_list(&self) -> (r: bool)
        ensures
            r == self.is_list(),
    {
        match self {
            QueueType::Queued => true,
            QueueType::Running => true,
            QueueType::Finished => false,
            QueueType::Failed => false,
        }
    }

    /// The key prefix of the kind.
    pub fn to_string(&self) -> (r: &'static str)
        ensures
            r@ == self.name(),
    {
        match self {
            QueueType::Queued => Q_QUEUED,
            QueueType::Running => Q_RUNNING,
            QueueType::Finished => Q_FINISHED,
            QueueType::Failed => Q_FAILED,
        }
    }

    /// The kind with the key prefix `string`.
    pub fn from_string(string: &str) -> (r: RsrqResult<QueueType>)
        ensures
            match QueueType::named(string@) {
                Some(t) => r == Ok::<QueueType, RsrqError>(t),
                None => r matches Err(RsrqError::ParserError(m)) && m@ == "Invalid queue type: "@
                    + string@,
            },
    {
        if str_eq(string, Q_QUEUED) {
            Ok(QueueType::Queued)
        } else if str_eq(string, Q_RUNNING) {
            Ok(QueueType::Running)
        } else if str_eq(string, Q_FINISHED) {
            Ok(QueueType::Finished)
        } else if str_eq(string, Q_FAILED) {
            Ok(QueueType::Failed)
        } else {
            Err(RsrqError::ParserError(concat("Invalid queue type: ", string)))
        }
    }

    /// The four kinds, in the order of a job's life.
    pub fn get_types() -> (r: Vec<QueueType>)
        ensures
            r@ == seq![
                QueueType::Queued,
                QueueType::Running,
                QueueType::Finished,
                QueueType::Failed,
            ],
    {
        let mut out: Vec<QueueType> = Vec::new();
        out.push(QueueType::Queued);
        out.push(QueueType::Running);
        out.push(QueueType::Finished);
        out.push(QueueType::Failed);
        assert(out@ =~= seq![
            QueueType::Queued,
            QueueType::Running,
            QueueType::Finished,
            QueueType::Failed,
        ]);
        out
    }
}

} // verus!
