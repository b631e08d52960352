//! The status of a job.

use crate::model::error::RsrqError;
use crate::model::queue::queue_type::QueueType;
use crate::model::types::RsrqResult;
use crate::util::text::{concat, str_eq};
use vstd::prelude::*;

verus! {

/// Where a job stands in its life. A cancelled job is a failed job with a
/// reason: it sits in the failed set.
#[derive(Debug, Clone, Copy, PartialEq, Eq, Structural)]
pub enum JobStatus {
    Queued,
    Running,
    Finished,
    Failed,
    Cancelled,
}

impl JobStatus {
    /// The name of the status as Redis stores it.
    pub open spec fn name(self) -> Seq<char> {
        match self {
            JobStatus::Queued => "queued"@,
            JobStatus::Running => "running"@,
            JobStatus::Finished => "finished"@,
            JobStatus::Failed => "failed"@,
            JobStatus::Cancelled => "cancelled"@,
        }
    }

    /// The status that Redis stores under the name `s`, if there is one.
    pub open spec fn named(s: Seq<char>) -> Option<JobStatus> {
        if s == "queued"@ {
            Some(JobStatus::Queued)
        } else if s == "running"@ {
            Some(JobStatus::Running)
        } else if s == "finished"@ {
            Some(JobStatus::Finished)
        } else if s == "failed"@ {
            Some(JobStatus::Failed)
        } else if s == "cancelled"@ {
            Some(JobStatus::Cancelled)
        } else {
            None
        }
    }

    /// The kind of container in which a job of this status sits.
    pub open spec fn queue_type(self) -> QueueType {
        match self {
            JobStatus::Queued => QueueType::Queued,
            JobStatus::Running => QueueType::Running,
            JobStatus::Finished => QueueType::Finished,
            JobStatus::Failed => QueueType::Failed,
            JobStatus::Cancelled => QueueType::Failed,
        }
    }

    /// Whether the status is one that a job never leaves.
    pub open spec fn is_terminal(self) -> bool {
        self != JobStatus::Queued && self != JobStatus::Running
    }

    /// The status is found again from its name.
    pub proof fn lemma_named_name(self)
        ensures
            JobStatus::named(self.name()) == Some(self),
    {
        reveal_strlit("queued");
        reveal_strlit("running");
        reveal_strlit("finished");
        reveal_strlit("failed");
        reveal_strlit("cancelled");
        assert("queued"@.len() == 6);
        assert("running"@.len() == 7);
        assert("finished"@.len() == 8);
        assert("failed"@.len() == 6);
        assert("cancelled"@.len() == 9);
        assert("queued"@[0] != "failed"@[0]);
    }

    /// The status that Redis stores under the name `s`.
    pub fn from_string(s: &str) -> (r: RsrqResult<JobStatus>)
        ensures
            match JobStatus::named(s@) {
                Some(status) => r == Ok::<JobStatus, RsrqError>(status),
                None => r matches Err(RsrqError::CmdParserError(m)) && m@
                    == "Invalid job status: "@ + s@,
            },
    {
        if str_eq(s, "queued") {
            Ok(JobStatus::Queued)
        } else if str_eq(s, "running") {
            Ok(JobStatus::Running)
        } else if str_eq(s, "finished") {
            Ok(JobStatus::Finished)
        } else if str_eq(s, "failed") {
            Ok(JobStatus::Failed)
        } else if str_eq(s, "cancelled") {
            Ok(JobStatus::Cancelled)
        } else {
            Err(RsrqError::CmdParserError(concat("Invalid job status: ", s)))
        }
    }

    /// The kind of container in which a job of this status sits.
    pub fn to_queue_type(&self) -> (r: QueueType)
        ensures
            r == self.queue_type(),
    {
        match self {
            JobStatus::Queued => QueueType::Queued,
            JobStatus::Running => QueueType::Running,
            JobStatus::Finished => QueueType::Finished,
            JobStatus::Failed => QueueType::Failed,
            JobStatus::Cancelled => QueueType::Failed,
        }
    }

    /// The name of the status as Redis stores it.
    pub fn to_string(&self) -> (r: String)
        ensures
            r@ == self.name(),
    {
        match self {
            JobStatus::Queued => "queued".to_owned(),
            JobStatus::Running => "running".to_owned(),
            JobStatus::Finished => "finished".to_owned(),
            JobStatus::Failed => "failed".to_owned(),
            JobStatus::Cancelled => "cancelled".to_owned(),
        }
    }
}

} // verus!
