//! The status of a job as the workflow engine wants it.

use crate::model::error::RsrqError;
use crate::model::job::status::JobStatus;
use crate::model::types::RsrqResult;
use vstd::prelude::*;

verus! {

/// What the workflow engine is told of a job.
#[derive(Debug, Clone, Copy, PartialEq, Eq, Structural)]
pub enum SnakemakeStatus {
    Running,
    Failed,
    Success,
}

impl SnakemakeStatus {
    /// What the workflow engine is told of a job of a given status.
    pub open spec fn of(status: JobStatus) -> SnakemakeStatus {
        match status {
            JobStatus::Queued => SnakemakeStatus::Running,
            JobStatus::Running => SnakemakeStatus::Running,
            JobStatus::Finished => SnakemakeStatus::Success,
            JobStatus::Failed => SnakemakeStatus::Failed,
            JobStatus::Cancelled => SnakemakeStatus::Failed,
        }
    }

    /// The word that is printed for the status.
    pub open spec fn name(self) -> Seq<char> {
        match self {
            SnakemakeStatus::Running => "running"@,
            SnakemakeStatus::Failed => "failed"@,
            SnakemakeStatus::Success => "success"@,
        }
    }

    /// A job that is queued or running is running, a finished job is a
    /// success, and a failed or cancelled job has failed.
    pub fn from_job_status(status: JobStatus) -> (r: SnakemakeStatus)
        ensures
            r == SnakemakeStatus::of(status),
    {
        match status {
            JobStatus::Queued => SnakemakeStatus::Running,
            JobStatus::Running => SnakemakeStatus::Running,
            JobStatus::Finished => SnakemakeStatus::Success,
            JobStatus::Failed => SnakemakeStatus::Failed,
            JobStatus::Cancelled => SnakemakeStatus::Failed,
        }
    }

    /// The word that is printed for the status.
    pub fn to_string(&self) -> (r: String)
        ensures
            r@ == self.name(),
    {
        match self {
            SnakemakeStatus::Running => "running".to_owned(),
            SnakemakeStatus::Failed => "failed".to_owned(),
            SnakemakeStatus::Success => "success".to_owned(),
        }
    }
}

/// What the workflow engine is told of the job `job_id`, given the status
/// that Redis holds for it: a job without a status is no job.
pub fn snakemake_status(job_id: usize, result: Option<JobStatus>) -> (r: RsrqResult<
    SnakemakeStatus,
>)
    ensures
        match result {
            Some(status) => r == Ok::<SnakemakeStatus, RsrqError>(SnakemakeStatus::of(status)),
            None => r matches Err(RsrqError::JobNotFound(id)) && id == job_id,
        },
{
    match result {
        Some(status) => Ok(SnakemakeStatus::from_job_status(status)),
        None => Err(RsrqError::JobNotFound(job_id)),
    }
}

} // verus!
