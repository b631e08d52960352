//! What an executor records of a job that has ended.

use crate::model::command::RsrqCommandResult;
use crate::model::job::status::JobStatus;
use crate::model::queue::queue_type::QueueType;
use vstd::prelude::*;

verus! {

/// The end of a job: the container it moves to, its status, and what its
/// command gave.
pub struct WorkerResult {
    pub q_target: QueueType,
    pub job_status: JobStatus,
    pub stdout: String,
    pub stderr: String,
    pub duration_ms: u128,
    pub exit_code: i32,
}

impl WorkerResult {
    /// The end of a job whose command line could not be cut into tokens: the
    /// job has failed, with the exit code 1 and no time spent.
    pub fn from_failed() -> (r: WorkerResult)
        ensures
            r.q_target == QueueType::Failed,
            r.job_status == JobStatus::Failed,
            r.stdout@ == Seq::<char>::empty(),
            r.stderr@ == "Unable to parse command."@,
            r.duration_ms == 0,
            r.exit_code == 1,
    {
        WorkerResult {
            q_target: QueueType::Failed,
            job_status: JobStatus::Failed,
            stdout: String::new(),
            stderr: "Unable to parse command.".to_owned(),
            duration_ms: 0,
            exit_code: 1,
        }
    }

    /// The end of a job whose command ran: finished on the exit code 0, and
    /// failed on every other.
    pub fn from_command(result: &RsrqCommandResult) -> (r: WorkerResult)
        ensures
            result.exit_code == 0 ==> r.job_status == JobStatus::Finished && r.q_target
                == QueueType::Finished,
            result.exit_code != 0 ==> r.job_status == JobStatus::Failed && r.q_target
                == QueueType::Failed,
            r.stdout@ == result.stdout@,
            r.stderr@ == result.stderr@,
            r.duration_ms == result.duration_ms,
            r.exit_code == result.exit_code,
    {
        let (job_status, q_target) = if result.exit_code == 0 {
            (JobStatus::Finished, QueueType::Finished)
        } else {
            (JobStatus::Failed, QueueType::Failed)
        };
        WorkerResult {
            q_target,
            job_status,
            stdout: result.stdout.clone(),
            stderr: result.stderr.clone(),
            duration_ms: result.duration_ms,
            exit_code: result.exit_code,
        }
    }
}

} // verus!
