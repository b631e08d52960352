//! What the control loop is told.

use vstd::prelude::*;

verus! {

/// Why a message was sent.
#[derive(Debug, Clone, Copy, PartialEq, Eq, Structural)]
pub enum WorkerMessageReason {
    /// The process was interrupted.
    Sigint,
    /// The wall-clock deadline has passed.
    TimeExceeded,
    /// It is time to look for work: a tick, or a job that has ended.
    CheckForJobs,
    /// As many jobs were started as the worker may start.
    MaxJobs,
    /// A burst worker found nothing queued and nothing in flight.
    BurstNoJobs,
}

/// A message to the control loop.
#[derive(Debug, Clone, Copy, PartialEq, Eq, Structural)]
pub struct WorkerMessage {
    /// The job that has ended, where the message comes from its executor.
    pub job_id: Option<usize>,
    pub reason: WorkerMessageReason,
}

impl WorkerMessage {
    /// The message of a burst worker that found nothing queued and nothing
    /// in flight.
    pub open spec fn burst_no_jobs_spec() -> WorkerMessage {
        WorkerMessage { job_id: None, reason: WorkerMessageReason::BurstNoJobs }
    }

    /// The message of a pool that has started as many jobs as it may.
    pub open spec fn exit_max_jobs_spec() -> WorkerMessage {
        WorkerMessage { job_id: None, reason: WorkerMessageReason::MaxJobs }
    }

    /// The process was interrupted.
    pub fn exit_sigint() -> (m: WorkerMessage)
        ensures
            m == (WorkerMessage { job_id: None, reason: WorkerMessageReason::Sigint }),
    {
        WorkerMessage { job_id: None, reason: WorkerMessageReason::Sigint }
    }

    /// The wall-clock deadline has passed.
    pub fn exit_time() -> (m: WorkerMessage)
        ensures
            m == (WorkerMessage { job_id: None, reason: WorkerMessageReason::TimeExceeded }),
    {
        WorkerMessage { job_id: None, reason: WorkerMessageReason::TimeExceeded }
    }

    /// A tick: look for work.
    pub fn check_for_jobs() -> (m: WorkerMessage)
        ensures
            m == (WorkerMessage { job_id: None, reason: WorkerMessageReason::CheckForJobs }),
    {
        WorkerMessage { job_id: None, reason: WorkerMessageReason::CheckForJobs }
    }

    /// The executor of the job `job_id` has ended: look for work.
    pub fn finished_job(job_id: usize) -> (m: WorkerMessage)
        ensures
            m == (WorkerMessage {
                job_id: Some(job_id),
                reason: WorkerMessageReason::CheckForJobs,
            }),
    {
        WorkerMessage { job_id: Some(job_id), reason: WorkerMessageReason::CheckForJobs }
    }

    /// As many jobs were started as the worker may start.
    pub fn exit_max_jobs() -> (m: WorkerMessage)
        ensures
            m == (WorkerMessage { job_id: None, reason: WorkerMessageReason::MaxJobs }),
    {
        WorkerMessage { job_id: None, reason: WorkerMessageReason::MaxJobs }
    }

    /// A burst worker found nothing queued and nothing in flight.
    pub fn burst_no_jobs() -> (m: WorkerMessage)
        ensures
            m == (WorkerMessage { job_id: None, reason: WorkerMessageReason::BurstNoJobs }),
    {
        WorkerMessage { job_id: None, reason: WorkerMessageReason::BurstNoJobs }
    }
}

} // verus!
