//! The control loop of a worker: what it does on each message.

use crate::model::worker::message::{WorkerMessage, WorkerMessageReason};
use crate::model::worker::pool::{without, PoolView, WorkerPool};
use crate::util::text::{concat, concat3, dec, u32_to_string, usize_to_string};
use vstd::prelude::*;
use vstd::string::*;

verus! {

/// What the control loop does next.
#[derive(Debug, Clone, Copy, PartialEq, Eq, Structural)]
pub enum LoopAction {
    /// Leave the loop at once and wait for no executor.
    Abandon,
    /// Leave the loop, and wait for every executor that is still registered.
    Drain,
    /// Reap the cancelled jobs, then run a lease round.
    Poll,
}

impl LoopAction {
    /// What the control loop does on a message of a given reason: an
    /// interrupt ends it at once; the deadline, the limit of jobs and an
    /// empty queue in burst mode end it once the jobs in flight are done; a
    /// tick or the end of a job makes it look for work.
    pub open spec fn of(reason: WorkerMessageReason) -> LoopAction {
        match reason {
            WorkerMessageReason::Sigint => LoopAction::Abandon,
            WorkerMessageReason::TimeExceeded => LoopAction::Drain,
            WorkerMessageReason::MaxJobs => LoopAction::Drain,
            WorkerMessageReason::BurstNoJobs => LoopAction::Drain,
            WorkerMessageReason::CheckForJobs => LoopAction::Poll,
        }
    }

    /// Whether the loop goes on after the action.
    pub open spec fn goes_on(self) -> bool {
        self == LoopAction::Poll
    }

    /// Whether the executors that are still registered are waited for when
    /// the loop has ended.
    pub open spec fn awaits(self) -> bool {
        self == LoopAction::Drain
    }
}

/// The size of the message channel of `workers` workers: ten messages for
/// each.
pub fn channel_capacity(workers: u16) -> (r: usize)
    ensures
        r == workers * 10,
{
    workers as usize * 10
}

/// The notice that the workers start.
pub open spec fn start_notice(max_workers: u32, queue: Seq<char>) -> Seq<char> {
    if max_workers == 1 {
        "Starting 1 worker to process queue: "@ + queue
    } else {
        "Starting "@ + dec(max_workers as nat) + " workers to process queue: "@ + queue
    }
}

/// The notice that the workers start.
pub fn starting_notice(max_workers: u32, queue: &str) -> (r: String)
    ensures
        r@ == start_notice(max_workers, queue@),
{
    if max_workers == 1 {
        concat("Starting 1 worker to process queue: ", queue)
    } else {
        let mut s = concat("Starting ", u32_to_string(max_workers).as_str());
        s.append(" workers to process queue: ");
        s.append(queue);
        s
    }
}

/// The notice that the loop ends for the reason `reason` while `n_running`
/// jobs are in flight; none for a message that does not end the loop.
pub open spec fn exit_notice(reason: WorkerMessageReason, n_running: usize) -> Option<Seq<char>> {
    match reason {
        WorkerMessageReason::Sigint => Some(
            "Terminating program, the remaining "@ + dec(n_running as nat)
                + " jobs will be marked as failed."@,
        ),
        WorkerMessageReason::TimeExceeded => Some(
            "The maximum time has been reached, waiting for "@ + dec(n_running as nat)
                + " running jobs to finish."@,
        ),
        WorkerMessageReason::MaxJobs => Some(
            "Maximum number of jobs has been reached, waiting for "@ + dec(n_running as nat)
                + " running jobs to finish."@,
        ),
        WorkerMessageReason::BurstNoJobs => Some("No jobs in queue, exiting."@),
        WorkerMessageReason::CheckForJobs => None,
    }
}

/// The notice that the loop ends for the reason `reason` while `n_running`
/// jobs are in flight.
pub fn exiting_notice(reason: WorkerMessageReason, n_running: usize) -> (r: Option<String>)
    ensures
        r.deep_view() == exit_notice(reason, n_running),
{
    match reason {
        WorkerMessageReason::Sigint => Some(
            concat3(
                "Terminating program, the remaining ",
                usize_to_string(n_running).as_str(),
                " jobs will be marked as failed.",
            ),
        ),
        WorkerMessageReason::TimeExceeded => Some(
            concat3(
                "The maximum time has been reached, waiting for ",
                usize_to_string(n_running).as_str(),
                " running jobs to finish.",
            ),
        ),
        WorkerMessageReason::MaxJobs => Some(
            concat3(
                "Maximum number of jobs has been reached, waiting for ",
                usize_to_string(n_running).as_str(),
                " running jobs to finish.",
            ),
        ),
        WorkerMessageReason::BurstNoJobs => Some("No jobs in queue, exiting.".to_owned()),
        WorkerMessageReason::CheckForJobs => None,
    }
}

/// One turn of the control loop: what to do on `message`. A message that
/// ends the loop leaves the pool as it is. A message to look for work that
/// comes from the executor of a job takes that job out of the jobs in flight.
pub fn run_workers(pool: &mut WorkerPool, message: WorkerMessage) -> (r: LoopAction)
    requires
        old(pool)@.wf(),
    ensures
        r == LoopAction::of(message.reason),
        final(pool)@.wf(),
        final(pool)@ == (match (message.reason, message.job_id) {
            (WorkerMessageReason::CheckForJobs, Some(id)) => PoolView {
                in_flight: without(old(pool)@.in_flight, id),
                ..old(pool)@
            },
            _ => old(pool)@,
        }),
{
    match message.reason {
        WorkerMessageReason::Sigint => LoopAction::Abandon,
        WorkerMessageReason::TimeExceeded => LoopAction::Drain,
        WorkerMessageReason::MaxJobs => LoopAction::Drain,
        WorkerMessageReason::BurstNoJobs => LoopAction::Drain,
        WorkerMessageReason::CheckForJobs => {
            if let Some(finished_job_id) = message.job_id {
                pool.remove_job(finished_job_id);
            }
            LoopAction::Poll
        },
    }
}

} // verus!
