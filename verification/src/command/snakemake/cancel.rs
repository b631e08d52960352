//! Cancelling jobs from outside the worker.

use crate::model::error::RsrqErrorView;
use crate::model::job::key::JobKey;
use crate::model::job::rsrq_job::{job_key, Job};
use crate::model::job::status::JobStatus;
use crate::model::queue::queue_type::QueueType;
use crate::model::queue::rsrq_queue::{add_command, queue_key, remove_command, Queue};
use crate::model::types::RsrqResult;
use crate::util::pipeline::{
    encode_all, extends, lemma_extends_chain, lemma_extends_nothing, pipe_atomic, pipe_hget, pipe_hset, pipe_new,
    pipeline_commands, pipeline_is_atomic, Command,
};
use vstd::prelude::*;
use vstd::string::*;

verus! {

/// What cancelling needs to know of a job.
pub struct MinimalJob {
    pub id: usize,
    pub status: JobStatus,
    pub queue: String,
}

/// What cancelling needs to know of a job, the queue name as a sequence of
/// characters.
pub struct MinimalJobView {
    pub id: usize,
    pub status: JobStatus,
    pub queue: Seq<char>,
}

impl View for MinimalJob {
    type V = MinimalJobView;

    open spec fn view(&self) -> MinimalJobView {
        MinimalJobView { id: self.id, status: self.status, queue: self.queue@ }
    }
}

impl MinimalJobView {
    /// Whether the job can still be cancelled: it is queued or running.
    pub open spec fn cancellable(self) -> bool {
        self.status == JobStatus::Queued || self.status == JobStatus::Running
    }

    /// The commands that cancel the job: mark it as cancelled, take it out of
    /// the container that its status names, and put it into the failed set of
    /// its queue. A job that cannot be cancelled is left alone.
    pub open spec fn cancel_commands(self) -> Seq<Command> {
        if self.cancellable() {
            seq![
                Command::HSet {
                    key: job_key(self.id as nat),
                    field: JobKey::Status.name(),
                    value: JobStatus::Cancelled.name(),
                },
                remove_command(
                    self.status.queue_type(),
                    queue_key(self.status.queue_type(), self.queue),
                    self.id as nat,
                ),
                add_command(
                    QueueType::Failed,
                    queue_key(QueueType::Failed, self.queue),
                    self.id as nat,
                ),
            ]
        } else {
            Seq::empty()
        }
    }
}

impl MinimalJob {
    /// Whether the job can still be cancelled: it is queued or running.
    pub fn is_cancellable(&self) -> (r: bool)
        ensures
            r == self@.cancellable(),
    {
        match self.status {
            JobStatus::Queued => true,
            JobStatus::Running => true,
            JobStatus::Finished => false,
            JobStatus::Failed => false,
            JobStatus::Cancelled => false,
        }
    }
}

/// The commands that read the status and the queue of one job.
pub open spec fn status_query(id: usize) -> Seq<Command> {
    seq![
        Command::HGet { key: job_key(id as nat), field: JobKey::Status.name() },
        Command::HGet { key: job_key(id as nat), field: JobKey::Queue.name() },
    ]
}

/// The commands that read the status and the queue of each job in turn.
pub open spec fn status_queries(ids: Seq<usize>) -> Seq<Command>
    decreases ids.len(),
{
    if ids.len() == 0 {
        Seq::empty()
    } else {
        status_queries(ids.drop_last()) + status_query(ids.last())
    }
}

/// The commands that cancel each job in turn.
pub open spec fn cancel_all_commands(jobs: Seq<MinimalJobView>) -> Seq<Command>
    decreases jobs.len(),
{
    if jobs.len() == 0 {
        Seq::empty()
    } else {
        cancel_all_commands(jobs.drop_last()) + jobs.last().cancel_commands()
    }
}

/// The jobs that the replies to the status queries describe: one for each
/// identifier whose status and queue are both there, in the order of the
/// identifiers. A status that is none fails the whole.
pub open spec fn jobs_of_replies(ids: Seq<usize>, replies: Seq<Option<Seq<char>>>) -> Result<
    Seq<MinimalJobView>,
    RsrqErrorView,
>
    decreases ids.len(),
{
    if ids.len() == 0 {
        Ok(Seq::empty())
    } else {
        let n = ids.len() - 1;
        match jobs_of_replies(ids.drop_last(), replies) {
            Err(e) => Err(e),
            Ok(jobs) => match (replies[2 * n], replies[2 * n + 1]) {
                (Some(status), Some(queue)) => match JobStatus::named(status) {
                    Some(s) => Ok(jobs.push(MinimalJobView { id: ids[n], status: s, queue })),
                    None => Err(RsrqErrorView::CmdParserError("Invalid job status: "@ + status)),
                },
                _ => Ok(jobs),
            },
        }
    }
}

/// The views of a list of jobs.
pub open spec fn job_views(jobs: Seq<MinimalJob>) -> Seq<MinimalJobView> {
    jobs.map_values(|j: MinimalJob| j@)
}

/// The pipeline that reads the status and the queue of each job of `job_ids`.
pub fn get_job_statuses(job_ids: &Vec<usize>) -> (pipe: redis::Pipeline)
    ensures
        !pipeline_is_atomic(pipe),
        pipeline_commands(pipe) == encode_all(status_queries(job_ids@)),
{
    let mut pipe = pipe_new();
    let ghost start = pipe;
    let mut i: usize = 0;
    proof {
        assert(job_ids@.take(0) =~= Seq::<usize>::empty());
        lemma_extends_nothing(start);
    }
    while i < job_ids.len()
        invariant
            i <= job_ids.len(),
            extends(start, pipe, status_queries(job_ids@.take(i as int))),
        decreases job_ids.len() - i,
    {
        let job_key = Job::get_redis_key(job_ids[i]);
        let ghost stage0 = pipe;
        pipe_hget(&mut pipe, job_key.as_str(), JobKey::Status.to_string().as_str());
        let ghost stage1 = pipe;
        pipe_hget(&mut pipe, job_key.as_str(), JobKey::Queue.to_string().as_str());
        proof {
            let q = status_query(job_ids@[i as int]);
            lemma_extends_chain(stage0, stage1, pipe, seq![q[0]], seq![q[1]]);
            assert(seq![q[0]] + seq![q[1]] =~= q);
            lemma_extends_chain(start, stage0, pipe, status_queries(job_ids@.take(i as int)), q);
            assert(job_ids@.take(i + 1).drop_last() =~= job_ids@.take(i as int));
        }
        i = i + 1;
    }
    proof {
        assert(job_ids@.take(i as int) =~= job_ids@);
        assert(pipeline_commands(start) + encode_all(status_queries(job_ids@)) =~= encode_all(
            status_queries(job_ids@),
        ));
    }
    pipe
}

/// The jobs that the replies `results` to the status queries for `job_ids`
/// describe. There are two replies for each identifier.
pub fn jobs_from_replies(job_ids: &Vec<usize>, results: &Vec<Option<String>>) -> (r: RsrqResult<
    Vec<MinimalJob>,
>)
    requires
        results.len() == 2 * job_ids.len(),
    ensures
        match jobs_of_replies(job_ids@, results.deep_view()) {
            Ok(jobs) => r matches Ok(v) && job_views(v@) == jobs,
            Err(e) => r matches Err(x) && x@ == e,
        },
{
    let mut jobs: Vec<MinimalJob> = Vec::new();
    let mut i: usize = 0;
    assert(job_ids@.take(0) =~= Seq::<usize>::empty());
    assert(job_views(jobs@) =~= Seq::empty());
    while i < job_ids.len()
        invariant
            i <= job_ids.len(),
            results.len() == 2 * job_ids.len(),
            jobs_of_replies(job_ids@.take(i as int), results.deep_view()) == Ok::<
                Seq<MinimalJobView>,
                RsrqErrorView,
            >(job_views(jobs@)),
        decreases job_ids.len() - i,
    {
        let ghost before = job_views(jobs@);
        proof {
            assert(job_ids@.take(i + 1).drop_last() =~= job_ids@.take(i as int));
            assert(results.deep_view()[2 * i] == results@[2 * i].deep_view());
            assert(results.deep_view()[2 * i + 1] == results@[2 * i + 1].deep_view());
            lemma_replies_fail_on(job_ids@, results.deep_view(), i + 1);
        }
        match (&results[i * 2], &results[i * 2 + 1]) {
            (Some(status_str), Some(queue_str)) => {
                let status = match JobStatus::from_string(status_str.as_str()) {
                    Ok(s) => s,
                    Err(e) => {
                        return Err(e);
                    },
                };
                let job = MinimalJob { id: job_ids[i], status, queue: queue_str.clone() };
                jobs.push(job);
                assert(job_views(jobs@) =~= before.push(job@));
            },
            _ => {},
        }
        i = i + 1;
    }
    assert(job_ids@.take(i as int) =~= job_ids@);
    Ok(jobs)
}

/// Replies that fail for the first `k` identifiers fail for all of them, and
/// with the same failure.
pub proof fn lemma_replies_fail_on(ids: Seq<usize>, replies: Seq<Option<Seq<char>>>, k: int)
    requires
        0 <= k <= ids.len(),
    ensures
        jobs_of_replies(ids.take(k), replies) is Err ==> jobs_of_replies(ids, replies)
            == jobs_of_replies(ids.take(k), replies),
    decreases ids.len(),
{
    if k == ids.len() {
        assert(ids.take(k) =~= ids);
    } else {
        lemma_replies_fail_on(ids.drop_last(), replies, k);
        assert(ids.drop_last().take(k) =~= ids.take(k));
    }
}

/// The atomic pipeline that cancels each job of `jobs` that can still be
/// cancelled: it sets the job's status to cancelled, takes the job out of the
/// container it is in and puts it into the failed set of its queue.
pub fn cancel_jobs(jobs: &Vec<MinimalJob>) -> (pipe: redis::Pipeline)
    ensures
        pipeline_is_atomic(pipe),
        pipeline_commands(pipe) == encode_all(cancel_all_commands(job_views(jobs@))),
{
    let mut pipe = pipe_new();
    pipe_atomic(&mut pipe);
    let ghost start = pipe;
    let ghost views = job_views(jobs@);
    let mut i: usize = 0;
    proof {
        assert(views.take(0) =~= Seq::<MinimalJobView>::empty());
        lemma_extends_nothing(start);
    }
    while i < jobs.len()
        invariant
            i <= jobs.len(),
            views == job_views(jobs@),
            extends(start, pipe, cancel_all_commands(views.take(i as int))),
        decreases jobs.len() - i,
    {
        let job = &jobs[i];
        let ghost stage0 = pipe;
        proof {
            assert(views.take(i + 1).drop_last() =~= views.take(i as int));
            assert(views.take(i + 1).last() == job@);
        }
        if job.is_cancellable() {
            let job_key = Job::get_redis_key(job.id);
            pipe_hset(
                &mut pipe,
                job_key.as_str(),
                JobKey::Status.to_string().as_str(),
                JobStatus::Cancelled.to_string().as_str(),
            );
            let ghost stage1 = pipe;
            let from_q = Queue::new(job.status.to_queue_type(), job.queue.as_str());
            let to_q = Queue::new(QueueType::Failed, job.queue.as_str());
            from_q.pipe_remove_job_id(job.id, &mut pipe);
            let ghost stage2 = pipe;
            to_q.pipe_add_job_id(job.id, &mut pipe);
            proof {
                let cs = job@.cancel_commands();
                lemma_extends_chain(stage0, stage1, stage2, seq![cs[0]], seq![cs[1]]);
                lemma_extends_chain(stage0, stage2, pipe, seq![cs[0]] + seq![cs[1]], seq![cs[2]]);
                assert(seq![cs[0]] + seq![cs[1]] + seq![cs[2]] =~= cs);
                lemma_extends_chain(start, stage0, pipe, cancel_all_commands(views.take(i as int)), cs);
            }
        } else {
            proof {
                assert(cancel_all_commands(views.take(i as int)) + Seq::<Command>::empty()
                    =~= cancel_all_commands(views.take(i as int)));
            }
        }
        i = i + 1;
    }
    proof {
        assert(views.take(i as int) =~= views);
        assert(pipeline_commands(start) + encode_all(cancel_all_commands(views)) =~= encode_all(
            cancel_all_commands(views),
        ));
    }
    pipe
}

} // verus!
