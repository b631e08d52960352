//! What an executor writes to Redis for one leased job: the start of the job,
//! and its end.

use crate::model::command::RsrqCommandResult;
use crate::model::job::key::JobKey;
use crate::model::job::rsrq_job::Job;
use crate::model::job::status::JobStatus;
use crate::model::queue::queue_type::QueueType;
use crate::model::queue::rsrq_queue::{add_command, queue_key, remove_command, Queue};
use crate::model::worker::result::WorkerResult;
use crate::util::pipeline::{
    encode_all, lemma_extends_chain, pipe_atomic, pipe_hset_multiple, pipe_new, pipeline_commands,
    pipeline_is_atomic, Command,
};
use crate::util::text::{dec, dec_int, i32_to_string, u128_to_string};
use vstd::prelude::*;
use vstd::string::*;

verus! {

/// The fields that the start of a job writes: the job is running, and since
/// when.
pub open spec fn start_items(start_ts: Seq<char>) -> Seq<(Seq<char>, Seq<char>)> {
    seq![
        (JobKey::Status.name(), JobStatus::Running.name()),
        (JobKey::Started.name(), start_ts),
    ]
}

/// The fields that the end of a job writes: its status, when it ended, what
/// it printed, how long it took and how it exited.
pub open spec fn end_items(
    status: JobStatus,
    end_ts: Seq<char>,
    stdout: Seq<char>,
    stderr: Seq<char>,
    duration_ms: u128,
    exit_code: i32,
) -> Seq<(Seq<char>, Seq<char>)> {
    seq![
        (JobKey::Status.name(), status.name()),
        (JobKey::Finished.name(), end_ts),
        (JobKey::Stdout.name(), stdout),
        (JobKey::Stderr.name(), stderr),
        (JobKey::DurationMs.name(), dec(duration_ms as nat)),
        (JobKey::ExitCode.name(), dec_int(exit_code as int)),
    ]
}

/// The commands that end the job `id` of the queue `queue`: write the end to
/// the hash under `key`, take the job out of the running list, and put it
/// into the container of kind `target`.
pub open spec fn end_commands(
    key: Seq<char>,
    id: nat,
    queue: Seq<char>,
    target: QueueType,
    items: Seq<(Seq<char>, Seq<char>)>,
) -> Seq<Command> {
    seq![
        Command::HSetMultiple { key, items },
        remove_command(QueueType::Running, queue_key(QueueType::Running, queue), id),
        add_command(target, queue_key(target, queue), id),
    ]
}

/// The atomic pipeline that marks `job` as running since `start_ts`.
pub fn update_redis_start_job(job: &Job, start_ts: &str) -> (pipe: redis::Pipeline)
    ensures
        pipeline_is_atomic(pipe),
        pipeline_commands(pipe) == encode_all(
            seq![Command::HSetMultiple { key: job.key@, items: start_items(start_ts@) }],
        ),
{
    let mut items: Vec<(String, String)> = Vec::new();
    items.push((JobKey::Status.to_string(), JobStatus::Running.to_string()));
    items.push((JobKey::Started.to_string(), start_ts.to_owned()));
    assert(items.deep_view() =~= start_items(start_ts@));
    let mut pipe = pipe_new();
    pipe_atomic(&mut pipe);
    let ghost stage0 = pipe;
    pipe_hset_multiple(&mut pipe, job.key.as_str(), &items);
    proof {
        let cs = seq![Command::HSetMultiple { key: job.key@, items: start_items(start_ts@) }];
        assert(pipeline_commands(stage0) + encode_all(cs) =~= encode_all(cs));
    }
    pipe
}

/// What became of a job, given what running its command gave, and nothing
/// where its command line could not be cut into tokens: the job has finished
/// where the command exited with the code 0, and failed where it exited with
/// another code, could not be started, or was no command.
pub fn job_result(ran: Option<&RsrqCommandResult>) -> (r: WorkerResult)
    ensures
        r.q_target == r.job_status.queue_type(),
        match ran {
            Some(res) => r.stdout@ == res.stdout@ && r.stderr@ == res.stderr@ && r.duration_ms
                == res.duration_ms && r.exit_code == res.exit_code && r.job_status == (
            if res.exit_code == 0 {
                JobStatus::Finished
            } else {
                JobStatus::Failed
            }),
            None => r.job_status == JobStatus::Failed && r.stdout@ == Seq::<char>::empty()
                && r.stderr@ == "Unable to parse command."@ && r.duration_ms == 0 && r.exit_code
                == 1,
        },
{
    match ran {
        Some(res) => WorkerResult::from_command(res),
        None => WorkerResult::from_failed(),
    }
}

/// The atomic pipeline that ends `job` on the queue `queue_name` with the
/// result `job_res` at the time `end_ts`: it writes the end to the job's
/// hash, takes the job out of the running list and puts it into the set that
/// the result names.
pub fn process_new_job(queue_name: &str, job: &Job, job_res: &WorkerResult, end_ts: &str) -> (pipe:
    redis::Pipeline)
    ensures
        pipeline_is_atomic(pipe),
        pipeline_commands(pipe) == encode_all(
            end_commands(
                job.key@,
                job.id as nat,
                queue_name@,
                job_res.q_target,
                end_items(
                    job_res.job_status,
                    end_ts@,
                    job_res.stdout@,
                    job_res.stderr@,
                    job_res.duration_ms,
                    job_res.exit_code,
                ),
            ),
        ),
{
    let q_source = Queue::new(QueueType::Running, queue_name);
    let q_target = Queue::new(job_res.q_target, queue_name);
    let mut items: Vec<(String, String)> = Vec::new();
    items.push((JobKey::Status.to_string(), job_res.job_status.to_string()));
    items.push((JobKey::Finished.to_string(), end_ts.to_owned()));
    items.push((JobKey::Stdout.to_string(), job_res.stdout.clone()));
    items.push((JobKey::Stderr.to_string(), job_res.stderr.clone()));
    items.push((JobKey::DurationMs.to_string(), u128_to_string(job_res.duration_ms)));
    items.push((JobKey::ExitCode.to_string(), i32_to_string(job_res.exit_code)));
    let ghost expected = end_items(
        job_res.job_status,
        end_ts@,
        job_res.stdout@,
        job_res.stderr@,
        job_res.duration_ms,
        job_res.exit_code,
    );
    assert(items.deep_view() =~= expected);
    let mut pipe = pipe_new();
    pipe_atomic(&mut pipe);
    let ghost stage0 = pipe;
    pipe_hset_multiple(&mut pipe, job.key.as_str(), &items);
    let ghost stage1 = pipe;
    q_source.pipe_remove_job_id(job.id, &mut pipe);
    let ghost stage2 = pipe;
    q_target.pipe_add_job_id(job.id, &mut pipe);
    proof {
        let cs = end_commands(job.key@, job.id as nat, queue_name@, job_res.q_target, expected);
        let c0 = seq![cs[0]];
        let c1 = seq![cs[1]];
        let c2 = seq![cs[2]];
        lemma_extends_chain(stage0, stage1, stage2, c0, c1);
        lemma_extends_chain(stage0, stage2, pipe, c0 + c1, c2);
        assert(c0 + c1 + c2 =~= cs);
        assert(pipeline_commands(stage0) + encode_all(cs) =~= encode_all(cs));
    }
    pipe
}

} // verus!
