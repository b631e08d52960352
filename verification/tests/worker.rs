use std::collections::{BTreeMap, BTreeSet, HashMap, VecDeque};

use rsrq::command::snakemake::cancel::{cancel_jobs, get_job_statuses, jobs_from_replies, MinimalJob};
use rsrq::command::snakemake::status::{snakemake_status, SnakemakeStatus};
use rsrq::command::worker::main::{
    channel_capacity, exiting_notice, run_workers, starting_notice, LoopAction,
};
use rsrq::command::worker::run_on_job::{job_result, process_new_job, update_redis_start_job};
use rsrq::command::worker::util::parse_num_workers;
use rsrq::model::command::{RsrqCommand, RsrqCommandResult};
use rsrq::model::error::RsrqError;
use rsrq::model::job::rsrq_job::Job;
use rsrq::model::job::status::JobStatus;
use rsrq::model::queue::queue_type::QueueType;
use rsrq::model::queue::rsrq_queue::Queue;
use rsrq::model::worker::message::{WorkerMessage, WorkerMessageReason};
use rsrq::model::worker::pool::WorkerPool;
use rsrq::util::collection::deduplicate;

/// Redis as far as the library uses it, kept in memory.
#[derive(Default)]
struct FakeRedis {
    lists: HashMap<String, VecDeque<String>>,
    sets: HashMap<String, BTreeSet<String>>,
    hashes: HashMap<String, BTreeMap<String, String>>,
    counters: HashMap<String, usize>,
}

impl FakeRedis {
    fn incr(&mut self, key: &str) -> usize {
        let n = self.counters.entry(key.to_string()).or_insert(0);
        *n += 1;
        *n
    }

    fn apply(&mut self, pipe: &redis::Pipeline) -> Vec<Option<String>> {
        let mut replies = Vec::new();
        for cmd in pipe.cmd_iter() {
            let args: Vec<String> = cmd
                .args_iter()
                .map(|a| match a {
                    redis::Arg::Simple(b) => String::from_utf8(b.to_vec()).unwrap(),
                    redis::Arg::Cursor => panic!("no cursor is sent"),
                })
                .collect();
            match args[0].as_str() {
                "LMOVE" => {
                    assert_eq!((args[3].as_str(), args[4].as_str()), ("RIGHT", "LEFT"));
                    let moved = self.lists.get_mut(&args[1]).and_then(|l| l.pop_back());
                    if let Some(id) = &moved {
                        self.lists.entry(args[2].clone()).or_default().push_front(id.clone());
                    }
                    replies.push(moved);
                }
                "LPUSH" => {
                    self.lists.entry(args[1].clone()).or_default().push_front(args[2].clone());
                    replies.push(None);
                }
                "LREM" => {
                    assert_eq!(args[2], "1");
                    let list = self.lists.entry(args[1].clone()).or_default();
                    if let Some(i) = list.iter().position(|x| *x == args[3]) {
                        list.remove(i);
                    }
                    replies.push(None);
                }
                "SADD" => {
                    self.sets.entry(args[1].clone()).or_default().insert(args[2].clone());
                    replies.push(None);
                }
                "SREM" => {
                    self.sets.entry(args[1].clone()).or_default().remove(&args[2]);
                    replies.push(None);
                }
                "HSET" | "HMSET" => {
                    let hash = self.hashes.entry(args[1].clone()).or_default();
                    for pair in args[2..].chunks(2) {
                        hash.insert(pair[0].clone(), pair[1].clone());
                    }
                    replies.push(None);
                }
                "HGET" => {
                    replies.push(self.hashes.get(&args[1]).and_then(|h| h.get(&args[2]).cloned()));
                }
                "DEL" => {
                    self.lists.remove(&args[1]);
                    self.sets.remove(&args[1]);
                    self.hashes.remove(&args[1]);
                    replies.push(None);
                }
                other => panic!("the library sent {}", other),
            }
        }
        replies
    }

    fn lease(&mut self, queue: &Queue) -> Option<usize> {
        let replies = self.apply(&queue.get_next_job_id().unwrap());
        assert_eq!(replies.len(), 1);
        replies[0].as_ref().map(|id| id.parse().unwrap())
    }

    fn length(&self, queue: &Queue) -> usize {
        if queue.q_type.stores_list() {
            self.lists.get(&queue.key).map_or(0, |l| l.len())
        } else {
            self.sets.get(&queue.key).map_or(0, |s| s.len())
        }
    }

    fn members(&self, kind: QueueType, name: &str) -> Vec<usize> {
        let key = Queue::new(kind, name).key;
        if kind.stores_list() {
            self.lists.get(&key).map_or(vec![], |l| l.iter().map(|x| x.parse().unwrap()).collect())
        } else {
            self.sets.get(&key).map_or(vec![], |s| s.iter().map(|x| x.parse().unwrap()).collect())
        }
    }

    fn places(&self, name: &str, id: usize) -> usize {
        QueueType::get_types()
            .into_iter()
            .map(|kind| self.members(kind, name).into_iter().filter(|x| *x == id).count())
            .sum()
    }

    fn hgetall(&self, key: &str) -> Vec<(String, String)> {
        self.hashes.get(key).map_or(vec![], |h| h.iter().map(|(k, v)| (k.clone(), v.clone())).collect())
    }

    fn job(&self, id: usize) -> Job {
        Job::load(id, &self.hgetall(&Job::get_redis_key(id))).unwrap()
    }
}

fn enqueue(redis: &mut FakeRedis, queue: &str, cmd: &str) -> usize {
    let id = redis.incr("rsrq:uid:job");
    let job = Job::new(queue, cmd, id, 1700000000);
    redis.apply(&job.creation_pipeline());
    id
}

fn lease_batch(redis: &mut FakeRedis, queue: &Queue, n: usize) -> Vec<usize> {
    let leases: Vec<Result<Option<usize>, RsrqError>> = (0..n).map(|_| Ok(redis.lease(queue))).collect();
    Queue::get_n_next_job_ids(&leases)
}

/// What a command line gives when it is run: the commands that the tests use.
fn run(command: &RsrqCommand) -> RsrqCommandResult {
    match (command.cmd.as_str(), command.args.as_slice()) {
        ("echo", args) => RsrqCommandResult::from_exit("echo", format!("{}\n", args.join(" ")), String::new(), Some(0), 3),
        ("sh", [flag, script]) if flag == "-c" && script.starts_with("exit ") => {
            RsrqCommandResult::from_exit("sh", String::new(), String::new(), Some(script[5..].parse().unwrap()), 4)
        }
        ("true", []) => RsrqCommandResult::from_exit("true", String::new(), String::new(), Some(0), 1),
        (other, _) => RsrqCommandResult::from_spawn_error(other, "No such file or directory (os error 2)", 0),
    }
}

fn start(redis: &mut FakeRedis, id: usize, at: u64) {
    let job = redis.job(id);
    redis.apply(&update_redis_start_job(&job, &at.to_string()));
}

fn finish(redis: &mut FakeRedis, queue: &str, id: usize, at: u64) {
    let job = redis.job(id);
    let ran = RsrqCommand::new(&job.cmd).ok().map(|command| run(&command));
    let result = job_result(ran.as_ref());
    redis.apply(&process_new_job(queue, &job, &result, &at.to_string()));
}

/// A worker that runs until it is told to stop; an executor ends when the
/// control loop has nothing else to do. The result is the jobs that were
/// started, in their order.
fn worker(redis: &mut FakeRedis, queue: &str, workers: u16, max_jobs: Option<u32>, burst: bool) -> Vec<usize> {
    let max_workers = parse_num_workers(workers, max_jobs);
    let queued = Queue::new(QueueType::Queued, queue);
    let (mut pool, first) = WorkerPool::new(1, queue, max_jobs, None, max_workers, 1000, burst, redis.length(&queued), 0, None);
    assert!(first.is_some());
    let mut messages = VecDeque::from([WorkerMessage::check_for_jobs()]);
    let mut executors: VecDeque<usize> = VecDeque::new();
    let mut started = Vec::new();
    let mut now: u128 = 0;
    let mut turns = 0;
    loop {
        turns += 1;
        assert!(turns < 1000, "the worker does not stop");
        let message = match messages.pop_front() {
            Some(m) => m,
            None => {
                match executors.pop_front() {
                    Some(id) => {
                        finish(redis, queue, id, 1700000002);
                        messages.push_back(WorkerMessage::finished_job(id));
                    }
                    None => {
                        now += 1000;
                        messages.push_back(WorkerMessage::check_for_jobs());
                    }
                }
                continue;
            }
        };
        match run_workers(&mut pool, message) {
            LoopAction::Abandon => break,
            LoopAction::Drain => {
                while let Some(id) = executors.pop_front() {
                    finish(redis, queue, id, 1700000002);
                }
                break;
            }
            LoopAction::Poll => {
                let keys = pool.job_keys();
                let statuses: Vec<JobStatus> = keys.iter().map(|id| redis.job(*id).status).collect();
                for id in pool.abort_cancelled(&keys, &statuses) {
                    executors.retain(|x| *x != id);
                }
                if pool.check_due(now) {
                    let n_queued = redis.length(&queued);
                    let n = pool.n_jobs_to_add(n_queued);
                    let ids = lease_batch(redis, &queued, n);
                    assert!(ids.len() <= n);
                    for id in &ids {
                        start(redis, *id, 1700000001);
                        executors.push_back(*id);
                        started.push(*id);
                    }
                    let update = pool.maybe_start_new_jobs(n_queued, &ids, now, None);
                    assert!(pool.n_running() <= max_workers as usize);
                    messages.extend(update.messages);
                }
            }
        }
    }
    started
}

#[test]
fn an_enqueued_job_is_finished_by_a_worker() {
    let mut redis = FakeRedis::default();
    let id = enqueue(&mut redis, "T", "echo hello");
    assert_eq!(redis.members(QueueType::Queued, "T"), vec![id]);
    assert_eq!(redis.job(id).status, JobStatus::Queued);
    assert_eq!(worker(&mut redis, "T", 1, None, true), vec![id]);
    assert!(redis.members(QueueType::Queued, "T").is_empty());
    assert!(redis.members(QueueType::Running, "T").is_empty());
    assert_eq!(redis.members(QueueType::Finished, "T"), vec![id]);
    let job = redis.job(id);
    assert_eq!(job.status, JobStatus::Finished);
    assert_eq!(job.stdout, Some("hello\n".to_string()));
    assert_eq!(job.exit_code, Some(0));
    assert_eq!(job.started, Some(1700000001));
    assert_eq!(job.finished, Some(1700000002));
    assert_eq!(job.duration_ms, Some(3));
}

#[test]
fn a_job_that_exits_with_an_error_has_failed() {
    let mut redis = FakeRedis::default();
    let id = enqueue(&mut redis, "T", "sh -c 'exit 2'");
    worker(&mut redis, "T", 1, None, true);
    let job = redis.job(id);
    assert_eq!(job.status, JobStatus::Failed);
    assert_eq!(job.exit_code, Some(2));
    assert_eq!(redis.members(QueueType::Failed, "T"), vec![id]);
    assert_eq!(redis.places("T", id), 1);
}

#[test]
fn a_job_without_a_command_has_failed() {
    let mut redis = FakeRedis::default();
    let id = enqueue(&mut redis, "T", "");
    worker(&mut redis, "T", 1, None, true);
    let job = redis.job(id);
    assert_eq!(job.status, JobStatus::Failed);
    assert_eq!(job.stderr, Some("Unable to parse command.".to_string()));
    assert_eq!(job.exit_code, Some(1));
    assert_eq!(job.duration_ms, Some(0));
    assert_eq!(redis.members(QueueType::Failed, "T"), vec![id]);
}

#[test]
fn a_job_that_cannot_be_started_has_failed() {
    let mut redis = FakeRedis::default();
    let id = enqueue(&mut redis, "T", "no-such-program --flag");
    worker(&mut redis, "T", 1, None, true);
    let job = redis.job(id);
    assert_eq!(job.status, JobStatus::Failed);
    assert_eq!(job.stdout, None);
    assert_eq!(job.stderr, Some("No such file or directory (os error 2)".to_string()));
    assert_eq!(job.exit_code, Some(1));
}

fn cancel(redis: &mut FakeRedis, ids: &[usize]) {
    let ids = deduplicate(ids);
    let replies = redis.apply(&get_job_statuses(&ids));
    assert_eq!(replies.len(), 2 * ids.len());
    let jobs = jobs_from_replies(&ids, &replies).unwrap();
    if !jobs.is_empty() {
        redis.apply(&cancel_jobs(&jobs));
    }
}

#[test]
fn a_running_job_that_is_cancelled_is_aborted_at_the_next_round() {
    let mut redis = FakeRedis::default();
    let id = enqueue(&mut redis, "T", "sleep 5");
    let queued = Queue::new(QueueType::Queued, "T");
    let (mut pool, _) = WorkerPool::new(1, "T", None, None, 1, 500, false, redis.length(&queued), 0, None);
    assert_eq!(run_workers(&mut pool, WorkerMessage::check_for_jobs()), LoopAction::Poll);
    assert!(pool.abort_cancelled(&pool.job_keys(), &vec![]).is_empty());
    assert!(pool.check_due(0));
    let n_queued = redis.length(&queued);
    let ids = lease_batch(&mut redis, &queued, pool.n_jobs_to_add(n_queued));
    assert_eq!(ids, vec![id]);
    start(&mut redis, id, 1700000001);
    pool.maybe_start_new_jobs(n_queued, &ids, 0, None);
    assert_eq!(pool.job_keys(), vec![id]);
    assert_eq!(redis.job(id).status, JobStatus::Running);
    assert_eq!(redis.members(QueueType::Running, "T"), vec![id]);

    cancel(&mut redis, &[id, id]);
    assert_eq!(redis.job(id).status, JobStatus::Cancelled);
    assert_eq!(redis.members(QueueType::Failed, "T"), vec![id]);
    assert_eq!(redis.places("T", id), 1);

    assert_eq!(run_workers(&mut pool, WorkerMessage::check_for_jobs()), LoopAction::Poll);
    let keys = pool.job_keys();
    let statuses: Vec<JobStatus> = keys.iter().map(|k| redis.job(*k).status).collect();
    assert_eq!(pool.abort_cancelled(&keys, &statuses), vec![id]);
    assert!(pool.job_keys().is_empty());
    assert_eq!(redis.job(id).status, JobStatus::Cancelled);
    assert_eq!(redis.places("T", id), 1);
}

#[test]
fn a_worker_starts_no_more_jobs_than_it_may() {
    let mut redis = FakeRedis::default();
    let ids: Vec<usize> = (0..10).map(|_| enqueue(&mut redis, "T", "true")).collect();
    let started = worker(&mut redis, "T", 4, Some(2), true);
    assert_eq!(started, vec![ids[0], ids[1]]);
    let mut finished = redis.members(QueueType::Finished, "T");
    finished.sort();
    assert_eq!(finished, vec![ids[0], ids[1]]);
    assert_eq!(redis.members(QueueType::Queued, "T").len(), 8);
    assert!(redis.members(QueueType::Running, "T").is_empty());
    assert!(redis.members(QueueType::Failed, "T").is_empty());
    for id in &ids {
        assert_eq!(redis.places("T", *id), 1);
    }
}

#[test]
fn every_job_stands_in_exactly_one_container() {
    let mut redis = FakeRedis::default();
    let cmds = ["echo a", "sh -c 'exit 3'", "", "echo b", "nope", "true", "echo c"];
    let ids: Vec<usize> = cmds.iter().map(|c| enqueue(&mut redis, "T", c)).collect();
    let other = enqueue(&mut redis, "U", "echo other");
    for id in &ids {
        assert_eq!(redis.places("T", *id), 1);
        assert_eq!(redis.places("U", *id), 0);
    }
    cancel(&mut redis, &[ids[3]]);
    let started = worker(&mut redis, "T", 3, None, true);
    assert_eq!(started, vec![ids[0], ids[1], ids[2], ids[4], ids[5], ids[6]]);
    for id in &ids {
        assert_eq!(redis.places("T", *id), 1, "job {}", id);
    }
    assert_eq!(redis.places("U", other), 1);
    assert_eq!(redis.members(QueueType::Queued, "U"), vec![other]);
    let mut finished = redis.members(QueueType::Finished, "T");
    finished.sort();
    assert_eq!(finished, vec![ids[0], ids[5], ids[6]]);
    let mut failed = redis.members(QueueType::Failed, "T");
    failed.sort();
    assert_eq!(failed, vec![ids[1], ids[2], ids[3], ids[4]]);
    assert_eq!(redis.job(ids[3]).status, JobStatus::Cancelled);
}

#[test]
fn a_job_that_has_ended_is_never_queued_or_running_again() {
    let mut redis = FakeRedis::default();
    let done = enqueue(&mut redis, "T", "echo done");
    worker(&mut redis, "T", 1, None, true);
    assert_eq!(redis.members(QueueType::Finished, "T"), vec![done]);
    cancel(&mut redis, &[done]);
    assert_eq!(redis.job(done).status, JobStatus::Finished);
    let next = enqueue(&mut redis, "T", "echo next");
    worker(&mut redis, "T", 2, None, true);
    finish(&mut redis, "T", done, 1700000009);
    assert!(!redis.members(QueueType::Queued, "T").contains(&done));
    assert!(!redis.members(QueueType::Running, "T").contains(&done));
    assert!(redis.members(QueueType::Finished, "T").contains(&done));
    assert!(redis.members(QueueType::Finished, "T").contains(&next));
}

#[test]
fn leasers_that_race_are_given_different_jobs() {
    for (leasers, batch, jobs) in [(3usize, 2usize, 10usize), (3, 4, 10), (1, 5, 0), (4, 1, 4)] {
        let mut redis = FakeRedis::default();
        let ids: Vec<usize> = (0..jobs).map(|_| enqueue(&mut redis, "T", "true")).collect();
        let queued = Queue::new(QueueType::Queued, "T");
        let mut given: Vec<Vec<usize>> = vec![vec![]; leasers];
        for turn in 0..leasers * batch {
            let who = (turn * 7 + turn / 3) % leasers;
            if let Some(id) = redis.lease(&queued) {
                given[who].push(id);
            }
        }
        let all: Vec<usize> = given.iter().flatten().copied().collect();
        assert_eq!(all.len(), std::cmp::min(leasers * batch, jobs));
        assert_eq!(deduplicate(&all).len(), all.len());
        let mut in_order = all.clone();
        in_order.sort();
        assert_eq!(in_order, ids[..all.len()].to_vec());
    }
}

#[test]
fn only_jobs_that_are_queued_or_running_are_cancelled() {
    let job = |status| MinimalJob { id: 1, status, queue: "T".to_string() };
    assert!(job(JobStatus::Queued).is_cancellable());
    assert!(job(JobStatus::Running).is_cancellable());
    assert!(!job(JobStatus::Finished).is_cancellable());
    assert!(!job(JobStatus::Failed).is_cancellable());
    assert!(!job(JobStatus::Cancelled).is_cancellable());
}

fn commands(pipe: &redis::Pipeline) -> Vec<Vec<String>> {
    pipe.cmd_iter()
        .map(|c| {
            c.args_iter()
                .map(|a| match a {
                    redis::Arg::Simple(b) => String::from_utf8(b.to_vec()).unwrap(),
                    redis::Arg::Cursor => "<cursor>".to_string(),
                })
                .collect()
        })
        .collect()
}

fn is_atomic(pipe: &redis::Pipeline) -> bool {
    pipe.get_packed_pipeline().starts_with(b"*1\r\n$5\r\nMULTI\r\n")
}

#[test]
fn cancelling_is_one_atomic_pipeline() {
    let jobs = vec![
        MinimalJob { id: 1, status: JobStatus::Queued, queue: "T".to_string() },
        MinimalJob { id: 2, status: JobStatus::Finished, queue: "T".to_string() },
        MinimalJob { id: 3, status: JobStatus::Running, queue: "U".to_string() },
    ];
    let pipe = cancel_jobs(&jobs);
    assert!(is_atomic(&pipe));
    assert_eq!(
        commands(&pipe),
        vec![
            vec!["HSET", "rsrq:job:1", "status", "cancelled"],
            vec!["LREM", "rsrq:queued:T", "1", "1"],
            vec!["SADD", "rsrq:failed:T", "1"],
            vec!["HSET", "rsrq:job:3", "status", "cancelled"],
            vec!["LREM", "rsrq:running:U", "1", "3"],
            vec!["SADD", "rsrq:failed:U", "3"],
        ]
    );
    assert!(commands(&cancel_jobs(&vec![])).is_empty());
}

#[test]
fn the_status_and_the_queue_of_each_job_are_asked_for() {
    let pipe = get_job_statuses(&vec![4, 2]);
    assert!(!is_atomic(&pipe));
    assert_eq!(
        commands(&pipe),
        vec![
            vec!["HGET", "rsrq:job:4", "status"],
            vec!["HGET", "rsrq:job:4", "queue"],
            vec!["HGET", "rsrq:job:2", "status"],
            vec!["HGET", "rsrq:job:2", "queue"],
        ]
    );
}

#[test]
fn a_job_without_a_status_or_a_queue_is_passed_over() {
    let some = |s: &str| Some(s.to_string());
    let replies = vec![some("queued"), some("T"), None, None, some("running"), None, None, some("U"), some("failed"), some("V")];
    let jobs = jobs_from_replies(&vec![1, 2, 3, 4, 5], &replies).unwrap();
    assert_eq!(jobs.len(), 2);
    assert_eq!((jobs[0].id, jobs[0].status, jobs[0].queue.as_str()), (1, JobStatus::Queued, "T"));
    assert_eq!((jobs[1].id, jobs[1].status, jobs[1].queue.as_str()), (5, JobStatus::Failed, "V"));
    assert!(matches!(
        jobs_from_replies(&vec![1], &vec![some("gone"), some("T")]),
        Err(RsrqError::CmdParserError(ref m)) if m == "Invalid job status: gone"
    ));
}

#[test]
fn the_start_and_the_end_of_a_job_are_atomic_pipelines() {
    let job = Job::new("T", "echo hello", 7, 1700000000);
    let pipe = update_redis_start_job(&job, "1700000001");
    assert!(is_atomic(&pipe));
    assert_eq!(commands(&pipe), vec![vec!["HMSET", "rsrq:job:7", "status", "running", "started", "1700000001"]]);

    let ran = run(&RsrqCommand::new(&job.cmd).unwrap());
    let result = job_result(Some(&ran));
    let pipe = process_new_job("T", &job, &result, "1700000002");
    assert!(is_atomic(&pipe));
    assert_eq!(
        commands(&pipe),
        vec![
            vec![
                "HMSET", "rsrq:job:7", "status", "finished", "finished", "1700000002", "stdout", "hello\n",
                "stderr", "", "duration_ms", "3", "exit_code", "0",
            ],
            vec!["LREM", "rsrq:running:T", "1", "7"],
            vec!["SADD", "rsrq:finished:T", "7"],
        ]
    );
}

#[test]
fn the_workflow_engine_is_told_running_success_or_failed() {
    let told = |status| SnakemakeStatus::from_job_status(status).to_string();
    assert_eq!(told(JobStatus::Queued), "running");
    assert_eq!(told(JobStatus::Running), "running");
    assert_eq!(told(JobStatus::Finished), "success");
    assert_eq!(told(JobStatus::Failed), "failed");
    assert_eq!(told(JobStatus::Cancelled), "failed");
    assert_eq!(snakemake_status(3, Some(JobStatus::Finished)).unwrap(), SnakemakeStatus::Success);
    assert!(matches!(snakemake_status(3, None), Err(RsrqError::JobNotFound(3))));
}

#[test]
fn each_message_has_its_reason() {
    let none = |reason| WorkerMessage { job_id: None, reason };
    assert_eq!(WorkerMessage::exit_sigint(), none(WorkerMessageReason::Sigint));
    assert_eq!(WorkerMessage::exit_time(), none(WorkerMessageReason::TimeExceeded));
    assert_eq!(WorkerMessage::check_for_jobs(), none(WorkerMessageReason::CheckForJobs));
    assert_eq!(WorkerMessage::exit_max_jobs(), none(WorkerMessageReason::MaxJobs));
    assert_eq!(WorkerMessage::burst_no_jobs(), none(WorkerMessageReason::BurstNoJobs));
    assert_eq!(
        WorkerMessage::finished_job(9),
        WorkerMessage { job_id: Some(9), reason: WorkerMessageReason::CheckForJobs }
    );
}

fn pool(max_workers: u32, max_jobs: Option<u32>, burst: bool) -> WorkerPool {
    WorkerPool::new(1, "T", max_jobs, None, max_workers, 1000, burst, 0, 0, None).0
}

#[test]
fn the_control_loop_stops_on_every_message_but_a_check() {
    let mut p = pool(2, None, false);
    p.check_due(0);
    p.maybe_start_new_jobs(5, &vec![10, 11], 0, None);
    assert_eq!(run_workers(&mut p, WorkerMessage::exit_sigint()), LoopAction::Abandon);
    assert_eq!(run_workers(&mut p, WorkerMessage::exit_time()), LoopAction::Drain);
    assert_eq!(run_workers(&mut p, WorkerMessage::exit_max_jobs()), LoopAction::Drain);
    assert_eq!(run_workers(&mut p, WorkerMessage::burst_no_jobs()), LoopAction::Drain);
    assert_eq!(p.job_keys(), vec![10, 11]);
    assert_eq!(run_workers(&mut p, WorkerMessage::check_for_jobs()), LoopAction::Poll);
    assert_eq!(p.job_keys(), vec![10, 11]);
    assert_eq!(run_workers(&mut p, WorkerMessage::finished_job(10)), LoopAction::Poll);
    assert_eq!(p.job_keys(), vec![11]);
    assert_eq!(run_workers(&mut p, WorkerMessage::finished_job(99)), LoopAction::Poll);
    assert_eq!(p.job_keys(), vec![11]);
}

#[test]
fn the_first_round_is_always_due_and_a_later_one_after_the_poll_interval() {
    let mut p = pool(2, None, false);
    assert!(p.check_due(0));
    assert!(p.check_due(5));
    p.maybe_start_new_jobs(0, &vec![], 100, None);
    assert!(!p.check_due(100));
    assert!(!p.check_due(1099));
    assert!(p.check_due(1100));
    assert!(!p.check_due(50));
}

#[test]
fn a_round_that_is_not_due_leaves_the_pool_as_it_is() {
    let mut p = pool(2, Some(1), true);
    let first = p.maybe_start_new_jobs(3, &vec![7], 100, None);
    assert_eq!(first.messages, vec![WorkerMessage::exit_max_jobs()]);
    assert_eq!(p.job_keys(), vec![7]);
    p.remove_job(7);
    for now in [100, 500, 1099, 0] {
        let early = p.maybe_start_new_jobs(0, &vec![], now, None);
        assert!(early.line.is_none());
        assert!(early.messages.is_empty());
        assert!(p.job_keys().is_empty());
        assert!(!p.check_due(1099));
    }
    assert!(p.check_due(1100));
    let due = p.maybe_start_new_jobs(0, &vec![], 1100, None);
    assert_eq!(due.messages, vec![WorkerMessage::burst_no_jobs(), WorkerMessage::exit_max_jobs()]);
    assert!(!p.check_due(2099));
    assert!(p.check_due(2100));
}

#[test]
fn as_many_jobs_are_leased_as_workers_are_free_and_jobs_are_left() {
    let mut p = pool(4, None, false);
    assert_eq!(p.n_jobs_to_add(0), 0);
    assert_eq!(p.n_jobs_to_add(3), 3);
    assert_eq!(p.n_jobs_to_add(10), 4);
    p.maybe_start_new_jobs(10, &vec![1, 2, 3], 0, None);
    assert_eq!(p.n_running(), 3);
    assert_eq!(p.n_jobs_to_add(10), 1);
    p.remove_job(2);
    assert_eq!(p.n_jobs_to_add(10), 2);
    assert_eq!(pool(0, None, false).n_jobs_to_add(10), 0);

    let mut limited = pool(4, Some(5), false);
    assert_eq!(limited.n_jobs_to_add(10), 4);
    limited.maybe_start_new_jobs(10, &vec![1, 2, 3, 4], 0, None);
    limited.remove_job(1);
    limited.remove_job(2);
    assert_eq!(limited.n_jobs_to_add(10), 1);
    assert_eq!(pool(4, Some(0), false).n_jobs_to_add(10), 0);
}

#[test]
fn a_pool_asks_to_stop_when_it_has_started_all_it_may_or_found_nothing_in_burst_mode() {
    let mut limited = pool(4, Some(2), false);
    assert!(limited.maybe_start_new_jobs(10, &vec![1], 0, None).messages.is_empty());
    assert_eq!(limited.maybe_start_new_jobs(9, &vec![2], 1000, None).messages, vec![WorkerMessage::exit_max_jobs()]);

    let mut burst = pool(4, None, true);
    assert!(burst.maybe_start_new_jobs(1, &vec![1], 0, None).messages.is_empty());
    burst.remove_job(1);
    assert_eq!(burst.maybe_start_new_jobs(0, &vec![], 1000, None).messages, vec![WorkerMessage::burst_no_jobs()]);

    let mut both = pool(4, Some(0), true);
    assert_eq!(
        both.maybe_start_new_jobs(0, &vec![], 0, None).messages,
        vec![WorkerMessage::burst_no_jobs(), WorkerMessage::exit_max_jobs()]
    );

    let mut waiting = pool(4, None, false);
    assert!(waiting.maybe_start_new_jobs(0, &vec![], 0, None).messages.is_empty());
}

#[test]
fn only_cancelled_jobs_in_flight_are_reaped() {
    let mut p = pool(5, None, false);
    p.maybe_start_new_jobs(5, &vec![1, 2, 3, 4], 0, None);
    let keys = vec![1, 2, 3, 4, 9, 3];
    let statuses = vec![
        JobStatus::Running,
        JobStatus::Cancelled,
        JobStatus::Failed,
        JobStatus::Cancelled,
        JobStatus::Cancelled,
        JobStatus::Cancelled,
    ];
    assert_eq!(p.abort_cancelled(&keys, &statuses), vec![2, 4, 3]);
    assert_eq!(p.job_keys(), vec![1]);
    assert!(p.abort_cancelled(&vec![1], &vec![]).is_empty());
    assert!(p.abort_cancelled(&vec![], &vec![JobStatus::Cancelled]).is_empty());
    assert_eq!(p.job_keys(), vec![1]);
}

#[test]
fn a_job_is_in_flight_once() {
    let mut p = pool(3, None, false);
    p.run(7);
    p.run(7);
    p.run(8);
    assert_eq!(p.job_keys(), vec![7, 8]);
    p.maybe_start_new_jobs(3, &vec![8], 0, None);
    assert_eq!(p.job_keys(), vec![7, 8]);
    assert_eq!(p.queue().key, "rsrq:queued:T");
}

#[test]
fn the_notices_of_the_control_loop() {
    assert_eq!(starting_notice(1, "T"), "Starting 1 worker to process queue: T");
    assert_eq!(starting_notice(4, "T"), "Starting 4 workers to process queue: T");
    assert_eq!(starting_notice(0, "T"), "Starting 0 workers to process queue: T");
    assert_eq!(
        exiting_notice(WorkerMessageReason::Sigint, 3).unwrap(),
        "Terminating program, the remaining 3 jobs will be marked as failed."
    );
    assert_eq!(
        exiting_notice(WorkerMessageReason::TimeExceeded, 2).unwrap(),
        "The maximum time has been reached, waiting for 2 running jobs to finish."
    );
    assert_eq!(
        exiting_notice(WorkerMessageReason::MaxJobs, 1).unwrap(),
        "Maximum number of jobs has been reached, waiting for 1 running jobs to finish."
    );
    assert_eq!(exiting_notice(WorkerMessageReason::BurstNoJobs, 0).unwrap(), "No jobs in queue, exiting.");
    assert_eq!(exiting_notice(WorkerMessageReason::CheckForJobs, 0), None);
    assert_eq!(channel_capacity(4), 40);
    assert_eq!(channel_capacity(0), 0);
    assert_eq!(channel_capacity(u16::MAX), 655350);
}
