//! The record of one worker.

use crate::config::WORKER_KEY;
use crate::model::worker::key::WorkerKey;
use crate::util::text::{concat3, dec, u32_to_string, u64_to_string, usize_to_string};
use vstd::prelude::*;
use vstd::string::*;

verus! {

/// The Redis key of the hash of the worker `id`.
pub open spec fn worker_key(id: nat) -> Seq<char> {
    WORKER_KEY@ + ":"@ + dec(id)
}

/// A worker: where it runs, since when, on which queue, and on which job.
#[derive(Debug)]
pub struct Worker {
    pub id: usize,
    pub key: String,
    pub hostname: String,
    pub pid: u32,
    pub current_job: Option<usize>,
    pub current_job_start: Option<u64>,
    pub birth: u64,
    pub queue: String,
}

/// A worker, with its texts as sequences of characters.
pub struct WorkerView {
    pub id: usize,
    pub key: Seq<char>,
    pub hostname: Seq<char>,
    pub pid: u32,
    pub current_job: Option<usize>,
    pub current_job_start: Option<u64>,
    pub birth: u64,
    pub queue: Seq<char>,
}

impl View for Worker {
    type V = WorkerView;

    open spec fn view(&self) -> WorkerView {
        WorkerView {
            id: self.id,
            key: self.key@,
            hostname: self.hostname@,
            pid: self.pid,
            current_job: self.current_job,
            current_job_start: self.current_job_start,
            birth: self.birth,
            queue: self.queue@,
        }
    }
}

impl WorkerView {
    /// The fields of the worker's hash and their values, in the order in
    /// which they are written. An unset value is written as the empty text.
    pub open spec fn fields(self) -> Seq<(WorkerKey, Seq<char>)> {
        seq![
            (WorkerKey::Id, dec(self.id as nat)),
            (WorkerKey::Hostname, self.hostname),
            (WorkerKey::Pid, dec(self.pid as nat)),
            (
                WorkerKey::CurrentJob,
                match self.current_job {
                    Some(job) => dec(job as nat),
                    None => Seq::empty(),
                },
            ),
            (
                WorkerKey::CurrentJobStart,
                match self.current_job_start {
                    Some(t) => dec(t as nat),
                    None => Seq::empty(),
                },
            ),
            (WorkerKey::Birth, dec(self.birth as nat)),
            (WorkerKey::Queue, self.queue),
        ]
    }
}

impl Worker {
    /// The Redis key of the hash of the worker `id`.
    pub fn get_key(id: usize) -> (r: String)
        ensures
            r@ == worker_key(id as nat),
    {
        concat3(WORKER_KEY, ":", usize_to_string(id).as_str())
    }

    /// The worker `worker_id` of the process `pid` on the machine `hostname`,
    /// born at `birth` to serve `queue`, with no job yet.
    pub fn new(worker_id: usize, hostname: String, pid: u32, birth: u64, queue: &str) -> (w: Worker)
        ensures
            w@ == (WorkerView {
                id: worker_id,
                key: worker_key(worker_id as nat),
                hostname: hostname@,
                pid,
                current_job: None,
                current_job_start: None,
                birth,
                queue: queue@,
            }),
    {
        Worker {
            id: worker_id,
            key: Worker::get_key(worker_id),
            hostname,
            pid,
            current_job: None,
            current_job_start: None,
            birth,
            queue: queue.to_owned(),
        }
    }

    /// The fields of the worker's hash and their values, in the order in
    /// which they are written.
    pub fn to_array(&self) -> (r: [(WorkerKey, String); 7])
        ensures
            forall|i: int|
                0 <= i < 7 ==> (#[trigger] r@[i]).0 == self@.fields()[i].0 && r@[i].1@
                    == self@.fields()[i].1,
    {
        let current_job = match self.current_job {
            Some(job_id) => usize_to_string(job_id),
            None => String::new(),
        };
        let current_job_start = match self.current_job_start {
            Some(job_start) => u64_to_string(job_start),
            None => String::new(),
        };
        [
            (WorkerKey::Id, usize_to_string(self.id)),
            (WorkerKey::Hostname, self.hostname.clone()),
            (WorkerKey::Pid, u32_to_string(self.pid)),
            (WorkerKey::CurrentJob, current_job),
            (WorkerKey::CurrentJobStart, current_job_start),
            (WorkerKey::Birth, u64_to_string(self.birth)),
            (WorkerKey::Queue, self.queue.clone()),
        ]
    }
}

} // verus!
