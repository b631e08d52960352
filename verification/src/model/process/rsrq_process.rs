//! The record of one worker process.

use crate::config::PROC_KEY;
use crate::model::process::rsrq_process_key::ProcessKey;
use crate::model::process::rsrq_process_state::ProcessState;
use crate::util::text::{
    bool_to_string, concat3, dec, u32_to_string, u64_to_string, usize_to_string,
};
use vstd::prelude::*;
use vstd::string::*;

verus! {

/// The Redis key of the hash of the process `id`.
pub open spec fn process_key(id: nat) -> Seq<char> {
    PROC_KEY@ + ":"@ + dec(id)
}

/// The state of a process with `n_running` jobs in flight.
pub open spec fn state_of(n_running: usize) -> ProcessState {
    if n_running > 0 {
        ProcessState::Running
    } else {
        ProcessState::Idle
    }
}

/// A worker process: where it runs, how it was started, and how it fares.
pub struct Process {
    pub key: String,
    pub id: usize,
    pub hostname: String,
    pub pid: u32,
    pub birth: u64,
    pub last_heartbeat: u64,
    pub state: ProcessState,
    pub n_running: usize,
    pub queue: String,
    pub workers: u32,
    pub max_duration_sec: Option<u64>,
    pub max_jobs: Option<u32>,
    pub burst: bool,
    pub poll_ms: u64,
}

/// A worker process, with its texts as sequences of characters.
pub struct ProcessView {
    pub key: Seq<char>,
    pub id: usize,
    pub hostname: Seq<char>,
    pub pid: u32,
    pub birth: u64,
    pub last_heartbeat: u64,
    pub state: ProcessState,
    pub n_running: usize,
    pub queue: Seq<char>,
    pub workers: u32,
    pub max_duration_sec: Option<u64>,
    pub max_jobs: Option<u32>,
    pub burst: bool,
    pub poll_ms: u64,
}

impl View for Process {
    type V = ProcessView;

    open spec fn view(&self) -> ProcessView {
        ProcessView {
            key: self.key@,
            id: self.id,
            hostname: self.hostname@,
            pid: self.pid,
            birth: self.birth,
            last_heartbeat: self.last_heartbeat,
            state: self.state,
            n_running: self.n_running,
            queue: self.queue@,
            workers: self.workers,
            max_duration_sec: self.max_duration_sec,
            max_jobs: self.max_jobs,
            burst: self.burst,
            poll_ms: self.poll_ms,
        }
    }
}

impl ProcessView {
    /// The fields of the process's hash and their values, in the order in
    /// which they are written. An unset value is written as the empty text.
    pub open spec fn fields(self) -> Seq<(ProcessKey, Seq<char>)> {
        seq![
            (ProcessKey::Id, dec(self.id as nat)),
            (ProcessKey::Hostname, self.hostname),
            (ProcessKey::Pid, dec(self.pid as nat)),
            (ProcessKey::Birth, dec(self.birth as nat)),
            (ProcessKey::LastHeartbeat, dec(self.last_heartbeat as nat)),
            (ProcessKey::State, self.state.name()),
            (ProcessKey::NumRunning, dec(self.n_running as nat)),
            (ProcessKey::Queue, self.queue),
            (ProcessKey::Workers, dec(self.workers as nat)),
            (
                ProcessKey::MaxDurationSec,
                match self.max_duration_sec {
                    Some(d) => dec(d as nat),
                    None => Seq::empty(),
                },
            ),
            (
                ProcessKey::MaxJobs,
                match self.max_jobs {
                    Some(m) => dec(m as nat),
                    None => Seq::empty(),
                },
            ),
            (
                ProcessKey::Burst,
                if self.burst {
                    "true"@
                } else {
                    "false"@
                },
            ),
            (ProcessKey::PollMs, dec(self.poll_ms as nat)),
        ]
    }

    /// The fields that a heartbeat writes, and their values.
    pub open spec fn heartbeat_fields(self) -> Seq<(ProcessKey, Seq<char>)> {
        seq![
            (ProcessKey::LastHeartbeat, dec(self.last_heartbeat as nat)),
            (ProcessKey::State, self.state.name()),
            (ProcessKey::NumRunning, dec(self.n_running as nat)),
        ]
    }
}

impl Process {
    /// The Redis key of the hash of the process `id`.
    pub fn get_key(id: usize) -> (r: String)
        ensures
            r@ == process_key(id as nat),
    {
        concat3(PROC_KEY, ":", usize_to_string(id).as_str())
    }

    /// The process `id` with the system's number `pid` on the machine
    /// `hostname`, born at `birth` with the given settings: idle, its first
    /// heartbeat at its birth.
    pub fn new(
        id: usize,
        hostname: String,
        pid: u32,
        birth: u64,
        queue: &str,
        workers: u32,
        max_duration_sec: Option<u64>,
        max_jobs: Option<u32>,
        burst: bool,
        poll_ms: u64,
    ) -> (p: Process)
        ensures
            p@ == (ProcessView {
                key: process_key(id as nat),
                id,
                hostname: hostname@,
                pid,
                birth,
                last_heartbeat: birth,
                state: ProcessState::Idle,
                n_running: 0,
                queue: queue@,
                workers,
                max_duration_sec,
                max_jobs,
                burst,
                poll_ms,
            }),
    {
        Process {
            id,
            key: Process::get_key(id),
            hostname,
            pid,
            birth,
            last_heartbeat: birth,
            state: ProcessState::Idle,
            n_running: 0,
            queue: queue.to_owned(),
            workers,
            max_duration_sec,
            max_jobs,
            burst,
            poll_ms,
        }
    }

    /// The fields of the process's hash and their values, in the order in
    /// which they are written.
    pub fn to_array(&self) -> (r: [(ProcessKey, String); 13])
        ensures
            forall|i: int|
                0 <= i < 13 ==> (#[trigger] r@[i]).0 == self@.fields()[i].0 && r@[i].1@
                    == self@.fields()[i].1,
    {
        let max_jobs = match self.max_jobs {
            Some(max_jobs) => u32_to_string(max_jobs),
            None => String::new(),
        };
        let max_duration_sec = match self.max_duration_sec {
            Some(max_duration_sec) => u64_to_string(max_duration_sec),
            None => String::new(),
        };
        [
            (ProcessKey::Id, usize_to_string(self.id)),
            (ProcessKey::Hostname, self.hostname.clone()),
            (ProcessKey::Pid, u32_to_string(self.pid)),
            (ProcessKey::Birth, u64_to_string(self.birth)),
            (ProcessKey::LastHeartbeat, u64_to_string(self.last_heartbeat)),
            (ProcessKey::State, self.state.to_string()),
            (ProcessKey::NumRunning, usize_to_string(self.n_running)),
            (ProcessKey::Queue, self.queue.clone()),
            (ProcessKey::Workers, u32_to_string(self.workers)),
            (ProcessKey::MaxDurationSec, max_duration_sec),
            (ProcessKey::MaxJobs, max_jobs),
            (ProcessKey::Burst, bool_to_string(self.burst)),
            (ProcessKey::PollMs, u64_to_string(self.poll_ms)),
        ]
    }

    /// A heartbeat at the time `now` with `n_running` jobs in flight: the
    /// process is running where it has a job in flight and idle where it has
    /// none. The result is the fields to write, and their values.
    pub fn update_running(&mut self, n_running: usize, now: u64) -> (r: [(ProcessKey, String); 3])
        ensures
            final(self)@ == (ProcessView {
                last_heartbeat: now,
                state: state_of(n_running),
                n_running,
                ..old(self)@
            }),
            forall|i: int|
                0 <= i < 3 ==> (#[trigger] r@[i]).0 == final(self)@.heartbeat_fields()[i].0
                    && r@[i].1@ == final(self)@.heartbeat_fields()[i].1,
    {
        self.last_heartbeat = now;
        self.state = if n_running > 0 {
            ProcessState::Running
        } else {
            ProcessState::Idle
        };
        self.n_running = n_running;
        [
            (ProcessKey::LastHeartbeat, u64_to_string(self.last_heartbeat)),
            (ProcessKey::State, self.state.to_string()),
            (ProcessKey::NumRunning, usize_to_string(self.n_running)),
        ]
    }
}

} // verus!
