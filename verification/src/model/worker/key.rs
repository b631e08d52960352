//! The fields of a worker hash.

use vstd::prelude::*;

verus! {

/// A field of the hash that holds a worker.
#[derive(Debug, Clone, Copy, PartialEq, Eq, Structural)]
pub enum WorkerKey {
    Id,
    Hostname,
    Pid,
    CurrentJob,
    CurrentJobStart,
    Birth,
    Queue,
}

impl WorkerKey {
    /// The name of the field as Redis stores it.
    pub open spec fn name(self) -> Seq<char> {
        match self {
            WorkerKey::Id => "id"@,
            WorkerKey::Hostname => "hostname"@,
            WorkerKey::Pid => "pid"@,
            WorkerKey::CurrentJob => "current_job"@,
            WorkerKey::CurrentJobStart => "current_job_start"@,
            WorkerKey::Birth => "birth"@,
            WorkerKey::Queue => "queue"@,
        }
    }

    /// The name of the field as Redis stores it.
    pub fn to_string(&self) -> (r: String)
        ensures
            r@ == self.name(),
    {
        match self {
            WorkerKey::Id => "id".to_owned(),
            WorkerKey::Hostname => "hostname".to_owned(),
            WorkerKey::Pid => "pid".to_owned(),
            WorkerKey::CurrentJob => "current_job".to_owned(),
            WorkerKey::CurrentJobStart => "current_job_start".to_owned(),
            WorkerKey::Birth => "birth".to_owned(),
            WorkerKey::Queue => "queue".to_owned(),
        }
    }
}

} // verus!
