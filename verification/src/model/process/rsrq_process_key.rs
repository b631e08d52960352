//! The fields of a process hash.

use crate::model::error::RsrqError;
use crate::model::types::RsrqResult;
use crate::util::text::str_eq;
use vstd::prelude::*;

verus! {

/// A field of the hash that holds a worker process.
#[derive(Debug, Clone, Copy, PartialEq, Eq, Structural)]
pub enum ProcessKey {
    Id,
    Hostname,
    Pid,
    Birth,
    LastHeartbeat,
    State,
    NumRunning,
    Queue,
    Workers,
    MaxDurationSec,
    MaxJobs,
    Burst,
    PollMs,
}

impl ProcessKey {
    /// The name of the field as Redis stores it.
    pub open spec fn name(self) -> Seq<char> {
        match self {
            ProcessKey::Id => "id"@,
            ProcessKey::Hostname => "hostname"@,
            ProcessKey::Pid => "pid"@,
            ProcessKey::Birth => "birth"@,
            ProcessKey::LastHeartbeat => "last_heartbeat"@,
            ProcessKey::State => "state"@,
            ProcessKey::NumRunning => "num_running"@,
            ProcessKey::Queue => "queue"@,
            ProcessKey::Workers => "workers"@,
            ProcessKey::MaxDurationSec => "max_duration_sec"@,
            ProcessKey::MaxJobs => "max_jobs"@,
            ProcessKey::Burst => "burst"@,
            ProcessKey::PollMs => "poll_ms"@,
        }
    }

    /// The field that Redis stores under the name `s`, if there is one.
    pub open spec fn named(s: Seq<char>) -> Option<ProcessKey> {
        if s == "id"@ {
            Some(ProcessKey::Id)
        } else if s == "hostname"@ {
            Some(ProcessKey::Hostname)
        } else if s == "pid"@ {
            Some(ProcessKey::Pid)
        } else if s == "birth"@ {
            Some(ProcessKey::Birth)
        } else if s == "last_heartbeat"@ {
            Some(ProcessKey::LastHeartbeat)
        } else if s == "state"@ {
            Some(ProcessKey::State)
        } else if s == "num_running"@ {
            Some(ProcessKey::NumRunning)
        } else if s == "queue"@ {
            Some(ProcessKey::Queue)
        } else if s == "workers"@ {
            Some(ProcessKey::Workers)
        } else if s == "max_duration_sec"@ {
            Some(ProcessKey::MaxDurationSec)
        } else if s == "max_jobs"@ {
            Some(ProcessKey::MaxJobs)
        } else if s == "burst"@ {
            Some(ProcessKey::Burst)
        } else if s == "poll_ms"@ {
            Some(ProcessKey::PollMs)
        } else {
            None
        }
    }

    /// The field is found again from its name.
    pub proof fn lemma_named_name(self)
        ensures
            ProcessKey::named(self.name()) == Some(self),
    {
        reveal_strlit("id");
        reveal_strlit("hostname");
        reveal_strlit("pid");
        reveal_strlit("birth");
        reveal_strlit("last_heartbeat");
        reveal_strlit("state");
        reveal_strlit("num_running");
        reveal_strlit("queue");
        reveal_strlit("workers");
        reveal_strlit("max_duration_sec");
        reveal_strlit("max_jobs");
        reveal_strlit("burst");
        reveal_strlit("poll_ms");
        assert("id"@.len() == 2);
        assert("hostname"@.len() == 8);
        assert("pid"@.len() == 3);
        assert("birth"@.len() == 5);
        assert("last_heartbeat"@.len() == 14);
        assert("state"@.len() == 5);
        assert("num_running"@.len() == 11);
        assert("queue"@.len() == 5);
        assert("workers"@.len() == 7);
        assert("max_duration_sec"@.len() == 16);
        assert("max_jobs"@.len() == 8);
        assert("burst"@.len() == 5);
        assert("poll_ms"@.len() == 7);
        assert("birth"@[0] != "state"@[0]);
        assert("birth"@[0] != "queue"@[0]);
        assert("birth"@[1] != "burst"@[1]);
        assert("state"@[0] != "queue"@[0]);
        assert("state"@[0] != "burst"@[0]);
        assert("queue"@[0] != "burst"@[0]);
        assert("hostname"@[0] != "max_jobs"@[0]);
        assert("workers"@[0] != "poll_ms"@[0]);
    }

    /// The name of the field as Redis stores it.
    pub fn to_string(&self) -> (r: String)
        ensures
            r@ == self.name(),
    {
        match self {
            ProcessKey::Id => "id".to_owned(),
            ProcessKey::Hostname => "hostname".to_owned(),
            ProcessKey::Pid => "pid".to_owned(),
            ProcessKey::Birth => "birth".to_owned(),
            ProcessKey::LastHeartbeat => "last_heartbeat".to_owned(),
            ProcessKey::State => "state".to_owned(),
            ProcessKey::NumRunning => "num_running".to_owned(),
            ProcessKey::Queue => "queue".to_owned(),
            ProcessKey::Workers => "workers".to_owned(),
            ProcessKey::MaxDurationSec => "max_duration_sec".to_owned(),
            ProcessKey::MaxJobs => "max_jobs".to_owned(),
            ProcessKey::Burst => "burst".to_owned(),
            ProcessKey::PollMs => "poll_ms".to_owned(),
        }
    }

    /// The field that Redis stores under the name `value`.
    pub fn from_string(value: &str) -> (r: RsrqResult<ProcessKey>)
        ensures
            match ProcessKey::named(value@) {
                Some(k) => r == Ok::<ProcessKey, RsrqError>(k),
                None => r matches Err(RsrqError::ParserError(m)) && m@ == value@,
            },
    {
        if str_eq(value, "id") {
            Ok(ProcessKey::Id)
        } else if str_eq(value, "hostname") {
            Ok(ProcessKey::Hostname)
        } else if str_eq(value, "pid") {
            Ok(ProcessKey::Pid)
        } else if str_eq(value, "birth") {
            Ok(ProcessKey::Birth)
        } else if str_eq(value, "last_heartbeat") {
            Ok(ProcessKey::LastHeartbeat)
        } else if str_eq(value, "state") {
            Ok(ProcessKey::State)
        } else if str_eq(value, "num_running") {
            Ok(ProcessKey::NumRunning)
        } else if str_eq(value, "queue") {
            Ok(ProcessKey::Queue)
        } else if str_eq(value, "workers") {
            Ok(ProcessKey::Workers)
        } else if str_eq(value, "max_duration_sec") {
            Ok(ProcessKey::MaxDurationSec)
        } else if str_eq(value, "max_jobs") {
            Ok(ProcessKey::MaxJobs)
        } else if str_eq(value, "burst") {
            Ok(ProcessKey::Burst)
        } else if str_eq(value, "poll_ms") {
            Ok(ProcessKey::PollMs)
        } else {
            Err(RsrqError::ParserError(value.to_owned()))
        }
    }
}

} // verus!
