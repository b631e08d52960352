//! The fields of a job hash.

use crate::model::error::RsrqError;
use crate::model::types::RsrqResult;
use crate::util::text::str_eq;
use vstd::prelude::*;

verus! {

/// A field of the hash that holds a job.
#[derive(Debug, Clone, Copy, PartialEq, Eq, Structural)]
pub enum JobKey {
    Id,
    Cmd,
    Status,
    Queue,
    Created,
    Started,
    Finished,
    Stdout,
    Stderr,
    ExitCode,
    DurationMs,
}

impl JobKey {
    /// The name of the field as Redis stores it.
    pub open spec fn name(self) -> Seq<char> {
        match self {
            JobKey::Id => "id"@,
            JobKey::Cmd => "cmd"@,
            JobKey::Status => "status"@,
            JobKey::Queue => "queue"@,
            JobKey::Created => "created"@,
            JobKey::Started => "started"@,
            JobKey::Finished => "finished"@,
            JobKey::Stdout => "stdout"@,
            JobKey::Stderr => "stderr"@,
            JobKey::ExitCode => "exit_code"@,
            JobKey::DurationMs => "duration_ms"@,
        }
    }

    /// The field that Redis stores under the name `s`, if there is one.
    pub open spec fn named(s: Seq<char>) -> Option<JobKey> {
        if s == "id"@ {
            Some(JobKey::Id)
        } else if s == "cmd"@ {
            Some(JobKey::Cmd)
        } else if s == "status"@ {
            Some(JobKey::Status)
        } else if s == "queue"@ {
            Some(JobKey::Queue)
        } else if s == "created"@ {
            Some(JobKey::Created)
        } else if s == "started"@ {
            Some(JobKey::Started)
        } else if s == "finished"@ {
            Some(JobKey::Finished)
        } else if s == "stdout"@ {
            Some(JobKey::Stdout)
        } else if s == "stderr"@ {
            Some(JobKey::Stderr)
        } else if s == "exit_code"@ {
            Some(JobKey::ExitCode)
        } else if s == "duration_ms"@ {
            Some(JobKey::DurationMs)
        } else {
            None
        }
    }

    /// The field is found again from its name.
    pub proof fn lemma_named_name(self)
        ensures
            JobKey::named(self.name()) == Some(self),
    {
        reveal_strlit("id");
        reveal_strlit("cmd");
        reveal_strlit("status");
        reveal_strlit("queue");
        reveal_strlit("created");
        reveal_strlit("started");
        reveal_strlit("finished");
        reveal_strlit("stdout");
        reveal_strlit("stderr");
        reveal_strlit("exit_code");
        reveal_strlit("duration_ms");
        assert("id"@.len() == 2);
        assert("cmd"@.len() == 3);
        assert("status"@.len() == 6);
        assert("queue"@.len() == 5);
        assert("created"@.len() == 7);
        assert("started"@.len() == 7);
        assert("finished"@.len() == 8);
        assert("stdout"@.len() == 6);
        assert("stderr"@.len() == 6);
        assert("exit_code"@.len() == 9);
        assert("duration_ms"@.len() == 11);
        assert("status"@[2] != "stdout"@[2]);
        assert("status"@[2] != "stderr"@[2]);
        assert("stdout"@[3] != "stderr"@[3]);
        assert("created"@[0] != "started"@[0]);
    }

    /// The name of the field as Redis stores it.
    pub fn to_string(&self) -> (r: String)
        ensures
            r@ == self.name(),
    {
        match self {
            JobKey::Id => "id".to_owned(),
            JobKey::Cmd => "cmd".to_owned(),
            JobKey::Status => "status".to_owned(),
            JobKey::Queue => "queue".to_owned(),
            JobKey::Created => "created".to_owned(),
            JobKey::Started => "started".to_owned(),
            JobKey::Finished => "finished".to_owned(),
            JobKey::Stdout => "stdout".to_owned(),
            JobKey::Stderr => "stderr".to_owned(),
            JobKey::ExitCode => "exit_code".to_owned(),
            JobKey::DurationMs => "duration_ms".to_owned(),
        }
    }

    /// The field that Redis stores under the name `value`.
    pub fn from_string(value: &str) -> (r: RsrqResult<JobKey>)
        ensures
            match JobKey::named(value@) {
                Some(k) => r == Ok::<JobKey, RsrqError>(k),
                None => r matches Err(RsrqError::ParserError(m)) && m@ == value@,
            },
    {
        if str_eq(value, "id") {
            Ok(JobKey::Id)
        } else if str_eq(value, "cmd") {
            Ok(JobKey::Cmd)
        } else if str_eq(value, "status") {
            Ok(JobKey::Status)
        } else if str_eq(value, "queue") {
            Ok(JobKey::Queue)
        } else if str_eq(value, "created") {
            Ok(JobKey::Created)
        } else if str_eq(value, "started") {
            Ok(JobKey::Started)
        } else if str_eq(value, "finished") {
            Ok(JobKey::Finished)
        } else if str_eq(value, "stdout") {
            Ok(JobKey::Stdout)
        } else if str_eq(value, "stderr") {
            Ok(JobKey::Stderr)
        } else if str_eq(value, "exit_code") {
            Ok(JobKey::ExitCode)
        } else if str_eq(value, "duration_ms") {
            Ok(JobKey::DurationMs)
        } else {
            Err(RsrqError::ParserError(value.to_owned()))
        }
    }
}

} // verus!
