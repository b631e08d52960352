//! The job record and the hash that stores it.

use crate::config::JOB_KEY;
use crate::model::error::RsrqErrorView;
use crate::model::job::key::JobKey;
use crate::model::job::status::JobStatus;
use crate::model::queue::queue_type::QueueType;
use crate::model::queue::rsrq_queue::{queue_key, Queue};
use crate::model::types::RsrqResult;
use crate::util::parsing::{btree_get, btree_get_opt, field_value};
use crate::util::pipeline::{
    extends, lemma_extends_chain, lemma_extends_nothing, pipe_atomic, pipe_hget, pipe_hset_multiple, pipe_new,
    pipeline_commands, pipeline_is_atomic, encode_all, Command,
};
use crate::util::text::{
    at_most, concat3, dec, dec_int, i32_to_string, lemma_dec_int_reads_back,
    lemma_dec_reads_back, parse_signed, parse_unsigned, u128_to_string, u64_to_string,
    usize_to_string,
};
use vstd::prelude::*;
use vstd::string::*;

verus! {

/// The Redis key of the hash of the job `id`.
pub open spec fn job_key(id: nat) -> Seq<char> {
    JOB_KEY@ + ":"@ + dec(id)
}

/// The text of an optional number: its numeral, or nothing.
pub open spec fn opt_dec(n: Option<nat>) -> Seq<char> {
    match n {
        Some(v) => dec(v),
        None => Seq::empty(),
    }
}

/// An optional text: the text itself, or nothing.
pub open spec fn opt_text(s: Option<Seq<char>>) -> Seq<char> {
    match s {
        Some(v) => v,
        None => Seq::empty(),
    }
}

/// A job: a command line on a queue, and what became of it.
#[derive(Debug)]
pub struct Job {
    pub key: String,
    pub id: usize,
    pub cmd: String,
    pub status: JobStatus,
    pub queue: String,
    pub created: u64,
    pub started: Option<u64>,
    pub finished: Option<u64>,
    pub stdout: Option<String>,
    pub stderr: Option<String>,
    pub exit_code: Option<i32>,
    pub duration_ms: Option<u128>,
}

/// A job, with its texts as sequences of characters.
pub struct JobView {
    pub key: Seq<char>,
    pub id: usize,
    pub cmd: Seq<char>,
    pub status: JobStatus,
    pub queue: Seq<char>,
    pub created: u64,
    pub started: Option<u64>,
    pub finished: Option<u64>,
    pub stdout: Option<Seq<char>>,
    pub stderr: Option<Seq<char>>,
    pub exit_code: Option<i32>,
    pub duration_ms: Option<u128>,
}

impl View for Job {
    type V = JobView;

    open spec fn view(&self) -> JobView {
        JobView {
            key: self.key@,
            id: self.id,
            cmd: self.cmd@,
            status: self.status,
            queue: self.queue@,
            created: self.created,
            started: self.started,
            finished: self.finished,
            stdout: match self.stdout {
                Some(s) => Some(s@),
                None => None,
            },
            stderr: match self.stderr {
                Some(s) => Some(s@),
                None => None,
            },
            exit_code: self.exit_code,
            duration_ms: self.duration_ms,
        }
    }
}

impl JobView {
    /// The job as it is when a producer has just created it.
    pub open spec fn queued(id: usize, queue: Seq<char>, cmd: Seq<char>, created: u64) -> JobView {
        JobView {
            key: job_key(id as nat),
            id,
            cmd,
            status: JobStatus::Queued,
            queue,
            created,
            started: None,
            finished: None,
            stdout: None,
            stderr: None,
            exit_code: None,
            duration_ms: None,
        }
    }

    /// The fields of the job's hash and their values, in the order in which
    /// they are written. An unset value is written as the empty text.
    pub open spec fn fields(self) -> Seq<(JobKey, Seq<char>)> {
        seq![
            (JobKey::Id, dec(self.id as nat)),
            (JobKey::Cmd, self.cmd),
            (JobKey::Status, self.status.name()),
            (JobKey::Queue, self.queue),
            (JobKey::Created, dec(self.created as nat)),
            (
                JobKey::Started,
                match self.started {
                    Some(t) => dec(t as nat),
                    None => Seq::empty(),
                },
            ),
            (
                JobKey::Finished,
                match self.finished {
                    Some(t) => dec(t as nat),
                    None => Seq::empty(),
                },
            ),
            (JobKey::Stdout, opt_text(self.stdout)),
            (JobKey::Stderr, opt_text(self.stderr)),
            (
                JobKey::ExitCode,
                match self.exit_code {
                    Some(c) => dec_int(c as int),
                    None => Seq::empty(),
                },
            ),
            (
                JobKey::DurationMs,
                match self.duration_ms {
                    Some(d) => dec(d as nat),
                    None => Seq::empty(),
                },
            ),
        ]
    }

    /// The fields of the job's hash by name.
    pub open spec fn items(self) -> Seq<(Seq<char>, Seq<char>)> {
        self.fields().map_values(|f: (JobKey, Seq<char>)| (f.0.name(), f.1))
    }

    /// The commands that create the job: write its hash, and put its
    /// identifier at the head of the queued list of its queue.
    pub open spec fn create_commands(self) -> Seq<Command> {
        seq![
            Command::HSetMultiple { key: self.key, items: self.items() },
            Command::LPush { key: queue_key(QueueType::Queued, self.queue), id: self.id as nat },
        ]
    }
}

/// The error of a step that failed.
pub open spec fn error_of<T>(r: Result<T, RsrqErrorView>) -> Option<RsrqErrorView> {
    match r {
        Ok(_) => None,
        Err(e) => Some(e),
    }
}

/// The first of two errors.
pub open spec fn or_error(first: Option<RsrqErrorView>, second: Option<RsrqErrorView>) -> Option<
    RsrqErrorView,
> {
    match first {
        Some(e) => Some(e),
        None => second,
    }
}

/// The text of a field that has to be there.
pub open spec fn need_text(fields: Seq<(Seq<char>, Seq<char>)>, key: Seq<char>) -> Result<
    Seq<char>,
    RsrqErrorView,
> {
    match field_value(fields, key) {
        Some(t) => Ok(t),
        None => Err(RsrqErrorView::ParserError("Key not found."@)),
    }
}

/// The number in a field that has to be there, at most `max`.
pub open spec fn need_unsigned(
    fields: Seq<(Seq<char>, Seq<char>)>,
    key: Seq<char>,
    max: nat,
) -> Result<nat, RsrqErrorView> {
    match need_text(fields, key) {
        Ok(t) => match at_most(parse_unsigned(t), max) {
            Some(n) => Ok(n),
            None => Err(RsrqErrorView::ParserError(t)),
        },
        Err(e) => Err(e),
    }
}

/// The text of a field that may be missing or empty.
pub open spec fn maybe_text(fields: Seq<(Seq<char>, Seq<char>)>, key: Seq<char>) -> Option<
    Seq<char>,
> {
    match field_value(fields, key) {
        Some(t) => if t.len() == 0 {
            None
        } else {
            Some(t)
        },
        None => None,
    }
}

/// The number in a field that may be missing or empty, at most `max`.
pub open spec fn maybe_unsigned(
    fields: Seq<(Seq<char>, Seq<char>)>,
    key: Seq<char>,
    max: nat,
) -> Result<Option<nat>, RsrqErrorView> {
    match maybe_text(fields, key) {
        Some(t) => match at_most(parse_unsigned(t), max) {
            Some(n) => Ok(Some(n)),
            None => Err(RsrqErrorView::ParserError(t)),
        },
        None => Ok(None),
    }
}

/// The exit code in a field that may be missing or empty.
pub open spec fn maybe_exit_code(fields: Seq<(Seq<char>, Seq<char>)>, key: Seq<char>) -> Result<
    Option<int>,
    RsrqErrorView,
> {
    match maybe_text(fields, key) {
        Some(t) => match parse_signed(t) {
            Some(i) => if i32::MIN <= i <= i32::MAX {
                Ok(Some(i))
            } else {
                Err(RsrqErrorView::ParserError(t))
            },
            None => Err(RsrqErrorView::ParserError(t)),
        },
        None => Ok(None),
    }
}

/// The status in the status field.
pub open spec fn need_status(fields: Seq<(Seq<char>, Seq<char>)>) -> Result<
    JobStatus,
    RsrqErrorView,
> {
    match need_text(fields, JobKey::Status.name()) {
        Ok(t) => match JobStatus::named(t) {
            Some(s) => Ok(s),
            None => Err(RsrqErrorView::CmdParserError("Invalid job status: "@ + t)),
        },
        Err(e) => Err(e),
    }
}

/// Why a hash does not read as a job: the failure of the first field that
/// fails, the fields taken in the order in which they are written.
pub open spec fn load_error(fields: Seq<(Seq<char>, Seq<char>)>) -> Option<RsrqErrorView> {
    or_error(
        error_of(need_unsigned(fields, JobKey::Id.name(), usize::MAX as nat)),
        or_error(
            error_of(need_text(fields, JobKey::Cmd.name())),
            or_error(
                error_of(need_status(fields)),
                or_error(
                    error_of(need_text(fields, JobKey::Queue.name())),
                    or_error(
                        error_of(need_unsigned(fields, JobKey::Created.name(), u64::MAX as nat)),
                        or_error(
                            error_of(
                                maybe_unsigned(fields, JobKey::Started.name(), u64::MAX as nat),
                            ),
                            or_error(
                                error_of(
                                    maybe_unsigned(
                                        fields,
                                        JobKey::Finished.name(),
                                        u64::MAX as nat,
                                    ),
                                ),
                                or_error(
                                    error_of(maybe_exit_code(fields, JobKey::ExitCode.name())),
                                    error_of(
                                        maybe_unsigned(
                                            fields,
                                            JobKey::DurationMs.name(),
                                            u128::MAX as nat,
                                        ),
                                    ),
                                ),
                            ),
                        ),
                    ),
                ),
            ),
        ),
    )
}

/// Whether `job` is what the hash `fields`, stored under the key of the job
/// `id`, reads as.
pub open spec fn loaded(job: JobView, id: usize, fields: Seq<(Seq<char>, Seq<char>)>) -> bool {
    &&& job.key == job_key(id as nat)
    &&& need_unsigned(fields, JobKey::Id.name(), usize::MAX as nat) == Ok::<nat, RsrqErrorView>(
        job.id as nat,
    )
    &&& need_text(fields, JobKey::Cmd.name()) == Ok::<Seq<char>, RsrqErrorView>(job.cmd)
    &&& need_status(fields) == Ok::<JobStatus, RsrqErrorView>(job.status)
    &&& need_text(fields, JobKey::Queue.name()) == Ok::<Seq<char>, RsrqErrorView>(job.queue)
    &&& need_unsigned(fields, JobKey::Created.name(), u64::MAX as nat) == Ok::<
        nat,
        RsrqErrorView,
    >(job.created as nat)
    &&& maybe_unsigned(fields, JobKey::Started.name(), u64::MAX as nat) == Ok::<
        Option<nat>,
        RsrqErrorView,
    >(
        match job.started {
            Some(t) => Some(t as nat),
            None => None,
        },
    )
    &&& maybe_unsigned(fields, JobKey::Finished.name(), u64::MAX as nat) == Ok::<
        Option<nat>,
        RsrqErrorView,
    >(
        match job.finished {
            Some(t) => Some(t as nat),
            None => None,
        },
    )
    &&& maybe_text(fields, JobKey::Stdout.name()) == job.stdout
    &&& maybe_text(fields, JobKey::Stderr.name()) == job.stderr
    &&& maybe_exit_code(fields, JobKey::ExitCode.name()) == Ok::<Option<int>, RsrqErrorView>(
        match job.exit_code {
            Some(c) => Some(c as int),
            None => None,
        },
    )
    &&& maybe_unsigned(fields, JobKey::DurationMs.name(), u128::MAX as nat) == Ok::<
        Option<nat>,
        RsrqErrorView,
    >(
        match job.duration_ms {
            Some(d) => Some(d as nat),
            None => None,
        },
    )
}

/// The statuses that the replies to a query for statuses name, in their
/// order; the first reply that names none fails the whole.
pub open spec fn statuses_of(names: Seq<Seq<char>>) -> Result<Seq<JobStatus>, RsrqErrorView>
    decreases names.len(),
{
    if names.len() == 0 {
        Ok(Seq::empty())
    } else {
        match statuses_of(names.drop_last()) {
            Err(e) => Err(e),
            Ok(before) => match JobStatus::named(names.last()) {
                Some(s) => Ok(before.push(s)),
                None => Err(RsrqErrorView::CmdParserError("Invalid job status: "@ + names.last())),
            },
        }
    }
}

/// Replies of which the first `k` fail, fail as a whole, and in the same way.
pub proof fn lemma_statuses_fail_on(names: Seq<Seq<char>>, k: int)
    requires
        0 <= k <= names.len(),
    ensures
        statuses_of(names.take(k)) is Err ==> statuses_of(names) == statuses_of(names.take(k)),
    decreases names.len(),
{
    if k == names.len() {
        assert(names.take(k) =~= names);
    } else {
        lemma_statuses_fail_on(names.drop_last(), k);
        assert(names.drop_last().take(k) =~= names.take(k));
    }
}

/// The text of an optional timestamp.
fn opt_u64_to_string(n: Option<u64>) -> (r: String)
    ensures
        r@ == (match n {
            Some(t) => dec(t as nat),
            None => Seq::empty(),
        }),
{
    match n {
        Some(x) => u64_to_string(x),
        None => String::new(),
    }
}

/// The text of an optional text.
fn opt_string_to_string(s: &Option<String>) -> (r: String)
    ensures
        r@ == opt_text(
            match s {
                Some(v) => Some(v@),
                None => None,
            },
        ),
{
    match s {
        Some(x) => x.clone(),
        None => String::new(),
    }
}

impl Job {
    /// The Redis key of the hash of the job `id`.
    pub fn get_redis_key(id: usize) -> (r: String)
        ensures
            r@ == job_key(id as nat),
    {
        concat3(JOB_KEY, ":", usize_to_string(id).as_str())
    }

    /// The job that a producer creates on `queue` for the command line `cmd`,
    /// with the identifier `id` drawn from the job counter and the time of
    /// creation `created`: queued, and everything else unset.
    pub fn new(queue: &str, cmd: &str, id: usize, created: u64) -> (job: Job)
        ensures
            job@ == JobView::queued(id, queue@, cmd@, created),
    {
        Job {
            id,
            key: Job::get_redis_key(id),
            cmd: cmd.to_owned(),
            status: JobStatus::Queued,
            queue: queue.to_owned(),
            created,
            started: None,
            finished: None,
            stdout: None,
            stderr: None,
            exit_code: None,
            duration_ms: None,
        }
    }

    /// The fields of the job's hash and their values, in the order in which
    /// they are written.
    pub fn to_array(&self) -> (r: [(JobKey, String); 11])
        ensures
            forall|i: int|
                0 <= i < 11 ==> (#[trigger] r@[i]).0 == self@.fields()[i].0 && r@[i].1@
                    == self@.fields()[i].1,
    {
        let exit_code = match self.exit_code {
            Some(x) => i32_to_string(x),
            None => String::new(),
        };
        let duration_ms = match self.duration_ms {
            Some(x) => u128_to_string(x),
            None => String::new(),
        };
        [
            (JobKey::Id, usize_to_string(self.id)),
            (JobKey::Cmd, self.cmd.clone()),
            (JobKey::Status, self.status.to_string()),
            (JobKey::Queue, self.queue.clone()),
            (JobKey::Created, u64_to_string(self.created)),
            (JobKey::Started, opt_u64_to_string(self.started)),
            (JobKey::Finished, opt_u64_to_string(self.finished)),
            (JobKey::Stdout, opt_string_to_string(&self.stdout)),
            (JobKey::Stderr, opt_string_to_string(&self.stderr)),
            (JobKey::ExitCode, exit_code),
            (JobKey::DurationMs, duration_ms),
        ]
    }

    /// The fields of the job's hash by name, as they are handed to Redis.
    pub fn to_items(&self) -> (items: Vec<(String, String)>)
        ensures
            items.deep_view() == self@.items(),
    {
        let arr = self.to_array();
        let mut items: Vec<(String, String)> = Vec::new();
        let mut i: usize = 0;
        while i < 11
            invariant
                i <= 11,
                items.len() == i,
                forall|j: int|
                    0 <= j < 11 ==> (#[trigger] arr@[j]).0 == self@.fields()[j].0 && arr@[j].1@
                        == self@.fields()[j].1,
                forall|j: int|
                    0 <= j < i ==> (#[trigger] items@[j]).0@ == self@.items()[j].0 && items@[j].1@
                        == self@.items()[j].1,
            decreases 11 - i,
        {
            let name = arr[i].0.to_string();
            let value = arr[i].1.clone();
            assert(arr@[i as int].0 == self@.fields()[i as int].0);
            items.push((name, value));
            i = i + 1;
        }
        assert(items.deep_view() =~= self@.items());
        items
    }

    /// The atomic pipeline that creates the job: it writes the job's hash and
    /// puts the job's identifier at the head of the queued list of its queue.
    pub fn creation_pipeline(&self) -> (pipe: redis::Pipeline)
        ensures
            pipeline_is_atomic(pipe),
            pipeline_commands(pipe) == encode_all(self@.create_commands()),
    {
        let queue = Queue::new(QueueType::Queued, self.queue.as_str());
        let mut pipe = pipe_new();
        pipe_atomic(&mut pipe);
        let ghost stage0 = pipe;
        let items = self.to_items();
        pipe_hset_multiple(&mut pipe, self.key.as_str(), &items);
        let ghost stage1 = pipe;
        queue.pipe_add_job_id(self.id, &mut pipe);
        proof {
            let first = seq![Command::HSetMultiple { key: self.key@, items: self@.items() }];
            let second = seq![
                Command::LPush {
                    key: queue_key(QueueType::Queued, self.queue@),
                    id: self.id as nat,
                },
            ];
            lemma_extends_chain(stage0, stage1, pipe, first, second);
            assert(first + second =~= seq![first[0], second[0]]);
            assert(pipeline_commands(stage0) + encode_all(first + second) =~= encode_all(
                first + second,
            ));
        }
        pipe
    }

    /// Adds to `pipe`, for each job of `ids` in turn, the command that reads
    /// the job's status.
    pub fn get_status_many(ids: &Vec<usize>, pipe: &mut redis::Pipeline)
        ensures
            extends(
                *old(pipe),
                *final(pipe),
                Seq::new(
                    ids@.len(),
                    |i: int|
                        Command::HGet { key: job_key(ids@[i] as nat), field: JobKey::Status.name() },
                ),
            ),
    {
        let ghost start = *pipe;
        let ghost all = Seq::new(
            ids@.len(),
            |i: int| Command::HGet { key: job_key(ids@[i] as nat), field: JobKey::Status.name() },
        );
        let mut i: usize = 0;
        proof {
            lemma_extends_nothing(start);
            assert(all.take(0) =~= Seq::<Command>::empty());
        }
        while i < ids.len()
            invariant
                i <= ids.len(),
                all == Seq::new(
                    ids@.len(),
                    |i: int|
                        Command::HGet { key: job_key(ids@[i] as nat), field: JobKey::Status.name() },
                ),
                extends(start, *pipe, all.take(i as int)),
            decreases ids.len() - i,
        {
            let key = Job::get_redis_key(ids[i]);
            let field = JobKey::Status.to_string();
            let ghost before = *pipe;
            pipe_hget(pipe, key.as_str(), field.as_str());
            proof {
                lemma_extends_chain(start, before, *pipe, all.take(i as int), seq![all[i as int]]);
                assert(all.take(i as int) + seq![all[i as int]] =~= all.take(i + 1));
            }
            i = i + 1;
        }
        proof {
            assert(all.take(i as int) =~= all);
        }
    }

    /// The statuses that the replies `names` to a query for statuses name.
    pub fn statuses_from_replies(names: &Vec<String>) -> (r: RsrqResult<Vec<JobStatus>>)
        ensures
            match statuses_of(names.deep_view()) {
                Ok(statuses) => r matches Ok(v) && v@ == statuses,
                Err(e) => r matches Err(x) && x@ == e,
            },
    {
        let mut statuses: Vec<JobStatus> = Vec::new();
        let mut i: usize = 0;
        assert(names.deep_view().take(0) =~= Seq::empty());
        while i < names.len()
            invariant
                i <= names.len(),
                statuses_of(names.deep_view().take(i as int)) == Ok::<
                    Seq<JobStatus>,
                    RsrqErrorView,
                >(statuses@),
            decreases names.len() - i,
        {
            proof {
                let all = names.deep_view();
                assert(all.take(i + 1).drop_last() =~= all.take(i as int));
                assert(all.take(i + 1).last() == names@[i as int]@);
                lemma_statuses_fail_on(all, i + 1);
            }
            match JobStatus::from_string(names[i].as_str()) {
                Ok(status) => {
                    statuses.push(status);
                },
                Err(e) => {
                    return Err(e);
                },
            }
            i = i + 1;
        }
        assert(names.deep_view().take(i as int) =~= names.deep_view());
        Ok(statuses)
    }

    /// The job that the hash `map`, read from the key of the job `id`, holds.
    /// The hash comes as Redis sends it: the names of its fields, each with
    /// its value.
    /// The first field that is missing though it has to be there, or that
    /// does not read as what it holds, fails the whole.
    pub fn load(id: usize, map: &Vec<(String, String)>) -> (r: RsrqResult<Job>)
        ensures
            match load_error(map.deep_view()) {
                Some(e) => r matches Err(x) && x@ == e,
                None => r matches Ok(job) && loaded(job@, id, map.deep_view()),
            },
    {
        let key = Job::get_redis_key(id);
        let job_id = match btree_get::<usize>(map, JobKey::Id.to_string().as_str()) {
            Ok(v) => v,
            Err(e) => {
                return Err(e);
            },
        };
        let job_cmd = match btree_get::<String>(map, JobKey::Cmd.to_string().as_str()) {
            Ok(v) => v,
            Err(e) => {
                return Err(e);
            },
        };
        let job_status_str = match btree_get::<String>(map, JobKey::Status.to_string().as_str()) {
            Ok(v) => v,
            Err(e) => {
                return Err(e);
            },
        };
        let job_status = match JobStatus::from_string(job_status_str.as_str()) {
            Ok(v) => v,
            Err(e) => {
                return Err(e);
            },
        };
        let job_queue = match btree_get::<String>(map, JobKey::Queue.to_string().as_str()) {
            Ok(v) => v,
            Err(e) => {
                return Err(e);
            },
        };
        let job_created = match btree_get::<u64>(map, JobKey::Created.to_string().as_str()) {
            Ok(v) => v,
            Err(e) => {
                return Err(e);
            },
        };
        let job_started = match btree_get_opt::<u64>(map, JobKey::Started.to_string().as_str()) {
            Ok(v) => v,
            Err(e) => {
                return Err(e);
            },
        };
        let job_finished = match btree_get_opt::<u64>(map, JobKey::Finished.to_string().as_str()) {
            Ok(v) => v,
            Err(e) => {
                return Err(e);
            },
        };
        let job_stdout = match btree_get_opt::<String>(map, JobKey::Stdout.to_string().as_str()) {
            Ok(v) => v,
            Err(e) => {
                return Err(e);
            },
        };
        let job_stderr = match btree_get_opt::<String>(map, JobKey::Stderr.to_string().as_str()) {
            Ok(v) => v,
            Err(e) => {
                return Err(e);
            },
        };
        let job_exit_code = match btree_get_opt::<i32>(map, JobKey::ExitCode.to_string().as_str()) {
            Ok(v) => v,
            Err(e) => {
                return Err(e);
            },
        };
        let job_duration_ms = match btree_get_opt::<u128>(
            map,
            JobKey::DurationMs.to_string().as_str(),
        ) {
            Ok(v) => v,
            Err(e) => {
                return Err(e);
            },
        };
        Ok(
            Job {
                id: job_id,
                key,
                cmd: job_cmd,
                status: job_status,
                queue: job_queue,
                created: job_created,
                started: job_started,
                finished: job_finished,
                stdout: job_stdout,
                stderr: job_stderr,
                exit_code: job_exit_code,
                duration_ms: job_duration_ms,
            },
        )
    }
}

/// A field whose name no earlier field bears is found by its name.
pub proof fn lemma_field_value_at(fields: Seq<(Seq<char>, Seq<char>)>, i: int)
    requires
        0 <= i < fields.len(),
        forall|k: int| 0 <= k < i ==> (#[trigger] fields[k]).0 != fields[i].0,
    ensures
        field_value(fields, fields[i].0) == Some(fields[i].1),
    decreases i,
{
    if i > 0 {
        let rest = fields.drop_first();
        assert(rest[i - 1] == fields[i]);
        assert forall|k: int| 0 <= k < i - 1 implies (#[trigger] rest[k]).0 != rest[i - 1].0 by {
            assert(rest[k] == fields[k + 1]);
        }
        lemma_field_value_at(rest, i - 1);
        assert(fields[0].0 != fields[i].0);
    }
}

/// Two fields of a job that bear the same name are the same field.
pub proof fn lemma_job_keys_differ(a: JobKey, b: JobKey)
    ensures
        a.name() == b.name() ==> a == b,
{
    a.lemma_named_name();
    b.lemma_named_name();
}

/// Reading undoes writing: the hash that a job is written as reads back as
/// that job, under the key of its identifier. An optional text that is set
/// but empty is the one thing that is not told apart from one that is unset.
pub proof fn lemma_load_inverts_items(job: JobView)
    requires
        job.stdout != Some(Seq::<char>::empty()),
        job.stderr != Some(Seq::<char>::empty()),
    ensures
        load_error(job.items()) is None,
        loaded(JobView { key: job_key(job.id as nat), ..job }, job.id, job.items()),
{
    let items = job.items();
    let fields = job.fields();
    assert(items.len() == 11);
    assert forall|i: int| 0 <= i < 11 implies field_value(items, #[trigger] fields[i].0.name())
        == Some(fields[i].1) by {
        assert(items[i] == (fields[i].0.name(), fields[i].1));
        assert forall|k: int| 0 <= k < i implies (#[trigger] items[k]).0 != items[i].0 by {
            assert(items[k] == (fields[k].0.name(), fields[k].1));
            lemma_job_keys_differ(fields[k].0, fields[i].0);
        }
        lemma_field_value_at(items, i);
    }
    assert(fields[0].0 == JobKey::Id && fields[1].0 == JobKey::Cmd && fields[2].0
        == JobKey::Status && fields[3].0 == JobKey::Queue && fields[4].0 == JobKey::Created);
    assert(fields[5].0 == JobKey::Started && fields[6].0 == JobKey::Finished && fields[7].0
        == JobKey::Stdout && fields[8].0 == JobKey::Stderr && fields[9].0 == JobKey::ExitCode
        && fields[10].0 == JobKey::DurationMs);
    lemma_dec_reads_back(job.id as nat);
    lemma_dec_reads_back(job.created as nat);
    job.status.lemma_named_name();
    assert(need_unsigned(items, JobKey::Id.name(), usize::MAX as nat) == Ok::<nat, RsrqErrorView>(
        job.id as nat,
    ));
    assert(need_text(items, JobKey::Cmd.name()) == Ok::<Seq<char>, RsrqErrorView>(job.cmd));
    assert(need_status(items) == Ok::<JobStatus, RsrqErrorView>(job.status));
    assert(need_text(items, JobKey::Queue.name()) == Ok::<Seq<char>, RsrqErrorView>(job.queue));
    assert(need_unsigned(items, JobKey::Created.name(), u64::MAX as nat) == Ok::<
        nat,
        RsrqErrorView,
    >(job.created as nat));
    if let Some(t) = job.started {
        lemma_dec_reads_back(t as nat);
    }
    if let Some(t) = job.finished {
        lemma_dec_reads_back(t as nat);
    }
    if let Some(d) = job.duration_ms {
        lemma_dec_reads_back(d as nat);
    }
    if let Some(c) = job.exit_code {
        lemma_dec_int_reads_back(c as int);
        if c >= 0 {
            lemma_dec_reads_back(c as nat);
        }
        assert(dec_int(c as int).len() > 0);
    }
    if let Some(s) = job.stdout {
        if s.len() == 0 {
            assert(s =~= Seq::<char>::empty());
        }
    }
    if let Some(s) = job.stderr {
        if s.len() == 0 {
            assert(s =~= Seq::<char>::empty());
        }
    }
    assert(maybe_text(items, JobKey::Stdout.name()) == job.stdout);
    assert(maybe_text(items, JobKey::Stderr.name()) == job.stderr);
    assert(maybe_unsigned(items, JobKey::Started.name(), u64::MAX as nat) == Ok::<
        Option<nat>,
        RsrqErrorView,
    >(
        match job.started {
            Some(t) => Some(t as nat),
            None => None,
        },
    ));
    assert(maybe_unsigned(items, JobKey::Finished.name(), u64::MAX as nat) == Ok::<
        Option<nat>,
        RsrqErrorView,
    >(
        match job.finished {
            Some(t) => Some(t as nat),
            None => None,
        },
    ));
    assert(maybe_exit_code(items, JobKey::ExitCode.name()) == Ok::<Option<int>, RsrqErrorView>(
        match job.exit_code {
            Some(c) => Some(c as int),
            None => None,
        },
    ));
    assert(maybe_unsigned(items, JobKey::DurationMs.name(), u128::MAX as nat) == Ok::<
        Option<nat>,
        RsrqErrorView,
    >(
        match job.duration_ms {
            Some(d) => Some(d as nat),
            None => None,
        },
    ));
}

} // verus!
