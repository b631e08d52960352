//! One state container of one queue name.

use crate::model::error::RsrqError;
use crate::model::queue::queue_type::QueueType;
use crate::model::types::RsrqResult;
use crate::util::pipeline::{
    encode_all, extends, pipe_lmove, pipe_lpush, pipe_lrem, pipe_new,
    pipe_sadd, pipe_srem, pipeline_commands, pipeline_is_atomic, Command, ListEnd,
};
use crate::util::text::{
    concat, concat3, index_of, lemma_index_of_bounds, piece, rest_after, split_piece, split_rest,
    str_eq,
};
use vstd::prelude::*;
use vstd::string::*;

verus! {

/// The Redis key of the container of kind `t` of the queue `name`.
pub open spec fn queue_key(t: QueueType, name: Seq<char>) -> Seq<char> {
    t.name() + ":"@ + name
}

/// The piece number `k` of a key cut at every colon; empty where the key has
/// fewer pieces.
pub open spec fn key_piece(key: Seq<char>, k: nat) -> Seq<char> {
    match piece(key, ':', k) {
        Some(p) => p,
        None => Seq::empty(),
    }
}

/// The name of the queue in a key: all that follows its second colon, colons
/// and all; empty where the key holds fewer than two colons.
pub open spec fn key_name(key: Seq<char>) -> Seq<char> {
    match rest_after(key, ':', 2) {
        Some(name) => name,
        None => Seq::empty(),
    }
}

/// What a key reads as: the kind and the queue name, or the reason why it is
/// no key of a state container. The first two pieces of the key name the
/// kind, and all the rest is the name of the queue.
pub open spec fn parse_key(key: Seq<char>) -> Result<(QueueType, Seq<char>), Seq<char>> {
    let prefix = key_piece(key, 0);
    let kind = key_piece(key, 1);
    let name = key_name(key);
    if prefix != "rsrq"@ {
        Err("Invalid prefix."@)
    } else if kind.len() == 0 {
        Err("Invalid queue type."@)
    } else if name.len() == 0 {
        Err("Invalid queue name."@)
    } else {
        match QueueType::named(prefix + ":"@ + kind) {
            Some(t) => Ok((t, name)),
            None => Err("Invalid queue type: "@ + (prefix + ":"@ + kind)),
        }
    }
}

/// The command that puts the job `id` into the container of kind `t` with the
/// key `key`: at the head of a list, or into a set.
pub open spec fn add_command(t: QueueType, key: Seq<char>, id: nat) -> Command {
    if t.is_list() {
        Command::LPush { key, id }
    } else {
        Command::SAdd { key, id }
    }
}

/// The command that takes the job `id` out of the container of kind `t` with
/// the key `key`: its first occurrence in a list, or out of a set.
pub open spec fn remove_command(t: QueueType, key: Seq<char>, id: nat) -> Command {
    if t.is_list() {
        Command::LRem { key, count: 1, id }
    } else {
        Command::SRem { key, id }
    }
}

/// The command that leases the next job of the queue `name`: it moves the
/// job at the tail of the queued list to the head of the running list, in
/// one step, and gives the job that it moved. Jobs are put into the queued
/// list at its head, so the job that has waited longest is leased first.
pub open spec fn lease_command(name: Seq<char>) -> Command {
    Command::LMove {
        source: queue_key(QueueType::Queued, name),
        target: queue_key(QueueType::Running, name),
        from: ListEnd::Right,
        to: ListEnd::Left,
    }
}

/// The jobs that a list of leases gave, in the order of the leases. A lease
/// that found the queue empty gave none, and neither did a lease that failed.
pub open spec fn leased_ids(leases: Seq<RsrqResult<Option<usize>>>) -> Seq<usize>
    decreases leases.len(),
{
    if leases.len() == 0 {
        Seq::empty()
    } else {
        match leases.last() {
            Ok(Some(id)) => leased_ids(leases.drop_last()).push(id),
            _ => leased_ids(leases.drop_last()),
        }
    }
}

/// A state container: its kind, the name of its queue, and its Redis key.
pub struct Queue {
    pub key: String,
    pub name: String,
    pub q_type: QueueType,
}

impl Queue {
    /// The key is the one that the kind and the name give.
    pub open spec fn wf(&self) -> bool {
        self.key@ == queue_key(self.q_type, self.name@)
    }

    /// The container of kind `queue_type` of the queue `name`. Its key reads
    /// back as the kind and the name, whatever the name holds, unless the
    /// name is empty.
    pub fn new(queue_type: QueueType, name: &str) -> (q: Queue)
        ensures
            q.q_type == queue_type,
            q.name@ == name@,
            q.key@ == queue_key(queue_type, name@),
            q.wf(),
            name@.len() > 0 ==> parse_key(q.key@) == Ok::<(QueueType, Seq<char>), Seq<char>>(
                (queue_type, name@),
            ),
    {
        proof {
            if name@.len() > 0 {
                lemma_parse_key_inverts_queue_key(queue_type, name@);
            }
        }
        let key = concat3(queue_type.to_string(), ":", name);
        Queue { key, name: name.to_owned(), q_type: queue_type }
    }

    /// Adds to `pipe` the command that takes the job `job_id` out of the
    /// container.
    pub fn pipe_remove_job_id(&self, job_id: usize, pipe: &mut redis::Pipeline)
        ensures
            extends(
                *old(pipe),
                *final(pipe),
                seq![remove_command(self.q_type, self.key@, job_id as nat)],
            ),
    {
        match self.q_type {
            QueueType::Queued => {
                pipe_lrem(pipe, self.key.as_str(), 1, job_id);
            },
            QueueType::Running => {
                pipe_lrem(pipe, self.key.as_str(), 1, job_id);
            },
            QueueType::Finished => {
                pipe_srem(pipe, self.key.as_str(), job_id);
            },
            QueueType::Failed => {
                pipe_srem(pipe, self.key.as_str(), job_id);
            },
        }
    }

    /// Adds to `pipe` the command that puts the job `job_id` into the
    /// container.
    pub fn pipe_add_job_id(&self, job_id: usize, pipe: &mut redis::Pipeline)
        ensures
            extends(
                *old(pipe),
                *final(pipe),
                seq![add_command(self.q_type, self.key@, job_id as nat)],
            ),
    {
        match self.q_type {
            QueueType::Queued => {
                pipe_lpush(pipe, self.key.as_str(), job_id);
            },
            QueueType::Running => {
                pipe_lpush(pipe, self.key.as_str(), job_id);
            },
            QueueType::Finished => {
                pipe_sadd(pipe, self.key.as_str(), job_id);
            },
            QueueType::Failed => {
                pipe_sadd(pipe, self.key.as_str(), job_id);
            },
        }
    }

    /// The pipeline that leases the next job of the queue: one command,
    /// which moves the job at the tail of the queued list to the head of the
    /// running list and answers with the job, or with nothing where nothing
    /// is queued. Only the queued list can be leased from.
    pub fn get_next_job_id(&self) -> (r: RsrqResult<redis::Pipeline>)
        ensures
            self.q_type == QueueType::Queued ==> (r matches Ok(pipe) && !pipeline_is_atomic(pipe)
                && pipeline_commands(pipe) == encode_all(
                seq![
                    Command::LMove {
                        source: self.key@,
                        target: queue_key(QueueType::Running, self.name@),
                        from: ListEnd::Right,
                        to: ListEnd::Left,
                    },
                ],
            )),
            self.q_type == QueueType::Queued && self.wf() ==> (r matches Ok(pipe)
                && pipeline_commands(pipe) == encode_all(seq![lease_command(self.name@)])),
            self.q_type != QueueType::Queued ==> (r matches Err(RsrqError::ParserError(m)) && m@
                == "Cannot get next job from queue type: "@ + self.q_type.name()),
    {
        match self.q_type {
            QueueType::Queued => {},
            _ => {
                return Err(
                    RsrqError::ParserError(
                        concat("Cannot get next job from queue type: ", self.q_type.to_string()),
                    ),
                );
            },
        }
        let q_target = Queue::new(QueueType::Running, self.name.as_str());
        let mut pipe = pipe_new();
        let ghost start = pipe;
        pipe_lmove(
            &mut pipe,
            self.key.as_str(),
            q_target.key.as_str(),
            ListEnd::Right,
            ListEnd::Left,
        );
        proof {
            let cs = seq![
                Command::LMove {
                    source: self.key@,
                    target: queue_key(QueueType::Running, self.name@),
                    from: ListEnd::Right,
                    to: ListEnd::Left,
                },
            ];
            assert(pipeline_commands(start) + encode_all(cs) =~= encode_all(cs));
        }
        Ok(pipe)
    }

    /// The batch that a round of leases gave: the jobs that came back, in
    /// the order of the leases, and no slot for a lease that found the queue
    /// empty or that failed. No lease gives the empty batch.
    pub fn get_n_next_job_ids(leases: &Vec<RsrqResult<Option<usize>>>) -> (out: Vec<usize>)
        ensures
            out@ == leased_ids(leases@),
    {
        let mut out: Vec<usize> = Vec::new();
        let mut i: usize = 0;
        assert(leases@.take(0) =~= Seq::<RsrqResult<Option<usize>>>::empty());
        while i < leases.len()
            invariant
                i <= leases.len(),
                out@ == leased_ids(leases@.take(i as int)),
            decreases leases.len() - i,
        {
            proof {
                assert(leases@.take(i + 1).drop_last() =~= leases@.take(i as int));
            }
            match &leases[i] {
                Ok(Some(job_id)) => {
                    out.push(*job_id);
                },
                _ => {},
            }
            i = i + 1;
        }
        assert(leases@.take(i as int) =~= leases@);
        out
    }

    /// The container that a Redis key names.
    pub fn from_key(key: &str) -> (r: RsrqResult<Queue>)
        ensures
            match parse_key(key@) {
                Ok((t, name)) => r matches Ok(q) && q.q_type == t && q.name@ == name && q.wf(),
                Err(reason) => r matches Err(RsrqError::ParserError(m)) && m@ == reason,
            },
    {
        let prefix = match split_piece(key, ':', 0) {
            Some(p) => p,
            None => String::new(),
        };
        let q_type = match split_piece(key, ':', 1) {
            Some(p) => p,
            None => String::new(),
        };
        let name = match split_rest(key, ':', 2) {
            Some(p) => p,
            None => String::new(),
        };
        if !str_eq(prefix.as_str(), "rsrq") {
            return Err(RsrqError::ParserError("Invalid prefix.".to_owned()));
        }
        if q_type.as_str().is_empty() {
            return Err(RsrqError::ParserError("Invalid queue type.".to_owned()));
        }
        if name.as_str().is_empty() {
            return Err(RsrqError::ParserError("Invalid queue name.".to_owned()));
        }
        let full = concat3(prefix.as_str(), ":", q_type.as_str());
        match QueueType::from_string(full.as_str()) {
            Ok(queue_type) => Ok(Queue::new(queue_type, name.as_str())),
            Err(e) => Err(e),
        }
    }
}

/// Where the first `c` of `s` stands, given one place that holds it and none before.
pub proof fn lemma_index_of_is(s: Seq<char>, c: char, i: int)
    requires
        0 <= i <= s.len(),
        i < s.len() ==> s[i] == c,
        forall|j: int| 0 <= j < i ==> s[j] != c,
    ensures
        index_of(s, c) == i,
{
    lemma_index_of_bounds(s, c);
}

/// The pieces of `a:b:name` are `a` and `b`, and `name` is what is left after
/// them, where neither `a` nor `b` holds a colon.
pub proof fn lemma_three_pieces(a: Seq<char>, b: Seq<char>, name: Seq<char>)
    requires
        !a.contains(':'),
        !b.contains(':'),
    ensures
        key_piece(a + seq![':'] + b + seq![':'] + name, 0) == a,
        key_piece(a + seq![':'] + b + seq![':'] + name, 1) == b,
        key_name(a + seq![':'] + b + seq![':'] + name) == name,
{
    let key = a + seq![':'] + b + seq![':'] + name;
    assert forall|j: int| 0 <= j < a.len() implies key[j] != ':' by {
        assert(a.contains(key[j]));
    }
    lemma_index_of_is(key, ':', a.len() as int);
    assert(key.take(a.len() as int) =~= a);
    let rest = key.skip(a.len() as int + 1);
    assert(rest =~= b + seq![':'] + name);
    assert forall|j: int| 0 <= j < b.len() implies rest[j] != ':' by {
        assert(b.contains(rest[j]));
    }
    lemma_index_of_is(rest, ':', b.len() as int);
    assert(rest.take(b.len() as int) =~= b);
    let last = rest.skip(b.len() as int + 1);
    assert(last =~= name);
    assert(piece(rest, ':', 0) == Some(b));
    assert(piece(key, ':', 1) == piece(rest, ':', 0));
    assert(rest_after(last, ':', 0) == Some(name));
    assert(rest_after(rest, ':', 1) == rest_after(last, ':', 0));
    assert(rest_after(key, ':', 2) == rest_after(rest, ':', 1));
}

/// Reading a key is the inverse of writing it: the key of the container of
/// kind `t` of the queue `name` reads as `t` and `name`, for every name that
/// is not empty, whatever characters it holds.
pub proof fn lemma_parse_key_inverts_queue_key(t: QueueType, name: Seq<char>)
    requires
        name.len() > 0,
    ensures
        parse_key(queue_key(t, name)) == Ok::<(QueueType, Seq<char>), Seq<char>>((t, name)),
{
    reveal_strlit("rsrq:queued");
    reveal_strlit("rsrq:running");
    reveal_strlit("rsrq:finished");
    reveal_strlit("rsrq:failed");
    reveal_strlit("rsrq");
    reveal_strlit(":");
    let a = "rsrq"@;
    let b = t.name().skip(5);
    assert(t.name() =~= a + seq![':'] + b);
    assert(!a.contains(':'));
    assert(!b.contains(':'));
    assert(queue_key(t, name) =~= a + seq![':'] + b + seq![':'] + name);
    lemma_three_pieces(a, b, name);
    assert(a + ":"@ + b =~= t.name());
    t.lemma_named_name();
}

} // verus!
