//! Redis command pipelines: what a pipeline holds, and the commands that the
//! library writes into one.
//!
//! A pipeline is kept as Redis's client library builds it. What the library
//! proves of a pipeline it proves of the commands in it, each taken as the
//! list of its arguments, the command's name first.

use crate::util::text::{dec, dec_int};
use vstd::prelude::*;

verus! {

/// `redis::Pipeline`, taken as it is: nothing is known of a pipeline but
/// what the two names below say of it.
#[verifier::external_type_specification]
#[verifier::external_body]
pub struct ExPipeline(redis::Pipeline);

/// The commands of a pipeline in the order in which they were added, each as
/// the byte strings of its arguments.
pub uninterp spec fn pipeline_commands(p: redis::Pipeline) -> Seq<Seq<Seq<u8>>>;

/// Whether the pipeline is sent as one transaction.
pub uninterp spec fn pipeline_is_atomic(p: redis::Pipeline) -> bool;

/// An end of a list: its head on the left, its tail on the right.
#[derive(Debug, Clone, Copy, PartialEq, Eq, Structural)]
pub enum ListEnd {
    Left,
    Right,
}

impl ListEnd {
    /// The word that names the end in a command.
    pub open spec fn name(self) -> Seq<char> {
        match self {
            ListEnd::Left => "LEFT"@,
            ListEnd::Right => "RIGHT"@,
        }
    }
}

/// What one command asks of Redis.
pub enum Command {
    /// Delete a key.
    Del { key: Seq<char> },
    /// Read one field of a hash.
    HGet { key: Seq<char>, field: Seq<char> },
    /// Write one field of a hash.
    HSet { key: Seq<char>, field: Seq<char>, value: Seq<char> },
    /// Write several fields of a hash, in this order.
    HSetMultiple { key: Seq<char>, items: Seq<(Seq<char>, Seq<char>)> },
    /// Take the element at one end of a list and put it at an end of
    /// another, in one step.
    LMove { source: Seq<char>, target: Seq<char>, from: ListEnd, to: ListEnd },
    /// Put an identifier at the head of a list.
    LPush { key: Seq<char>, id: nat },
    /// Read the elements of a list between two places.
    LRange { key: Seq<char>, start: int, stop: int },
    /// Take the first `count` occurrences of an identifier out of a list.
    LRem { key: Seq<char>, count: int, id: nat },
    /// Put an identifier into a set.
    SAdd { key: Seq<char>, id: nat },
    /// Read the members of a set.
    SMembers { key: Seq<char> },
    /// Take an identifier out of a set.
    SRem { key: Seq<char>, id: nat },
}

/// The bytes that a text is sent as.
pub open spec fn bytes(s: Seq<char>) -> Seq<u8> {
    vstd::utf8::encode_utf8(s)
}

/// The arguments that the fields of a hash are sent as: name, value, name,
/// value, and so on.
pub open spec fn item_args(items: Seq<(Seq<char>, Seq<char>)>) -> Seq<Seq<u8>>
    decreases items.len(),
{
    if items.len() == 0 {
        Seq::empty()
    } else {
        item_args(items.drop_last()).push(bytes(items.last().0)).push(bytes(items.last().1))
    }
}

/// The arguments that a command is sent as.
pub open spec fn encode(c: Command) -> Seq<Seq<u8>> {
    match c {
        Command::Del { key } => seq![bytes("DEL"@), bytes(key)],
        Command::HGet { key, field } => seq![bytes("HGET"@), bytes(key), bytes(field)],
        Command::HSet { key, field, value } => seq![
            bytes("HSET"@),
            bytes(key),
            bytes(field),
            bytes(value),
        ],
        Command::HSetMultiple { key, items } => seq![bytes("HMSET"@), bytes(key)] + item_args(
            items,
        ),
        Command::LMove { source, target, from, to } => seq![
            bytes("LMOVE"@),
            bytes(source),
            bytes(target),
            bytes(from.name()),
            bytes(to.name()),
        ],
        Command::LPush { key, id } => seq![bytes("LPUSH"@), bytes(key), bytes(dec(id))],
        Command::LRange { key, start, stop } => seq![
            bytes("LRANGE"@),
            bytes(key),
            bytes(dec_int(start)),
            bytes(dec_int(stop)),
        ],
        Command::LRem { key, count, id } => seq![
            bytes("LREM"@),
            bytes(key),
            bytes(dec_int(count)),
            bytes(dec(id)),
        ],
        Command::SAdd { key, id } => seq![bytes("SADD"@), bytes(key), bytes(dec(id))],
        Command::SMembers { key } => seq![bytes("SMEMBERS"@), bytes(key)],
        Command::SRem { key, id } => seq![bytes("SREM"@), bytes(key), bytes(dec(id))],
    }
}

/// The arguments that each command of `cs` is sent as.
pub open spec fn encode_all(cs: Seq<Command>) -> Seq<Seq<Seq<u8>>> {
    cs.map_values(|c: Command| encode(c))
}

/// Whether `after` is `before` with the commands `cs` added at its end, and
/// as atomic as `before`.
pub open spec fn extends(before: redis::Pipeline, after: redis::Pipeline, cs: Seq<Command>) -> bool {
    &&& pipeline_commands(after) == pipeline_commands(before) + encode_all(cs)
    &&& pipeline_is_atomic(after) == pipeline_is_atomic(before)
}

/// Adding nothing leaves a pipeline as it is.
pub proof fn lemma_extends_nothing(a: redis::Pipeline)
    ensures
        extends(a, a, Seq::empty()),
{
    assert(pipeline_commands(a) + encode_all(Seq::empty()) =~= pipeline_commands(a));
}

/// What is added in two steps is added in one.
pub proof fn lemma_extends_chain(
    a: redis::Pipeline,
    b: redis::Pipeline,
    c: redis::Pipeline,
    first: Seq<Command>,
    second: Seq<Command>,
)
    requires
        extends(a, b, first),
        extends(b, c, second),
    ensures
        extends(a, c, first + second),
{
    assert(encode_all(first + second) =~= encode_all(first) + encode_all(second));
    assert(pipeline_commands(a) + encode_all(first + second) =~= pipeline_commands(a) + encode_all(
        first,
    ) + encode_all(second));
}

/// `redis::pipe`: a new pipeline holds no command and is not atomic.
#[verifier::external_body]
pub(crate) fn pipe_new() -> (pipe: redis::Pipeline)
    ensures
        pipeline_commands(pipe) == Seq::<Seq<Seq<u8>>>::empty(),
        !pipeline_is_atomic(pipe),
{
    redis::pipe()
}

/// `redis::Pipeline::atomic`: the pipeline becomes a transaction; its commands
/// stay as they are.
#[verifier::external_body]
pub(crate) fn pipe_atomic(pipe: &mut redis::Pipeline)
    ensures
        pipeline_commands(*final(pipe)) == pipeline_commands(*old(pipe)),
        pipeline_is_atomic(*final(pipe)),
{
    pipe.atomic();
}

/// `redis::Pipeline::del`: adds `DEL key`.
#[verifier::external_body]
pub(crate) fn pipe_del(pipe: &mut redis::Pipeline, key: &str)
    ensures
        extends(*old(pipe), *final(pipe), seq![Command::Del { key: key@ }]),
{
    pipe.del(key);
}

/// `redis::Pipeline::hget` with a single field: adds `HGET key field`.
#[verifier::external_body]
pub(crate) fn pipe_hget(pipe: &mut redis::Pipeline, key: &str, field: &str)
    ensures
        extends(*old(pipe), *final(pipe), seq![Command::HGet { key: key@, field: field@ }]),
{
    pipe.hget(key, field);
}

/// `redis::Pipeline::hset`: adds `HSET key field value`.
#[verifier::external_body]
pub(crate) fn pipe_hset(pipe: &mut redis::Pipeline, key: &str, field: &str, value: &str)
    ensures
        extends(
            *old(pipe),
            *final(pipe),
            seq![Command::HSet { key: key@, field: field@, value: value@ }],
        ),
{
    pipe.hset(key, field, value);
}

/// `redis::Pipeline::hset_multiple`: adds `HMSET key` followed by the name and
/// the value of each item, in the order of the items.
#[verifier::external_body]
pub(crate) fn pipe_hset_multiple(pipe: &mut redis::Pipeline, key: &str, items: &Vec<(String, String)>)
    ensures
        extends(
            *old(pipe),
            *final(pipe),
            seq![Command::HSetMultiple { key: key@, items: items.deep_view() }],
        ),
{
    pipe.hset_multiple(key, items.as_slice());
}

/// `redis::Pipeline::lmove`: adds `LMOVE source target from to`, each end
/// written as `LEFT` or `RIGHT`.
#[verifier::external_body]
pub(crate) fn pipe_lmove(
    pipe: &mut redis::Pipeline,
    source: &str,
    target: &str,
    from: ListEnd,
    to: ListEnd,
)
    ensures
        extends(
            *old(pipe),
            *final(pipe),
            seq![Command::LMove { source: source@, target: target@, from, to }],
        ),
{
    let from = match from {
        ListEnd::Left => redis::Direction::Left,
        ListEnd::Right => redis::Direction::Right,
    };
    let to = match to {
        ListEnd::Left => redis::Direction::Left,
        ListEnd::Right => redis::Direction::Right,
    };
    pipe.lmove(source, target, from, to);
}

/// `redis::Pipeline::lpush` with one identifier: adds `LPUSH key id`, the
/// identifier as a decimal numeral.
#[verifier::external_body]
pub(crate) fn pipe_lpush(pipe: &mut redis::Pipeline, key: &str, id: usize)
    ensures
        extends(*old(pipe), *final(pipe), seq![Command::LPush { key: key@, id: id as nat }]),
{
    pipe.lpush(key, id);
}

/// `redis::Pipeline::lrange`: adds `LRANGE key start stop`.
#[verifier::external_body]
pub(crate) fn pipe_lrange(pipe: &mut redis::Pipeline, key: &str, start: isize, stop: isize)
    ensures
        extends(
            *old(pipe),
            *final(pipe),
            seq![Command::LRange { key: key@, start: start as int, stop: stop as int }],
        ),
{
    pipe.lrange(key, start, stop);
}

/// `redis::Pipeline::lrem` with one identifier: adds `LREM key count id`.
#[verifier::external_body]
pub(crate) fn pipe_lrem(pipe: &mut redis::Pipeline, key: &str, count: isize, id: usize)
    ensures
        extends(
            *old(pipe),
            *final(pipe),
            seq![Command::LRem { key: key@, count: count as int, id: id as nat }],
        ),
{
    pipe.lrem(key, count, id);
}

/// `redis::Pipeline::sadd` with one identifier: adds `SADD key id`.
#[verifier::external_body]
pub(crate) fn pipe_sadd(pipe: &mut redis::Pipeline, key: &str, id: usize)
    ensures
        extends(*old(pipe), *final(pipe), seq![Command::SAdd { key: key@, id: id as nat }]),
{
    pipe.sadd(key, id);
}

/// `redis::Pipeline::smembers`: adds `SMEMBERS key`.
#[verifier::external_body]
pub(crate) fn pipe_smembers(pipe: &mut redis::Pipeline, key: &str)
    ensures
        extends(*old(pipe), *final(pipe), seq![Command::SMembers { key: key@ }]),
{
    pipe.smembers(key);
}

/// `redis::Pipeline::srem` with one identifier: adds `SREM key id`.
#[verifier::external_body]
pub(crate) fn pipe_srem(pipe: &mut redis::Pipeline, key: &str, id: usize)
    ensures
        extends(*old(pipe), *final(pipe), seq![Command::SRem { key: key@, id: id as nat }]),
{
    pipe.srem(key, id);
}

} // verus!
