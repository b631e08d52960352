//! What the commands of the library do to Redis: a model of the lists, sets
//! and hashes behind the keys, and the laws that the library's transactions
//! keep.
//!
//! Every transaction of the library is atomic, and so is a lease. Whatever
//! several producers, workers and cancelling agents do at once therefore
//! comes to some sequence of the transitions below, one after another.

use crate::command::snakemake::cancel::MinimalJobView;
use crate::command::worker::run_on_job::{end_commands, end_items};
use crate::model::job::key::JobKey;
use crate::model::job::rsrq_job::{job_key, lemma_job_keys_differ, JobView};
use crate::model::job::status::JobStatus;
use crate::model::queue::queue_type::QueueType;
use crate::model::queue::rsrq_queue::queue_key;
use crate::model::queue::rsrq_queue::lease_command;
use crate::util::pipeline::{Command, ListEnd};
use vstd::prelude::*;

verus! {

/// How often `id` stands in the list `s`.
pub open spec fn count(s: Seq<nat>, id: nat) -> nat
    decreases s.len(),
{
    if s.len() == 0 {
        0
    } else {
        (if s[0] == id {
            1nat
        } else {
            0nat
        }) + count(s.drop_first(), id)
    }
}

/// The list `s` without the first `id` in it, counted from the head.
pub open spec fn remove_first(s: Seq<nat>, id: nat) -> Seq<nat>
    decreases s.len(),
{
    if s.len() == 0 {
        s
    } else if s[0] == id {
        s.drop_first()
    } else {
        seq![s[0]] + remove_first(s.drop_first(), id)
    }
}

/// A hash after its fields `items` were written, in their order.
pub open spec fn write_items(
    hash: Map<Seq<char>, Seq<char>>,
    items: Seq<(Seq<char>, Seq<char>)>,
) -> Map<Seq<char>, Seq<char>>
    decreases items.len(),
{
    if items.len() == 0 {
        hash
    } else {
        write_items(hash, items.drop_last()).insert(items.last().0, items.last().1)
    }
}

/// The lists, sets and hashes that Redis holds. A key that is not there
/// stands for the empty list, set or hash.
pub struct Store {
    pub lists: Map<Seq<char>, Seq<nat>>,
    pub sets: Map<Seq<char>, Set<nat>>,
    pub hashes: Map<Seq<char>, Map<Seq<char>, Seq<char>>>,
}

impl Store {
    /// The list under `key`, its head first.
    pub open spec fn list(self, key: Seq<char>) -> Seq<nat> {
        if self.lists.contains_key(key) {
            self.lists[key]
        } else {
            Seq::empty()
        }
    }

    /// The set under `key`.
    pub open spec fn set(self, key: Seq<char>) -> Set<nat> {
        if self.sets.contains_key(key) {
            self.sets[key]
        } else {
            Set::empty()
        }
    }

    /// The hash under `key`.
    pub open spec fn hash(self, key: Seq<char>) -> Map<Seq<char>, Seq<char>> {
        if self.hashes.contains_key(key) {
            self.hashes[key]
        } else {
            Map::empty()
        }
    }

    /// The store after one command. Of `LREM` only the count 1 is modelled,
    /// and of `LMOVE` only the move from a tail to a head, the ones the
    /// library sends; the commands that read change nothing.
    pub open spec fn apply(self, c: Command) -> Store {
        match c {
            Command::Del { key } => Store {
                lists: self.lists.remove(key),
                sets: self.sets.remove(key),
                hashes: self.hashes.remove(key),
            },
            Command::HGet { key, field } => self,
            Command::HSet { key, field, value } => Store {
                hashes: self.hashes.insert(key, self.hash(key).insert(field, value)),
                ..self
            },
            Command::HSetMultiple { key, items } => Store {
                hashes: self.hashes.insert(key, write_items(self.hash(key), items)),
                ..self
            },
            Command::LMove { source, target, from, to } => if from == ListEnd::Right && to
                == ListEnd::Left {
                self.move_tail_to_head(source, target).0
            } else {
                arbitrary()
            },
            Command::LPush { key, id } => Store {
                lists: self.lists.insert(key, seq![id] + self.list(key)),
                ..self
            },
            Command::LRange { key, start, stop } => self,
            Command::LRem { key, count, id } => if count == 1 {
                Store { lists: self.lists.insert(key, remove_first(self.list(key), id)), ..self }
            } else {
                arbitrary()
            },
            Command::SAdd { key, id } => Store {
                sets: self.sets.insert(key, self.set(key).insert(id)),
                ..self
            },
            Command::SMembers { key } => self,
            Command::SRem { key, id } => Store {
                sets: self.sets.insert(key, self.set(key).remove(id)),
                ..self
            },
        }
    }

    /// The store after the commands `cs`, one after another.
    pub open spec fn apply_all(self, cs: Seq<Command>) -> Store
        decreases cs.len(),
    {
        if cs.len() == 0 {
            self
        } else {
            self.apply(cs[0]).apply_all(cs.drop_first())
        }
    }

    /// The store after a lease on the queue `queue`, and the job that was
    /// leased: the job at the tail of the queued list moves to the head of
    /// the running list. Nothing moves where nothing is queued.
    pub open spec fn lease(self, queue: Seq<char>) -> (Store, Option<nat>) {
        self.move_tail_to_head(
            queue_key(QueueType::Queued, queue),
            queue_key(QueueType::Running, queue),
        )
    }

    /// The store after the element at the tail of the list `source` was moved
    /// to the head of the list `target`, in one step, and the element that
    /// was moved. Nothing moves where the list `source` is empty.
    pub open spec fn move_tail_to_head(self, source: Seq<char>, target: Seq<char>) -> (
        Store,
        Option<nat>,
    ) {
        let queued = self.list(source);
        if queued.len() == 0 {
            (self, None)
        } else {
            let id = queued.last();
            let moved = Store { lists: self.lists.insert(source, queued.drop_last()), ..self };
            (
                Store { lists: moved.lists.insert(target, seq![id] + moved.list(target)), ..moved },
                Some(id),
            )
        }
    }

    /// In how many places of the queue `queue` the job `id` stands: how often
    /// in the queued and in the running list, and once for each of the
    /// finished and the failed set that holds it.
    pub open spec fn places(self, queue: Seq<char>, id: nat) -> nat {
        count(self.list(queue_key(QueueType::Queued, queue)), id) + count(
            self.list(queue_key(QueueType::Running, queue)),
            id,
        ) + (if self.set(queue_key(QueueType::Finished, queue)).contains(id) {
            1nat
        } else {
            0nat
        }) + (if self.set(queue_key(QueueType::Failed, queue)).contains(id) {
            1nat
        } else {
            0nat
        })
    }

    /// Whether the job `id` stands in the container of kind `t` of `queue`.
    pub open spec fn holds(self, t: QueueType, queue: Seq<char>, id: nat) -> bool {
        if t.is_list() {
            count(self.list(queue_key(t, queue)), id) > 0
        } else {
            self.set(queue_key(t, queue)).contains(id)
        }
    }

    /// No job stands in two places of a queue.
    pub open spec fn single_container(self) -> bool {
        forall|queue: Seq<char>, id: nat| #[trigger] self.places(queue, id) <= 1
    }

    /// The job `id` of `queue` has ended: it stands in the finished or in the
    /// failed set, and in neither list.
    pub open spec fn terminal(self, queue: Seq<char>, id: nat) -> bool {
        &&& self.holds(QueueType::Finished, queue, id) || self.holds(QueueType::Failed, queue, id)
        &&& !self.holds(QueueType::Queued, queue, id)
        &&& !self.holds(QueueType::Running, queue, id)
    }
}

/// One atomic step on the store, as the library takes it.
pub enum Transition {
    /// A producer creates a job.
    Create { job: JobView },
    /// A worker leases the next job of a queue.
    Lease { queue: Seq<char> },
    /// An executor marks a job as running.
    Start { key: Seq<char>, items: Seq<(Seq<char>, Seq<char>)> },
    /// An executor ends the job `id` of `queue` into the set of kind `target`.
    End {
        key: Seq<char>,
        id: nat,
        queue: Seq<char>,
        target: QueueType,
        items: Seq<(Seq<char>, Seq<char>)>,
    },
    /// An agent cancels a job.
    Cancel { cancelled: MinimalJobView },
}

impl Transition {
    /// The store after the step.
    pub open spec fn step(self, store: Store) -> Store {
        match self {
            Transition::Create { job } => store.apply_all(job.create_commands()),
            Transition::Lease { queue } => store.lease(queue).0,
            Transition::Start { key, items } => store.apply_all(
                seq![Command::HSetMultiple { key, items }],
            ),
            Transition::End { key, id, queue, target, items } => store.apply_all(
                end_commands(key, id, queue, target, items),
            ),
            Transition::Cancel { cancelled } => store.apply_all(cancelled.cancel_commands()),
        }
    }

    /// Whether the step is one that the library takes in the state `store`: a
    /// job is created under a fresh identifier; a job is ended by the
    /// executor that holds it, so it stands in the running list, and it ends
    /// into the finished or into the failed set; a job is cancelled out of
    /// the container that its status names.
    pub open spec fn enabled(self, store: Store) -> bool {
        match self {
            Transition::Create { job } => store.places(job.queue, job.id as nat) == 0,
            Transition::Lease { queue } => true,
            Transition::Start { key, items } => true,
            Transition::End { key, id, queue, target, items } => !target.is_list() && store.holds(
                QueueType::Running,
                queue,
                id,
            ),
            Transition::Cancel { cancelled } => cancelled.cancellable() ==> store.holds(
                cancelled.status.queue_type(),
                cancelled.queue,
                cancelled.id as nat,
            ),
        }
    }

    /// Whether the step puts the job `id` of `queue` into a list: a creation
    /// of that job does, and so does an end that is told to end into a list.
    pub open spec fn enqueues(self, queue: Seq<char>, id: nat) -> bool {
        match self {
            Transition::Create { job } => job.queue == queue && job.id as nat == id,
            Transition::End { key, id: ended, queue: of, target, items } => target.is_list(),
            _ => false,
        }
    }
}

/// Two keys of state containers are the same only for the same kind and the
/// same queue.
pub proof fn lemma_queue_key_injective(t1: QueueType, q1: Seq<char>, t2: QueueType, q2: Seq<char>)
    ensures
        queue_key(t1, q1) == queue_key(t2, q2) ==> t1 == t2 && q1 == q2,
{
    reveal_strlit("rsrq:queued");
    reveal_strlit("rsrq:running");
    reveal_strlit("rsrq:finished");
    reveal_strlit("rsrq:failed");
    reveal_strlit(":");
    let k1 = queue_key(t1, q1);
    let k2 = queue_key(t2, q2);
    if k1 == k2 {
        assert(k1[5] == t1.name()[5]);
        assert(k1[6] == t1.name()[6]);
        assert(k2[5] == t2.name()[5]);
        assert(k2[6] == t2.name()[6]);
        assert(t1 == t2);
        let n = t1.name().len() + 1;
        assert(k1.skip(n as int) =~= q1);
        assert(k2.skip(n as int) =~= q2);
    }
}

/// The four keys of a queue are four keys.
pub proof fn lemma_four_keys(queue: Seq<char>)
    ensures
        queue_key(QueueType::Queued, queue) != queue_key(QueueType::Running, queue),
        queue_key(QueueType::Queued, queue) != queue_key(QueueType::Finished, queue),
        queue_key(QueueType::Queued, queue) != queue_key(QueueType::Failed, queue),
        queue_key(QueueType::Running, queue) != queue_key(QueueType::Finished, queue),
        queue_key(QueueType::Running, queue) != queue_key(QueueType::Failed, queue),
        queue_key(QueueType::Finished, queue) != queue_key(QueueType::Failed, queue),
{
    lemma_queue_key_injective(QueueType::Queued, queue, QueueType::Running, queue);
    lemma_queue_key_injective(QueueType::Queued, queue, QueueType::Finished, queue);
    lemma_queue_key_injective(QueueType::Queued, queue, QueueType::Failed, queue);
    lemma_queue_key_injective(QueueType::Running, queue, QueueType::Finished, queue);
    lemma_queue_key_injective(QueueType::Running, queue, QueueType::Failed, queue);
    lemma_queue_key_injective(QueueType::Finished, queue, QueueType::Failed, queue);
}

/// A new head counts once where it is the identifier counted.
pub proof fn lemma_count_push_front(s: Seq<nat>, x: nat, id: nat)
    ensures
        count(seq![x] + s, id) == count(s, id) + (if x == id {
            1nat
        } else {
            0nat
        }),
{
    assert((seq![x] + s).drop_first() =~= s);
}

/// Taking the first `x` out of a list takes one `x` from the count where
/// there is one, and nothing from the count of any other identifier.
pub proof fn lemma_count_remove_first(s: Seq<nat>, x: nat, id: nat)
    ensures
        count(remove_first(s, x), id) == (if x == id && count(s, id) > 0 {
            (count(s, id) - 1) as nat
        } else {
            count(s, id)
        }),
    decreases s.len(),
{
    if s.len() > 0 && s[0] != x {
        lemma_count_remove_first(s.drop_first(), x, id);
        lemma_count_push_front(remove_first(s.drop_first(), x), s[0], id);
    }
}

/// Taking the tail off a list takes it from the count where it is the
/// identifier counted.
pub proof fn lemma_count_drop_last(s: Seq<nat>, id: nat)
    requires
        s.len() > 0,
    ensures
        count(s.drop_last(), id) + (if s.last() == id {
            1nat
        } else {
            0nat
        }) == count(s, id),
    decreases s.len(),
{
    if s.len() == 1 {
        assert(s.drop_last() =~= Seq::<nat>::empty());
        assert(s.drop_first() =~= Seq::<nat>::empty());
    } else {
        lemma_count_drop_last(s.drop_first(), id);
        assert(s.drop_first().drop_last() =~= s.drop_last().drop_first());
    }
}

/// Writing a hash moves no job.
pub proof fn lemma_hash_write_keeps_places(
    store: Store,
    key: Seq<char>,
    items: Seq<(Seq<char>, Seq<char>)>,
    queue: Seq<char>,
    id: nat,
)
    ensures
        store.apply(Command::HSetMultiple { key, items }).places(queue, id) == store.places(
            queue,
            id,
        ),
        forall|field: Seq<char>, value: Seq<char>|
            (#[trigger] store.apply(Command::HSet { key, field, value })).places(queue, id)
                == store.places(queue, id),
{
}

/// How a command that puts `x` into the container of kind `t` of `of` changes
/// the places of the job `id` of `queue`: by one where it is that job in that
/// queue, and a set did not hold it yet.
pub proof fn lemma_add_places(
    store: Store,
    t: QueueType,
    of: Seq<char>,
    x: nat,
    queue: Seq<char>,
    id: nat,
)
    ensures
        store.apply(crate::model::queue::rsrq_queue::add_command(t, queue_key(t, of), x)).places(
            queue,
            id,
        ) == store.places(queue, id) + (if of == queue && x == id && (t.is_list() || !store.holds(
            t,
            queue,
            id,
        )) {
            1nat
        } else {
            0nat
        }),
{
    lemma_queue_key_injective(t, of, QueueType::Queued, queue);
    lemma_queue_key_injective(t, of, QueueType::Running, queue);
    lemma_queue_key_injective(t, of, QueueType::Finished, queue);
    lemma_queue_key_injective(t, of, QueueType::Failed, queue);
    if t.is_list() {
        lemma_count_push_front(store.list(queue_key(t, of)), x, id);
    }
}

/// How a command that takes `x` out of the container of kind `t` of `of`
/// changes the places of the job `id` of `queue`: by one where it is that job
/// in that queue, and the container held it.
pub proof fn lemma_remove_places(
    store: Store,
    t: QueueType,
    of: Seq<char>,
    x: nat,
    queue: Seq<char>,
    id: nat,
)
    ensures
        store.apply(
            crate::model::queue::rsrq_queue::remove_command(t, queue_key(t, of), x),
        ).places(queue, id) + (if of == queue && x == id && store.holds(t, queue, id) {
            1nat
        } else {
            0nat
        }) == store.places(queue, id),
{
    lemma_queue_key_injective(t, of, QueueType::Queued, queue);
    lemma_queue_key_injective(t, of, QueueType::Running, queue);
    lemma_queue_key_injective(t, of, QueueType::Finished, queue);
    lemma_queue_key_injective(t, of, QueueType::Failed, queue);
    if t.is_list() {
        lemma_count_remove_first(store.list(queue_key(t, of)), x, id);
    }
}

/// A lease moves a job from one list of its queue to the other: no job
/// changes the number of its places.
pub proof fn lemma_lease_keeps_places(store: Store, of: Seq<char>, queue: Seq<char>, id: nat)
    ensures
        store.lease(of).0.places(queue, id) == store.places(queue, id),
{
    let source = queue_key(QueueType::Queued, of);
    let target = queue_key(QueueType::Running, of);
    let queued = store.list(source);
    lemma_queue_key_injective(QueueType::Queued, of, QueueType::Queued, queue);
    lemma_queue_key_injective(QueueType::Queued, of, QueueType::Running, queue);
    lemma_queue_key_injective(QueueType::Running, of, QueueType::Queued, queue);
    lemma_queue_key_injective(QueueType::Running, of, QueueType::Running, queue);
    lemma_queue_key_injective(QueueType::Queued, of, QueueType::Running, of);
    if queued.len() > 0 {
        let moved = Store { lists: store.lists.insert(source, queued.drop_last()), ..store };
        lemma_count_drop_last(queued, id);
        lemma_count_push_front(moved.list(target), queued.last(), id);
        assert(moved.list(target) == store.list(target));
    }
}

/// The store after one, two or three commands.
pub proof fn lemma_apply_few(store: Store, a: Command, b: Command, c: Command)
    ensures
        store.apply_all(Seq::empty()) == store,
        store.apply_all(seq![a]) == store.apply(a),
        store.apply_all(seq![a, b]) == store.apply(a).apply(b),
        store.apply_all(seq![a, b, c]) == store.apply(a).apply(b).apply(c),
{
    reveal_with_fuel(Store::apply_all, 4);
    assert(seq![a].drop_first() =~= Seq::<Command>::empty());
    assert(seq![a, b].drop_first() =~= seq![b]);
    assert(seq![a, b, c].drop_first() =~= seq![b, c]);
}

/// An identifier that stands in a list counts at least once.
pub proof fn lemma_count_of_member(s: Seq<nat>, j: int)
    requires
        0 <= j < s.len(),
    ensures
        count(s, s[j]) >= 1,
    decreases s.len(),
{
    if j > 0 {
        lemma_count_of_member(s.drop_first(), j - 1);
    }
}

/// A list in which no identifier counts twice holds no identifier twice.
pub proof fn lemma_counted_once_no_duplicates(s: Seq<nat>)
    requires
        forall|id: nat| count(s, id) <= 1,
    ensures
        s.no_duplicates(),
    decreases s.len(),
{
    if s.len() > 0 {
        let t = s.drop_first();
        assert forall|id: nat| count(t, id) <= 1 by {
            assert(count(s, id) <= 1);
        }
        lemma_counted_once_no_duplicates(t);
        assert forall|i: int, j: int| 0 <= i < s.len() && 0 <= j < s.len() && i != j implies s[i]
            != s[j] by {
            if i == 0 {
                lemma_count_of_member(t, j - 1);
                assert(count(s, s[0]) <= 1);
            } else if j == 0 {
                lemma_count_of_member(t, i - 1);
                assert(count(s, s[0]) <= 1);
            } else {
                assert(t[i - 1] == s[i] && t[j - 1] == s[j]);
            }
        }
    }
}

/// How a step changes the places of a job: a creation gives the created job a
/// place, and no other step of the library gives or takes one.
pub proof fn lemma_step_places(t: Transition, store: Store, queue: Seq<char>, id: nat)
    requires
        store.single_container(),
        t.enabled(store),
    ensures
        t.step(store).places(queue, id) == store.places(queue, id) + (if t matches Transition::Create {
            job,
        } && job.queue == queue && job.id as nat == id {
            1nat
        } else {
            0nat
        }),
{
    match t {
        Transition::Create { job } => {
            let cs = job.create_commands();
            let s1 = store.apply(cs[0]);
            lemma_apply_few(store, cs[0], cs[1], cs[1]);
            assert(cs =~= seq![cs[0], cs[1]]);
            assert(store.apply_all(cs) == s1.apply(cs[1]));
            lemma_hash_write_keeps_places(store, job.key, job.items(), queue, id);
            lemma_add_places(s1, QueueType::Queued, job.queue, job.id as nat, queue, id);
        },
        Transition::Lease { queue: of } => {
            lemma_lease_keeps_places(store, of, queue, id);
        },
        Transition::Start { key, items } => {
            let cs = seq![Command::HSetMultiple { key, items }];
            lemma_apply_few(store, cs[0], cs[0], cs[0]);
            assert(store.apply_all(cs) == store.apply(cs[0]));
            lemma_hash_write_keeps_places(store, key, items, queue, id);
        },
        Transition::End { key, id: x, queue: of, target, items } => {
            let cs = end_commands(key, x, of, target, items);
            let s1 = store.apply(cs[0]);
            let s2 = s1.apply(cs[1]);
            lemma_apply_few(store, cs[0], cs[1], cs[2]);
            assert(cs =~= seq![cs[0], cs[1], cs[2]]);
            assert(store.apply_all(cs) == s2.apply(cs[2]));
            lemma_hash_write_keeps_places(store, key, items, queue, id);
            lemma_remove_places(s1, QueueType::Running, of, x, queue, id);
            lemma_add_places(s2, target, of, x, queue, id);
            lemma_four_keys(of);
            if of == queue && x == id {
                assert(store.places(queue, id) <= 1);
                assert(s1.holds(QueueType::Running, queue, id));
                assert(!s2.holds(target, queue, id));
            }
        },
        Transition::Cancel { cancelled: job } => {
            let cs = job.cancel_commands();
            if job.cancellable() {
                let from = job.status.queue_type();
                let s1 = store.apply(cs[0]);
                let s2 = s1.apply(cs[1]);
                lemma_apply_few(store, cs[0], cs[1], cs[2]);
                assert(cs =~= seq![cs[0], cs[1], cs[2]]);
                assert(store.apply_all(cs) == s2.apply(cs[2]));
                lemma_hash_write_keeps_places(store, cs[0]->HSet_key, Seq::empty(), queue, id);
                assert(s1.places(queue, id) == store.places(queue, id));
                lemma_remove_places(s1, from, job.queue, job.id as nat, queue, id);
                lemma_add_places(s2, QueueType::Failed, job.queue, job.id as nat, queue, id);
                lemma_four_keys(job.queue);
                if job.queue == queue && job.id as nat == id {
                    assert(store.places(queue, id) <= 1);
                    assert(s1.holds(from, queue, id));
                    assert(!s2.holds(QueueType::Failed, queue, id));
                }
            } else {
                lemma_apply_few(store, Command::Del { key: Seq::empty() }, Command::Del { key: Seq::empty() }, Command::Del { key: Seq::empty() });
                assert(cs =~= Seq::<Command>::empty());
                assert(store.apply_all(cs) == store);
            }
        },
    }
}

/// Single container. Every step that the library takes keeps the rule that no
/// job stands in two places of its queue; a job that stands in exactly one
/// place stands in exactly one place after the step; and a job that was just
/// created stands in exactly one place.
pub proof fn lemma_single_container_kept(t: Transition, store: Store)
    requires
        store.single_container(),
        t.enabled(store),
    ensures
        t.step(store).single_container(),
        forall|queue: Seq<char>, id: nat|
            store.places(queue, id) == 1 ==> #[trigger] t.step(store).places(queue, id) == 1,
        t matches Transition::Create { job } ==> t.step(store).places(job.queue, job.id as nat)
            == 1,
{
    assert forall|queue: Seq<char>, id: nat| #[trigger] t.step(store).places(queue, id) <= 1 && (
    store.places(queue, id) == 1 ==> t.step(store).places(queue, id) == 1) by {
        lemma_step_places(t, store, queue, id);
        assert(store.places(queue, id) <= 1);
    }
    if let Transition::Create { job } = t {
        lemma_step_places(t, store, job.queue, job.id as nat);
    }
}

/// The store after the steps of `trace`, one after another.
pub open spec fn run(store: Store, trace: Seq<Transition>) -> Store
    decreases trace.len(),
{
    if trace.len() == 0 {
        store
    } else {
        trace.last().step(run(store, trace.drop_last()))
    }
}

/// Whether each step of `trace` is one that the library takes in the state
/// in which it is taken.
pub open spec fn enabled_run(store: Store, trace: Seq<Transition>) -> bool
    decreases trace.len(),
{
    if trace.len() == 0 {
        true
    } else {
        enabled_run(store, trace.drop_last()) && trace.last().enabled(
            run(store, trace.drop_last()),
        )
    }
}

/// How often the job `id` of `queue` is created in `trace`.
pub open spec fn creations(trace: Seq<Transition>, queue: Seq<char>, id: nat) -> nat
    decreases trace.len(),
{
    if trace.len() == 0 {
        0
    } else {
        creations(trace.drop_last(), queue, id) + (if trace.last() matches Transition::Create {
            job,
        } && job.queue == queue && job.id as nat == id {
            1nat
        } else {
            0nat
        })
    }
}

/// Single container, over a whole history. Start from a store in which no job
/// stands in two places, and let producers, workers and cancelling agents
/// take any steps of the library in any order. Then still no job stands in
/// two places; every job that was created on the way stands in exactly one of
/// the four containers of its queue; and so does every job that did before.
pub proof fn lemma_single_container(
    store: Store,
    trace: Seq<Transition>,
    queue: Seq<char>,
    id: nat,
)
    requires
        store.single_container(),
        enabled_run(store, trace),
    ensures
        run(store, trace).single_container(),
        run(store, trace).places(queue, id) == store.places(queue, id) + creations(
            trace,
            queue,
            id,
        ),
        creations(trace, queue, id) > 0 || store.places(queue, id) == 1 ==> run(
            store,
            trace,
        ).places(queue, id) == 1,
    decreases trace.len(),
{
    if trace.len() > 0 {
        let before = run(store, trace.drop_last());
        lemma_single_container(store, trace.drop_last(), queue, id);
        lemma_single_container_kept(trace.last(), before);
        lemma_step_places(trace.last(), before, queue, id);
        assert(run(store, trace).places(queue, id) <= 1);
    } else {
        assert(store.places(queue, id) <= 1);
    }
}

/// What a command that fills a container does to what the containers hold:
/// the container that it fills holds the job that it puts there, and nothing
/// else changes.
pub proof fn lemma_add_holds(
    store: Store,
    t: QueueType,
    of: Seq<char>,
    x: nat,
    kind: QueueType,
    queue: Seq<char>,
    id: nat,
)
    ensures
        store.apply(crate::model::queue::rsrq_queue::add_command(t, queue_key(t, of), x)).holds(
            kind,
            queue,
            id,
        ) == (store.holds(kind, queue, id) || (t == kind && of == queue && x == id)),
{
    lemma_queue_key_injective(t, of, kind, queue);
    if t.is_list() && kind.is_list() {
        lemma_count_push_front(store.list(queue_key(t, of)), x, id);
    }
}

/// A command that empties a container puts no job into any container.
pub proof fn lemma_remove_holds(
    store: Store,
    t: QueueType,
    of: Seq<char>,
    x: nat,
    kind: QueueType,
    queue: Seq<char>,
    id: nat,
)
    ensures
        store.apply(
            crate::model::queue::rsrq_queue::remove_command(t, queue_key(t, of), x),
        ).holds(kind, queue, id) ==> store.holds(kind, queue, id),
        !(t == kind && of == queue && x == id) ==> store.apply(
            crate::model::queue::rsrq_queue::remove_command(t, queue_key(t, of), x),
        ).holds(kind, queue, id) == store.holds(kind, queue, id),
{
    lemma_queue_key_injective(t, of, kind, queue);
    if t.is_list() && kind.is_list() {
        lemma_count_remove_first(store.list(queue_key(t, of)), x, id);
    }
}

/// A lease moves the job at the tail of the queued list into the running
/// list, and changes nothing else of what the containers hold.
pub proof fn lemma_lease_holds(
    store: Store,
    of: Seq<char>,
    kind: QueueType,
    queue: Seq<char>,
    id: nat,
)
    ensures
        !store.holds(QueueType::Queued, queue, id) && !store.holds(QueueType::Running, queue, id)
            ==> store.lease(of).0.holds(kind, queue, id) == store.holds(kind, queue, id),
{
    let source = queue_key(QueueType::Queued, of);
    let target = queue_key(QueueType::Running, of);
    let queued = store.list(source);
    lemma_queue_key_injective(QueueType::Queued, of, kind, queue);
    lemma_queue_key_injective(QueueType::Running, of, kind, queue);
    lemma_queue_key_injective(QueueType::Queued, of, QueueType::Queued, queue);
    lemma_queue_key_injective(QueueType::Queued, of, QueueType::Running, of);
    if queued.len() > 0 {
        let moved = Store { lists: store.lists.insert(source, queued.drop_last()), ..store };
        lemma_count_drop_last(queued, id);
        lemma_count_push_front(moved.list(target), queued.last(), id);
        assert(moved.list(target) == store.list(target));
    }
}

/// Terminal absorption. A job that has ended, standing in the finished or in
/// the failed set and in neither list, is never moved back into a list: not
/// by the creation of another job, not by a lease, not by the start, the end
/// or the cancelling of any job, its own included.
pub proof fn lemma_terminal_absorbing(t: Transition, store: Store, queue: Seq<char>, id: nat)
    requires
        store.terminal(queue, id),
        !t.enqueues(queue, id),
    ensures
        t.step(store).terminal(queue, id),
{
    match t {
        Transition::Create { job } => {
            let cs = job.create_commands();
            let s1 = store.apply(cs[0]);
            lemma_apply_few(store, cs[0], cs[1], cs[1]);
            assert(cs =~= seq![cs[0], cs[1]]);
            assert(store.apply_all(cs) == s1.apply(cs[1]));
            lemma_add_holds(s1, QueueType::Queued, job.queue, job.id as nat, QueueType::Queued, queue, id);
            lemma_add_holds(s1, QueueType::Queued, job.queue, job.id as nat, QueueType::Running, queue, id);
            lemma_add_holds(s1, QueueType::Queued, job.queue, job.id as nat, QueueType::Finished, queue, id);
            lemma_add_holds(s1, QueueType::Queued, job.queue, job.id as nat, QueueType::Failed, queue, id);
        },
        Transition::Lease { queue: of } => {
            lemma_lease_holds(store, of, QueueType::Queued, queue, id);
            lemma_lease_holds(store, of, QueueType::Running, queue, id);
            lemma_lease_holds(store, of, QueueType::Finished, queue, id);
            lemma_lease_holds(store, of, QueueType::Failed, queue, id);
        },
        Transition::Start { key, items } => {
            let cs = seq![Command::HSetMultiple { key, items }];
            lemma_apply_few(store, cs[0], cs[0], cs[0]);
            assert(store.apply_all(cs) == store.apply(cs[0]));
        },
        Transition::End { key, id: x, queue: of, target, items } => {
            let cs = end_commands(key, x, of, target, items);
            let s1 = store.apply(cs[0]);
            let s2 = s1.apply(cs[1]);
            lemma_apply_few(store, cs[0], cs[1], cs[2]);
            assert(cs =~= seq![cs[0], cs[1], cs[2]]);
            assert(store.apply_all(cs) == s2.apply(cs[2]));
            lemma_remove_holds(s1, QueueType::Running, of, x, QueueType::Queued, queue, id);
            lemma_remove_holds(s1, QueueType::Running, of, x, QueueType::Running, queue, id);
            lemma_remove_holds(s1, QueueType::Running, of, x, QueueType::Finished, queue, id);
            lemma_remove_holds(s1, QueueType::Running, of, x, QueueType::Failed, queue, id);
            lemma_add_holds(s2, target, of, x, QueueType::Queued, queue, id);
            lemma_add_holds(s2, target, of, x, QueueType::Running, queue, id);
            lemma_add_holds(s2, target, of, x, QueueType::Finished, queue, id);
            lemma_add_holds(s2, target, of, x, QueueType::Failed, queue, id);
        },
        Transition::Cancel { cancelled: job } => {
            let cs = job.cancel_commands();
            if job.cancellable() {
                let from = job.status.queue_type();
                let x = job.id as nat;
                let s1 = store.apply(cs[0]);
                let s2 = s1.apply(cs[1]);
                lemma_apply_few(store, cs[0], cs[1], cs[2]);
                assert(cs =~= seq![cs[0], cs[1], cs[2]]);
                assert(store.apply_all(cs) == s2.apply(cs[2]));
                lemma_remove_holds(s1, from, job.queue, x, QueueType::Queued, queue, id);
                lemma_remove_holds(s1, from, job.queue, x, QueueType::Running, queue, id);
                lemma_remove_holds(s1, from, job.queue, x, QueueType::Finished, queue, id);
                lemma_remove_holds(s1, from, job.queue, x, QueueType::Failed, queue, id);
                lemma_add_holds(s2, QueueType::Failed, job.queue, x, QueueType::Queued, queue, id);
                lemma_add_holds(s2, QueueType::Failed, job.queue, x, QueueType::Running, queue, id);
                lemma_add_holds(s2, QueueType::Failed, job.queue, x, QueueType::Finished, queue, id);
                lemma_add_holds(s2, QueueType::Failed, job.queue, x, QueueType::Failed, queue, id);
            } else {
                lemma_apply_few(store, Command::Del { key: Seq::empty() }, Command::Del { key: Seq::empty() }, Command::Del { key: Seq::empty() });
                assert(cs =~= Seq::<Command>::empty());
                assert(store.apply_all(cs) == store);
            }
        },
    }
}

/// The store after `m` leases on the queue `queue`, one after another, and
/// what each of them gave.
pub open spec fn lease_many(store: Store, queue: Seq<char>, m: nat) -> (Store, Seq<Option<nat>>)
    decreases m,
{
    if m == 0 {
        (store, Seq::empty())
    } else {
        let before = lease_many(store, queue, (m - 1) as nat);
        let last = before.0.lease(queue);
        (last.0, before.1.push(last.1))
    }
}

/// The jobs that the leaser `a` was given, where `owner` says for each lease
/// which leaser made it.
pub open spec fn leased_by(results: Seq<Option<nat>>, owner: Seq<nat>, a: nat) -> Set<nat> {
    Set::new(
        |id: nat|
            exists|i: int|
                0 <= i < results.len() && i < owner.len() && owner[i] == a
                    && #[trigger] results[i] == Some(id),
    )
}

/// The jobs that any lease gave.
pub open spec fn all_leased(results: Seq<Option<nat>>) -> Set<nat> {
    Set::new(|id: nat| exists|i: int| 0 <= i < results.len() && #[trigger] results[i] == Some(id))
}

/// Leases are served first in, first out: the lease number `i` gives the job
/// that stands `i` places before the tail of the queued list, and nothing
/// once the list is used up; what is left in the list is its head.
pub proof fn lemma_lease_many(store: Store, queue: Seq<char>, m: nat)
    ensures
        lease_many(store, queue, m).1.len() == m,
        lease_many(store, queue, m).0.list(queue_key(QueueType::Queued, queue)) == store.list(
            queue_key(QueueType::Queued, queue),
        ).take(
            if m <= store.list(queue_key(QueueType::Queued, queue)).len() {
                store.list(queue_key(QueueType::Queued, queue)).len() - m
            } else {
                0
            },
        ),
        forall|i: int|
            0 <= i < m ==> #[trigger] lease_many(store, queue, m).1[i] == (if i < store.list(
                queue_key(QueueType::Queued, queue),
            ).len() {
                Some(
                    store.list(queue_key(QueueType::Queued, queue))[store.list(
                        queue_key(QueueType::Queued, queue),
                    ).len() - 1 - i],
                )
            } else {
                None
            }),
    decreases m,
{
    let source = queue_key(QueueType::Queued, queue);
    let queued = store.list(source);
    let k = queued.len();
    if m == 0 {
        assert(queued.take(k as int) =~= queued);
    } else {
        let before = lease_many(store, queue, (m - 1) as nat);
        lemma_lease_many(store, queue, (m - 1) as nat);
        lemma_four_keys(queue);
        let now = before.0.list(source);
        let last = before.0.lease(queue);
        if m - 1 < k {
            assert(now =~= queued.take(k - (m - 1)));
            assert(now.last() == queued[k - m]);
            assert(now.drop_last() =~= queued.take(k - m));
        } else {
            assert(now.len() == 0);
            assert(queued.take(0) =~= Seq::<nat>::empty());
        }
        assert forall|i: int| 0 <= i < m implies #[trigger] lease_many(store, queue, m).1[i] == (
        if i < k {
            Some(queued[k - 1 - i])
        } else {
            None
        }) by {
            if i < m - 1 {
                assert(lease_many(store, queue, m).1[i] == before.1[i]);
            }
        }
    }
}

/// Lease exclusivity. Let `leasers` workers race on a queue, each for `batch`
/// leases, the leases reaching Redis in any order whatever; `owner` names the
/// worker of each lease in that order. Then no job is given to two workers,
/// and the workers together are given as many jobs as they asked for, or all
/// the jobs that were queued where those are fewer.
pub proof fn lemma_lease_exclusive(
    store: Store,
    queue: Seq<char>,
    leasers: nat,
    batch: nat,
    owner: Seq<nat>,
)
    requires
        store.single_container(),
        owner.len() == leasers * batch,
    ensures
        forall|a: nat, b: nat|
            a != b ==> #[trigger] leased_by(
                lease_many(store, queue, owner.len()).1,
                owner,
                a,
            ).disjoint(#[trigger] leased_by(lease_many(store, queue, owner.len()).1, owner, b)),
        forall|id: nat|
            #[trigger] all_leased(lease_many(store, queue, owner.len()).1).contains(id) <==> exists|
                a: nat,
            | #[trigger]
                leased_by(lease_many(store, queue, owner.len()).1, owner, a).contains(id),
        all_leased(lease_many(store, queue, owner.len()).1).finite(),
        all_leased(lease_many(store, queue, owner.len()).1).len() == (if leasers * batch
            <= store.list(queue_key(QueueType::Queued, queue)).len() {
            leasers * batch
        } else {
            store.list(queue_key(QueueType::Queued, queue)).len()
        }),
{
    let source = queue_key(QueueType::Queued, queue);
    let queued = store.list(source);
    let k = queued.len() as int;
    let m = owner.len();
    let results = lease_many(store, queue, m).1;
    lemma_lease_many(store, queue, m);
    assert forall|id: nat| count(queued, id) <= 1 by {
        assert(store.places(queue, id) <= 1);
    }
    lemma_counted_once_no_duplicates(queued);
    let n: int = if m <= k {
        m as int
    } else {
        k
    };
    let given = queued.subrange(k - n, k);
    assert(given.no_duplicates());
    assert forall|id: nat| all_leased(results).contains(id) <==> given.to_set().contains(id) by {
        if all_leased(results).contains(id) {
            let i = choose|i: int| 0 <= i < results.len() && #[trigger] results[i] == Some(id);
            assert(given[n - 1 - i] == id);
        }
        if given.to_set().contains(id) {
            let j = choose|j: int| 0 <= j < given.len() && given[j] == id;
            assert(results[n - 1 - j] == Some(id));
        }
    }
    assert(all_leased(results) =~= given.to_set());
    given.unique_seq_to_set();
    vstd::seq_lib::seq_to_set_is_finite(given);
    assert forall|a: nat, b: nat| a != b implies #[trigger] leased_by(results, owner, a).disjoint(
        #[trigger] leased_by(results, owner, b),
    ) by {
        assert forall|id: nat|
            !(leased_by(results, owner, a).contains(id) && leased_by(results, owner, b).contains(
                id,
            )) by {
            if leased_by(results, owner, a).contains(id) && leased_by(results, owner, b).contains(
                id,
            ) {
                let i = choose|i: int|
                    0 <= i < results.len() && i < owner.len() && owner[i] == a
                        && #[trigger] results[i] == Some(id);
                let j = choose|j: int|
                    0 <= j < results.len() && j < owner.len() && owner[j] == b
                        && #[trigger] results[j] == Some(id);
                assert(queued[k - 1 - i] == queued[k - 1 - j]);
            }
        }
    }
    assert forall|id: nat| #[trigger] all_leased(results).contains(id) <==> exists|a: nat| #[trigger]
        leased_by(results, owner, a).contains(id) by {
        if all_leased(results).contains(id) {
            let i = choose|i: int| 0 <= i < results.len() && #[trigger] results[i] == Some(id);
            assert(leased_by(results, owner, owner[i]).contains(id));
        }
        if exists|a: nat| #[trigger] leased_by(results, owner, a).contains(id) {
            let a = choose|a: nat| #[trigger] leased_by(results, owner, a).contains(id);
            let i = choose|i: int|
                0 <= i < results.len() && i < owner.len() && owner[i] == a
                    && #[trigger] results[i] == Some(id);
            assert(results[i] == Some(id));
        }
    }
}

/// A field that is written and not written again holds what was written.
pub proof fn lemma_written_field(
    hash: Map<Seq<char>, Seq<char>>,
    items: Seq<(Seq<char>, Seq<char>)>,
    i: int,
)
    requires
        0 <= i < items.len(),
        forall|k: int| i < k < items.len() ==> (#[trigger] items[k]).0 != items[i].0,
    ensures
        write_items(hash, items).contains_key(items[i].0),
        write_items(hash, items)[items[i].0] == items[i].1,
    decreases items.len(),
{
    if i < items.len() - 1 {
        let init = items.drop_last();
        assert(init[i] == items[i]);
        assert forall|k: int| i < k < init.len() implies (#[trigger] init[k]).0 != init[i].0 by {
            assert(init[k] == items[k]);
        }
        lemma_written_field(hash, init, i);
        assert(items.last().0 != items[i].0);
    }
}

/// The status goes with the container. When a job has been created its hash
/// says that it is queued, and the job stands in the queued list of its
/// queue.
pub proof fn lemma_created_is_queued(store: Store, job: JobView)
    requires
        job.status == JobStatus::Queued,
    ensures
        (Transition::Create { job }).step(store).hash(job.key)[JobKey::Status.name()]
            == JobStatus::Queued.name(),
        (Transition::Create { job }).step(store).holds(QueueType::Queued, job.queue, job.id as nat),
{
    let cs = job.create_commands();
    lemma_apply_few(store, cs[0], cs[1], cs[1]);
    assert(cs =~= seq![cs[0], cs[1]]);
    let written = store.apply(cs[0]);
    let items = job.items();
    let fields = job.fields();
    assert(items[2] == (JobKey::Status.name(), JobStatus::Queued.name()));
    assert forall|k: int| 2 < k < items.len() implies (#[trigger] items[k]).0 != items[2].0 by {
        assert(items[k] == (fields[k].0.name(), fields[k].1));
        lemma_job_keys_differ(fields[k].0, JobKey::Status);
    }
    lemma_written_field(store.hash(job.key), items, 2);
    lemma_add_holds(
        written,
        QueueType::Queued,
        job.queue,
        job.id as nat,
        QueueType::Queued,
        job.queue,
        job.id as nat,
    );
}

/// The status goes with the container. When a job has been ended as
/// finished or as failed its hash says so, and the job stands in the set of
/// that status.
pub proof fn lemma_ended_is_recorded(
    store: Store,
    key: Seq<char>,
    id: nat,
    queue: Seq<char>,
    status: JobStatus,
    end_ts: Seq<char>,
    stdout: Seq<char>,
    stderr: Seq<char>,
    duration_ms: u128,
    exit_code: i32,
)
    requires
        status == JobStatus::Finished || status == JobStatus::Failed,
    ensures
        store.apply_all(
            end_commands(
                key,
                id,
                queue,
                status.queue_type(),
                end_items(status, end_ts, stdout, stderr, duration_ms, exit_code),
            ),
        ).hash(key)[JobKey::Status.name()] == status.name(),
        store.apply_all(
            end_commands(
                key,
                id,
                queue,
                status.queue_type(),
                end_items(status, end_ts, stdout, stderr, duration_ms, exit_code),
            ),
        ).holds(status.queue_type(), queue, id),
{
    let items = end_items(status, end_ts, stdout, stderr, duration_ms, exit_code);
    let cs = end_commands(key, id, queue, status.queue_type(), items);
    lemma_apply_few(store, cs[0], cs[1], cs[2]);
    assert(cs =~= seq![cs[0], cs[1], cs[2]]);
    let names = seq![
        JobKey::Status,
        JobKey::Finished,
        JobKey::Stdout,
        JobKey::Stderr,
        JobKey::DurationMs,
        JobKey::ExitCode,
    ];
    assert forall|k: int| 0 < k < items.len() implies (#[trigger] items[k]).0 != items[0].0 by {
        assert(items[k].0 == names[k].name());
        lemma_job_keys_differ(names[k], JobKey::Status);
    }
    lemma_written_field(store.hash(key), items, 0);
    let s1 = store.apply(cs[0]);
    let s2 = s1.apply(cs[1]);
    lemma_add_holds(s2, status.queue_type(), queue, id, status.queue_type(), queue, id);
}

/// Cancelled means failed. When a job that was queued or running has been
/// cancelled its hash says that it is cancelled, and the job stands in the
/// failed set of its queue.
pub proof fn lemma_cancelled_is_failed(store: Store, job: MinimalJobView)
    requires
        job.cancellable(),
    ensures
        (Transition::Cancel { cancelled: job }).step(store).hash(job_key(job.id as nat))[JobKey::Status.name()]
            == JobStatus::Cancelled.name(),
        (Transition::Cancel { cancelled: job }).step(store).holds(
            QueueType::Failed,
            job.queue,
            job.id as nat,
        ),
{
    let cs = job.cancel_commands();
    lemma_apply_few(store, cs[0], cs[1], cs[2]);
    assert(cs =~= seq![cs[0], cs[1], cs[2]]);
    let s1 = store.apply(cs[0]);
    let s2 = s1.apply(cs[1]);
    lemma_add_holds(
        s2,
        QueueType::Failed,
        job.queue,
        job.id as nat,
        QueueType::Failed,
        job.queue,
        job.id as nat,
    );
}

/// A lease is one command: the store after the command that leases from a
/// queue is the store after a lease on that queue.
pub proof fn lemma_lease_is_one_command(store: Store, queue: Seq<char>)
    ensures
        store.apply(lease_command(queue)) == store.lease(queue).0,
        store.apply_all(seq![lease_command(queue)]) == (Transition::Lease { queue }).step(store),
{
    lemma_apply_few(store, lease_command(queue), lease_command(queue), lease_command(queue));
}

} // verus!
