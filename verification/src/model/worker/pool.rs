//! The worker pool: which jobs are in flight, how many may be leased, which
//! are to be aborted, and when the worker is to stop.
//!
//! The pool decides; its caller does what only it can do. The caller reads
//! the clock, asks Redis for the length of the queue, for the statuses of the
//! jobs in flight and for leases, starts and aborts the executors, and hands
//! the pool what it found.

use crate::model::job::status::JobStatus;
use crate::model::progress_bar::{padded, ProgressView, RsrqProgressBar};
use crate::model::queue::queue_type::QueueType;
use crate::model::queue::rsrq_queue::{queue_key, Queue};
use crate::model::worker::message::WorkerMessage;
use crate::util::time::get_ms_since;
use vstd::prelude::*;

verus! {

/// The list `s` without the first `id` in it.
pub open spec fn without(s: Seq<usize>, id: usize) -> Seq<usize>
    decreases s.len(),
{
    if s.len() == 0 {
        s
    } else if s[0] == id {
        s.drop_first()
    } else {
        seq![s[0]] + without(s.drop_first(), id)
    }
}

/// The list `s` with `id` at its end where it does not hold `id` yet.
pub open spec fn with(s: Seq<usize>, id: usize) -> Seq<usize> {
    if s.contains(id) {
        s
    } else {
        s.push(id)
    }
}

/// The list `s` with each of `ids` added in turn.
pub open spec fn with_all(s: Seq<usize>, ids: Seq<usize>) -> Seq<usize>
    decreases ids.len(),
{
    if ids.len() == 0 {
        s
    } else {
        with(with_all(s, ids.drop_last()), ids.last())
    }
}

/// `n` where a `usize` holds it, and the largest `usize` where none does.
pub open spec fn saturated_usize(n: nat) -> usize {
    if n <= usize::MAX {
        n as usize
    } else {
        usize::MAX
    }
}

/// What the first `n` statuses do to the jobs in flight: a job in flight
/// whose status is cancelled is in flight no more, and is to be aborted. The
/// result is the jobs that stay in flight and the jobs to abort, in the order
/// in which they were met; the status number `i` is that of the key `i`.
pub open spec fn reap(in_flight: Seq<usize>, keys: Seq<usize>, statuses: Seq<JobStatus>, n: nat) -> (
    Seq<usize>,
    Seq<usize>,
)
    decreases n,
{
    if n == 0 {
        (in_flight, Seq::empty())
    } else {
        let before = reap(in_flight, keys, statuses, (n - 1) as nat);
        if statuses[n - 1] == JobStatus::Cancelled && before.0.contains(keys[n - 1]) {
            (without(before.0, keys[n - 1]), before.1.push(keys[n - 1]))
        } else {
            before
        }
    }
}

/// The smaller of two numbers.
pub open spec fn least(a: nat, b: nat) -> nat {
    if a <= b {
        a
    } else {
        b
    }
}

/// The state of a worker pool.
pub struct PoolView {
    pub proc_id: usize,
    /// The reading of the clock at the last lease round.
    pub last_check_time: u128,
    /// The jobs in flight, in the order in which they were leased.
    pub in_flight: Seq<usize>,
    pub poll_ms: u128,
    pub n_jobs_started: usize,
    pub max_workers: usize,
    pub max_jobs: Option<usize>,
    /// The name of the queue that the pool leases from.
    pub queue: Seq<char>,
    /// The kind of the container that the pool leases from.
    pub queue_type: QueueType,
    /// The key of the container that the pool leases from.
    pub queue_key: Seq<char>,
    pub progress: ProgressView,
    pub burst: bool,
    pub has_run_once: bool,
}

impl PoolView {
    /// What always holds of a pool: no job is in flight twice; no more jobs
    /// are in flight than the pool has workers; no more jobs were started
    /// than the pool may start; and the pool leases from the queued list of
    /// its queue.
    pub open spec fn wf(self) -> bool {
        &&& self.in_flight.no_duplicates()
        &&& self.in_flight.len() <= self.max_workers
        &&& self.max_jobs matches Some(m) ==> self.n_jobs_started <= m
        &&& self.queue_type == QueueType::Queued
        &&& self.queue_key == queue_key(QueueType::Queued, self.queue)
    }

    /// Whether a lease round is due at the reading `now`: the first round
    /// always is, a later one when the poll interval has passed since the
    /// round before.
    pub open spec fn due(self, now: u128) -> bool {
        !self.has_run_once || crate::model::progress_bar::elapsed(
            self.last_check_time as nat,
            now as nat,
        ) >= self.poll_ms
    }

    /// How many jobs to lease when `n_queued` are queued: as many as workers
    /// are free, no more than are queued, and no more than the pool may
    /// still start.
    pub open spec fn to_take(self, n_queued: usize) -> nat {
        let free = least((self.max_workers - self.in_flight.len()) as nat, n_queued as nat);
        match self.max_jobs {
            Some(m) => least(free, (m - self.n_jobs_started) as nat),
            None => free,
        }
    }

    /// The jobs that are left once `n_new` of the `n_queued` queued jobs
    /// were leased: those still queued and those in flight.
    pub open spec fn remaining(self, n_queued: usize, n_new: usize) -> usize {
        saturated_usize((n_queued - n_new + self.in_flight.len()) as nat)
    }

    /// How many jobs a lease round at the reading `now` may hand in when
    /// `n_queued` are queued: none where no round is due.
    pub open spec fn asked(self, n_queued: usize, now: u128) -> nat {
        if self.due(now) {
            self.to_take(n_queued)
        } else {
            0
        }
    }

    /// Whether the pool has started as many jobs as it may.
    pub open spec fn exhausted(self) -> bool {
        self.max_jobs matches Some(m) && self.n_jobs_started >= m
    }

    /// Whether nothing is put on the terminal at the reading `now` when
    /// `remaining_tasks` jobs are left: a burst worker with nothing left says
    /// nothing, and nobody rewrites the line within a second.
    pub open spec fn quiet(self, remaining_tasks: usize, now: u128) -> bool {
        (remaining_tasks == 0 && self.burst) || !self.progress.allowed(now)
    }

    /// The line that is put on the terminal when `remaining_tasks` jobs are
    /// left after `new_jobs_added` were leased.
    pub open spec fn line(self, new_jobs_added: usize, remaining_tasks: usize, now: u128) -> Seq<
        char,
    > {
        if remaining_tasks == 0 {
            self.progress.waiting_line(now)
        } else {
            self.progress.running_line(new_jobs_added, remaining_tasks, now)
        }
    }
}

/// What a lease round asks its caller to do.
pub struct PoolUpdate {
    /// The text to put on the terminal, if any.
    pub line: Option<String>,
    /// The messages to send to the control loop, in this order.
    pub messages: Vec<WorkerMessage>,
}

/// The worker pool. The jobs in flight are kept as a list in the order of
/// their leases, so that the order in which their statuses are asked for, and
/// so every answer of the pool, follows from what the pool was told; the
/// handles of their executors stay with the caller that started them.
pub struct WorkerPool {
    proc_id: usize,
    last_check_time: u128,
    in_flight: Vec<usize>,
    poll_ms: u128,
    n_jobs_started: usize,
    max_workers: usize,
    max_jobs: Option<usize>,
    queue: Queue,
    progress: RsrqProgressBar,
    burst: bool,
    has_run_once: bool,
}

impl View for WorkerPool {
    type V = PoolView;

    closed spec fn view(&self) -> PoolView {
        PoolView {
            proc_id: self.proc_id,
            last_check_time: self.last_check_time,
            in_flight: self.in_flight@,
            poll_ms: self.poll_ms,
            n_jobs_started: self.n_jobs_started,
            max_workers: self.max_workers,
            max_jobs: self.max_jobs,
            queue: self.queue.name@,
            queue_type: self.queue.q_type,
            queue_key: self.queue.key@,
            progress: self.progress@,
            burst: self.burst,
            has_run_once: self.has_run_once,
        }
    }
}

/// Taking an identifier out of a list without repetitions leaves a list
/// without repetitions and without the identifier, no longer than before,
/// that holds every other member still.
pub proof fn lemma_without(s: Seq<usize>, id: usize)
    requires
        s.no_duplicates(),
    ensures
        without(s, id).no_duplicates(),
        !without(s, id).contains(id),
        forall|x: usize| x != id ==> (without(s, id).contains(x) <==> s.contains(x)),
        without(s, id).len() == (if s.contains(id) {
            s.len() - 1
        } else {
            s.len() as int
        }),
    decreases s.len(),
{
    if s.len() > 0 {
        let t = s.drop_first();
        assert forall|i: int, j: int| 0 <= i < t.len() && 0 <= j < t.len() && i != j implies t[i]
            != t[j] by {
            assert(t[i] == s[i + 1] && t[j] == s[j + 1]);
        }
        assert forall|x: usize| s.contains(x) <==> (x == s[0] || t.contains(x)) by {
            if s.contains(x) {
                let i = choose|i: int| 0 <= i < s.len() && s[i] == x;
                if i > 0 {
                    assert(t[i - 1] == x);
                }
            }
            if t.contains(x) {
                let i = choose|i: int| 0 <= i < t.len() && t[i] == x;
                assert(s[i + 1] == x);
            }
            if x == s[0] {
                assert(s[0] == x);
            }
        }
        if s[0] == id {
            if t.contains(id) {
                let i = choose|i: int| 0 <= i < t.len() && t[i] == id;
                assert(s[i + 1] == s[0]);
            }
        } else {
            lemma_without(t, id);
            let w = without(t, id);
            let r = seq![s[0]] + w;
            assert(r == without(s, id));
            assert forall|x: usize| r.contains(x) <==> (x == s[0] || w.contains(x)) by {
                if r.contains(x) {
                    let i = choose|i: int| 0 <= i < r.len() && r[i] == x;
                    if i > 0 {
                        assert(w[i - 1] == x);
                    }
                }
                if w.contains(x) {
                    let i = choose|i: int| 0 <= i < w.len() && w[i] == x;
                    assert(r[i + 1] == x);
                }
                if x == s[0] {
                    assert(r[0] == x);
                }
            }
            assert forall|i: int, j: int|
                0 <= i < r.len() && 0 <= j < r.len() && i != j implies r[i] != r[j] by {
                if i == 0 {
                    assert(w.contains(r[j])) by {
                        assert(w[j - 1] == r[j]);
                    }
                    assert(!t.contains(s[0])) by {
                        if t.contains(s[0]) {
                            let k = choose|k: int| 0 <= k < t.len() && t[k] == s[0];
                            assert(s[k + 1] == s[0]);
                        }
                    }
                } else if j == 0 {
                    assert(w.contains(r[i])) by {
                        assert(w[i - 1] == r[i]);
                    }
                    assert(!t.contains(s[0])) by {
                        if t.contains(s[0]) {
                            let k = choose|k: int| 0 <= k < t.len() && t[k] == s[0];
                            assert(s[k + 1] == s[0]);
                        }
                    }
                } else {
                    assert(w[i - 1] == r[i] && w[j - 1] == r[j]);
                }
            }
        }
    }
}

/// Adding identifiers to a list without repetitions leaves a list without
/// repetitions, longer by no more than the number of identifiers added.
pub proof fn lemma_with_all(s: Seq<usize>, ids: Seq<usize>)
    requires
        s.no_duplicates(),
    ensures
        with_all(s, ids).no_duplicates(),
        s.len() <= with_all(s, ids).len() <= s.len() + ids.len(),
    decreases ids.len(),
{
    if ids.len() > 0 {
        lemma_with_all(s, ids.drop_last());
        let before = with_all(s, ids.drop_last());
        let id = ids.last();
        if !before.contains(id) {
            let r = before.push(id);
            assert forall|i: int, j: int|
                0 <= i < r.len() && 0 <= j < r.len() && i != j implies r[i] != r[j] by {
                if i == before.len() {
                    assert(before[j] == r[j]);
                } else if j == before.len() {
                    assert(before[i] == r[i]);
                } else {
                    assert(before[i] == r[i] && before[j] == r[j]);
                }
            }
        }
    }
}

/// Bounded parallelism, and the bound on the jobs started. A lease round
/// that leases no more jobs than the pool asks for leaves no more jobs in
/// flight than the pool has workers, and has started no more jobs than the
/// pool may start.
pub proof fn lemma_lease_round_keeps_bounds(pool: PoolView, n_queued: usize, ids: Seq<usize>)
    requires
        pool.wf(),
        ids.len() <= pool.to_take(n_queued),
    ensures
        with_all(pool.in_flight, ids).no_duplicates(),
        with_all(pool.in_flight, ids).len() <= pool.max_workers,
        pool.max_jobs matches Some(m) ==> pool.n_jobs_started + ids.len() <= m,
        (PoolView {
            in_flight: with_all(pool.in_flight, ids),
            n_jobs_started: saturated_usize((pool.n_jobs_started + ids.len()) as nat),
            ..pool
        }).wf(),
{
    lemma_with_all(pool.in_flight, ids);
}

/// Reaping cancelled jobs leaves no more jobs in flight than before, and
/// none twice.
pub proof fn lemma_reap(in_flight: Seq<usize>, keys: Seq<usize>, statuses: Seq<JobStatus>, n: nat)
    requires
        in_flight.no_duplicates(),
    ensures
        reap(in_flight, keys, statuses, n).0.no_duplicates(),
        reap(in_flight, keys, statuses, n).0.len() <= in_flight.len(),
    decreases n,
{
    if n > 0 {
        lemma_reap(in_flight, keys, statuses, (n - 1) as nat);
        let before = reap(in_flight, keys, statuses, (n - 1) as nat);
        lemma_without(before.0, keys[n - 1]);
    }
}

/// Whether the list holds the identifier.
fn holds(v: &Vec<usize>, id: usize) -> (r: bool)
    ensures
        r == v@.contains(id),
{
    let mut i: usize = 0;
    while i < v.len()
        invariant
            i <= v.len(),
            forall|k: int| 0 <= k < i ==> v@[k] != id,
        decreases v.len() - i,
    {
        if v[i] == id {
            return true;
        }
        i = i + 1;
    }
    false
}

/// Takes the first `id` out of the list.
fn take_out(v: &mut Vec<usize>, id: usize)
    ensures
        final(v)@ == without(old(v)@, id),
{
    let mut i: usize = 0;
    assert(v@.skip(0) =~= v@);
    assert(v@.take(0) + without(v@.skip(0), id) =~= without(v@, id));
    while i < v.len()
        invariant
            i <= v.len(),
            v@ == old(v)@,
            without(old(v)@, id) == v@.take(i as int) + without(v@.skip(i as int), id),
        decreases v.len() - i,
    {
        if v[i] == id {
            proof {
                assert(v@.skip(i as int).drop_first() =~= v@.skip(i + 1));
                assert(v@.remove(i as int) =~= v@.take(i as int) + v@.skip(i + 1));
            }
            v.remove(i);
            return ;
        }
        proof {
            assert(v@.skip(i as int).drop_first() =~= v@.skip(i + 1));
            assert(v@.take(i as int) + (seq![v@[i as int]] + without(v@.skip(i + 1), id)) =~= v@.take(
                i + 1,
            ) + without(v@.skip(i + 1), id));
        }
        i = i + 1;
    }
    proof {
        assert(v@.skip(i as int) =~= Seq::<usize>::empty());
        assert(v@.take(i as int) + Seq::<usize>::empty() =~= v@);
    }
}

impl WorkerPool {
    /// The pool of the process `proc_id` on the queue `queue`, made at the
    /// reading `now` when `n_queued` jobs were queued, and the first status
    /// line to put on a terminal of the width `width`. Nothing is in flight
    /// and nothing was started.
    pub fn new(
        proc_id: usize,
        queue: &str,
        max_jobs: Option<u32>,
        max_runtime_secs: Option<u64>,
        max_workers: u32,
        poll_ms: u64,
        burst: bool,
        n_queued: usize,
        now: u128,
        width: Option<u16>,
    ) -> (r: (WorkerPool, Option<String>))
        ensures
            r.0@.wf(),
            r.0@ == (PoolView {
                proc_id,
                last_check_time: now,
                in_flight: Seq::empty(),
                poll_ms: poll_ms as u128,
                n_jobs_started: 0,
                max_workers: max_workers as usize,
                max_jobs: match max_jobs {
                    Some(m) => Some(m as usize),
                    None => None,
                },
                queue: queue@,
                queue_type: QueueType::Queued,
                queue_key: queue_key(QueueType::Queued, queue@),
                progress: ProgressView {
                    max_jobs,
                    max_runtime_secs,
                    start_time: now,
                    workers: max_workers,
                    job_start: Seq::empty(),
                    job_duration: Seq::empty(),
                    last_stdout: Some(now),
                },
                burst,
                has_run_once: false,
            }),
            r.1 matches Some(text) && text@ == padded(
                (ProgressView {
                    max_jobs,
                    max_runtime_secs,
                    start_time: now,
                    workers: max_workers,
                    job_start: Seq::empty(),
                    job_duration: Seq::empty(),
                    last_stdout: None,
                }).running_line(
                    match max_jobs {
                        Some(m) if (m as usize) < n_queued => m as usize,
                        _ => n_queued,
                    },
                    0,
                    now,
                ),
                width,
            ),
    {
        let q = Queue::new(QueueType::Queued, queue);
        let init_qty: usize = match max_jobs {
            None => n_queued,
            Some(max_jobs) => if (max_jobs as usize) < n_queued {
                max_jobs as usize
            } else {
                n_queued
            },
        };
        let mut progress = RsrqProgressBar::new(max_workers, max_jobs, max_runtime_secs, now);
        let line = progress.tick_running(init_qty, 0, now, width);
        if n_queued == 0 {
            let _ = progress.tick_waiting(now, width);
        }
        let pool = WorkerPool {
            proc_id,
            last_check_time: now,
            in_flight: Vec::new(),
            poll_ms: poll_ms as u128,
            n_jobs_started: 0,
            max_workers: max_workers as usize,
            max_jobs: match max_jobs {
                Some(m) => Some(m as usize),
                None => None,
            },
            queue: q,
            progress,
            burst,
            has_run_once: false,
        };
        (pool, line)
    }

    /// The jobs in flight, in the order in which they were leased.
    pub fn job_keys(&self) -> (r: Vec<usize>)
        ensures
            r@ == self@.in_flight,
    {
        self.in_flight.clone()
    }

    /// How many jobs are in flight.
    pub fn n_running(&self) -> (r: usize)
        ensures
            r == self@.in_flight.len(),
    {
        self.in_flight.len()
    }

    /// The container that the pool leases from: the queued list of its queue.
    pub fn queue(&self) -> (r: &Queue)
        ensures
            r.name@ == self@.queue,
            r.q_type == self@.queue_type,
            r.key@ == self@.queue_key,
            self@.wf() ==> r.q_type == QueueType::Queued && r.wf(),
    {
        &self.queue
    }

    /// The status line of the pool.
    pub fn progress(&self) -> (r: &RsrqProgressBar)
        ensures
            r@ == self@.progress,
    {
        &self.progress
    }

    /// Whether a lease round is due at the reading `now`: the first round
    /// always is, a later one when the poll interval has passed since the
    /// round before. Where none is due the caller asks Redis for nothing.
    pub fn check_due(&self, now: u128) -> (r: bool)
        ensures
            r == self@.due(now),
    {
        if self.has_run_once {
            get_ms_since(self.last_check_time, now) >= self.poll_ms
        } else {
            true
        }
    }

    /// How many jobs to lease when `n_queued` jobs are queued.
    pub fn n_jobs_to_add(&self, n_queued: usize) -> (r: usize)
        requires
            self@.wf(),
        ensures
            r == self@.to_take(n_queued),
            self@.in_flight.len() + r <= self@.max_workers,
            r <= n_queued,
            self@.max_jobs matches Some(m) ==> self@.n_jobs_started + r <= m,
    {
        let free = self.max_workers - self.in_flight.len();
        let max_workers_to_add = if free < n_queued {
            free
        } else {
            n_queued
        };
        match self.max_jobs {
            Some(max_jobs) => {
                let left = max_jobs - self.n_jobs_started;
                if max_workers_to_add < left {
                    max_workers_to_add
                } else {
                    left
                }
            },
            None => max_workers_to_add,
        }
    }

    /// Notes that an executor was started for the job `job_id`: the job is
    /// in flight.
    pub fn run(&mut self, job_id: usize)
        requires
            old(self)@.wf(),
            old(self)@.in_flight.contains(job_id) || old(self)@.in_flight.len() < old(
                self,
            )@.max_workers,
        ensures
            final(self)@ == (PoolView {
                in_flight: with(old(self)@.in_flight, job_id),
                ..old(self)@
            }),
            final(self)@.wf(),
    {
        if !holds(&self.in_flight, job_id) {
            self.in_flight.push(job_id);
            proof {
                lemma_with_all(old(self)@.in_flight, seq![job_id]);
                assert(seq![job_id].drop_last() =~= Seq::<usize>::empty());
                assert(with_all(old(self)@.in_flight, Seq::<usize>::empty()) == old(
                    self,
                )@.in_flight);
                assert(with_all(old(self)@.in_flight, seq![job_id]) == with(
                    old(self)@.in_flight,
                    job_id,
                ));
            }
        }
    }

    /// Notes that the executor of the job `job_id` has ended: the job is in
    /// flight no more.
    pub fn remove_job(&mut self, job_id: usize)
        requires
            old(self)@.wf(),
        ensures
            final(self)@ == (PoolView {
                in_flight: without(old(self)@.in_flight, job_id),
                ..old(self)@
            }),
            final(self)@.wf(),
    {
        proof {
            lemma_without(self.in_flight@, job_id);
        }
        take_out(&mut self.in_flight, job_id);
    }

    /// Reaps the jobs that were cancelled from outside. `job_keys` are the
    /// jobs whose statuses were read and `statuses` what was read, one for
    /// one and in the same order. Every job that is cancelled and in flight
    /// is in flight no more; the result names these jobs, whose executors
    /// the caller aborts.
    pub fn abort_cancelled(&mut self, job_keys: &Vec<usize>, statuses: &Vec<JobStatus>) -> (r: Vec<
        usize,
    >)
        requires
            old(self)@.wf(),
        ensures
            final(self)@ == (PoolView {
                in_flight: reap(
                    old(self)@.in_flight,
                    job_keys@,
                    statuses@,
                    least(job_keys@.len(), statuses@.len()),
                ).0,
                ..old(self)@
            }),
            r@ == reap(
                old(self)@.in_flight,
                job_keys@,
                statuses@,
                least(job_keys@.len(), statuses@.len()),
            ).1,
            final(self)@.wf(),
    {
        let n = if job_keys.len() <= statuses.len() {
            job_keys.len()
        } else {
            statuses.len()
        };
        let mut cancelled_ids: Vec<usize> = Vec::new();
        let mut i: usize = 0;
        while i < n
            invariant
                i <= n,
                n <= job_keys.len(),
                n <= statuses.len(),
                old(self)@.wf(),
                self@ == (PoolView {
                    in_flight: reap(old(self)@.in_flight, job_keys@, statuses@, i as nat).0,
                    ..old(self)@
                }),
                cancelled_ids@ == reap(old(self)@.in_flight, job_keys@, statuses@, i as nat).1,
            decreases n - i,
        {
            let to_cancel = match statuses[i] {
                JobStatus::Queued => false,
                JobStatus::Running => false,
                JobStatus::Finished => false,
                JobStatus::Failed => false,
                JobStatus::Cancelled => true,
            };
            if to_cancel {
                if holds(&self.in_flight, job_keys[i]) {
                    cancelled_ids.push(job_keys[i]);
                    take_out(&mut self.in_flight, job_keys[i]);
                }
            }
            i = i + 1;
        }
        proof {
            lemma_reap(old(self)@.in_flight, job_keys@, statuses@, n as nat);
        }
        cancelled_ids
    }

    /// Tells the progress of a lease round that leased `new_jobs_added` jobs
    /// and left `remaining_tasks` queued or in flight, at the reading `now`.
    /// With nothing left, a burst worker asks to stop and any other shows
    /// that it waits; with something left the running line is shown.
    pub fn update_remaining_tasks(
        &mut self,
        new_jobs_added: usize,
        remaining_tasks: usize,
        now: u128,
        width: Option<u16>,
    ) -> (r: (Option<WorkerMessage>, Option<String>))
        ensures
            final(self)@ == (PoolView {
                progress: if old(self)@.quiet(remaining_tasks, now) {
                    old(self)@.progress
                } else {
                    ProgressView { last_stdout: Some(now), ..old(self)@.progress }
                },
                ..old(self)@
            }),
            r.0 == (if remaining_tasks == 0 && old(self)@.burst {
                Some(WorkerMessage::burst_no_jobs_spec())
            } else {
                None
            }),
            old(self)@.wf() ==> final(self)@.wf(),
            old(self)@.quiet(remaining_tasks, now) ==> r.1 is None,
            !old(self)@.quiet(remaining_tasks, now) ==> (r.1 matches Some(text) && text@ == padded(
                old(self)@.line(new_jobs_added, remaining_tasks, now),
                width,
            )),
    {
        if remaining_tasks == 0 {
            if self.burst {
                (Some(WorkerMessage::burst_no_jobs()), None)
            } else {
                let line = self.progress.tick_waiting(now, width);
                (None, line)
            }
        } else {
            let line = self.progress.tick_running(new_jobs_added, remaining_tasks, now, width);
            (None, line)
        }
    }

    /// A lease round at the reading `now` that found `n_queued` jobs queued
    /// and leased `new_job_ids`. Where no round is due the pool stays as it
    /// is and asks for nothing: there is nothing to write and no message to
    /// send. Where one is due the leased jobs are in flight and count as
    /// started; the progress is told; a pool that has started as many jobs
    /// as it may asks to stop; and the round is the last one from now on.
    pub fn maybe_start_new_jobs(
        &mut self,
        n_queued: usize,
        new_job_ids: &Vec<usize>,
        now: u128,
        width: Option<u16>,
    ) -> (r: PoolUpdate)
        requires
            old(self)@.wf(),
            new_job_ids@.len() <= old(self)@.asked(n_queued, now),
        ensures
            final(self)@.wf(),
            !old(self)@.due(now) ==> final(self)@ == old(self)@ && r.line is None
                && r.messages@.len() == 0,
            old(self)@.due(now) ==> final(self)@.in_flight == with_all(
                old(self)@.in_flight,
                new_job_ids@,
            ),
            old(self)@.due(now) ==> final(self)@.n_jobs_started == saturated_usize(
                (old(self)@.n_jobs_started + new_job_ids@.len()) as nat,
            ),
            old(self)@.due(now) ==> final(self)@ == (PoolView {
                in_flight: final(self)@.in_flight,
                n_jobs_started: final(self)@.n_jobs_started,
                last_check_time: now,
                has_run_once: true,
                progress: if old(self)@.quiet(
                    final(self)@.remaining(n_queued, new_job_ids.len()),
                    now,
                ) {
                    old(self)@.progress
                } else {
                    ProgressView { last_stdout: Some(now), ..old(self)@.progress }
                },
                ..old(self)@
            }),
            old(self)@.due(now) && old(self)@.quiet(
                final(self)@.remaining(n_queued, new_job_ids.len()),
                now,
            ) ==> r.line is None,
            old(self)@.due(now) && !old(self)@.quiet(
                final(self)@.remaining(n_queued, new_job_ids.len()),
                now,
            ) ==> (r.line matches Some(text) && text@ == padded(
                old(self)@.line(
                    new_job_ids.len(),
                    final(self)@.remaining(n_queued, new_job_ids.len()),
                    now,
                ),
                width,
            )),
            old(self)@.due(now) ==> r.messages@ == (if final(self)@.remaining(
                n_queued,
                new_job_ids.len(),
            ) == 0 && old(self)@.burst {
                seq![WorkerMessage::burst_no_jobs_spec()]
            } else {
                Seq::empty()
            }) + (if final(self)@.exhausted() {
                seq![WorkerMessage::exit_max_jobs_spec()]
            } else {
                Seq::empty()
            }),
    {
        if !self.check_due(now) {
            return PoolUpdate { line: None, messages: Vec::new() };
        }
        self.has_run_once = true;
        let n_new_jobs_added = new_job_ids.len();
        let mut i: usize = 0;
        proof {
            assert(new_job_ids@.take(0) =~= Seq::<usize>::empty());
        }
        while i < new_job_ids.len()
            invariant
                i <= new_job_ids.len(),
                old(self)@.wf(),
                new_job_ids@.len() <= old(self)@.to_take(n_queued),
                self@ == (PoolView {
                    in_flight: with_all(old(self)@.in_flight, new_job_ids@.take(i as int)),
                    has_run_once: true,
                    ..old(self)@
                }),
            decreases new_job_ids.len() - i,
        {
            proof {
                lemma_with_all(old(self)@.in_flight, new_job_ids@.take(i as int));
                assert(new_job_ids@.take(i + 1).drop_last() =~= new_job_ids@.take(i as int));
            }
            self.run(new_job_ids[i]);
            i = i + 1;
        }
        proof {
            assert(new_job_ids@.take(i as int) =~= new_job_ids@);
            lemma_with_all(old(self)@.in_flight, new_job_ids@);
        }
        self.n_jobs_started = if n_new_jobs_added > usize::MAX - self.n_jobs_started {
            usize::MAX
        } else {
            self.n_jobs_started + n_new_jobs_added
        };
        let left = n_queued - n_new_jobs_added;
        let remaining_tasks = if self.in_flight.len() > usize::MAX - left {
            usize::MAX
        } else {
            left + self.in_flight.len()
        };
        let ghost before_progress = self@;
        let (burst_message, line) = self.update_remaining_tasks(
            n_new_jobs_added,
            remaining_tasks,
            now,
            width,
        );
        let mut messages: Vec<WorkerMessage> = Vec::new();
        match burst_message {
            Some(m) => {
                messages.push(m);
            },
            None => {},
        }
        let ghost first = messages@;
        match self.max_jobs {
            Some(max_jobs) => {
                if self.n_jobs_started >= max_jobs {
                    messages.push(WorkerMessage::exit_max_jobs());
                }
            },
            None => {},
        }
        self.last_check_time = now;
        proof {
            assert(messages@ =~= first + (if self@.exhausted() {
                seq![WorkerMessage::exit_max_jobs_spec()]
            } else {
                Seq::empty()
            }));
        }
        PoolUpdate { line, messages }
    }
}

} // verus!
