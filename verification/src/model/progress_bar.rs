//! The status line of a worker: what it shows, how often it may be
//! rewritten, and the estimate of the time that is left.
//!
//! Time comes in as readings of a clock that never runs backwards, in
//! milliseconds; the width of the terminal comes in as the caller found it.

use crate::util::text::{concat, dec, pad2, pad2_string, u32_to_string, usize_to_string};
use crate::util::time::get_ms_since;
use vstd::prelude::*;
use vstd::string::*;

verus! {

/// `n` where a `u128` holds it, and the largest `u128` where none does.
pub open spec fn saturated(n: nat) -> nat {
    if n <= u128::MAX {
        n
    } else {
        u128::MAX as nat
    }
}

/// The milliseconds from the reading `start` to the reading `now`.
pub open spec fn elapsed(start: nat, now: nat) -> nat {
    if now >= start {
        (now - start) as nat
    } else {
        0
    }
}

/// Hours, minutes and seconds as `hh:mm:ss`.
pub open spec fn clock_text(hours: nat, minutes: nat, seconds: nat) -> Seq<char> {
    pad2(hours) + ":"@ + pad2(minutes) + ":"@ + pad2(seconds)
}

/// A number of seconds as `hh:mm:ss`.
pub open spec fn secs_text(secs: nat) -> Seq<char> {
    clock_text(secs / 3600, (secs % 3600) / 60, secs % 60)
}

/// What is left of `max_runtime_secs` after `elapsed_secs`, as `hh:mm:ss`.
pub open spec fn remaining_secs_text(max_runtime_secs: nat, elapsed_secs: nat) -> Seq<char> {
    secs_text(
        if elapsed_secs < max_runtime_secs {
            (max_runtime_secs - elapsed_secs) as nat
        } else {
            0
        },
    )
}

/// A number of milliseconds as `hh:mm:ss`.
pub open spec fn ms_text(ms: nat) -> Seq<char> {
    clock_text(ms / 3600000, (ms % 3600000) / 60000, (ms % 60000) / 1000)
}

/// The average duration as the status line shows it.
pub open spec fn avg_text(avg_ms: Option<u128>) -> Seq<char> {
    match avg_ms {
        Some(a) => "[avg. "@ + ms_text(a as nat) + "]"@,
        None => Seq::empty(),
    }
}

/// `n` spaces.
pub open spec fn spaces(n: nat) -> Seq<char> {
    Seq::new(n, |i: int| ' ')
}

/// A line filled up with spaces to the width of the terminal, the line
/// measured in bytes; as it is where it is wider, or no width is known.
pub open spec fn padded(msg: Seq<char>, width: Option<u16>) -> Seq<char> {
    let byte_len = vstd::utf8::encode_utf8(msg).len();
    match width {
        Some(w) => if byte_len < w {
            msg + spaces((w - byte_len) as nat)
        } else {
            msg
        },
        None => msg,
    }
}

/// The sum of a list of durations.
pub open spec fn total(durations: Seq<u128>) -> nat
    decreases durations.len(),
{
    if durations.len() == 0 {
        0
    } else {
        total(durations.drop_last()) + durations.last() as nat
    }
}

/// The average of the durations of the jobs that have ended, rounded down;
/// the sum of the durations counts for no more than the largest `u128`.
pub open spec fn average(durations: Seq<u128>) -> Option<u128> {
    if durations.len() == 0 {
        None
    } else {
        Some((saturated(total(durations)) / durations.len()) as u128)
    }
}

/// What the jobs in flight still need, if each takes the average: for each
/// job the average less the time it has run, and nothing for a job that has
/// run longer than that.
pub open spec fn in_flight_need(starts: Seq<(usize, u128)>, avg: nat, now: nat) -> nat
    decreases starts.len(),
{
    if starts.len() == 0 {
        0
    } else {
        let ran = elapsed(starts.last().1 as nat, now);
        in_flight_need(starts.drop_last(), avg, now) + (if avg > ran {
            (avg - ran) as nat
        } else {
            0
        })
    }
}

/// The state of a status line.
pub struct ProgressView {
    pub max_jobs: Option<u32>,
    pub max_runtime_secs: Option<u64>,
    pub start_time: u128,
    pub workers: u32,
    /// The jobs in flight and the reading at which each began.
    pub job_start: Seq<(usize, u128)>,
    /// The durations of the jobs that have ended.
    pub job_duration: Seq<u128>,
    /// The reading at which the line was last written.
    pub last_stdout: Option<u128>,
}

impl ProgressView {
    /// Whether the line may be written at the reading `now`: it was never
    /// written, or more than a second ago.
    pub open spec fn allowed(self, now: u128) -> bool {
        match self.last_stdout {
            Some(last) => elapsed(last as nat, now as nat) > 1000,
            None => true,
        }
    }

    /// Whether `i` is the first place among the jobs in flight that holds
    /// the job `job_id`.
    pub open spec fn first_place(self, job_id: usize, i: int) -> bool {
        &&& 0 <= i < self.job_start.len()
        &&& self.job_start[i].0 == job_id
        &&& forall|k: int| 0 <= k < i ==> (#[trigger] self.job_start[k]).0 != job_id
    }

    /// The first place of the job `job_id` among the jobs in flight, if it
    /// is there.
    pub open spec fn in_flight_at(self, job_id: usize) -> Option<int> {
        if exists|i: int| self.first_place(job_id, i) {
            Some(choose|i: int| self.first_place(job_id, i))
        } else {
            None
        }
    }

    /// Whether no job is in flight twice.
    pub open spec fn in_flight_once(self) -> bool {
        forall|i: int, j: int|
            0 <= i < self.job_start.len() && 0 <= j < self.job_start.len() && i != j ==> (
            #[trigger] self.job_start[i]).0 != (#[trigger] self.job_start[j]).0
    }

    /// How many more jobs the worker may start: all that are queued where it
    /// has no limit, else its limit less the jobs it has started, those that
    /// have ended and those in flight.
    pub open spec fn may_start(self, queue_len: usize) -> nat {
        match self.max_jobs {
            Some(m) => {
                let started = self.job_duration.len() + self.job_start.len();
                let left: nat = if m > started {
                    (m - started) as nat
                } else {
                    0
                };
                if left < queue_len {
                    left
                } else {
                    queue_len as nat
                }
            },
            None => queue_len as nat,
        }
    }

    /// The estimate of the milliseconds that are left, at the reading `now`,
    /// for a queue of `queue_len` jobs and the average duration `avg`: what
    /// the jobs in flight still need and what the jobs to come will take,
    /// shared among the workers, and no more than what is left until the
    /// deadline where there is one. Without an average, or without a worker,
    /// there is no estimate.
    pub open spec fn estimate(self, avg: Option<u128>, queue_len: usize, now: u128) -> Option<
        u128,
    > {
        match avg {
            Some(a) => if self.workers == 0 {
                None
            } else {
                let work = saturated(
                    in_flight_need(self.job_start, a as nat, now as nat) + (a as nat)
                        * self.may_start(queue_len),
                );
                let shared = work / (self.workers as nat);
                match self.max_runtime_secs {
                    Some(max) => {
                        let ran = elapsed(self.start_time as nat, now as nat);
                        let until: nat = if max * 1000 > ran {
                            (max * 1000 - ran) as nat
                        } else {
                            0
                        };
                        Some(
                            (if shared > until {
                                until
                            } else {
                                shared
                            }) as u128,
                        )
                    },
                    None => Some(shared as u128),
                }
            },
            None => None,
        }
    }

    /// The seconds since the status line was made.
    pub open spec fn elapsed_secs(self, now: u128) -> nat {
        elapsed(self.start_time as nat, now as nat) / 1000
    }

    /// The head of every line: the time that has passed, and the time
    /// allowed where there is a deadline.
    pub open spec fn elapsed_text(self, now: u128) -> Seq<char> {
        "\r[Elapsed: "@ + remaining_secs_text(self.elapsed_secs(now), 0) + (match self.max_runtime_secs {
            Some(max) => "/"@ + secs_text(max as nat),
            None => Seq::empty(),
        })
    }

    /// The line that is shown while the worker waits for jobs.
    pub open spec fn waiting_line(self, now: u128) -> Seq<char> {
        self.elapsed_text(now) + "] - Waiting for new jobs..."@
    }

    /// The line that is shown while jobs run.
    pub open spec fn running_line(self, queue_len: usize, running_tasks: usize, now: u128) -> Seq<
        char,
    > {
        self.elapsed_text(now) + "] [Queued: "@ + dec(queue_len as nat) + "] [Running: "@ + dec(
            running_tasks as nat,
        ) + "] [Completed: "@ + dec(self.job_duration.len()) + (match self.max_jobs {
            Some(m) => "/"@ + dec(m as nat),
            None => Seq::empty(),
        }) + "] "@ + avg_text(average(self.job_duration)) + (match self.estimate(
            average(self.job_duration),
            queue_len,
            now,
        ) {
            Some(ms) => " [ETA: "@ + ms_text(ms as nat) + "] "@,
            None => Seq::empty(),
        })
    }
}

/// Hours, minutes and seconds as `hh:mm:ss`.
fn format_clock(hours: u128, minutes: u128, seconds: u128) -> (r: String)
    ensures
        r@ == clock_text(hours as nat, minutes as nat, seconds as nat),
{
    let mut s = pad2_string(hours);
    s.append(":");
    s.append(pad2_string(minutes).as_str());
    s.append(":");
    s.append(pad2_string(seconds).as_str());
    s
}

/// What is left of `max_runtime_secs` after `elapsed_secs`, as `hh:mm:ss`.
pub fn format_remaining_secs_as_str(max_runtime_secs: u64, elapsed_secs: u64) -> (r: String)
    ensures
        r@ == remaining_secs_text(max_runtime_secs as nat, elapsed_secs as nat),
{
    let remaining_secs: u64 = if elapsed_secs < max_runtime_secs {
        max_runtime_secs - elapsed_secs
    } else {
        0
    };
    let hours = remaining_secs / 3600;
    let minutes = (remaining_secs % 3600) / 60;
    let seconds = remaining_secs % 60;
    format_clock(hours as u128, minutes as u128, seconds as u128)
}

/// A number of milliseconds as `hh:mm:ss`.
pub fn format_ms_time_as_duration(ms: u128) -> (r: String)
    ensures
        r@ == ms_text(ms as nat),
{
    let hours = ms / 3600000;
    let minutes = (ms % 3600000) / 60000;
    let seconds = (ms % 60000) / 1000;
    format_clock(hours, minutes, seconds)
}

/// The average duration as the status line shows it.
pub fn format_avg_duration(avg_ms: Option<u128>) -> (r: String)
    ensures
        r@ == avg_text(avg_ms),
{
    match avg_ms {
        Some(a) => {
            let mut s = String::from_str("[avg. ");
            s.append(format_ms_time_as_duration(a).as_str());
            s.append("]");
            s
        },
        None => String::new(),
    }
}

/// The sum of two numbers, or the largest `u128` where none holds it.
fn saturating_sum(a: u128, b: u128) -> (r: u128)
    ensures
        r == saturated(a as nat + b as nat),
{
    if a > u128::MAX - b {
        u128::MAX
    } else {
        a + b
    }
}

/// The product of two numbers, or the largest `u128` where none holds it.
fn saturating_product(a: u128, b: u128) -> (r: u128)
    ensures
        r == saturated(a as nat * b as nat),
{
    if a == 0 || b == 0 {
        assert(a as nat * b as nat == 0) by (nonlinear_arith)
            requires
                a == 0 || b == 0,
        ;
        0
    } else if a > u128::MAX / b {
        assert(a as nat * b as nat > u128::MAX) by (nonlinear_arith)
            requires
                a > u128::MAX / b,
                b > 0,
        ;
        u128::MAX
    } else {
        assert(a as nat * b as nat <= u128::MAX) by (nonlinear_arith)
            requires
                a <= u128::MAX / b,
                b > 0,
        ;
        a * b
    }
}

/// The status line of a worker. The jobs in flight are kept as a list, each
/// with the reading at which it began: the estimate adds up over all of
/// them, and a list is added up in one order.
pub struct RsrqProgressBar {
    max_jobs: Option<u32>,
    max_runtime_secs: Option<u64>,
    start_time: u128,
    workers: u32,
    job_start: Vec<(usize, u128)>,
    job_duration: Vec<u128>,
    last_stdout: Option<u128>,
}

impl View for RsrqProgressBar {
    type V = ProgressView;

    closed spec fn view(&self) -> ProgressView {
        ProgressView {
            max_jobs: self.max_jobs,
            max_runtime_secs: self.max_runtime_secs,
            start_time: self.start_time,
            workers: self.workers,
            job_start: self.job_start@,
            job_duration: self.job_duration@,
            last_stdout: self.last_stdout,
        }
    }
}

impl RsrqProgressBar {
    /// The status line of a worker that starts at the reading `now` with
    /// `workers` workers: nothing is in flight, nothing has ended, and the
    /// line was not written yet.
    pub fn new(
        workers: u32,
        max_jobs: Option<u32>,
        max_runtime_secs: Option<u64>,
        now: u128,
    ) -> (bar: RsrqProgressBar)
        ensures
            bar@ == (ProgressView {
                max_jobs,
                max_runtime_secs,
                start_time: now,
                workers,
                job_start: Seq::empty(),
                job_duration: Seq::empty(),
                last_stdout: None,
            }),
    {
        RsrqProgressBar {
            max_jobs,
            max_runtime_secs,
            start_time: now,
            workers,
            job_start: Vec::new(),
            job_duration: Vec::new(),
            last_stdout: None,
        }
    }

    /// The first place of the job `job_id` among the jobs in flight.
    fn find(&self, job_id: usize) -> (r: Option<usize>)
        ensures
            r matches Some(i) ==> self@.in_flight_at(job_id) == Some(i as int) && i
                < self.job_start@.len() && self.job_start@[i as int].0 == job_id,
            r is None ==> self@.in_flight_at(job_id) is None && forall|k: int|
                0 <= k < self.job_start@.len() ==> (#[trigger] self.job_start@[k]).0 != job_id,
    {
        let mut i: usize = 0;
        while i < self.job_start.len()
            invariant
                i <= self.job_start.len(),
                forall|k: int| 0 <= k < i ==> self.job_start@[k].0 != job_id,
            decreases self.job_start.len() - i,
        {
            if self.job_start[i].0 == job_id {
                proof {
                    assert(self@.first_place(job_id, i as int));
                    let c = choose|c: int| self@.first_place(job_id, c);
                    assert(self@.first_place(job_id, c));
                    if c < i {
                        assert(self.job_start@[c].0 != job_id);
                    }
                    if i < c {
                        assert(self@.job_start[i as int].0 != job_id);
                    }
                }
                return Some(i);
            }
            i = i + 1;
        }
        None
    }

    /// Notes that the job `job_id` began at the reading `now`. A job that is
    /// already in flight begins anew.
    pub fn track_job_start(&mut self, job_id: usize, now: u128)
        ensures
            final(self)@ == (ProgressView {
                job_start: match old(self)@.in_flight_at(job_id) {
                    Some(i) => old(self)@.job_start.update(i, (job_id, now)),
                    None => old(self)@.job_start.push((job_id, now)),
                },
                ..old(self)@
            }),
            old(self)@.in_flight_once() ==> final(self)@.in_flight_once(),
    {
        match self.find(job_id) {
            Some(i) => {
                self.job_start.set(i, (job_id, now));
                proof {
                    if old(self)@.in_flight_once() {
                        assert forall|a: int, b: int|
                            0 <= a < self.job_start@.len() && 0 <= b < self.job_start@.len() && a
                                != b implies (#[trigger] self.job_start@[a]).0 != (
                        #[trigger] self.job_start@[b]).0 by {
                            assert(old(self)@.job_start[a].0 == self.job_start@[a].0);
                            assert(old(self)@.job_start[b].0 == self.job_start@[b].0);
                        }
                    }
                }
            },
            None => {
                self.job_start.push((job_id, now));
                proof {
                    if old(self)@.in_flight_once() {
                        assert forall|a: int, b: int|
                            0 <= a < self.job_start@.len() && 0 <= b < self.job_start@.len() && a
                                != b implies (#[trigger] self.job_start@[a]).0 != (
                        #[trigger] self.job_start@[b]).0 by {
                            if a < old(self)@.job_start.len() {
                                assert(old(self)@.job_start[a] == self.job_start@[a]);
                            }
                            if b < old(self)@.job_start.len() {
                                assert(old(self)@.job_start[b] == self.job_start@[b]);
                            }
                        }
                    }
                }
            },
        }
    }

    /// Notes that the job `job_id` ended at the reading `now`: the time since
    /// it began is its duration, and it is in flight no more. A job that is
    /// not in flight changes nothing.
    pub fn track_job_end(&mut self, job_id: usize, now: u128)
        ensures
            final(self)@ == (match old(self)@.in_flight_at(job_id) {
                Some(i) => ProgressView {
                    job_start: old(self)@.job_start.remove(i),
                    job_duration: old(self)@.job_duration.push(
                        elapsed(old(self)@.job_start[i].1 as nat, now as nat) as u128,
                    ),
                    ..old(self)@
                },
                None => old(self)@,
            }),
            old(self)@.in_flight_once() ==> final(self)@.in_flight_once(),
    {
        match self.find(job_id) {
            Some(i) => {
                let delta = get_ms_since(self.job_start[i].1, now);
                self.job_duration.push(delta);
                self.job_start.remove(i);
            },
            None => {},
        }
    }

    /// The text to put on the terminal for the line `msg`, written at the
    /// reading `now` on a terminal of the width `width`: the line filled up
    /// with spaces to that width.
    pub fn write(&mut self, msg: &str, now: u128, width: Option<u16>) -> (r: String)
        ensures
            r@ == padded(msg@, width),
            final(self)@ == (ProgressView { last_stdout: Some(now), ..old(self)@ }),
    {
        self.last_stdout = Some(now);
        let len = msg.as_bytes().len();
        let mut out = String::from_str(msg);
        match width {
            Some(w) => {
                if len < w as usize {
                    let n: usize = w as usize - len;
                    let mut i: usize = 0;
                    proof {
                        reveal_strlit(" ");
                        assert(msg@ + spaces(0) =~= msg@);
                    }
                    while i < n
                        invariant
                            i <= n,
                            out@ == msg@ + spaces(i as nat),
                        decreases n - i,
                    {
                        out.append(" ");
                        proof {
                            reveal_strlit(" ");
                            assert(msg@ + spaces(i as nat) + " "@ =~= msg@ + spaces((i + 1) as nat));
                        }
                        i = i + 1;
                    }
                }
            },
            None => {},
        }
        out
    }

    /// Whether the line may be written at the reading `now`: it was never
    /// written, or more than a second ago.
    pub fn allowed_to_check(&self, now: u128) -> (r: bool)
        ensures
            r == self@.allowed(now),
    {
        match self.last_stdout {
            Some(last_stdout) => get_ms_since(last_stdout, now) > 1000,
            None => true,
        }
    }

    /// The average duration of the jobs that have ended, and none before any
    /// has.
    pub fn get_average_duration(&self) -> (r: Option<u128>)
        ensures
            r == average(self@.job_duration),
    {
        if self.job_duration.len() == 0 {
            return None;
        }
        let mut sum: u128 = 0;
        let mut i: usize = 0;
        assert(self.job_duration@.take(0) =~= Seq::<u128>::empty());
        while i < self.job_duration.len()
            invariant
                i <= self.job_duration.len(),
                sum == saturated(total(self.job_duration@.take(i as int))),
            decreases self.job_duration.len() - i,
        {
            proof {
                assert(self.job_duration@.take(i + 1).drop_last() =~= self.job_duration@.take(
                    i as int,
                ));
            }
            sum = saturating_sum(sum, self.job_duration[i]);
            i = i + 1;
        }
        assert(self.job_duration@.take(i as int) =~= self.job_duration@);
        Some(sum / self.job_duration.len() as u128)
    }

    /// The estimate of the milliseconds that are left, at the reading `now`.
    pub fn estimate_remaining_time(
        &self,
        avg_duration: Option<u128>,
        queue_len: usize,
        now: u128,
    ) -> (r: Option<u128>)
        ensures
            r == self@.estimate(avg_duration, queue_len, now),
    {
        let avg = match avg_duration {
            Some(a) => a,
            None => {
                return None;
            },
        };
        if self.workers == 0 {
            return None;
        }
        let mut total_ms: u128 = 0;
        let mut i: usize = 0;
        assert(self.job_start@.take(0) =~= Seq::<(usize, u128)>::empty());
        while i < self.job_start.len()
            invariant
                i <= self.job_start.len(),
                total_ms == saturated(
                    in_flight_need(self.job_start@.take(i as int), avg as nat, now as nat),
                ),
            decreases self.job_start.len() - i,
        {
            proof {
                assert(self.job_start@.take(i + 1).drop_last() =~= self.job_start@.take(i as int));
            }
            let ran = get_ms_since(self.job_start[i].1, now);
            let remaining: u128 = if avg > ran {
                avg - ran
            } else {
                0
            };
            total_ms = saturating_sum(total_ms, remaining);
            i = i + 1;
        }
        assert(self.job_start@.take(i as int) =~= self.job_start@);
        let n_jobs: usize = match self.max_jobs {
            Some(max_jobs) => {
                let done = self.job_duration.len() as u128 + self.job_start.len() as u128;
                let left: u128 = if max_jobs as u128 > done {
                    max_jobs as u128 - done
                } else {
                    0
                };
                if left < queue_len as u128 {
                    left as usize
                } else {
                    queue_len
                }
            },
            None => queue_len,
        };
        assert(n_jobs == self@.may_start(queue_len));
        total_ms = saturating_sum(total_ms, saturating_product(avg, n_jobs as u128));
        let remaining_ms = total_ms / self.workers as u128;
        match self.max_runtime_secs {
            Some(max_duration) => {
                let elapsed_ms = get_ms_since(self.start_time, now);
                let max_duration_ms = max_duration as u128 * 1000;
                if max_duration_ms < elapsed_ms {
                    Some(0)
                } else {
                    let elapsed_remain = max_duration_ms - elapsed_ms;
                    if remaining_ms > elapsed_remain {
                        Some(elapsed_remain)
                    } else {
                        Some(remaining_ms)
                    }
                }
            },
            None => Some(remaining_ms),
        }
    }

    /// The head of every line.
    fn elapsed_head(&self, now: u128) -> (r: String)
        ensures
            r@ == self@.elapsed_text(now),
    {
        let secs = get_ms_since(self.start_time, now) / 1000;
        let mut msg = String::from_str("\r[Elapsed: ");
        msg.append(format_clock(secs / 3600, (secs % 3600) / 60, secs % 60).as_str());
        match self.max_runtime_secs {
            Some(max) => {
                let end = format_clock(
                    (max / 3600) as u128,
                    ((max % 3600) / 60) as u128,
                    (max % 60) as u128,
                );
                msg.append("/");
                msg.append(end.as_str());
                assert(msg@ =~= self@.elapsed_text(now));
            },
            None => {
                assert(msg@ =~= self@.elapsed_text(now));
            },
        }
        msg
    }

    /// The line to put on the terminal while the worker waits for jobs, at
    /// the reading `now` on a terminal of the width `width`; nothing where
    /// the line was written a second ago or less.
    pub fn tick_waiting(&mut self, now: u128, width: Option<u16>) -> (r: Option<String>)
        ensures
            old(self)@.allowed(now) ==> (r matches Some(text) && text@ == padded(
                old(self)@.waiting_line(now),
                width,
            )) && final(self)@ == (ProgressView { last_stdout: Some(now), ..old(self)@ }),
            !old(self)@.allowed(now) ==> r is None && final(self)@ == old(self)@,
    {
        if !self.allowed_to_check(now) {
            return None;
        }
        let mut msg = self.elapsed_head(now);
        msg.append("] - Waiting for new jobs...");
        let text = self.write(msg.as_str(), now, width);
        Some(text)
    }

    /// The line to put on the terminal while jobs run, at the reading `now`
    /// on a terminal of the width `width`; nothing where the line was written
    /// a second ago or less.
    pub fn tick_running(
        &mut self,
        queue_len: usize,
        running_tasks: usize,
        now: u128,
        width: Option<u16>,
    ) -> (r: Option<String>)
        ensures
            old(self)@.allowed(now) ==> (r matches Some(text) && text@ == padded(
                old(self)@.running_line(queue_len, running_tasks, now),
                width,
            )) && final(self)@ == (ProgressView { last_stdout: Some(now), ..old(self)@ }),
            !old(self)@.allowed(now) ==> r is None && final(self)@ == old(self)@,
    {
        if !self.allowed_to_check(now) {
            return None;
        }
        let avg_duration = self.get_average_duration();
        let avg_duration_str = format_avg_duration(avg_duration);
        let runtime_est_ms = self.estimate_remaining_time(avg_duration, queue_len, now);
        let mut msg = self.elapsed_head(now);
        msg.append("] [Queued: ");
        msg.append(usize_to_string(queue_len).as_str());
        msg.append("] [Running: ");
        msg.append(usize_to_string(running_tasks).as_str());
        msg.append("] [Completed: ");
        msg.append(usize_to_string(self.job_duration.len()).as_str());
        match self.max_jobs {
            Some(max_jobs) => {
                msg.append(concat("/", u32_to_string(max_jobs).as_str()).as_str());
            },
            None => {
                assert(msg@ + Seq::<char>::empty() =~= msg@);
            },
        }
        msg.append("] ");
        msg.append(avg_duration_str.as_str());
        match runtime_est_ms {
            Some(ms) => {
                let mut eta = String::from_str(" [ETA: ");
                eta.append(format_ms_time_as_duration(ms).as_str());
                eta.append("] ");
                msg.append(eta.as_str());
            },
            None => {
                assert(msg@ + Seq::<char>::empty() =~= msg@);
            },
        }
        assert(msg@ == old(self)@.running_line(queue_len, running_tasks, now));
        let text = self.write(msg.as_str(), now, width);
        Some(text)
    }

    /// The text that clears the line: a carriage return.
    pub fn finish_and_clear(&self) -> (r: &'static str)
        ensures
            r@ == "\r"@,
    {
        "\r"
    }
}

} // verus!
