//! Counting the jobs of each queue by status.

use crate::model::error::RsrqErrorView;
use crate::model::job::status::JobStatus;
use crate::model::queue::queue_type::QueueType;
use crate::model::queue::rsrq_queue::{parse_key, Queue};
use crate::model::types::RsrqResult;
use crate::util::pipeline::{
    encode_all, extends, lemma_extends_chain, lemma_extends_nothing, pipe_lrange, pipe_new, pipe_smembers,
    pipeline_commands, pipeline_is_atomic, Command,
};
use crate::util::text::{chars_of, dec, str_eq, usize_to_string};
use vstd::prelude::*;
use vstd::string::*;

verus! {

/// Whether the text `a` comes before the text `b` in the order of a
/// dictionary, the characters taken by their code points.
pub open spec fn text_lt(a: Seq<char>, b: Seq<char>) -> bool
    decreases a.len(),
{
    if b.len() == 0 {
        false
    } else if a.len() == 0 {
        true
    } else if a[0] != b[0] {
        a[0] < b[0]
    } else {
        text_lt(a.drop_first(), b.drop_first())
    }
}

/// No text comes before itself.
pub proof fn lemma_text_lt_irreflexive(a: Seq<char>)
    ensures
        !text_lt(a, a),
    decreases a.len(),
{
    if a.len() > 0 {
        lemma_text_lt_irreflexive(a.drop_first());
    }
}

/// Of two different texts one comes before the other, and never both.
pub proof fn lemma_text_lt_total(a: Seq<char>, b: Seq<char>)
    ensures
        a == b || text_lt(a, b) || text_lt(b, a),
        !(text_lt(a, b) && text_lt(b, a)),
        !text_lt(a, a),
    decreases a.len(),
{
    lemma_text_lt_irreflexive(a);
    if a.len() > 0 && b.len() > 0 {
        if a[0] == b[0] {
            lemma_text_lt_total(a.drop_first(), b.drop_first());
            if a.drop_first() == b.drop_first() {
                assert(a =~= seq![a[0]] + a.drop_first());
                assert(b =~= seq![b[0]] + b.drop_first());
            }
        }
    } else if a.len() == 0 && b.len() == 0 {
        assert(a =~= b);
    }
}

/// What comes before a text comes before everything after that text.
pub proof fn lemma_text_lt_transitive(a: Seq<char>, b: Seq<char>, c: Seq<char>)
    requires
        text_lt(a, b),
        text_lt(b, c),
    ensures
        text_lt(a, c),
    decreases a.len(),
{
    if a.len() > 0 && b.len() > 0 && c.len() > 0 {
        if a[0] == b[0] && b[0] == c[0] {
            lemma_text_lt_transitive(a.drop_first(), b.drop_first(), c.drop_first());
        }
    }
}

/// Whether the text `a` comes before the text `b` in the order of a
/// dictionary.
pub fn str_lt(a: &str, b: &str) -> (r: bool)
    ensures
        r == text_lt(a@, b@),
{
    let x = chars_of(a);
    let y = chars_of(b);
    let mut i: usize = 0;
    assert(a@.skip(0) =~= a@);
    assert(b@.skip(0) =~= b@);
    while i < x.len() && i < y.len()
        invariant
            i <= x.len(),
            i <= y.len(),
            x@ == a@,
            y@ == b@,
            text_lt(a@, b@) == text_lt(a@.skip(i as int), b@.skip(i as int)),
        decreases x.len() - i,
    {
        proof {
            assert(a@.skip(i as int).drop_first() =~= a@.skip(i + 1));
            assert(b@.skip(i as int).drop_first() =~= b@.skip(i + 1));
            assert(a@.skip(i as int)[0] == x@[i as int]);
            assert(b@.skip(i as int)[0] == y@[i as int]);
        }
        if x[i] != y[i] {
            return x[i] < y[i];
        }
        i = i + 1;
    }
    i < y.len()
}

/// The numbers of jobs of one queue, by status.
pub struct QueueInfo {
    pub name: String,
    pub n_finished: usize,
    pub n_failed: usize,
    pub n_queued: usize,
    pub n_running: usize,
    pub n_cancelled: usize,
}

/// The numbers of jobs of one queue, by status.
pub struct QueueInfoView {
    pub name: Seq<char>,
    pub n_finished: nat,
    pub n_failed: nat,
    pub n_queued: nat,
    pub n_running: nat,
    pub n_cancelled: nat,
}

impl View for QueueInfo {
    type V = QueueInfoView;

    open spec fn view(&self) -> QueueInfoView {
        QueueInfoView {
            name: self.name@,
            n_finished: self.n_finished as nat,
            n_failed: self.n_failed as nat,
            n_queued: self.n_queued as nat,
            n_running: self.n_running as nat,
            n_cancelled: self.n_cancelled as nat,
        }
    }
}

impl QueueInfoView {
    /// The numbers with one more job of the status `status`.
    pub open spec fn bump(self, status: JobStatus) -> QueueInfoView {
        match status {
            JobStatus::Queued => QueueInfoView { n_queued: self.n_queued + 1, ..self },
            JobStatus::Running => QueueInfoView { n_running: self.n_running + 1, ..self },
            JobStatus::Finished => QueueInfoView { n_finished: self.n_finished + 1, ..self },
            JobStatus::Failed => QueueInfoView { n_failed: self.n_failed + 1, ..self },
            JobStatus::Cancelled => QueueInfoView { n_cancelled: self.n_cancelled + 1, ..self },
        }
    }

    /// How many jobs are counted.
    pub open spec fn sum(self) -> nat {
        self.n_finished + self.n_failed + self.n_queued + self.n_running + self.n_cancelled
    }

    /// The line that reports the numbers.
    pub open spec fn line(self) -> Seq<char> {
        "Queue: "@ + left_aligned(self.name, 10) + " [Queued "@ + left_aligned(
            dec(self.n_queued),
            5,
        ) + "] [Running "@ + left_aligned(dec(self.n_running), 5) + "] [Finished "@ + left_aligned(
            dec(self.n_finished),
            5,
        ) + "] [Failed "@ + left_aligned(dec(self.n_failed), 5) + "] [Cancelled "@ + left_aligned(
            dec(self.n_cancelled),
            5,
        ) + "]"@
    }
}

/// A text filled up with spaces on its right to `width` characters.
pub open spec fn left_aligned(s: Seq<char>, width: nat) -> Seq<char> {
    if s.len() < width {
        s + Seq::new((width - s.len()) as nat, |i: int| ' ')
    } else {
        s
    }
}

/// The numbers of the jobs of the queue `name` among `jobs`, by status.
pub open spec fn counts_of(jobs: Seq<(JobStatus, Seq<char>)>, name: Seq<char>) -> QueueInfoView
    decreases jobs.len(),
{
    if jobs.len() == 0 {
        QueueInfoView {
            name,
            n_finished: 0,
            n_failed: 0,
            n_queued: 0,
            n_running: 0,
            n_cancelled: 0,
        }
    } else if jobs.last().1 == name {
        counts_of(jobs.drop_last(), name).bump(jobs.last().0)
    } else {
        counts_of(jobs.drop_last(), name)
    }
}

/// No more jobs are counted than there are.
pub proof fn lemma_counts_bounded(jobs: Seq<(JobStatus, Seq<char>)>, name: Seq<char>)
    ensures
        counts_of(jobs, name).sum() <= jobs.len(),
        counts_of(jobs, name).name == name,
    decreases jobs.len(),
{
    if jobs.len() > 0 {
        lemma_counts_bounded(jobs.drop_last(), name);
    }
}

/// The views of jobs given by status and queue.
pub open spec fn status_views(jobs: Seq<(JobStatus, String)>) -> Seq<(JobStatus, Seq<char>)> {
    jobs.map_values(|j: (JobStatus, String)| (j.0, j.1@))
}

/// Whether `infos` is the tally of `jobs`: one entry for each queue that has
/// a job, in the order of the queue names, each with the numbers of the jobs
/// of its queue.
pub open spec fn is_tally(infos: Seq<QueueInfoView>, jobs: Seq<(JobStatus, Seq<char>)>) -> bool {
    &&& forall|k: int| 0 <= k < infos.len() ==> #[trigger] infos[k] == counts_of(jobs, infos[k].name)
    &&& forall|a: int, b: int|
        0 <= a < b < infos.len() ==> text_lt(#[trigger] infos[a].name, #[trigger] infos[b].name)
    &&& forall|k: int| 0 <= k < infos.len() ==> (#[trigger] infos[k]).sum() > 0
    &&& forall|i: int|
        0 <= i < jobs.len() ==> exists|k: int|
            0 <= k < infos.len() && #[trigger] infos[k].name == (#[trigger] jobs[i]).1
}

/// The views of a list of entries.
pub open spec fn info_views(infos: Seq<QueueInfo>) -> Seq<QueueInfoView> {
    infos.map_values(|q: QueueInfo| q@)
}

impl QueueInfo {
    /// The entry of the queue `name`, with no job counted.
    pub fn new(name: &str) -> (r: QueueInfo)
        ensures
            r@ == (QueueInfoView {
                name: name@,
                n_finished: 0,
                n_failed: 0,
                n_queued: 0,
                n_running: 0,
                n_cancelled: 0,
            }),
    {
        QueueInfo {
            name: name.to_owned(),
            n_finished: 0,
            n_failed: 0,
            n_queued: 0,
            n_running: 0,
            n_cancelled: 0,
        }
    }

    /// Counts one more job of the status `status`.
    pub fn count(&mut self, status: JobStatus)
        requires
            old(self)@.sum() < usize::MAX,
        ensures
            final(self)@ == old(self)@.bump(status),
    {
        match status {
            JobStatus::Queued => {
                self.n_queued = self.n_queued + 1;
            },
            JobStatus::Running => {
                self.n_running = self.n_running + 1;
            },
            JobStatus::Finished => {
                self.n_finished = self.n_finished + 1;
            },
            JobStatus::Failed => {
                self.n_failed = self.n_failed + 1;
            },
            JobStatus::Cancelled => {
                self.n_cancelled = self.n_cancelled + 1;
            },
        }
    }

    /// The line that reports the numbers.
    pub fn to_line(&self) -> (r: String)
        ensures
            r@ == self@.line(),
    {
        let mut s = String::from_str("Queue: ");
        s.append(pad_right(self.name.as_str(), 10).as_str());
        s.append(" [Queued ");
        s.append(pad_right(usize_to_string(self.n_queued).as_str(), 5).as_str());
        s.append("] [Running ");
        s.append(pad_right(usize_to_string(self.n_running).as_str(), 5).as_str());
        s.append("] [Finished ");
        s.append(pad_right(usize_to_string(self.n_finished).as_str(), 5).as_str());
        s.append("] [Failed ");
        s.append(pad_right(usize_to_string(self.n_failed).as_str(), 5).as_str());
        s.append("] [Cancelled ");
        s.append(pad_right(usize_to_string(self.n_cancelled).as_str(), 5).as_str());
        s.append("]");
        s
    }
}

/// A text filled up with spaces on its right to `width` characters.
pub fn pad_right(s: &str, width: usize) -> (r: String)
    ensures
        r@ == left_aligned(s@, width as nat),
{
    let len = s.unicode_len();
    let mut out = String::from_str(s);
    if len < width {
        let n = width - len;
        let mut i: usize = 0;
        assert(s@ + Seq::new(0, |i: int| ' ') =~= s@);
        while i < n
            invariant
                i <= n,
                out@ == s@ + Seq::new(i as nat, |i: int| ' '),
            decreases n - i,
        {
            out.append(" ");
            proof {
                reveal_strlit(" ");
                assert(s@ + Seq::new(i as nat, |i: int| ' ') + " "@ =~= s@ + Seq::new(
                    (i + 1) as nat,
                    |i: int| ' ',
                ));
            }
            i = i + 1;
        }
    }
    out
}

/// The four containers of the queue `name`, in the order of a job's life.
pub fn queues_of(name: &str) -> (r: Vec<Queue>)
    ensures
        r@.len() == 4,
        r@[0].q_type == QueueType::Queued,
        r@[1].q_type == QueueType::Running,
        r@[2].q_type == QueueType::Finished,
        r@[3].q_type == QueueType::Failed,
        forall|i: int| 0 <= i < 4 ==> (#[trigger] r@[i]).name@ == name@ && r@[i].wf(),
{
    let mut out: Vec<Queue> = Vec::new();
    out.push(Queue::new(QueueType::Queued, name));
    out.push(Queue::new(QueueType::Running, name));
    out.push(Queue::new(QueueType::Finished, name));
    out.push(Queue::new(QueueType::Failed, name));
    out
}

/// The keys among `keys` that name a state container, read as what they name.
pub open spec fn containers_of(keys: Seq<Seq<char>>) -> Seq<(QueueType, Seq<char>)>
    decreases keys.len(),
{
    if keys.len() == 0 {
        Seq::empty()
    } else {
        match parse_key(keys.last()) {
            Ok(c) => containers_of(keys.drop_last()).push(c),
            Err(_) => containers_of(keys.drop_last()),
        }
    }
}

/// What a list of containers names.
pub open spec fn named_by(queues: Seq<Queue>) -> Seq<(QueueType, Seq<char>)> {
    queues.map_values(|q: Queue| (q.q_type, q.name@))
}

/// The state containers among the keys that a scan of Redis found: every key
/// that reads as the key of one, in the order of the scan.
pub fn get_queue_names(keys: &Vec<String>) -> (r: Vec<Queue>)
    ensures
        named_by(r@) == containers_of(keys.deep_view()),
        forall|i: int| 0 <= i < r@.len() ==> (#[trigger] r@[i]).wf(),
{
    let mut out: Vec<Queue> = Vec::new();
    let mut i: usize = 0;
    assert(keys.deep_view().take(0) =~= Seq::empty());
    assert(named_by(out@) =~= Seq::empty());
    while i < keys.len()
        invariant
            i <= keys.len(),
            named_by(out@) == containers_of(keys.deep_view().take(i as int)),
            forall|k: int| 0 <= k < out@.len() ==> (#[trigger] out@[k]).wf(),
        decreases keys.len() - i,
    {
        let ghost before = named_by(out@);
        proof {
            assert(keys.deep_view().take(i + 1).drop_last() =~= keys.deep_view().take(i as int));
            assert(keys.deep_view().take(i + 1).last() == keys@[i as int]@);
        }
        match Queue::from_key(keys[i].as_str()) {
            Ok(queue) => {
                let ghost c = (queue.q_type, queue.name@);
                out.push(queue);
                assert(named_by(out@) =~= before.push(c));
            },
            Err(_) => {},
        }
        i = i + 1;
    }
    assert(keys.deep_view().take(i as int) =~= keys.deep_view());
    out
}

/// The command that reads all the jobs of a container: the whole list, or
/// all the members of the set.
pub open spec fn members_command(t: QueueType, key: Seq<char>) -> Command {
    if t.is_list() {
        Command::LRange { key, start: 0, stop: -1 }
    } else {
        Command::SMembers { key }
    }
}

/// The pipeline that reads the jobs of each container of `queues` in turn.
pub fn members_pipeline(queues: &Vec<Queue>) -> (pipe: redis::Pipeline)
    ensures
        !pipeline_is_atomic(pipe),
        pipeline_commands(pipe) == encode_all(
            Seq::new(queues@.len(), |i: int| members_command(queues@[i].q_type, queues@[i].key@)),
        ),
{
    let mut pipe = pipe_new();
    let ghost start = pipe;
    let ghost all = Seq::new(
        queues@.len(),
        |i: int| members_command(queues@[i].q_type, queues@[i].key@),
    );
    let mut i: usize = 0;
    proof {
        lemma_extends_nothing(start);
        assert(all.take(0) =~= Seq::<Command>::empty());
    }
    while i < queues.len()
        invariant
            i <= queues.len(),
            all == Seq::new(
                queues@.len(),
                |i: int| members_command(queues@[i].q_type, queues@[i].key@),
            ),
            extends(start, pipe, all.take(i as int)),
        decreases queues.len() - i,
    {
        let queue = &queues[i];
        let ghost before = pipe;
        match queue.q_type {
            QueueType::Queued => {
                pipe_lrange(&mut pipe, queue.key.as_str(), 0, -1);
            },
            QueueType::Running => {
                pipe_lrange(&mut pipe, queue.key.as_str(), 0, -1);
            },
            QueueType::Finished => {
                pipe_smembers(&mut pipe, queue.key.as_str());
            },
            QueueType::Failed => {
                pipe_smembers(&mut pipe, queue.key.as_str());
            },
        }
        proof {
            lemma_extends_chain(start, before, pipe, all.take(i as int), seq![all[i as int]]);
            assert(all.take(i as int) + seq![all[i as int]] =~= all.take(i + 1));
        }
        i = i + 1;
    }
    proof {
        assert(all.take(i as int) =~= all);
        assert(pipeline_commands(start) + encode_all(all) =~= encode_all(all));
    }
    pipe
}

/// The jobs that the replies `details` describe: the replies come in pairs,
/// the status of a job and then its queue.
pub open spec fn jobs_of_details(details: Seq<Seq<char>>, n: nat) -> Result<
    Seq<(JobStatus, Seq<char>)>,
    RsrqErrorView,
>
    decreases n,
{
    if n == 0 {
        Ok(Seq::empty())
    } else {
        match jobs_of_details(details, (n - 1) as nat) {
            Err(e) => Err(e),
            Ok(jobs) => match JobStatus::named(details[2 * (n - 1)]) {
                Some(s) => Ok(jobs.push((s, details[2 * (n - 1) + 1]))),
                None => Err(
                    RsrqErrorView::CmdParserError(
                        "Invalid job status: "@ + details[2 * (n - 1)],
                    ),
                ),
            },
        }
    }
}

/// Replies that fail for the first `k` jobs fail for all of them.
pub proof fn lemma_details_fail_on(details: Seq<Seq<char>>, n: nat, k: nat)
    requires
        k <= n,
    ensures
        jobs_of_details(details, k) is Err ==> jobs_of_details(details, n) == jobs_of_details(
            details,
            k,
        ),
    decreases n,
{
    if k < n {
        lemma_details_fail_on(details, (n - 1) as nat, k);
    }
}

/// The jobs that the replies `job_details` describe. The replies come in
/// pairs, the status of a job and then its queue; a status that is none fails
/// the whole.
pub fn jobs_from_details(job_details: &Vec<String>) -> (r: RsrqResult<Vec<(JobStatus, String)>>)
    requires
        job_details@.len() % 2 == 0,
    ensures
        match jobs_of_details(job_details.deep_view(), job_details@.len() / 2) {
            Ok(jobs) => r matches Ok(v) && status_views(v@) == jobs,
            Err(e) => r matches Err(x) && x@ == e,
        },
{
    let n = job_details.len() / 2;
    let mut out: Vec<(JobStatus, String)> = Vec::new();
    let mut i: usize = 0;
    assert(status_views(out@) =~= Seq::empty());
    while i < n
        invariant
            i <= n,
            n == job_details@.len() / 2,
            job_details@.len() % 2 == 0,
            jobs_of_details(job_details.deep_view(), i as nat) == Ok::<
                Seq<(JobStatus, Seq<char>)>,
                RsrqErrorView,
            >(status_views(out@)),
        decreases n - i,
    {
        let ghost before = status_views(out@);
        proof {
            lemma_details_fail_on(job_details.deep_view(), n as nat, (i + 1) as nat);
            assert(job_details.deep_view()[2 * i] == job_details@[2 * i]@);
            assert(job_details.deep_view()[2 * i + 1] == job_details@[2 * i + 1]@);
        }
        assert(2 * i + 1 < job_details.len());
        let status = match JobStatus::from_string(job_details[2 * i].as_str()) {
            Ok(s) => s,
            Err(e) => {
                return Err(e);
            },
        };
        let queue = job_details[2 * i + 1].clone();
        out.push((status, queue));
        assert(status_views(out@) =~= before.push((status, queue@)));
        i = i + 1;
    }
    Ok(out)
}

/// The entry of a queue with no job counted.
pub open spec fn no_jobs(name: Seq<char>) -> QueueInfoView {
    QueueInfoView { name, n_finished: 0, n_failed: 0, n_queued: 0, n_running: 0, n_cancelled: 0 }
}

/// A queue that no job names counts no job.
pub proof fn lemma_no_job_in(jobs: Seq<(JobStatus, Seq<char>)>, name: Seq<char>)
    requires
        forall|i: int| 0 <= i < jobs.len() ==> (#[trigger] jobs[i]).1 != name,
    ensures
        counts_of(jobs, name) == no_jobs(name),
    decreases jobs.len(),
{
    if jobs.len() > 0 {
        let init = jobs.drop_last();
        assert forall|i: int| 0 <= i < init.len() implies (#[trigger] init[i]).1 != name by {
            assert(init[i] == jobs[i]);
        }
        lemma_no_job_in(init, name);
    }
}

/// A tally stays a tally when one more job is counted in the entry of its
/// queue.
pub proof fn lemma_tally_bump(
    infos: Seq<QueueInfoView>,
    jobs: Seq<(JobStatus, Seq<char>)>,
    job: (JobStatus, Seq<char>),
    j: int,
)
    requires
        is_tally(infos, jobs),
        0 <= j < infos.len(),
        infos[j].name == job.1,
    ensures
        is_tally(infos.update(j, infos[j].bump(job.0)), jobs.push(job)),
{
    let next = jobs.push(job);
    let after = infos.update(j, infos[j].bump(job.0));
    assert(next.drop_last() =~= jobs);
    assert forall|k: int| 0 <= k < after.len() implies #[trigger] after[k] == counts_of(
        next,
        after[k].name,
    ) by {
        assert(infos[k] == counts_of(jobs, infos[k].name));
        if k != j {
            if k < j {
                assert(text_lt(infos[k].name, infos[j].name));
            } else {
                assert(text_lt(infos[j].name, infos[k].name));
            }
            lemma_text_lt_total(infos[k].name, job.1);
        }
    }
    assert forall|a: int, b: int| 0 <= a < b < after.len() implies text_lt(
        #[trigger] after[a].name,
        #[trigger] after[b].name,
    ) by {
        assert(text_lt(infos[a].name, infos[b].name));
    }
    assert forall|k: int| 0 <= k < after.len() implies (#[trigger] after[k]).sum() > 0 by {
        assert(infos[k].sum() > 0);
    }
    assert forall|x: int| 0 <= x < next.len() implies exists|k: int|
        0 <= k < after.len() && #[trigger] after[k].name == (#[trigger] next[x]).1 by {
        if x < jobs.len() {
            assert(jobs[x] == next[x]);
            let k = choose|k: int| 0 <= k < infos.len() && #[trigger] infos[k].name == jobs[x].1;
            assert(after[k].name == infos[k].name);
        } else {
            assert(after[j].name == job.1);
        }
    }
}

/// A tally stays a tally when the first job of a queue is counted in a new
/// entry that is put where the name of the queue belongs.
pub proof fn lemma_tally_insert(
    infos: Seq<QueueInfoView>,
    jobs: Seq<(JobStatus, Seq<char>)>,
    job: (JobStatus, Seq<char>),
    j: int,
)
    requires
        is_tally(infos, jobs),
        0 <= j <= infos.len(),
        forall|k: int| 0 <= k < j ==> text_lt(#[trigger] infos[k].name, job.1),
        j < infos.len() ==> text_lt(job.1, infos[j].name),
    ensures
        is_tally(infos.insert(j, no_jobs(job.1).bump(job.0)), jobs.push(job)),
{
    let name = job.1;
    let next = jobs.push(job);
    let fresh = no_jobs(name).bump(job.0);
    let after = infos.insert(j, fresh);
    assert(next.drop_last() =~= jobs);
    assert forall|k: int| 0 <= k < infos.len() implies (#[trigger] infos[k]).name != name by {
        lemma_text_lt_total(infos[k].name, name);
        if k > j {
            assert(text_lt(infos[j].name, infos[k].name));
            lemma_text_lt_transitive(name, infos[j].name, infos[k].name);
        }
    }
    assert forall|i: int| 0 <= i < jobs.len() implies (#[trigger] jobs[i]).1 != name by {
        let k = choose|k: int| 0 <= k < infos.len() && #[trigger] infos[k].name == jobs[i].1;
        assert(infos[k].name != name);
    }
    lemma_no_job_in(jobs, name);
    assert(fresh == counts_of(next, name));
    assert forall|k: int| 0 <= k < after.len() implies #[trigger] after[k] == counts_of(
        next,
        after[k].name,
    ) && after[k].sum() > 0 by {
        if k < j {
            assert(after[k] == infos[k]);
            assert(infos[k] == counts_of(jobs, infos[k].name));
            assert(infos[k].sum() > 0);
        } else if k > j {
            assert(after[k] == infos[k - 1]);
            assert(infos[k - 1] == counts_of(jobs, infos[k - 1].name));
            assert(infos[k - 1].sum() > 0);
        }
    }
    assert forall|a: int, b: int| 0 <= a < b < after.len() implies text_lt(
        #[trigger] after[a].name,
        #[trigger] after[b].name,
    ) by {
        if a == j {
            assert(after[b] == infos[b - 1]);
            if b - 1 > j {
                assert(text_lt(infos[j].name, infos[b - 1].name));
                lemma_text_lt_transitive(name, infos[j].name, infos[b - 1].name);
            }
        } else if b == j {
            assert(after[a] == infos[a]);
        } else {
            let va = if a < j {
                a
            } else {
                a - 1
            };
            let vb = if b < j {
                b
            } else {
                b - 1
            };
            assert(after[a] == infos[va] && after[b] == infos[vb]);
            assert(text_lt(infos[va].name, infos[vb].name));
        }
    }
    assert forall|x: int| 0 <= x < next.len() implies exists|k: int|
        0 <= k < after.len() && #[trigger] after[k].name == (#[trigger] next[x]).1 by {
        if x < jobs.len() {
            assert(jobs[x] == next[x]);
            let k = choose|k: int| 0 <= k < infos.len() && #[trigger] infos[k].name == jobs[x].1;
            if k < j {
                assert(after[k].name == infos[k].name);
            } else {
                assert(after[k + 1].name == infos[k].name);
            }
        } else {
            assert(after[j].name == name);
        }
    }
}

/// The tally of `jobs`: for each queue that has a job the numbers of its jobs
/// by status, the queues in the order of their names. The entries are kept
/// in that order while the jobs are counted, each new queue put where its
/// name belongs.
pub fn check_status(jobs: &Vec<(JobStatus, String)>) -> (r: Vec<QueueInfo>)
    ensures
        is_tally(info_views(r@), status_views(jobs@)),
{
    let ghost all = status_views(jobs@);
    let mut infos: Vec<QueueInfo> = Vec::new();
    let mut i: usize = 0;
    assert(all.take(0) =~= Seq::empty());
    while i < jobs.len()
        invariant
            i <= jobs.len(),
            all == status_views(jobs@),
            is_tally(info_views(infos@), all.take(i as int)),
        decreases jobs.len() - i,
    {
        let ghost prefix = all.take(i as int);
        let ghost views = info_views(infos@);
        let status = jobs[i].0;
        let name = jobs[i].1.as_str();
        proof {
            assert(all.take(i + 1) =~= prefix.push((status, name@)));
        }
        let mut j: usize = 0;
        while j < infos.len() && str_lt(infos[j].name.as_str(), name)
            invariant
                j <= infos.len(),
                views == info_views(infos@),
                forall|k: int| 0 <= k < j ==> text_lt(#[trigger] views[k].name, name@),
            decreases infos.len() - j,
        {
            j = j + 1;
        }
        if j < infos.len() && str_eq(infos[j].name.as_str(), name) {
            proof {
                lemma_counts_bounded(prefix, name@);
                assert(views[j as int] == counts_of(prefix, views[j as int].name));
                lemma_tally_bump(views, prefix, (status, name@), j as int);
            }
            let mut info = infos.remove(j);
            info.count(status);
            let ghost bumped = info@;
            infos.insert(j, info);
            assert(info_views(infos@) =~= views.update(j as int, bumped));
        } else {
            proof {
                if j < infos.len() {
                    lemma_text_lt_total(views[j as int].name, name@);
                }
                lemma_tally_insert(views, prefix, (status, name@), j as int);
            }
            let mut info = QueueInfo::new(name);
            info.count(status);
            let ghost fresh = info@;
            infos.insert(j, info);
            assert(info_views(infos@) =~= views.insert(j as int, fresh));
        }
        i = i + 1;
    }
    assert(all.take(i as int) =~= all);
    infos
}

} // verus!
