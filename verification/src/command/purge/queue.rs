//! Removing the jobs of one state, of one queue or of all.

use crate::model::job::rsrq_job::{job_key, Job};
use crate::model::queue::queue_type::QueueType;
use crate::model::queue::rsrq_queue::Queue;
use crate::util::pipeline::{
    encode_all, extends, lemma_extends_chain, lemma_extends_nothing, pipe_atomic, pipe_del, pipe_new, pipeline_commands,
    pipeline_is_atomic, Command,
};
use vstd::prelude::*;

verus! {

/// The container to purge: that of the queue named, or the pattern that the
/// containers of this kind of all queues meet.
pub fn purge_target(queue: &Option<String>, queue_type: QueueType) -> (r: Queue)
    ensures
        r.q_type == queue_type,
        r.wf(),
        r.name@ == (match queue {
            Some(q) => q@,
            None => "*"@,
        }),
{
    match queue {
        Some(q) => Queue::new(queue_type, q.as_str()),
        None => Queue::new(queue_type, "*"),
    }
}

/// The commands that purge one container: delete the hash of each of its
/// jobs, then the container itself.
pub open spec fn purge_commands(key: Seq<char>, ids: Seq<usize>) -> Seq<Command> {
    Seq::new(ids.len(), |i: int| Command::Del { key: job_key(ids[i] as nat) }).push(
        Command::Del { key },
    )
}

/// The commands that purge each container in turn.
pub open spec fn purge_all_commands(containers: Seq<(Seq<char>, Seq<usize>)>) -> Seq<Command>
    decreases containers.len(),
{
    if containers.len() == 0 {
        Seq::empty()
    } else {
        purge_all_commands(containers.drop_last()) + purge_commands(
            containers.last().0,
            containers.last().1,
        )
    }
}

/// The containers as their keys and their jobs.
pub open spec fn container_views(containers: Seq<(String, Vec<usize>)>) -> Seq<
    (Seq<char>, Seq<usize>),
> {
    containers.map_values(|c: (String, Vec<usize>)| (c.0@, c.1@))
}

/// The atomic pipeline that purges the containers `containers`, each given
/// by its key and the jobs that it holds: it deletes the hash of each job and
/// then the container.
pub fn purge_queue(containers: &Vec<(String, Vec<usize>)>) -> (pipe: redis::Pipeline)
    ensures
        pipeline_is_atomic(pipe),
        pipeline_commands(pipe) == encode_all(purge_all_commands(container_views(containers@))),
{
    let mut pipe = pipe_new();
    pipe_atomic(&mut pipe);
    let ghost start = pipe;
    let ghost views = container_views(containers@);
    let mut i: usize = 0;
    proof {
        lemma_extends_nothing(start);
        assert(views.take(0) =~= Seq::empty());
    }
    while i < containers.len()
        invariant
            i <= containers.len(),
            views == container_views(containers@),
            extends(start, pipe, purge_all_commands(views.take(i as int))),
        decreases containers.len() - i,
    {
        let key = containers[i].0.as_str();
        let values = &containers[i].1;
        let ghost stage0 = pipe;
        let ghost dels = Seq::new(
            values@.len(),
            |k: int| Command::Del { key: job_key(values@[k] as nat) },
        );
        let mut j: usize = 0;
        proof {
            lemma_extends_nothing(stage0);
            assert(dels.take(0) =~= Seq::<Command>::empty());
        }
        while j < values.len()
            invariant
                j <= values.len(),
                dels == Seq::new(
                    values@.len(),
                    |k: int| Command::Del { key: job_key(values@[k] as nat) },
                ),
                extends(stage0, pipe, dels.take(j as int)),
            decreases values.len() - j,
        {
            let job_key = Job::get_redis_key(values[j]);
            let ghost before = pipe;
            pipe_del(&mut pipe, job_key.as_str());
            proof {
                lemma_extends_chain(stage0, before, pipe, dels.take(j as int), seq![dels[j as int]]);
                assert(dels.take(j as int) + seq![dels[j as int]] =~= dels.take(j + 1));
            }
            j = j + 1;
        }
        let ghost stage1 = pipe;
        pipe_del(&mut pipe, key);
        proof {
            assert(dels.take(j as int) =~= dels);
            let last = seq![Command::Del { key: key@ }];
            lemma_extends_chain(stage0, stage1, pipe, dels, last);
            assert(dels + last =~= purge_commands(key@, values@));
            lemma_extends_chain(
                start,
                stage0,
                pipe,
                purge_all_commands(views.take(i as int)),
                purge_commands(key@, values@),
            );
            assert(views.take(i + 1).drop_last() =~= views.take(i as int));
            assert(views.take(i + 1).last() == (key@, values@));
        }
        i = i + 1;
    }
    proof {
        assert(views.take(i as int) =~= views);
        assert(pipeline_commands(start) + encode_all(purge_all_commands(views)) =~= encode_all(
            purge_all_commands(views),
        ));
    }
    pipe
}

} // verus!
