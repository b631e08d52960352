//! Removing everything that the library keeps in Redis.

use crate::util::pipeline::{
    encode_all, extends, lemma_extends_chain, lemma_extends_nothing, pipe_atomic, pipe_del, pipe_new, pipeline_commands,
    pipeline_is_atomic, Command,
};
use vstd::prelude::*;

verus! {

/// The pattern that every key of the library meets.
pub const ALL_KEYS: &'static str = "rsrq:*";

/// The commands that delete each key in turn.
pub open spec fn delete_all(keys: Seq<Seq<char>>) -> Seq<Command> {
    Seq::new(keys.len(), |i: int| Command::Del { key: keys[i] })
}

/// The atomic pipeline that deletes each of `keys`; none where there is no
/// key to delete.
pub fn purge_all(keys: &Vec<String>) -> (r: Option<redis::Pipeline>)
    ensures
        keys@.len() == 0 ==> r is None,
        keys@.len() > 0 ==> (r matches Some(pipe) && pipeline_is_atomic(pipe) && pipeline_commands(
            pipe,
        ) == encode_all(delete_all(keys.deep_view()))),
{
    if keys.len() == 0 {
        return None;
    }
    let mut pipe = pipe_new();
    pipe_atomic(&mut pipe);
    let ghost start = pipe;
    let ghost all = delete_all(keys.deep_view());
    let mut i: usize = 0;
    proof {
        lemma_extends_nothing(start);
        assert(all.take(0) =~= Seq::<Command>::empty());
    }
    while i < keys.len()
        invariant
            i <= keys.len(),
            all == delete_all(keys.deep_view()),
            extends(start, pipe, all.take(i as int)),
        decreases keys.len() - i,
    {
        let ghost before = pipe;
        pipe_del(&mut pipe, keys[i].as_str());
        proof {
            assert(all[i as int] == Command::Del { key: keys@[i as int]@ });
            lemma_extends_chain(start, before, pipe, all.take(i as int), seq![all[i as int]]);
            assert(all.take(i as int) + seq![all[i as int]] =~= all.take(i + 1));
        }
        i = i + 1;
    }
    proof {
        assert(all.take(i as int) =~= all);
        assert(pipeline_commands(start) + encode_all(all) =~= encode_all(all));
    }
    Some(pipe)
}

} // verus!
