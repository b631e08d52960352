//! A file of commands, one on each line.

use crate::util::text::{chars_of, index_of, lemma_index_of_bounds};
use vstd::prelude::*;
use vstd::string::*;

verus! {

/// A line without the carriage return that ends it, if one does.
pub open spec fn without_cr(line: Seq<char>) -> Seq<char> {
    if line.len() > 0 && line.last() == '\r' {
        line.drop_last()
    } else {
        line
    }
}

/// The lines of a text. A line ends at a line feed, or at a carriage return
/// and a line feed, neither of which belongs to it; the last line may end
/// with the text. The empty text has no line.
pub open spec fn lines_of(text: Seq<char>) -> Seq<Seq<char>>
    decreases text.len(),
{
    if text.len() == 0 {
        Seq::empty()
    } else {
        let i = index_of(text, '\n');
        if 0 <= i < text.len() {
            seq![without_cr(text.take(i))] + lines_of(text.skip(i + 1))
        } else {
            seq![text]
        }
    }
}

/// The commands of a file.
pub struct EnqueueFile {
    pub jobs: Vec<String>,
}

impl EnqueueFile {
    /// The commands that the text `contents` of a file holds: its lines.
    pub fn load(contents: &str) -> (r: EnqueueFile)
        ensures
            r.jobs.deep_view() == lines_of(contents@),
    {
        let v = chars_of(contents);
        let mut jobs: Vec<String> = Vec::new();
        let mut start: usize = 0;
        proof {
            assert(contents@.skip(0) =~= contents@);
            assert(jobs.deep_view() + lines_of(contents@) =~= lines_of(contents@));
        }
        while start < v.len()
            invariant
                start <= v.len(),
                v@ == contents@,
                lines_of(contents@) == jobs.deep_view() + lines_of(contents@.skip(start as int)),
            decreases v.len() - start,
        {
            let ghost tail = contents@.skip(start as int);
            let ghost before = jobs.deep_view();
            let mut end: usize = start;
            while end < v.len() && v[end] != '\n'
                invariant
                    start <= end <= v.len(),
                    v@ == contents@,
                    tail == contents@.skip(start as int),
                    index_of(tail, '\n') == (end - start) + index_of(
                        contents@.skip(end as int),
                        '\n',
                    ),
                decreases v.len() - end,
            {
                proof {
                    assert(contents@.skip(end as int).drop_first() =~= contents@.skip(end + 1));
                }
                end = end + 1;
            }
            proof {
                lemma_index_of_bounds(contents@.skip(end as int), '\n');
                assert(index_of(tail, '\n') == end - start);
                assert(tail.take(end - start) =~= contents@.subrange(start as int, end as int));
            }
            if end == v.len() {
                let line = contents.substring_char(start, end).to_owned();
                proof {
                    assert(tail.take(end - start) =~= tail);
                    assert(contents@.skip(end as int) =~= Seq::<char>::empty());
                }
                jobs.push(line);
                proof {
                    assert(jobs.deep_view() =~= before.push(tail));
                    assert(before + seq![tail] =~= before.push(tail));
                    assert(jobs.deep_view() + lines_of(contents@.skip(end as int)) =~= before
                        + lines_of(tail));
                }
                start = end;
            } else {
                let stop = if end > start && v[end - 1] == '\r' {
                    end - 1
                } else {
                    end
                };
                let line = contents.substring_char(start, stop).to_owned();
                proof {
                    let raw = tail.take(end - start);
                    if end > start {
                        assert(raw.last() == v@[end - 1]);
                    }
                    assert(contents@.subrange(start as int, stop as int) =~= without_cr(raw));
                    assert(tail.skip(end - start + 1) =~= contents@.skip(end + 1));
                }
                jobs.push(line);
                proof {
                    let raw = tail.take(end - start);
                    assert(jobs.deep_view() =~= before.push(without_cr(raw)));
                    assert(before.push(without_cr(raw)) + lines_of(contents@.skip(end + 1))
                        =~= before + (seq![without_cr(raw)] + lines_of(contents@.skip(end + 1))));
                }
                start = end + 1;
            }
        }
        proof {
            assert(contents@.skip(start as int) =~= Seq::<char>::empty());
            assert(jobs.deep_view() + Seq::<Seq<char>>::empty() =~= jobs.deep_view());
        }
        EnqueueFile { jobs }
    }
}

} // verus!
