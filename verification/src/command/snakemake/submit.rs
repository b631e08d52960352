//! Submitting a job script of the workflow engine.

use crate::model::enqueue_file::{lines_of, EnqueueFile};
use crate::model::error::{RsrqError, RsrqErrorView};
use crate::model::types::RsrqResult;
use crate::util::json::{json_string_at, json_text_at};
use crate::util::text::{chars_of, concat};
use vstd::prelude::*;
use vstd::string::*;

verus! {

/// What the line of a job script that holds its properties begins with.
pub const PROPERTIES: &'static str = "# properties =";

/// The queue of a job script that names none.
pub const DEFAULT_QUEUE: &'static str = "default";

/// Whether a character is white space.
pub open spec fn is_space(c: char) -> bool {
    let n = c as u32;
    (9 <= n <= 13) || n == 32 || n == 0x85 || n == 0xA0 || n == 0x1680 || (0x2000 <= n <= 0x200A)
        || n == 0x2028 || n == 0x2029 || n == 0x202F || n == 0x205F || n == 0x3000
}

/// Whether `s` begins with `prefix`.
pub open spec fn begins_with(s: Seq<char>, prefix: Seq<char>) -> bool {
    prefix.len() <= s.len() && s.take(prefix.len() as int) == prefix
}

/// `s` without every `prefix` that it begins with, one after another.
pub open spec fn without_prefixes(s: Seq<char>, prefix: Seq<char>) -> Seq<char>
    decreases s.len(),
{
    if prefix.len() > 0 && begins_with(s, prefix) {
        without_prefixes(s.skip(prefix.len() as int), prefix)
    } else {
        s
    }
}

/// `s` without the white space it begins with.
pub open spec fn trim_start(s: Seq<char>) -> Seq<char>
    decreases s.len(),
{
    if s.len() > 0 && is_space(s[0]) {
        trim_start(s.drop_first())
    } else {
        s
    }
}

/// `s` without the white space it ends with.
pub open spec fn trim_end(s: Seq<char>) -> Seq<char>
    decreases s.len(),
{
    if s.len() > 0 && is_space(s.last()) {
        trim_end(s.drop_last())
    } else {
        s
    }
}

/// The properties that a job script holds: what follows the mark on the
/// first line that begins with the mark, without the white space around it.
pub open spec fn properties_in(lines: Seq<Seq<char>>) -> Option<Seq<char>>
    decreases lines.len(),
{
    if lines.len() == 0 {
        None
    } else if begins_with(lines[0], PROPERTIES@) {
        Some(trim_end(trim_start(without_prefixes(lines[0], PROPERTIES@))))
    } else {
        properties_in(lines.drop_first())
    }
}

/// The failure on a job script without properties.
pub open spec fn no_properties(path: Seq<char>) -> RsrqErrorView {
    RsrqErrorView::SnakemakeInvalidJobScript(
        "No properties section found in job script: "@ + path,
    )
}

/// The queue on which the job script at `path` with the text `contents` is
/// to run: the queue that its properties name under `resources.queue`, and
/// the default queue where they name none.
pub open spec fn queue_of_jobscript(path: Seq<char>, contents: Seq<char>) -> Result<
    Seq<char>,
    RsrqErrorView,
> {
    match properties_in(lines_of(contents)) {
        None => Err(no_properties(path)),
        Some(json) => match json_text_at(json, "resources"@, "queue"@) {
            Err(reason) => Err(RsrqErrorView::InvalidJson(reason)),
            Ok(Some(queue)) => Ok(queue),
            Ok(None) => Ok(DEFAULT_QUEUE@),
        },
    }
}

/// Whether a character is white space.
fn is_whitespace(c: char) -> (r: bool)
    ensures
        r == is_space(c),
{
    let n = c as u32;
    (9 <= n && n <= 13) || n == 32 || n == 0x85 || n == 0xA0 || n == 0x1680 || (0x2000 <= n && n
        <= 0x200A) || n == 0x2028 || n == 0x2029 || n == 0x202F || n == 0x205F || n == 0x3000
}

/// Whether the characters `v` hold `prefix` at the place `at`.
fn holds_at(v: &Vec<char>, at: usize, prefix: &Vec<char>) -> (r: bool)
    requires
        at <= v.len(),
    ensures
        r == begins_with(v@.skip(at as int), prefix@),
{
    if prefix.len() > v.len() - at {
        return false;
    }
    let mut i: usize = 0;
    while i < prefix.len()
        invariant
            i <= prefix.len(),
            at + prefix.len() <= v.len(),
            forall|k: int| 0 <= k < i ==> v@[at + k] == prefix@[k],
        decreases prefix.len() - i,
    {
        if v[at + i] != prefix[i] {
            proof {
                assert(v@.skip(at as int).take(prefix.len() as int)[i as int] == v@[at + i]);
            }
            return false;
        }
        i = i + 1;
    }
    proof {
        assert(v@.skip(at as int).take(prefix.len() as int) =~= prefix@);
    }
    true
}

/// The properties on the line `line`, if it holds any.
pub fn properties_of_line(line: &str) -> (r: Option<String>)
    ensures
        begins_with(line@, PROPERTIES@) ==> (r matches Some(p) && p@ == trim_end(
            trim_start(without_prefixes(line@, PROPERTIES@)),
        )),
        !begins_with(line@, PROPERTIES@) ==> r is None,
{
    let v = chars_of(line);
    let mark = chars_of(PROPERTIES);
    proof {
        reveal_strlit("# properties =");
        assert(line@.skip(0) =~= line@);
    }
    if !holds_at(&v, 0, &mark) {
        return None;
    }
    let mut start: usize = 0;
    while holds_at(&v, start, &mark)
        invariant
            start <= v.len(),
            v@ == line@,
            mark@ == PROPERTIES@,
            mark@.len() > 0,
            without_prefixes(line@, PROPERTIES@) == without_prefixes(
                line@.skip(start as int),
                PROPERTIES@,
            ),
        decreases v.len() - start,
    {
        proof {
            assert(line@.skip(start as int).skip(mark@.len() as int) =~= line@.skip(
                start + mark@.len(),
            ));
        }
        start = start + mark.len();
    }
    let ghost rest = line@.skip(start as int);
    assert(without_prefixes(line@, PROPERTIES@) == rest);
    let mut i: usize = start;
    while i < v.len() && is_whitespace(v[i])
        invariant
            start <= i <= v.len(),
            v@ == line@,
            rest == line@.skip(start as int),
            trim_start(rest) == trim_start(line@.skip(i as int)),
        decreases v.len() - i,
    {
        proof {
            assert(line@.skip(i as int).drop_first() =~= line@.skip(i + 1));
        }
        i = i + 1;
    }
    let ghost body = line@.skip(i as int);
    assert(trim_start(rest) == body);
    let mut j: usize = v.len();
    assert(body.take(j - i) =~= body);
    while j > i && is_whitespace(v[j - 1])
        invariant
            i <= j <= v.len(),
            v@ == line@,
            body == line@.skip(i as int),
            trim_end(body) == trim_end(body.take(j - i)),
        decreases j,
    {
        proof {
            assert(body.take(j - i).drop_last() =~= body.take(j - i - 1));
            assert(body.take(j - i).last() == v@[j - 1]);
        }
        j = j - 1;
    }
    proof {
        assert(body.take(j - i) =~= line@.subrange(i as int, j as int));
        if j > i {
            assert(body.take(j - i).last() == v@[j - 1]);
        }
    }
    Some(line.substring_char(i, j).to_owned())
}

/// The properties that the job script with the text `contents` holds, as the
/// JSON text that they are.
pub fn read_properties_from_jobscript(path: &str, contents: &str) -> (r: RsrqResult<String>)
    ensures
        match properties_in(lines_of(contents@)) {
            Some(json) => r matches Ok(text) && text@ == json,
            None => r matches Err(e) && e@ == no_properties(path@),
        },
{
    let file = EnqueueFile::load(contents);
    let ghost lines = lines_of(contents@);
    let mut i: usize = 0;
    assert(lines.skip(0) =~= lines);
    while i < file.jobs.len()
        invariant
            i <= file.jobs.len(),
            lines == lines_of(contents@),
            file.jobs.deep_view() == lines,
            properties_in(lines) == properties_in(lines.skip(i as int)),
        decreases file.jobs.len() - i,
    {
        proof {
            assert(lines.skip(i as int)[0] == file.jobs@[i as int]@);
            assert(lines.skip(i as int).drop_first() =~= lines.skip(i + 1));
        }
        match properties_of_line(file.jobs[i].as_str()) {
            Some(json) => {
                proof {
                    let here = lines.skip(i as int);
                    assert(here.len() > 0);
                    assert(begins_with(here[0], PROPERTIES@));
                    assert(properties_in(here) == Some(json@));
                }
                return Ok(json);
            },
            None => {
                proof {
                    let here = lines.skip(i as int);
                    assert(!begins_with(here[0], PROPERTIES@));
                    assert(properties_in(here) == properties_in(here.drop_first()));
                }
            },
        }
        i = i + 1;
    }
    proof {
        assert(lines.skip(i as int).len() == 0);
    }
    Err(
        RsrqError::SnakemakeInvalidJobScript(
            concat("No properties section found in job script: ", path),
        ),
    )
}

/// The queue that the value at `resources.queue` of the properties names:
/// the text of the value where it is a string, and the default queue where
/// there is no such value or it is no string. Properties that are no JSON
/// fail with the reason.
pub fn queue_from_properties(found: Result<Option<String>, String>) -> (r: RsrqResult<String>)
    ensures
        match found {
            Ok(Some(queue)) => r matches Ok(q) && q@ == queue@,
            Ok(None) => r matches Ok(q) && q@ == DEFAULT_QUEUE@,
            Err(reason) => r matches Err(RsrqError::InvalidJson(m)) && m@ == reason@,
        },
{
    match found {
        Ok(Some(queue)) => Ok(queue),
        Ok(None) => Ok(DEFAULT_QUEUE.to_owned()),
        Err(reason) => Err(RsrqError::InvalidJson(reason)),
    }
}

/// The queue on which the job script at `path` with the text `contents` is
/// to run.
pub fn snakemake_submit(path: &str, contents: &str) -> (r: RsrqResult<String>)
    ensures
        match queue_of_jobscript(path@, contents@) {
            Ok(queue) => r matches Ok(q) && q@ == queue,
            Err(e) => r matches Err(x) && x@ == e,
        },
{
    let properties = match read_properties_from_jobscript(path, contents) {
        Ok(p) => p,
        Err(e) => {
            return Err(e);
        },
    };
    queue_from_properties(json_string_at(properties.as_str(), "resources", "queue"))
}

} // verus!
