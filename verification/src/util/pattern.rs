//! Regular expressions, as the `regex` crate matches them.

use vstd::prelude::*;

verus! {

/// What the pattern `pattern` finds in `input`: nothing where the pattern
/// does not compile to a regular expression; else its successive matches
/// from left to right, none overlapping another, and for each match the text
/// of every group of the pattern in the order of their opening brackets, the
/// whole match as group zero, and no text for a group that took no part in
/// the match.
pub uninterp spec fn regex_captures(pattern: Seq<char>, input: Seq<char>) -> Option<
    Seq<Seq<Option<Seq<char>>>>,
>;

/// `regex::Regex::new` on `pattern`, then `regex::Regex::captures_iter` on
/// `input`, each match read group by group through `regex::Captures::iter`.
/// The result is a function of the two texts alone, and nothing more is
/// claimed of it.
#[verifier::external_body]
pub(crate) fn regex_captures_iter(pattern: &str, input: &str) -> (r: Option<
    Vec<Vec<Option<String>>>,
>)
    ensures
        r.deep_view() == regex_captures(pattern@, input@),
{
    let re = regex::Regex::new(pattern).ok()?;
    Some(
        re.captures_iter(input).map(
            |c| c.iter().map(|m| m.map(|x| x.as_str().to_owned())).collect(),
        ).collect(),
    )
}

} // verus!
