//! Reading the arguments of the worker command.

use crate::model::error::{RsrqError, RsrqErrorView};
use crate::model::types::RsrqResult;
use crate::util::pattern::{regex_captures, regex_captures_iter};
use crate::util::text::{
    at_most, concat, dec, digit_value, digits_value, lemma_dec_reads_back, parse_unsigned,
    parse_unsigned_text, str_eq,
};
use vstd::prelude::*;
use vstd::string::*;

verus! {

/// The pattern of one pair of a duration: a number and the character after it.
pub const RE_MAX_DURATION: &'static str = "(\\d+)(\\w)";

/// The number of workers to run: the number asked for, or the most jobs that
/// may be started where that is less.
pub fn parse_num_workers(num_workers: u16, max_iter: Option<u32>) -> (r: u32)
    ensures
        r == (match max_iter {
            Some(m) if m < num_workers => m,
            _ => num_workers as u32,
        }),
{
    if let Some(max_it) = max_iter {
        if max_it < num_workers as u32 {
            return max_it;
        }
    }
    num_workers as u32
}

/// The seconds in one unit of time: an hour, a minute, a second.
pub open spec fn unit_seconds(unit: Seq<char>) -> Option<nat> {
    if unit == "h"@ {
        Some(3600)
    } else if unit == "m"@ {
        Some(60)
    } else if unit == "s"@ {
        Some(1)
    } else {
        None
    }
}

/// The failure on a number that does not read as one, or is too large.
pub open spec fn invalid_number(num: Seq<char>) -> RsrqErrorView {
    RsrqErrorView::CmdParserError("Invalid number format: "@ + num)
}

/// The failure on a unit that is none.
pub open spec fn invalid_unit(unit: Seq<char>) -> RsrqErrorView {
    RsrqErrorView::CmdParserError("Invalid time unit provided: "@ + unit)
}

/// The failure on a duration that holds no pair, or is too long.
pub open spec fn invalid_duration(text: Seq<char>) -> RsrqErrorView {
    RsrqErrorView::CmdParserError("Invalid max duration provided: "@ + text)
}

/// The seconds that the number `num` of the unit `unit` makes. The number is
/// looked at first, the unit second.
pub open spec fn time_unit_seconds(unit: Seq<char>, num: Seq<char>) -> Result<nat, RsrqErrorView> {
    match at_most(parse_unsigned(num), u64::MAX as nat) {
        None => Err(invalid_number(num)),
        Some(n) => match unit_seconds(unit) {
            None => Err(invalid_unit(unit)),
            Some(f) => if n * f <= u64::MAX {
                Ok(n * f)
            } else {
                Err(invalid_number(num))
            },
        },
    }
}

/// Whether a match is a pair: it has three groups, all of which took part;
/// its whole text is its number followed by its unit; and its number begins
/// with no sign.
pub open spec fn is_pair(groups: Seq<Option<Seq<char>>>) -> bool {
    &&& groups.len() == 3
    &&& groups[0] is Some
    &&& groups[1] is Some
    &&& groups[2] is Some
    &&& groups[0]->0 == groups[1]->0 + groups[2]->0
    &&& groups[1]->0.len() > 0
    &&& groups[1]->0[0] != '+'
}

/// The seconds of one match of the pair pattern: of the number in its first
/// group and the unit in its second.
pub open spec fn pair_seconds(groups: Seq<Option<Seq<char>>>, text: Seq<char>) -> Result<
    nat,
    RsrqErrorView,
> {
    if is_pair(groups) {
        time_unit_seconds(groups[2]->0, groups[1]->0)
    } else {
        Err(invalid_duration(text))
    }
}

/// The sum of the seconds of the matches; the first match that fails fails
/// the sum, and so does a sum that no `u64` holds.
pub open spec fn sum_seconds(hits: Seq<Seq<Option<Seq<char>>>>, text: Seq<char>) -> Result<
    nat,
    RsrqErrorView,
>
    decreases hits.len(),
{
    if hits.len() == 0 {
        Ok(0)
    } else {
        match sum_seconds(hits.drop_last(), text) {
            Err(e) => Err(e),
            Ok(total) => match pair_seconds(hits.last(), text) {
                Err(e) => Err(e),
                Ok(s) => if total + s <= u64::MAX {
                    Ok(total + s)
                } else {
                    Err(invalid_duration(text))
                },
            },
        }
    }
}

/// The text that the matches cover: the whole texts of the matches, one
/// after another. A match without a whole text covers nothing.
pub open spec fn matched_text(hits: Seq<Seq<Option<Seq<char>>>>) -> Option<Seq<char>>
    decreases hits.len(),
{
    if hits.len() == 0 {
        Some(Seq::empty())
    } else {
        match matched_text(hits.drop_last()) {
            None => None,
            Some(before) => if hits.last().len() > 0 && hits.last()[0] is Some {
                Some(before + hits.last()[0]->0)
            } else {
                None
            },
        }
    }
}

/// The seconds of the duration `text`, given the matches of the pair pattern
/// in it. A duration is a row of pairs and nothing else: a text without a
/// match is no duration, and neither is a text of which any part belongs to
/// no match.
pub open spec fn duration_seconds(hits: Seq<Seq<Option<Seq<char>>>>, text: Seq<char>) -> Result<
    nat,
    RsrqErrorView,
> {
    if hits.len() == 0 || matched_text(hits) != Some(text) {
        Err(invalid_duration(text))
    } else {
        sum_seconds(hits, text)
    }
}

/// The seconds of the duration `text`.
pub open spec fn max_runtime(text: Seq<char>) -> Result<nat, RsrqErrorView> {
    match regex_captures(RE_MAX_DURATION@, text) {
        Some(hits) => duration_seconds(hits, text),
        None => Err(invalid_duration(text)),
    }
}

/// Whether `r` is the outcome `expected`.
pub open spec fn is_outcome(r: RsrqResult<u64>, expected: Result<nat, RsrqErrorView>) -> bool {
    match expected {
        Ok(n) => r matches Ok(v) && v == n,
        Err(e) => r matches Err(x) && x@ == e,
    }
}

/// The seconds that the number `num` of the unit `unit` makes, for the units
/// `h`, `m` and `s`.
pub fn parse_time_unit(unit: &str, num: &str) -> (r: RsrqResult<u64>)
    ensures
        is_outcome(r, time_unit_seconds(unit@, num@)),
{
    let n: u64 = match parse_unsigned_text(num, u64::MAX as u128) {
        Some(v) => v as u64,
        None => {
            return Err(RsrqError::CmdParserError(concat("Invalid number format: ", num)));
        },
    };
    let factor: u64 = if str_eq(unit, "h") {
        3600
    } else if str_eq(unit, "m") {
        60
    } else if str_eq(unit, "s") {
        1
    } else {
        return Err(RsrqError::CmdParserError(concat("Invalid time unit provided: ", unit)));
    };
    if n > u64::MAX / factor {
        assert(n * factor > u64::MAX) by (nonlinear_arith)
            requires
                n > u64::MAX / factor,
                factor > 0,
        ;
        return Err(RsrqError::CmdParserError(concat("Invalid number format: ", num)));
    }
    assert(n * factor <= u64::MAX) by (nonlinear_arith)
        requires
            n <= u64::MAX / factor,
            factor > 0,
    ;
    Ok(n * factor)
}

/// The number and the unit of a match, where the match is a pair.
pub fn pair_of<'a>(groups: &'a Vec<Option<String>>) -> (r: Option<(&'a str, &'a str)>)
    ensures
        r is Some <==> is_pair(groups.deep_view()),
        r matches Some((num, unit)) ==> groups.deep_view()[1] == Some(num@)
            && groups.deep_view()[2] == Some(unit@),
{
    if groups.len() != 3 {
        return None;
    }
    assert(groups.deep_view()[0] == groups@[0].deep_view());
    assert(groups.deep_view()[1] == groups@[1].deep_view());
    assert(groups.deep_view()[2] == groups@[2].deep_view());
    match (&groups[0], &groups[1], &groups[2]) {
        (Some(whole), Some(num), Some(unit)) => {
            let joined = concat(num.as_str(), unit.as_str());
            if !str_eq(whole.as_str(), joined.as_str()) {
                return None;
            }
            if num.as_str().unicode_len() == 0 {
                return None;
            }
            if num.as_str().get_char(0) == '+' {
                return None;
            }
            Some((num.as_str(), unit.as_str()))
        },
        _ => None,
    }
}

/// A cover that fails on the first `k` matches fails on all of them.
pub proof fn lemma_cover_fails_on(hits: Seq<Seq<Option<Seq<char>>>>, k: int)
    requires
        0 <= k <= hits.len(),
    ensures
        matched_text(hits.take(k)) is None ==> matched_text(hits) is None,
    decreases hits.len(),
{
    if k == hits.len() {
        assert(hits.take(k) =~= hits);
    } else {
        lemma_cover_fails_on(hits.drop_last(), k);
        assert(hits.drop_last().take(k) =~= hits.take(k));
    }
}

/// Whether the matches `hits` cover the text `text`: whether their whole
/// texts, one after another, are the text.
pub fn covers(hits: &Vec<Vec<Option<String>>>, text: &str) -> (r: bool)
    ensures
        r == (matched_text(hits.deep_view()) == Some(text@)),
{
    let mut joined = String::new();
    let mut i: usize = 0;
    assert(hits.deep_view().take(0) =~= Seq::empty());
    while i < hits.len()
        invariant
            i <= hits.len(),
            matched_text(hits.deep_view().take(i as int)) == Some(joined@),
        decreases hits.len() - i,
    {
        let groups = &hits[i];
        proof {
            let all = hits.deep_view();
            assert(all.take(i + 1).drop_last() =~= all.take(i as int));
            assert(all.take(i + 1).last() == groups.deep_view());
            lemma_cover_fails_on(all, i + 1);
        }
        if groups.len() == 0 {
            return false;
        }
        assert(groups.deep_view()[0] == groups@[0].deep_view());
        match &groups[0] {
            Some(whole) => {
                joined.append(whole.as_str());
            },
            None => {
                return false;
            },
        }
        i = i + 1;
    }
    assert(hits.deep_view().take(i as int) =~= hits.deep_view());
    str_eq(joined.as_str(), text)
}

/// The seconds of the duration `max_duration`, given the matches `hits` of the
/// pair pattern in it: the sum of the seconds of all pairs, in whatever order
/// they stand, where the pairs are all that the text holds.
pub fn duration_from_captures(hits: &Vec<Vec<Option<String>>>, max_duration: &str) -> (r:
    RsrqResult<u64>)
    ensures
        is_outcome(r, duration_seconds(hits.deep_view(), max_duration@)),
        r matches Ok(v) ==> grammar_seconds(max_duration@) == Some(v as nat),
        grammar_seconds(max_duration@) is None ==> r is Err,
{
    proof {
        lemma_accepted_by_grammar(hits.deep_view(), max_duration@);
    }
    if hits.len() == 0 || !covers(hits, max_duration) {
        return Err(
            RsrqError::CmdParserError(concat("Invalid max duration provided: ", max_duration)),
        );
    }
    let mut total_seconds: u64 = 0;
    let mut i: usize = 0;
    assert(hits.deep_view().take(0) =~= Seq::empty());
    while i < hits.len()
        invariant
            i <= hits.len(),
            hits.len() > 0,
            matched_text(hits.deep_view()) == Some(max_duration@),
            sum_seconds(hits.deep_view().take(i as int), max_duration@) == Ok::<
                nat,
                RsrqErrorView,
            >(total_seconds as nat),
        decreases hits.len() - i,
    {
        let groups = &hits[i];
        proof {
            let all = hits.deep_view();
            assert(all.take(i + 1).drop_last() =~= all.take(i as int));
            assert(all.take(i + 1).last() == groups.deep_view());
            lemma_sum_fails_on(all, max_duration@, i + 1);
        }
        let seconds = match pair_of(groups) {
            Some((num, unit)) => match parse_time_unit(unit, num) {
                Ok(s) => s,
                Err(e) => {
                    return Err(e);
                },
            },
            None => {
                return Err(
                    RsrqError::CmdParserError(
                        concat("Invalid max duration provided: ", max_duration),
                    ),
                );
            },
        };
        if seconds > u64::MAX - total_seconds {
            return Err(
                RsrqError::CmdParserError(concat("Invalid max duration provided: ", max_duration)),
            );
        }
        total_seconds = total_seconds + seconds;
        i = i + 1;
    }
    assert(hits.deep_view().take(i as int) =~= hits.deep_view());
    Ok(total_seconds)
}

/// The seconds of the duration `max_duration`: a row of pairs of a number and
/// a unit, `h`, `m` or `s`, in any order and in any number, and nothing
/// before, between or after the pairs. What is accepted comes to what the
/// grammar says, and what the grammar rejects is rejected.
pub fn get_max_runtime(max_duration: &str) -> (r: RsrqResult<u64>)
    ensures
        is_outcome(r, max_runtime(max_duration@)),
        r matches Ok(v) ==> grammar_seconds(max_duration@) == Some(v as nat),
        grammar_seconds(max_duration@) is None ==> r is Err,
{
    match regex_captures_iter(RE_MAX_DURATION, max_duration) {
        Some(hits) => duration_from_captures(&hits, max_duration),
        None => Err(
            RsrqError::CmdParserError(concat("Invalid max duration provided: ", max_duration)),
        ),
    }
}

/// A sum that fails on its first `k` matches fails on all of them, and with
/// the same failure.
pub proof fn lemma_sum_fails_on(hits: Seq<Seq<Option<Seq<char>>>>, text: Seq<char>, k: int)
    requires
        0 <= k <= hits.len(),
    ensures
        sum_seconds(hits.take(k), text) is Err ==> sum_seconds(hits, text) == sum_seconds(
            hits.take(k),
            text,
        ),
    decreases hits.len(),
{
    if k == hits.len() {
        assert(hits.take(k) =~= hits);
    } else {
        lemma_sum_fails_on(hits.drop_last(), text, k);
        assert(hits.drop_last().take(k) =~= hits.take(k));
    }
}

/// The match that the pair of the number `n` and the unit `unit` gives.
pub open spec fn pair_match(n: nat, unit: char) -> Seq<Option<Seq<char>>> {
    seq![Some(pair_text(n, unit)), Some(dec(n)), Some(seq![unit])]
}

/// The seconds in the unit that the character `unit` names.
pub open spec fn char_seconds(unit: char) -> nat {
    if unit == 'h' {
        3600
    } else if unit == 'm' {
        60
    } else {
        1
    }
}

/// The pair of the number `n` and a unit comes to `n` times the seconds of
/// the unit.
pub proof fn lemma_pair_seconds(n: nat, unit: char, text: Seq<char>)
    requires
        unit == 'h' || unit == 'm' || unit == 's',
        n * char_seconds(unit) <= u64::MAX,
    ensures
        pair_seconds(pair_match(n, unit), text) == Ok::<nat, RsrqErrorView>(
            n * char_seconds(unit),
        ),
{
    reveal_strlit("h");
    reveal_strlit("m");
    reveal_strlit("s");
    lemma_dec_reads_back(n);
    let u = seq![unit];
    assert(pair_text(n, unit) =~= dec(n) + u);
    assert(is_pair(pair_match(n, unit)));
    assert("h"@ =~= seq!['h']);
    assert("m"@ =~= seq!['m']);
    assert("s"@ =~= seq!['s']);
    assert(u[0] == unit);
    assert(seq!['h'][0] == 'h');
    assert(seq!['m'][0] == 'm');
    assert(seq!['s'][0] == 's');
    assert(unit_seconds(u) == Some(char_seconds(unit)));
    assert(n <= n * char_seconds(unit)) by (nonlinear_arith)
        requires
            char_seconds(unit) >= 1,
    ;
    assert(at_most(parse_unsigned(dec(n)), u64::MAX as nat) == Some(n));
    assert(time_unit_seconds(u, dec(n)) == Ok::<nat, RsrqErrorView>(n * char_seconds(unit)));
}

/// Three pairs that each come to a number of seconds come to their sum,
/// where the text is the three pairs in a row.
pub proof fn lemma_sum_of_three(
    a: Seq<Option<Seq<char>>>,
    b: Seq<Option<Seq<char>>>,
    c: Seq<Option<Seq<char>>>,
    sa: nat,
    sb: nat,
    sc: nat,
    text: Seq<char>,
)
    requires
        pair_seconds(a, text) == Ok::<nat, RsrqErrorView>(sa),
        pair_seconds(b, text) == Ok::<nat, RsrqErrorView>(sb),
        pair_seconds(c, text) == Ok::<nat, RsrqErrorView>(sc),
        sa + sb + sc <= u64::MAX,
        a[0] is Some && b[0] is Some && c[0] is Some,
        text == a[0]->0 + b[0]->0 + c[0]->0,
    ensures
        matched_text(seq![a, b, c]) == Some(text),
        duration_seconds(seq![a, b, c], text) == Ok::<nat, RsrqErrorView>(sa + sb + sc),
{
    let h0 = Seq::<Seq<Option<Seq<char>>>>::empty();
    let h1 = seq![a];
    let h2 = seq![a, b];
    let h3 = seq![a, b, c];
    assert(h1.drop_last() =~= h0);
    assert(h2.drop_last() =~= h1);
    assert(h3.drop_last() =~= h2);
    assert(sum_seconds(h0, text) == Ok::<nat, RsrqErrorView>(0));
    assert(sum_seconds(h1, text) == Ok::<nat, RsrqErrorView>(sa));
    assert(sum_seconds(h2, text) == Ok::<nat, RsrqErrorView>(sa + sb));
    assert(sum_seconds(h3, text) == Ok::<nat, RsrqErrorView>(sa + sb + sc));
    assert(matched_text(h0) == Some(Seq::<char>::empty()));
    assert(Seq::<char>::empty() + a[0]->0 =~= a[0]->0);
    assert(matched_text(h1) == Some(a[0]->0));
    assert(matched_text(h2) == Some(a[0]->0 + b[0]->0));
    assert(matched_text(h3) == Some(text));
}

/// The text of the pair of the number `n` and the unit `unit`.
pub open spec fn pair_text(n: nat, unit: char) -> Seq<char> {
    dec(n).push(unit)
}

/// A duration of hours, minutes and seconds comes to the same whatever the
/// order of the three pairs: `x` hours, `y` minutes and `z` seconds, written
/// in the order `order` and matched pair by pair, come to
/// `3600 x + 60 y + z` seconds.
pub proof fn lemma_duration_in_any_order(x: nat, y: nat, z: nat, order: Seq<int>)
    requires
        3600 * x + 60 * y + z <= u64::MAX,
        order.len() == 3,
        forall|i: int| 0 <= i < 3 ==> 0 <= #[trigger] order[i] < 3,
        order[0] != order[1],
        order[0] != order[2],
        order[1] != order[2],
    ensures
        duration_seconds(
            Seq::new(
                3,
                |i: int| seq![pair_match(x, 'h'), pair_match(y, 'm'), pair_match(z, 's')][order[i]],
            ),
            seq![pair_text(x, 'h'), pair_text(y, 'm'), pair_text(z, 's')][order[0]] + seq![
                pair_text(x, 'h'),
                pair_text(y, 'm'),
                pair_text(z, 's'),
            ][order[1]] + seq![pair_text(x, 'h'), pair_text(y, 'm'), pair_text(z, 's')][order[2]],
        ) == Ok::<nat, RsrqErrorView>(3600 * x + 60 * y + z),
{
    let pairs = seq![pair_match(x, 'h'), pair_match(y, 'm'), pair_match(z, 's')];
    let texts = seq![pair_text(x, 'h'), pair_text(y, 'm'), pair_text(z, 's')];
    let secs = seq![3600 * x, 60 * y, z];
    let hits = Seq::new(3, |i: int| pairs[order[i]]);
    let text = texts[order[0]] + texts[order[1]] + texts[order[2]];
    lemma_pair_seconds(x, 'h', text);
    lemma_pair_seconds(y, 'm', text);
    lemma_pair_seconds(z, 's', text);
    assert(order[0] >= 0 && order[1] >= 0 && order[2] >= 0);
    let a = pairs[order[0]];
    let b = pairs[order[1]];
    let c = pairs[order[2]];
    assert(hits =~= seq![a, b, c]);
    assert(pair_seconds(a, text) == Ok::<nat, RsrqErrorView>(secs[order[0]]));
    assert(pair_seconds(b, text) == Ok::<nat, RsrqErrorView>(secs[order[1]]));
    assert(pair_seconds(c, text) == Ok::<nat, RsrqErrorView>(secs[order[2]]));
    assert(a[0] == Some(texts[order[0]]));
    assert(b[0] == Some(texts[order[1]]));
    assert(c[0] == Some(texts[order[2]]));
    assert(secs[order[0]] + secs[order[1]] + secs[order[2]] == 3600 * x + 60 * y + z);
    lemma_sum_of_three(a, b, c, secs[order[0]], secs[order[1]], secs[order[2]], text);
}

/// A sum over matches of which one fails is no sum.
pub proof fn lemma_sum_needs_valid_pairs(
    hits: Seq<Seq<Option<Seq<char>>>>,
    text: Seq<char>,
    k: int,
)
    requires
        0 <= k < hits.len(),
        pair_seconds(hits[k], text) is Err,
    ensures
        sum_seconds(hits, text) is Err,
    decreases hits.len(),
{
    if k < hits.len() - 1 {
        lemma_sum_needs_valid_pairs(hits.drop_last(), text, k);
    }
}

/// What is no duration is rejected: a text without a pair, a text of which a
/// part belongs to no pair, and a text that holds an invalid pair.
pub proof fn lemma_duration_needs_valid_pairs(
    hits: Seq<Seq<Option<Seq<char>>>>,
    text: Seq<char>,
    k: int,
)
    requires
        hits.len() == 0 || matched_text(hits) != Some(text) || (0 <= k < hits.len()
            && pair_seconds(hits[k], text) is Err),
    ensures
        duration_seconds(hits, text) is Err,
{
    if hits.len() > 0 && matched_text(hits) == Some(text) {
        lemma_sum_needs_valid_pairs(hits, text, k);
    }
}

/// How many digits `s` begins with.
pub open spec fn digits_len(s: Seq<char>) -> nat
    decreases s.len(),
{
    if s.len() > 0 && digit_value(s[0]) is Some {
        1 + digits_len(s.drop_first())
    } else {
        0
    }
}

/// The seconds of a row of pairs, read from its left end: a run of digits
/// and the unit after it, and then the rest of the row in the same way. The
/// empty row comes to nothing; a text that is no row of pairs comes to none.
pub open spec fn pairs_seconds(text: Seq<char>) -> Option<nat>
    decreases text.len(),
{
    if text.len() == 0 {
        Some(0)
    } else {
        let n = digits_len(text) as int;
        if n == 0 || n >= text.len() {
            None
        } else {
            match (
                digits_value(text.take(n)),
                unit_seconds(seq![text[n]]),
                pairs_seconds(text.skip(n + 1)),
            ) {
                (Some(v), Some(f), Some(rest)) => Some(v * f + rest),
                _ => None,
            }
        }
    }
}

/// What a duration comes to by its grammar alone: the seconds of its pairs,
/// of which it holds at least one and nothing else.
pub open spec fn grammar_seconds(text: Seq<char>) -> Option<nat> {
    if text.len() == 0 {
        None
    } else {
        pairs_seconds(text)
    }
}

/// A run of digits begins with as many digits as it is long.
pub proof fn lemma_digits_are_digits(s: Seq<char>)
    requires
        digits_value(s) is Some,
    ensures
        digits_len(s) == s.len(),
        forall|i: int| 0 <= i < s.len() ==> digit_value(#[trigger] s[i]) is Some,
    decreases s.len(),
{
    if s.len() > 0 {
        lemma_digits_are_digits(s.drop_last());
        assert forall|i: int| 0 <= i < s.len() implies digit_value(#[trigger] s[i]) is Some by {
            if i < s.len() - 1 {
                assert(s.drop_last()[i] == s[i]);
            }
        }
        lemma_all_digits_len(s);
    }
}

/// A text of digits alone begins with as many digits as it is long.
pub proof fn lemma_all_digits_len(s: Seq<char>)
    requires
        forall|i: int| 0 <= i < s.len() ==> digit_value(#[trigger] s[i]) is Some,
    ensures
        digits_len(s) == s.len(),
    decreases s.len(),
{
    if s.len() > 0 {
        let t = s.drop_first();
        assert forall|i: int| 0 <= i < t.len() implies digit_value(#[trigger] t[i]) is Some by {
            assert(t[i] == s[i + 1]);
        }
        lemma_all_digits_len(t);
    }
}

/// The digits at the head of a text are those of its head, where the head
/// does not end in a digit; and those of the head and of the tail, where the
/// head is digits alone.
pub proof fn lemma_digits_len_concat(a: Seq<char>, b: Seq<char>)
    ensures
        digits_len(a) < a.len() ==> digits_len(a + b) == digits_len(a),
        digits_len(a) == a.len() ==> digits_len(a + b) == a.len() + digits_len(b),
    decreases a.len(),
{
    if a.len() == 0 {
        assert(a + b =~= b);
    } else {
        assert((a + b).drop_first() =~= a.drop_first() + b);
        assert((a + b)[0] == a[0]);
        lemma_digits_len_concat(a.drop_first(), b);
    }
}

/// A row of pairs with one more pair at its end comes to the seconds of the
/// row and of the pair.
pub proof fn lemma_pairs_append(row: Seq<char>, num: Seq<char>, unit: Seq<char>)
    requires
        pairs_seconds(row) is Some,
        num.len() > 0,
        digits_value(num) is Some,
        unit_seconds(unit) is Some,
    ensures
        pairs_seconds(row + (num + unit)) == Some(
            pairs_seconds(row)->0 + digits_value(num)->0 * unit_seconds(unit)->0,
        ),
    decreases row.len(),
{
    reveal_strlit("h");
    reveal_strlit("m");
    reveal_strlit("s");
    let pair = num + unit;
    assert(unit.len() == 1);
    assert(digit_value(unit[0]) is None);
    if row.len() == 0 {
        let t = row + pair;
        assert(t =~= pair);
        lemma_digits_are_digits(num);
        lemma_digits_len_concat(num, unit);
        assert(digits_len(unit) == 0);
        let n = num.len() as int;
        assert(pair.take(n) =~= num);
        assert(seq![pair[n]] =~= unit);
        assert(pair.skip(n + 1) =~= Seq::<char>::empty());
        assert(pairs_seconds(pair.skip(n + 1)) == Some(0nat));
    } else {
        let k = digits_len(row) as int;
        let t = row + pair;
        lemma_digits_len_concat(row, pair);
        assert(t.take(k) =~= row.take(k));
        assert(t[k] == row[k]);
        assert(t.skip(k + 1) =~= row.skip(k + 1) + pair);
        lemma_pairs_append(row.skip(k + 1), num, unit);
    }
}

/// What the matches of a duration come to is what the text that they cover
/// comes to by its grammar.
pub proof fn lemma_sum_is_pairs_seconds(hits: Seq<Seq<Option<Seq<char>>>>, text: Seq<char>)
    requires
        matched_text(hits) is Some,
        sum_seconds(hits, text) is Ok,
    ensures
        pairs_seconds(matched_text(hits)->0) == Some(sum_seconds(hits, text)->Ok_0),
    decreases hits.len(),
{
    if hits.len() > 0 {
        let init = hits.drop_last();
        let groups = hits.last();
        lemma_sum_is_pairs_seconds(init, text);
        let num = groups[1]->0;
        let unit = groups[2]->0;
        assert(is_pair(groups));
        assert(parse_unsigned(num) == digits_value(num));
        lemma_pairs_append(matched_text(init)->0, num, unit);
    }
}

/// The grammar decides. A duration that is accepted is a row of pairs and
/// nothing else, and it comes to what its grammar says, whatever the matches
/// were that it was read through; so a text that its grammar rejects is
/// rejected.
pub proof fn lemma_accepted_by_grammar(hits: Seq<Seq<Option<Seq<char>>>>, text: Seq<char>)
    ensures
        duration_seconds(hits, text) matches Ok(v) ==> grammar_seconds(text) == Some(v),
        grammar_seconds(text) is None ==> duration_seconds(hits, text) is Err,
{
    if duration_seconds(hits, text) is Ok {
        lemma_sum_is_pairs_seconds(hits, text);
        let groups = hits.last();
        assert(is_pair(groups));
        assert(matched_text(hits)->0.len() >= groups[0]->0.len());
    }
}

/// Any order, by the grammar. The text of `x` hours, `y` minutes and `z`
/// seconds, the three pairs written in the order `order`, comes to
/// `3600 x + 60 y + z` seconds.
pub proof fn lemma_grammar_in_any_order(x: nat, y: nat, z: nat, order: Seq<int>)
    requires
        order.len() == 3,
        forall|i: int| 0 <= i < 3 ==> 0 <= #[trigger] order[i] < 3,
        order[0] != order[1],
        order[0] != order[2],
        order[1] != order[2],
    ensures
        grammar_seconds(
            seq![pair_text(x, 'h'), pair_text(y, 'm'), pair_text(z, 's')][order[0]] + seq![
                pair_text(x, 'h'),
                pair_text(y, 'm'),
                pair_text(z, 's'),
            ][order[1]] + seq![pair_text(x, 'h'), pair_text(y, 'm'), pair_text(z, 's')][order[2]],
        ) == Some(3600 * x + 60 * y + z),
{
    reveal_strlit("h");
    reveal_strlit("m");
    reveal_strlit("s");
    let nums = seq![dec(x), dec(y), dec(z)];
    let units = seq![seq!['h'], seq!['m'], seq!['s']];
    let texts = seq![pair_text(x, 'h'), pair_text(y, 'm'), pair_text(z, 's')];
    let secs = seq![3600 * x, 60 * y, z];
    let vals = seq![x, y, z];
    lemma_dec_reads_back(x);
    lemma_dec_reads_back(y);
    lemma_dec_reads_back(z);
    assert("h"@ =~= seq!['h']);
    assert("m"@ =~= seq!['m']);
    assert("s"@ =~= seq!['s']);
    assert(seq!['h'][0] == 'h' && seq!['m'][0] == 'm' && seq!['s'][0] == 's');
    assert(unit_seconds(units[0]) == Some(3600nat));
    assert(unit_seconds(units[1]) == Some(60nat));
    assert(unit_seconds(units[2]) == Some(1nat));
    assert(order[0] >= 0 && order[1] >= 0 && order[2] >= 0);
    let a = order[0];
    let b = order[1];
    let c = order[2];
    assert(texts[a] =~= nums[a] + units[a]);
    assert(texts[b] =~= nums[b] + units[b]);
    assert(texts[c] =~= nums[c] + units[c]);
    assert(digits_value(nums[a]) == Some(vals[a]) && digits_value(nums[b]) == Some(vals[b])
        && digits_value(nums[c]) == Some(vals[c]));
    assert forall|i: int| 0 <= i < 3 implies vals[i] * (#[trigger] unit_seconds(units[i]))->0
        == secs[i] by {
        if i == 0 {
            assert(x * 3600 == 3600 * x);
        } else if i == 1 {
            assert(y * 60 == 60 * y);
        } else {
            assert(z * 1 == z);
        }
    }
    assert(vals[a] * unit_seconds(units[a])->0 == secs[a]);
    assert(vals[b] * unit_seconds(units[b])->0 == secs[b]);
    assert(vals[c] * unit_seconds(units[c])->0 == secs[c]);
    let empty = Seq::<char>::empty();
    lemma_pairs_append(empty, nums[a], units[a]);
    assert(empty + texts[a] =~= texts[a]);
    lemma_pairs_append(texts[a], nums[b], units[b]);
    lemma_pairs_append(texts[a] + texts[b], nums[c], units[c]);
    assert(secs[a] + secs[b] + secs[c] == 3600 * x + 60 * y + z);
    assert((texts[a] + texts[b] + texts[c]).len() > 0);
}

} // verus!
