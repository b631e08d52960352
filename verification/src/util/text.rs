//! Text: joining, decimal numbers, trimming and splitting, all over the
//! characters of a string.

use vstd::prelude::*;
use vstd::string::*;

verus! {

/// The character that writes the digit `d`, for `d` below ten.
pub open spec fn digit_char(d: nat) -> char {
    (('0' as u32 + d) as u32) as char
}

/// The decimal numeral of `n`, without leading zeros.
pub open spec fn dec(n: nat) -> Seq<char>
    decreases n,
{
    if n < 10 {
        seq![digit_char(n)]
    } else {
        dec(n / 10).push(digit_char(n % 10))
    }
}

/// The decimal numeral of an integer, with a minus sign below zero.
pub open spec fn dec_int(i: int) -> Seq<char> {
    if i < 0 {
        seq!['-'] + dec((-i) as nat)
    } else {
        dec(i as nat)
    }
}

/// The numeral of `n` in at least two digits.
pub open spec fn pad2(n: nat) -> Seq<char> {
    if n < 10 {
        seq!['0'] + dec(n)
    } else {
        dec(n)
    }
}

/// The value of a digit character.
pub open spec fn digit_value(c: char) -> Option<nat> {
    if '0' <= c && c <= '9' {
        Some((c as u32 - '0' as u32) as nat)
    } else {
        None
    }
}

/// The value of a run of digits; the empty run has value zero.
pub open spec fn digits_value(s: Seq<char>) -> Option<nat>
    decreases s.len(),
{
    if s.len() == 0 {
        Some(0)
    } else {
        match (digits_value(s.drop_last()), digit_value(s.last())) {
            (Some(v), Some(d)) => Some(v * 10 + d),
            _ => None,
        }
    }
}

/// What an unsigned number reads as: an optional `+`, then at least one digit.
pub open spec fn parse_unsigned(s: Seq<char>) -> Option<nat> {
    let body = if s.len() > 0 && s[0] == '+' {
        s.drop_first()
    } else {
        s
    };
    if body.len() == 0 {
        None
    } else {
        digits_value(body)
    }
}

/// What a signed number reads as: an optional `+` or `-`, then at least one digit.
pub open spec fn parse_signed(s: Seq<char>) -> Option<int> {
    if s.len() > 0 && s[0] == '-' {
        if s.len() == 1 {
            None
        } else {
            match digits_value(s.drop_first()) {
                Some(v) => Some(-(v as int)),
                None => None,
            }
        }
    } else {
        match parse_unsigned(s) {
            Some(v) => Some(v as int),
            None => None,
        }
    }
}

/// `v` where it is at most `max`.
pub open spec fn at_most(v: Option<nat>, max: nat) -> Option<nat> {
    match v {
        Some(n) if n <= max => Some(n),
        _ => None,
    }
}

/// `s` without the characters `c` it starts with.
pub open spec fn trim_start_char(s: Seq<char>, c: char) -> Seq<char>
    decreases s.len(),
{
    if s.len() > 0 && s[0] == c {
        trim_start_char(s.drop_first(), c)
    } else {
        s
    }
}

/// `s` without the characters `c` it ends with.
pub open spec fn trim_end_char(s: Seq<char>, c: char) -> Seq<char>
    decreases s.len(),
{
    if s.len() > 0 && s.last() == c {
        trim_end_char(s.drop_last(), c)
    } else {
        s
    }
}

/// `s` without the characters `c` at either end.
pub open spec fn trim_char(s: Seq<char>, c: char) -> Seq<char> {
    trim_end_char(trim_start_char(s, c), c)
}

/// The place of the first `c` in `s`, or the length of `s` where there is none.
pub open spec fn index_of(s: Seq<char>, c: char) -> int
    decreases s.len(),
{
    if s.len() == 0 {
        0
    } else if s[0] == c {
        0
    } else {
        1 + index_of(s.drop_first(), c)
    }
}

/// The piece number `k` of `s` cut at every `sep`, counted from zero.
pub open spec fn piece(s: Seq<char>, sep: char, k: nat) -> Option<Seq<char>>
    decreases k,
{
    let i = index_of(s, sep);
    if k == 0 {
        Some(s.take(i))
    } else if i < s.len() {
        piece(s.skip(i + 1), sep, (k - 1) as nat)
    } else {
        None
    }
}

/// What is left of `s` after its first `k` separators `sep`; nothing where
/// it holds fewer.
pub open spec fn rest_after(s: Seq<char>, sep: char, k: nat) -> Option<Seq<char>>
    decreases k,
{
    let i = index_of(s, sep);
    if k == 0 {
        Some(s)
    } else if i < s.len() {
        rest_after(s.skip(i + 1), sep, (k - 1) as nat)
    } else {
        None
    }
}

pub proof fn lemma_index_of_bounds(s: Seq<char>, c: char)
    ensures
        0 <= index_of(s, c) <= s.len(),
        index_of(s, c) < s.len() ==> s[index_of(s, c)] == c,
        forall|j: int| 0 <= j < index_of(s, c) ==> s[j] != c,
    decreases s.len(),
{
    if s.len() > 0 && s[0] != c {
        lemma_index_of_bounds(s.drop_first(), c);
        let t = s.drop_first();
        assert forall|j: int| 0 <= j < index_of(s, c) implies s[j] != c by {
            if j > 0 {
                assert(s[j] == t[j - 1]);
            }
        }
    }
}

/// A run of digits that reads as a number reads as a smaller one when cut short.
pub proof fn lemma_digits_prefix(s: Seq<char>, k: int)
    requires
        0 <= k <= s.len(),
        digits_value(s) is Some,
    ensures
        digits_value(s.take(k)) is Some,
        digits_value(s.take(k))->0 <= digits_value(s)->0,
    decreases s.len(),
{
    if k == s.len() {
        assert(s.take(k) =~= s);
    } else {
        lemma_digits_prefix(s.drop_last(), k);
        assert(s.drop_last().take(k) =~= s.take(k));
    }
}

/// The numeral of `n` reads back as `n`.
pub proof fn lemma_dec_reads_back(n: nat)
    ensures
        dec(n).len() > 0,
        digits_value(dec(n)) == Some(n),
        dec(n)[0] != '+',
        dec(n)[0] != '-',
        parse_unsigned(dec(n)) == Some(n),
    decreases n,
{
    let s = dec(n);
    if n < 10 {
        assert(s.drop_last() =~= Seq::<char>::empty());
        assert(digits_value(s.drop_last()) == Some(0nat));
        assert(s.last() == digit_char(n));
        assert(digit_value(s.last()) == Some(n));
        assert(digits_value(s) == Some(n));
    } else {
        lemma_dec_reads_back(n / 10);
        assert(s.drop_last() =~= dec(n / 10));
        assert(s.last() == digit_char(n % 10));
        assert(digit_value(s.last()) == Some(n % 10));
        assert(digits_value(s) == Some(n));
        assert(s[0] == dec(n / 10)[0]);
    }
}

/// The numeral of an integer reads back as that integer.
pub proof fn lemma_dec_int_reads_back(i: int)
    ensures
        parse_signed(dec_int(i)) == Some(i),
{
    if i < 0 {
        let n = (-i) as nat;
        lemma_dec_reads_back(n);
        let s = dec_int(i);
        assert(s.drop_first() =~= dec(n));
    } else {
        lemma_dec_reads_back(i as nat);
    }
}

/// `a` followed by `b`.
pub fn concat(a: &str, b: &str) -> (r: String)
    ensures
        r@ == a@ + b@,
{
    String::from_str(a).concat(b)
}

/// `a`, `b` and `c` in a row.
pub fn concat3(a: &str, b: &str, c: &str) -> (r: String)
    ensures
        r@ == a@ + b@ + c@,
{
    String::from_str(a).concat(b).concat(c)
}

/// Whether two strings hold the same characters.
pub fn str_eq(a: &str, b: &str) -> (r: bool)
    ensures
        r == (a@ == b@),
{
    let x = a.to_owned();
    let y = b.to_owned();
    x == y
}

/// The characters of a string.
pub fn chars_of(s: &str) -> (v: Vec<char>)
    ensures
        v@ == s@,
{
    let mut v: Vec<char> = Vec::new();
    for c in it: s.chars()
        invariant
            v@ == it.seq().take(it.index() as int),
            it.seq() == s@,
    {
        v.push(c);
    }
    v
}

/// The one-character string of a digit.
fn digit_str(d: u8) -> (r: &'static str)
    requires
        d < 10,
    ensures
        r@ == seq![digit_char(d as nat)],
{
    proof {
        reveal_strlit("0");
        reveal_strlit("1");
        reveal_strlit("2");
        reveal_strlit("3");
        reveal_strlit("4");
        reveal_strlit("5");
        reveal_strlit("6");
        reveal_strlit("7");
        reveal_strlit("8");
        reveal_strlit("9");
    }
    let r = if d == 0 {
        "0"
    } else if d == 1 {
        "1"
    } else if d == 2 {
        "2"
    } else if d == 3 {
        "3"
    } else if d == 4 {
        "4"
    } else if d == 5 {
        "5"
    } else if d == 6 {
        "6"
    } else if d == 7 {
        "7"
    } else if d == 8 {
        "8"
    } else {
        "9"
    };
    assert(r@ =~= seq![digit_char(d as nat)]);
    r
}

/// The decimal numeral of `n`.
pub fn u128_to_string(n: u128) -> (r: String)
    ensures
        r@ == dec(n as nat),
    decreases n,
{
    if n < 10 {
        String::from_str(digit_str(n as u8))
    } else {
        let mut s = u128_to_string(n / 10);
        s.append(digit_str((n % 10) as u8));
        assert(s@ =~= dec(n as nat));
        s
    }
}

/// The decimal numeral of `n`.
pub fn u64_to_string(n: u64) -> (r: String)
    ensures
        r@ == dec(n as nat),
{
    u128_to_string(n as u128)
}

/// The decimal numeral of `n`.
pub fn u32_to_string(n: u32) -> (r: String)
    ensures
        r@ == dec(n as nat),
{
    u128_to_string(n as u128)
}

/// The decimal numeral of `n`.
pub fn usize_to_string(n: usize) -> (r: String)
    ensures
        r@ == dec(n as nat),
{
    u128_to_string(n as u128)
}

/// The decimal numeral of `n`, with a minus sign below zero.
pub fn i32_to_string(n: i32) -> (r: String)
    ensures
        r@ == dec_int(n as int),
{
    if n < 0 {
        let m: u128 = (-(n as i64)) as u128;
        proof {
            reveal_strlit("-");
        }
        let r = concat("-", u128_to_string(m).as_str());
        assert(r@ =~= dec_int(n as int));
        r
    } else {
        u128_to_string(n as u128)
    }
}

/// `true` or `false`, as text.
pub fn bool_to_string(b: bool) -> (r: String)
    ensures
        r@ == (if b {
            "true"@
        } else {
            "false"@
        }),
{
    if b {
        String::from_str("true")
    } else {
        String::from_str("false")
    }
}

/// The numeral of `n` in at least two digits.
pub fn pad2_string(n: u128) -> (r: String)
    ensures
        r@ == pad2(n as nat),
{
    if n < 10 {
        proof {
            reveal_strlit("0");
        }
        let r = concat("0", u128_to_string(n).as_str());
        assert(r@ =~= pad2(n as nat));
        r
    } else {
        u128_to_string(n)
    }
}

/// The value of the digits of `v` from `start` on, where they are digits only
/// and the value is at most `max`.
fn parse_digits(v: &Vec<char>, start: usize, max: u128) -> (r: Option<u128>)
    requires
        start <= v.len(),
    ensures
        r matches Some(n) ==> digits_value(v@.skip(start as int)) == Some(n as nat) && n <= max,
        r is None ==> at_most(digits_value(v@.skip(start as int)), max as nat) is None,
{
    let ghost whole = v@.skip(start as int);
    let mut acc: u128 = 0;
    let mut i: usize = start;
    while i < v.len()
        invariant
            start <= i <= v.len(),
            whole == v@.skip(start as int),
            digits_value(whole.take(i - start)) == Some(acc as nat),
            acc <= max,
        decreases v.len() - i,
    {
        let c = v[i];
        let ghost next = whole.take(i - start + 1);
        proof {
            assert(next.drop_last() =~= whole.take(i - start));
            assert(next.last() == c);
        }
        if c < '0' || c > '9' {
            proof {
                assert(digits_value(next) is None);
                if digits_value(whole) is Some {
                    lemma_digits_prefix(whole, i - start + 1);
                }
            }
            return None;
        }
        let d: u128 = (c as u32 - '0' as u32) as u128;
        if max < d || acc > (max - d) / 10 {
            proof {
                assert(digits_value(next) == Some((acc * 10 + d) as nat));
                assert(acc * 10 + d > max) by (nonlinear_arith)
                    requires
                        max < d || acc > (max - d) / 10,
                        0 <= d < 10,
                        acc >= 0,
                ;
                if digits_value(whole) is Some {
                    lemma_digits_prefix(whole, i - start + 1);
                }
            }
            return None;
        }
        assert(acc * 10 + d <= max) by (nonlinear_arith)
            requires
                acc <= (max - d) / 10,
                d <= max,
        ;
        acc = acc * 10 + d;
        i = i + 1;
    }
    proof {
        assert(whole.take(i - start) =~= whole);
    }
    Some(acc)
}

/// The unsigned number that `s` reads as, where it is at most `max`.
pub fn parse_unsigned_text(s: &str, max: u128) -> (r: Option<u128>)
    ensures
        r matches Some(n) ==> parse_unsigned(s@) == Some(n as nat) && n <= max,
        r is None ==> at_most(parse_unsigned(s@), max as nat) is None,
{
    let v = chars_of(s);
    let start: usize = if v.len() > 0 && v[0] == '+' {
        1
    } else {
        0
    };
    proof {
        if start == 1 {
            assert(v@.skip(1) =~= s@.drop_first());
        } else {
            assert(v@.skip(0) =~= s@);
        }
    }
    if start == v.len() {
        None
    } else {
        parse_digits(&v, start, max)
    }
}

/// The number that `s` reads as, where it lies between `-below` and `max`.
pub fn parse_signed_text(s: &str, below: u128, max: u128) -> (r: Option<(bool, u128)>)
    ensures
        r matches Some((negative, n)) ==> parse_signed(s@) == Some(
            if negative {
                -(n as int)
            } else {
                n as int
            },
        ) && (if negative {
            n <= below
        } else {
            n <= max
        }),
        r is None ==> (match parse_signed(s@) {
            Some(i) => i < -(below as int) || i > max as int,
            None => true,
        }),
{
    let v = chars_of(s);
    if v.len() > 0 && v[0] == '-' {
        proof {
            assert(v@.skip(1) =~= s@.drop_first());
        }
        if v.len() == 1 {
            None
        } else {
            match parse_digits(&v, 1, below) {
                Some(n) => Some((true, n)),
                None => None,
            }
        }
    } else {
        match parse_unsigned_text(s, max) {
            Some(n) => Some((false, n)),
            None => None,
        }
    }
}

/// `s` without the characters `c` at either end.
pub fn trim_matches(s: &str, c: char) -> (r: String)
    ensures
        r@ == trim_char(s@, c),
{
    let v = chars_of(s);
    let mut i: usize = 0;
    assert(s@.skip(0) =~= s@);
    while i < v.len() && v[i] == c
        invariant
            i <= v.len(),
            v@ == s@,
            trim_start_char(s@, c) == trim_start_char(s@.skip(i as int), c),
        decreases v.len() - i,
    {
        proof {
            assert(s@.skip(i as int).drop_first() =~= s@.skip(i + 1));
        }
        i = i + 1;
    }
    let ghost rest = s@.skip(i as int);
    assert(trim_start_char(s@, c) == rest);
    let mut j: usize = v.len();
    assert(rest.take(j - i) =~= rest);
    while j > i && v[j - 1] == c
        invariant
            i <= j <= v.len(),
            v@ == s@,
            rest == s@.skip(i as int),
            trim_end_char(rest, c) == trim_end_char(rest.take(j - i), c),
        decreases j,
    {
        proof {
            assert(rest.take(j - i).drop_last() =~= rest.take(j - i - 1));
            assert(rest.take(j - i).last() == v@[j - 1]);
        }
        j = j - 1;
    }
    proof {
        assert(rest.take(0) =~= Seq::<char>::empty());
        assert(rest.take(j - i) =~= s@.subrange(i as int, j as int));
        if j > i {
            assert(rest.take(j - i).last() == v@[j - 1]);
        }
    }
    s.substring_char(i, j).to_owned()
}

/// The piece number `k` of `s` cut at every `sep`, counted from zero.
pub fn split_piece(s: &str, sep: char, k: usize) -> (r: Option<String>)
    ensures
        r is Some <==> piece(s@, sep, k as nat) is Some,
        r matches Some(p) ==> piece(s@, sep, k as nat) == Some(p@),
{
    let v = chars_of(s);
    let mut start: usize = 0;
    let mut left: usize = k;
    assert(s@.skip(0) =~= s@);
    loop
        invariant
            start <= v.len(),
            v@ == s@,
            piece(s@, sep, k as nat) == piece(s@.skip(start as int), sep, left as nat),
        decreases v.len() - start, left,
    {
        let ghost tail = s@.skip(start as int);
        let mut end: usize = start;
        while end < v.len() && v[end] != sep
            invariant
                start <= end <= v.len(),
                v@ == s@,
                tail == s@.skip(start as int),
                index_of(tail, sep) == (end - start) + index_of(s@.skip(end as int), sep),
            decreases v.len() - end,
        {
            proof {
                assert(s@.skip(end as int).drop_first() =~= s@.skip(end + 1));
            }
            end = end + 1;
        }
        proof {
            lemma_index_of_bounds(s@.skip(end as int), sep);
            assert(index_of(tail, sep) == end - start);
        }
        if left == 0 {
            proof {
                assert(tail.take(end - start) =~= s@.subrange(start as int, end as int));
            }
            return Some(s.substring_char(start, end).to_owned());
        }
        if end == v.len() {
            return None;
        }
        proof {
            assert(tail.skip(end - start + 1) =~= s@.skip(end + 1));
        }
        start = end + 1;
        left = left - 1;
    }
}

/// What is left of `s` after its first `k` separators `sep`.
pub fn split_rest(s: &str, sep: char, k: usize) -> (r: Option<String>)
    ensures
        r is Some <==> rest_after(s@, sep, k as nat) is Some,
        r matches Some(p) ==> rest_after(s@, sep, k as nat) == Some(p@),
{
    let v = chars_of(s);
    let mut start: usize = 0;
    let mut left: usize = k;
    assert(s@.skip(0) =~= s@);
    while left > 0
        invariant
            start <= v.len(),
            v@ == s@,
            rest_after(s@, sep, k as nat) == rest_after(s@.skip(start as int), sep, left as nat),
        decreases left,
    {
        let ghost tail = s@.skip(start as int);
        let mut end: usize = start;
        while end < v.len() && v[end] != sep
            invariant
                start <= end <= v.len(),
                v@ == s@,
                tail == s@.skip(start as int),
                index_of(tail, sep) == (end - start) + index_of(s@.skip(end as int), sep),
            decreases v.len() - end,
        {
            proof {
                assert(s@.skip(end as int).drop_first() =~= s@.skip(end + 1));
            }
            end = end + 1;
        }
        proof {
            lemma_index_of_bounds(s@.skip(end as int), sep);
            assert(index_of(tail, sep) == end - start);
        }
        if end == v.len() {
            return None;
        }
        proof {
            assert(tail.skip(end - start + 1) =~= s@.skip(end + 1));
        }
        start = end + 1;
        left = left - 1;
    }
    proof {
        assert(s@.skip(start as int) =~= s@.subrange(start as int, v.len() as int));
    }
    Some(s.substring_char(start, v.len()).to_owned())
}

} // verus!
