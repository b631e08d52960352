//! Reading typed values out of text and out of the fields of a hash.

use crate::model::error::RsrqError;
use crate::model::types::RsrqResult;
use crate::util::text::{
    at_most, parse_signed, parse_signed_text, parse_unsigned, parse_unsigned_text, str_eq,
};
use vstd::prelude::*;
use vstd::string::*;

verus! {

/// A type whose values can be read from text.
pub trait FromText: Sized {
    /// Whether `s` reads as a value of the type.
    spec fn parses(s: Seq<char>) -> bool;

    /// Whether `v` is the value that `s` reads as.
    spec fn denotes(s: Seq<char>, v: Self) -> bool;

    /// The value that `s` reads as, if it reads as one.
    fn from_text(s: &str) -> (r: Option<Self>)
        ensures
            r is Some <==> Self::parses(s@),
            r matches Some(v) ==> Self::denotes(s@, v),
    ;
}

impl FromText for u16 {
    open spec fn parses(s: Seq<char>) -> bool {
        at_most(parse_unsigned(s), u16::MAX as nat) is Some
    }

    open spec fn denotes(s: Seq<char>, v: u16) -> bool {
        parse_unsigned(s) == Some(v as nat)
    }

    fn from_text(s: &str) -> (r: Option<u16>) {
        match parse_unsigned_text(s, u16::MAX as u128) {
            Some(n) => Some(n as u16),
            None => None,
        }
    }
}

impl FromText for u32 {
    open spec fn parses(s: Seq<char>) -> bool {
        at_most(parse_unsigned(s), u32::MAX as nat) is Some
    }

    open spec fn denotes(s: Seq<char>, v: u32) -> bool {
        parse_unsigned(s) == Some(v as nat)
    }

    fn from_text(s: &str) -> (r: Option<u32>) {
        match parse_unsigned_text(s, u32::MAX as u128) {
            Some(n) => Some(n as u32),
            None => None,
        }
    }
}

impl FromText for u64 {
    open spec fn parses(s: Seq<char>) -> bool {
        at_most(parse_unsigned(s), u64::MAX as nat) is Some
    }

    open spec fn denotes(s: Seq<char>, v: u64) -> bool {
        parse_unsigned(s) == Some(v as nat)
    }

    fn from_text(s: &str) -> (r: Option<u64>) {
        match parse_unsigned_text(s, u64::MAX as u128) {
            Some(n) => Some(n as u64),
            None => None,
        }
    }
}

impl FromText for u128 {
    open spec fn parses(s: Seq<char>) -> bool {
        at_most(parse_unsigned(s), u128::MAX as nat) is Some
    }

    open spec fn denotes(s: Seq<char>, v: u128) -> bool {
        parse_unsigned(s) == Some(v as nat)
    }

    fn from_text(s: &str) -> (r: Option<u128>) {
        parse_unsigned_text(s, u128::MAX)
    }
}

impl FromText for usize {
    open spec fn parses(s: Seq<char>) -> bool {
        at_most(parse_unsigned(s), usize::MAX as nat) is Some
    }

    open spec fn denotes(s: Seq<char>, v: usize) -> bool {
        parse_unsigned(s) == Some(v as nat)
    }

    fn from_text(s: &str) -> (r: Option<usize>) {
        match parse_unsigned_text(s, usize::MAX as u128) {
            Some(n) => Some(n as usize),
            None => None,
        }
    }
}

impl FromText for i32 {
    open spec fn parses(s: Seq<char>) -> bool {
        parse_signed(s) matches Some(i) && i32::MIN <= i <= i32::MAX
    }

    open spec fn denotes(s: Seq<char>, v: i32) -> bool {
        parse_signed(s) == Some(v as int)
    }

    fn from_text(s: &str) -> (r: Option<i32>) {
        match parse_signed_text(s, 2147483648, 2147483647) {
            Some((negative, n)) => {
                if !negative {
                    Some(n as i32)
                } else if n == 2147483648 {
                    Some(i32::MIN)
                } else {
                    Some(-(n as i32))
                }
            },
            None => None,
        }
    }
}

impl FromText for bool {
    open spec fn parses(s: Seq<char>) -> bool {
        s == "true"@ || s == "false"@
    }

    open spec fn denotes(s: Seq<char>, v: bool) -> bool {
        v == (s == "true"@)
    }

    fn from_text(s: &str) -> (r: Option<bool>) {
        if str_eq(s, "true") {
            Some(true)
        } else if str_eq(s, "false") {
            Some(false)
        } else {
            None
        }
    }
}

impl FromText for String {
    open spec fn parses(s: Seq<char>) -> bool {
        true
    }

    open spec fn denotes(s: Seq<char>, v: String) -> bool {
        v@ == s
    }

    fn from_text(s: &str) -> (r: Option<String>) {
        Some(s.to_owned())
    }
}

/// Reads `input` as a value of type `T`; text that does not read as one is
/// handed back in the error.
pub fn parse_string<T: FromText>(input: &str) -> (r: RsrqResult<T>)
    ensures
        r is Ok <==> T::parses(input@),
        r matches Ok(v) ==> T::denotes(input@, v),
        r matches Err(e) ==> e matches RsrqError::ParserError(m) && m@ == input@,
{
    match T::from_text(input) {
        Some(val) => Ok(val),
        None => Err(RsrqError::ParserError(input.to_owned())),
    }
}

/// Reads `input` as a value of type `T`, and the empty text as no value.
pub fn parse_string_optional<T: FromText>(input: &str) -> (r: RsrqResult<Option<T>>)
    ensures
        input@.len() == 0 ==> r matches Ok(None),
        input@.len() > 0 ==> (r is Ok <==> T::parses(input@)),
        input@.len() > 0 ==> (r matches Ok(o) ==> o matches Some(v) && T::denotes(input@, v)),
        r matches Err(e) ==> e matches RsrqError::ParserError(m) && m@ == input@,
{
    if input.is_empty() {
        return Ok(None);
    }
    match parse_string::<T>(input) {
        Ok(val) => Ok(Some(val)),
        Err(e) => Err(e),
    }
}

/// The value of the first field named `key`, if there is one.
pub open spec fn field_value(fields: Seq<(Seq<char>, Seq<char>)>, key: Seq<char>) -> Option<
    Seq<char>,
>
    decreases fields.len(),
{
    if fields.len() == 0 {
        None
    } else if fields[0].0 == key {
        Some(fields[0].1)
    } else {
        field_value(fields.drop_first(), key)
    }
}

/// The value of the first field named `key`, if there is one.
pub fn field_lookup<'a>(map: &'a Vec<(String, String)>, key: &str) -> (r: Option<&'a String>)
    ensures
        r is Some <==> field_value(map.deep_view(), key@) is Some,
        r matches Some(v) ==> field_value(map.deep_view(), key@) == Some(v@),
{
    let ghost fields = map.deep_view();
    let mut i: usize = 0;
    assert(fields.skip(0) =~= fields);
    while i < map.len()
        invariant
            i <= map.len(),
            fields == map.deep_view(),
            field_value(fields, key@) == field_value(fields.skip(i as int), key@),
        decreases map.len() - i,
    {
        assert(fields.skip(i as int)[0] == fields[i as int]);
        assert(fields[i as int] == (map@[i as int].0@, map@[i as int].1@));
        if str_eq(map[i].0.as_str(), key) {
            return Some(&map[i].1);
        }
        assert(fields.skip(i as int).drop_first() =~= fields.skip(i + 1));
        i = i + 1;
    }
    None
}

/// Reads the field `key` of a hash as a value of type `T`. The field has to
/// be there.
pub fn btree_get<T: FromText>(map: &Vec<(String, String)>, key: &str) -> (r: RsrqResult<T>)
    ensures
        match field_value(map.deep_view(), key@) {
            Some(text) => {
                &&& r is Ok <==> T::parses(text)
                &&& r matches Ok(v) ==> T::denotes(text, v)
                &&& r matches Err(e) ==> e matches RsrqError::ParserError(m) && m@ == text
            },
            None => r matches Err(RsrqError::ParserError(m)) && m@ == "Key not found."@,
        },
{
    match field_lookup(map, key) {
        Some(str_value) => parse_string::<T>(str_value.as_str()),
        None => Err(RsrqError::ParserError("Key not found.".to_owned())),
    }
}

/// Reads the field `key` of a hash as a value of type `T`, and a missing or
/// empty field as no value.
pub fn btree_get_opt<T: FromText>(map: &Vec<(String, String)>, key: &str) -> (r: RsrqResult<
    Option<T>,
>)
    ensures
        match field_value(map.deep_view(), key@) {
            Some(text) => if text.len() == 0 {
                r matches Ok(None)
            } else {
                &&& r is Ok <==> T::parses(text)
                &&& r matches Ok(o) ==> o matches Some(v) && T::denotes(text, v)
                &&& r matches Err(e) ==> e matches RsrqError::ParserError(m) && m@ == text
            },
            None => r matches Ok(None),
        },
{
    match field_lookup(map, key) {
        Some(str_value) => parse_string_optional::<T>(str_value.as_str()),
        None => Ok(None),
    }
}

} // verus!
