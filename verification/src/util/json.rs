//! JSON documents, as the `serde_json` crate reads them.

use vstd::prelude::*;

verus! {

/// What stands at `outer.inner` in the JSON document `json`: the reason why
/// `json` is no JSON document; else the text of the string that is the member
/// `inner` of the object that is the member `outer` of the document, and
/// nothing where there is no such member or the member is no string.
pub uninterp spec fn json_text_at(json: Seq<char>, outer: Seq<char>, inner: Seq<char>) -> Result<
    Option<Seq<char>>,
    Seq<char>,
>;

/// `serde_json::from_str` to a `serde_json::Value`, indexed by `outer` and
/// then by `inner`, and read through `serde_json::Value::as_str`; a document
/// that does not parse gives the description of the failure. The result is a
/// function of the three texts alone, and nothing more is claimed of it.
#[verifier::external_body]
pub(crate) fn json_string_at(json: &str, outer: &str, inner: &str) -> (r: Result<
    Option<String>,
    String,
>)
    ensures
        match (r, json_text_at(json@, outer@, inner@)) {
            (Ok(Some(s)), Ok(Some(t))) => s@ == t,
            (Ok(None), Ok(None)) => true,
            (Err(e), Err(m)) => e@ == m,
            _ => false,
        },
{
    match serde_json::from_str::<serde_json::Value>(json) {
        Ok(value) => Ok(value[outer][inner].as_str().map(|s| s.to_owned())),
        Err(e) => Err(e.to_string()),
    }
}

} // verus!
