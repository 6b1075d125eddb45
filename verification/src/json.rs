//! The JSON that `serde_json` writes and reads for the library.
//!
//! Nothing here is proved: each function states what the call into
//! `serde_json` returns.

use vstd::prelude::*;

verus! {

/// `serde_json::Error`, which the library passes on without looking into
/// it.
#[verifier::external_type_specification]
#[verifier::external_body]
pub struct ExJsonError(serde_json::Error);

/// What `serde_json::to_string` returns for `text`: the JSON string literal,
/// which is the quoted text with its escapes; `None` where it returns an
/// error.
pub uninterp spec fn json_text(text: Seq<char>) -> Option<Seq<char>>;

/// What `serde_json::from_slice` reads from `line` as a `serde_json::Value`:
/// `None` unless `line` is one JSON object and nothing else; else the
/// object's members in the order in which its map hands them out, each key
/// with its value's text where the value is a JSON string, else with `None`.
pub uninterp spec fn json_members(line: Seq<u8>) -> Option<Seq<(Seq<char>, Option<Seq<char>>)>>;

/// Calls `serde_json::to_string` on `text`. The string it returns is a JSON
/// string literal: serde_json writes every character below U+0020 as an
/// escape, so no line feed is in it.
#[verifier::external_body]
pub(crate) fn encode_text(text: &str) -> (out: Result<String, serde_json::Error>)
    ensures
        match out {
            Ok(literal) => json_text(text@) == Some(literal@) && !literal@.contains('\n'),
            Err(_) => json_text(text@) is None,
        },
{
    serde_json::to_string(text)
}

/// Calls `serde_json::from_slice` for a `serde_json::Value` and, where the
/// value is an object, hands out its members: each key, and the value's text
/// where it is a string.
#[verifier::external_body]
pub(crate) fn parse_members(line: &[u8]) -> (out: Option<Vec<(String, Option<String>)>>)
    ensures
        out.deep_view() == json_members(line@),
{
    let parsed: Result<serde_json::Value, serde_json::Error> = serde_json::from_slice(line);
    match parsed {
        Ok(serde_json::Value::Object(object)) => {
            let mut members: Vec<(String, Option<String>)> = Vec::new();
            for (key, value) in object {
                match value {
                    serde_json::Value::String(text) => members.push((key, Some(text))),
                    _ => members.push((key, None)),
                }
            }
            Some(members)
        }
        _ => None,
    }
}

} // verus!
