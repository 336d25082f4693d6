//! The JSON encoding of the stored entries, through `serde_json`.

use std::collections::BTreeMap;
use vstd::prelude::*;

verus! {

/// `serde_json`'s error type, carried through opaquely.
#[verifier::external_type_specification]
#[verifier::external_body]
pub struct ExJsonError(serde_json::Error);

/// The compact JSON text that `serde_json` writes for a string-to-string map.
pub uninterp spec fn json_text(entries: Map<Seq<char>, Seq<char>>) -> Seq<char>;

/// The string-to-string map that `serde_json` reads from `text`, if `text` is
/// one JSON object whose values are all strings.
pub uninterp spec fn json_entries(text: Seq<char>) -> Option<Map<Seq<char>, Seq<char>>>;

/// Calls `serde_json::to_string` on a map of strings.
///
/// Claimed of it: it succeeds (its documentation names only failing
/// `Serialize` impls and non-string keys as causes of failure); the text is
/// `json_text` of the map's contents; the compact writer puts no line break
/// in it (control characters inside strings are escaped);
/// and `serde_json::from_str` reads the same map back from it.
#[verifier::external_body]
pub(crate) fn encode_entries(m: &BTreeMap<String, String>) -> (res: Result<String, serde_json::Error>)
    ensures
        res is Ok,
        res matches Ok(s) ==> s@ == json_text(m.deep_view()),
        res matches Ok(s) ==> !s@.contains('\n'),
        res matches Ok(s) ==> json_entries(s@) == Some(m.deep_view()),
{
    serde_json::to_string(m)
}

/// Calls `serde_json::from_str` to read a map of strings.
///
/// Claimed of it: it succeeds exactly when `json_entries` of the text is
/// some map, and then returns a map with those contents.
#[verifier::external_body]
pub(crate) fn decode_entries(text: &str) -> (res: Result<BTreeMap<String, String>, serde_json::Error>)
    ensures
        res is Ok <==> json_entries(text@) is Some,
        res matches Ok(m) ==> json_entries(text@) == Some(m.deep_view()),
{
    serde_json::from_str(text)
}

} // verus!
