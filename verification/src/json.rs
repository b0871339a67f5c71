//! JSON texts, as `serde_json` writes and reads them.

use std::collections::BTreeMap;
use vstd::prelude::*;

verus! {

#[verifier::external_type_specification]
#[verifier::external_body]
pub struct ExJsonError(serde_json::Error);

/// The JSON text that `serde_json::to_string` writes for a list of strings:
/// an array of string literals.
pub uninterp spec fn json_of_texts(texts: Seq<Seq<char>>) -> Seq<char>;

/// What `serde_json::from_str` reads from `text` as a map from strings to
/// JSON values, where it reads one: the members in the order of their keys,
/// each with its value where that value is a string, and with nothing where
/// it is of another kind. `None` where `text` is no such map.
pub uninterp spec fn json_object(text: Seq<char>) -> Option<Seq<(Seq<char>, Option<Seq<char>>)>>;

/// The members of a decoded object, with their texts as character sequences.
pub open spec fn members_view(members: Seq<(String, Option<String>)>) -> Seq<
    (Seq<char>, Option<Seq<char>>),
> {
    members.map_values(
        |m: (String, Option<String>)|
            (
                m.0@,
                match m.1 {
                    Some(text) => Some(text@),
                    None => None,
                },
            ),
    )
}

/// `serde_json::to_string` on a list of strings. It fails only where the
/// value refuses to be written or holds a map whose keys are no strings;
/// a list of strings does neither, so it succeeds. The text it writes
/// depends on the strings alone.
#[verifier::external_body]
pub(crate) fn encode_texts(texts: &Vec<String>) -> (r: Result<String, serde_json::Error>)
    ensures
        r is Ok,
        r matches Ok(text) ==> text@ == json_of_texts(texts.deep_view()),
{
    serde_json::to_string(texts)
}

/// `serde_json::from_str` into a map from strings to JSON values, handed on
/// as a list of members in key order. Whether it succeeds, and with which
/// members, depends on the text alone.
#[verifier::external_body]
pub(crate) fn decode_object(text: &str) -> (r: Result<
    Vec<(String, Option<String>)>,
    serde_json::Error,
>)
    ensures
        match r {
            Ok(members) => json_object(text@) == Some(members_view(members@)),
            Err(_) => json_object(text@) is None,
        },
{
    let members: BTreeMap<String, serde_json::Value> = serde_json::from_str(text)?;
    Ok(members.into_iter().map(|(key, value)| match value {
        serde_json::Value::String(text) => (key, Some(text)),
        _ => (key, None),
    }).collect())
}

} // verus!
