//! JSON documents: parsed by serde_json, then held and read as a value of
//! this library.
use vstd::prelude::*;
use crate::text;

verus! {

/// A JSON value. Numbers are kept as their text; an object keeps its members
/// in the parser's order, each key once.
#[derive(Debug, PartialEq, Eq)]
pub enum Json {
    Null,
    Bool(bool),
    Number(String),
    Text(String),
    Array(Vec<Json>),
    Object(Vec<(String, Json)>),
}

/// A document as serde_json holds it, opaque here.
#[verifier::external_type_specification]
#[verifier::external_body]
pub struct ExJsonValue(serde_json::Value);

/// Why a text is not a JSON document, opaque here.
#[verifier::external_type_specification]
#[verifier::external_body]
pub struct ExJsonError(serde_json::Error);

/// The document that a text holds, where it is JSON.
pub uninterp spec fn json_of(text: Seq<char>) -> Option<Json>;

/// The value of the first member under `key`.
pub open spec fn member(members: Seq<(String, Json)>, key: Seq<char>) -> Option<Json>
    decreases members.len(),
{
    if members.len() == 0 {
        None
    } else if members[0].0@ == key {
        Some(members[0].1)
    } else {
        member(members.drop_first(), key)
    }
}

/// The member of an object under `key`; `None` for other values.
pub open spec fn get(value: Json, key: Seq<char>) -> Option<Json> {
    match value {
        Json::Object(members) => member(members@, key),
        _ => None,
    }
}

/// The text of a JSON string; `None` for other values.
pub open spec fn text_of(value: Json) -> Option<Seq<char>> {
    match value {
        Json::Text(s) => Some(s@),
        _ => None,
    }
}

/// Relies on `serde_json::from_str`: reads the text as one JSON document,
/// the same text giving the same document.
#[verifier::external_body]
pub(crate) fn parse_json(text: &str) -> (r: Result<Json, serde_json::Error>)
    ensures
        r is Ok <==> json_of(text@) is Some,
        r matches Ok(doc) ==> json_of(text@) == Some(doc),
{
    serde_json::from_str::<serde_json::Value>(text).map(json_from_value)
}

/// Relies on the variants of `serde_json::Value`: each becomes the same
/// variant of [`Json`], numbers as their text.
#[verifier::external_body]
fn json_from_value(value: serde_json::Value) -> Json {
    match value {
        serde_json::Value::Null => Json::Null,
        serde_json::Value::Bool(b) => Json::Bool(b),
        serde_json::Value::Number(n) => Json::Number(n.to_string()),
        serde_json::Value::String(s) => Json::Text(s),
        serde_json::Value::Array(a) => Json::Array(a.into_iter().map(json_from_value).collect()),
        serde_json::Value::Object(m) => Json::Object(m.into_iter().map(|(k, v)| (k, json_from_value(v))).collect()),
    }
}

/// The member of an object under `key`.
pub fn json_get<'a>(value: &'a Json, key: &str) -> (r: Option<&'a Json>)
    ensures
        match r {
            Some(v) => get(*value, key@) == Some(*v),
            None => get(*value, key@) is None,
        },
{
    match value {
        Json::Object(members) => {
            let mut i: usize = 0;
            assert(members@.subrange(0, members@.len() as int) =~= members@);
            while i < members.len()
                invariant
                    i <= members@.len(),
                    get(*value, key@) == member(members@, key@),
                    member(members@, key@) == member(members@.subrange(i as int, members@.len() as int), key@),
                decreases members.len() - i,
            {
                let ghost rest = members@.subrange(i as int, members@.len() as int);
                assert(rest.drop_first() =~= members@.subrange(i + 1, members@.len() as int));
                if text::same_text(members[i].0.as_str(), key) {
                    return Some(&members[i].1);
                }
                i = i + 1;
            }
            None
        },
        _ => None,
    }
}

/// The text of a JSON string.
pub fn json_text<'a>(value: &'a Json) -> (r: Option<&'a str>)
    ensures
        match r {
            Some(s) => text_of(*value) == Some(s@),
            None => text_of(*value) is None,
        },
{
    match value {
        Json::Text(s) => Some(s.as_str()),
        _ => None,
    }
}

} // verus!
