//! Reading and writing JSON documents through `serde_json`.

use vstd::prelude::*;

verus! {

/// The text found under `key` in the JSON document `document`: `None` when
/// the document does not parse, is no object, holds no such member, or
/// holds one that is not a string.
pub uninterp spec fn json_text_member(document: Seq<char>, key: Seq<char>) -> Option<Seq<char>>;

/// The unsigned number found under `key` in the JSON document `document`:
/// `None` when the document does not parse, is no object, holds no such
/// member, or holds one that is not a whole number that fits 64 unsigned
/// bits.
pub uninterp spec fn json_u64_member(document: Seq<char>, key: Seq<char>) -> Option<u64>;

/// The compact text of the JSON object with the given string members and
/// number members.
pub uninterp spec fn json_object_text(
    texts: Seq<(Seq<char>, Seq<char>)>,
    numbers: Seq<(Seq<char>, u64)>,
) -> Seq<char>;

/// What reading the JSON document `document` as a flat object of strings
/// gives: its members in the order of their keys, or the message of the
/// parser's error where it is no such object.
pub uninterp spec fn json_text_map(document: Seq<char>) -> Result<
    Seq<(Seq<char>, Seq<char>)>,
    Seq<char>,
>;

/// Parses `document` with `serde_json::from_str` into a `serde_json::Value`
/// and reads the member `key` with `Value::get` and `Value::as_str`. The
/// contract names the outcome, which depends on the two texts alone.
#[verifier::external_body]
pub(crate) fn read_text_member(document: &str, key: &str) -> (member: Option<String>)
    ensures
        member.deep_view() == json_text_member(document@, key@),
{
    match serde_json::from_str::<serde_json::Value>(document) {
        Ok(value) => match value.get(key) {
            Some(found) => match found.as_str() {
                Some(text) => Some(text.to_string()),
                None => None,
            },
            None => None,
        },
        Err(_) => None,
    }
}

/// Parses `document` with `serde_json::from_str` into a `serde_json::Value`
/// and reads the member `key` with `Value::get` and `Value::as_u64`. The
/// contract names the outcome, which depends on the two texts alone.
#[verifier::external_body]
pub(crate) fn read_u64_member(document: &str, key: &str) -> (member: Option<u64>)
    ensures
        member == json_u64_member(document@, key@),
{
    match serde_json::from_str::<serde_json::Value>(document) {
        Ok(value) => match value.get(key) {
            Some(found) => found.as_u64(),
            None => None,
        },
        Err(_) => None,
    }
}

/// Fills a `serde_json::Map` with the given members, strings first, and
/// prints it with the `to_string` of `serde_json::Value`. The contract
/// names the text, which depends on the members alone.
#[verifier::external_body]
pub(crate) fn write_object(texts: &Vec<(String, String)>, numbers: &Vec<(String, u64)>) -> (document:
    String)
    ensures
        document@ == json_object_text(texts.deep_view(), numbers.deep_view()),
{
    let mut members = serde_json::Map::new();
    for (key, text) in texts {
        members.insert(key.clone(), serde_json::Value::from(text.clone()));
    }
    for (key, number) in numbers {
        members.insert(key.clone(), serde_json::Value::from(*number));
    }
    serde_json::Value::Object(members).to_string()
}

/// The members that were read, or the message of the error, as
/// mathematical values.
pub open spec fn members_of(members: Result<Vec<(String, String)>, String>) -> Result<
    Seq<(Seq<char>, Seq<char>)>,
    Seq<char>,
> {
    match members {
        Ok(found) => Ok(found.deep_view()),
        Err(message) => Err(message@),
    }
}

/// Parses `document` with `serde_json::from_str` into a map from strings to
/// strings and hands out its members, or the text of the error of
/// `serde_json`. The contract names the outcome, which depends on the
/// document alone.
#[verifier::external_body]
pub(crate) fn read_text_map(document: &str) -> (members: Result<Vec<(String, String)>, String>)
    ensures
        members_of(members) == json_text_map(document@),
{
    match serde_json::from_str::<std::collections::BTreeMap<String, String>>(document) {
        Ok(map) => Ok(map.into_iter().collect()),
        Err(error) => Err(error.to_string()),
    }
}

} // verus!
