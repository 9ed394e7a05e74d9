//! JSON documents, as `serde_json` holds them, and what is assumed of it.
//!
//! A document is a `serde_json::Value`. What a value holds is described by
//! `json_content`; every function below is a single call into `serde_json`
//! whose contract is stated over it. None of these contracts is proved.

use vstd::prelude::*;
use serde_json::Value;

verus! {

#[verifier::external_type_specification]
#[verifier::external_body]
pub struct ExValue(serde_json::Value);

#[verifier::external_type_specification]
#[verifier::external_body]
pub struct ExJsonError(serde_json::Error);

/// What a JSON value holds. A number that is an integer within the range
/// of `i64` is an `Integer`; any other number is a `Number`.
pub enum JsonContent {
    Null,
    Bool(bool),
    Integer(i64),
    Number,
    Text(Seq<char>),
    Array,
    Object(Map<Seq<char>, Value>),
}

/// What the value holds.
pub uninterp spec fn json_content(v: Value) -> JsonContent;

/// The document that a text denotes, if it is valid JSON.
pub uninterp spec fn json_parsed(text: Seq<char>) -> Option<Value>;

/// The indented text of a document, if it can be written.
pub uninterp spec fn json_pretty(v: Value) -> Option<Seq<char>>;

/// The members of an object; anything else has none.
pub open spec fn members_of(v: Value) -> Map<Seq<char>, Value> {
    match json_content(v) {
        JsonContent::Object(m) => m,
        _ => Map::empty(),
    }
}

/// The member of an object under a key.
pub open spec fn member(v: Value, key: Seq<char>) -> Option<Value> {
    if members_of(v).contains_key(key) {
        Some(members_of(v)[key])
    } else {
        None
    }
}

/// The value can take a member: it is an object, or null, which becomes one.
pub open spec fn takes_members(v: Value) -> bool {
    json_content(v) is Object || json_content(v) is Null
}

/// The boolean that the value is, if it is one.
pub open spec fn bool_of(v: Value) -> Option<bool> {
    match json_content(v) {
        JsonContent::Bool(b) => Some(b),
        _ => None,
    }
}

/// The text that the value is, if it is one.
pub open spec fn text_of(v: Value) -> Option<Seq<char>> {
    match json_content(v) {
        JsonContent::Text(s) => Some(s),
        _ => None,
    }
}

/// The integer that the value is, if it is one within the range of `i64`.
pub open spec fn int_of(v: Value) -> Option<i64> {
    match json_content(v) {
        JsonContent::Integer(n) => Some(n),
        _ => None,
    }
}

/// `serde_json::from_str` at `Value`: the document that the text denotes,
/// or the error that says why it denotes none.
#[verifier::external_body]
pub(crate) fn json_parse(text: &str) -> (r: Result<Value, serde_json::Error>)
    ensures
        match r {
            Ok(v) => json_parsed(text@) == Some(v),
            Err(_) => json_parsed(text@) is None,
        },
{
    serde_json::from_str::<Value>(text)
}

/// The `Display` text of a `serde_json::Error`. Nothing is promised of it.
#[verifier::external_body]
pub(crate) fn json_error_message(e: &serde_json::Error) -> String {
    e.to_string()
}

/// `serde_json::to_string_pretty` at `Value`: the indented text of the document.
#[verifier::external_body]
pub(crate) fn json_to_pretty(v: &Value) -> (r: Result<String, serde_json::Error>)
    ensures
        match r {
            Ok(s) => json_pretty(*v) == Some(s@),
            Err(_) => json_pretty(*v) is None,
        },
{
    serde_json::to_string_pretty(v)
}

/// `Value::get` with a string index: the member of an object under `key`;
/// none where the value is no object or has no such member.
#[verifier::external_body]
pub(crate) fn json_get<'a>(v: &'a Value, key: &str) -> (found: Option<&'a Value>)
    ensures
        match found {
            Some(x) => member(*v, key@) == Some(*x),
            None => member(*v, key@) is None,
        },
{
    v.get(key)
}

/// `Value::as_bool`: the boolean, if the value is one.
#[verifier::external_body]
pub(crate) fn json_as_bool(v: &Value) -> (r: Option<bool>)
    ensures
        r == bool_of(*v),
{
    v.as_bool()
}

/// `Value::as_str`: the text, if the value is a string.
#[verifier::external_body]
pub(crate) fn json_as_str<'a>(v: &'a Value) -> (r: Option<&'a str>)
    ensures
        match r {
            Some(s) => text_of(*v) == Some(s@),
            None => text_of(*v) is None,
        },
{
    v.as_str()
}

/// `Value::as_i64`: the integer, if the value is one that fits in `i64`.
#[verifier::external_body]
pub(crate) fn json_as_i64(v: &Value) -> (r: Option<i64>)
    ensures
        r == int_of(*v),
{
    v.as_i64()
}

/// `Value::is_object`.
#[verifier::external_body]
pub(crate) fn json_is_object(v: &Value) -> (r: bool)
    ensures
        r == (json_content(*v) is Object),
{
    v.is_object()
}

/// `Value::is_null`.
#[verifier::external_body]
pub(crate) fn json_is_null(v: &Value) -> (r: bool)
    ensures
        r == (json_content(*v) is Null),
{
    v.is_null()
}

/// `Value::clone`: an equal document.
#[verifier::external_body]
pub(crate) fn json_clone(v: &Value) -> (made: Value)
    ensures
        made == *v,
{
    v.clone()
}

/// The variant `Value::Null`.
#[verifier::external_body]
pub(crate) fn json_null() -> (made: Value)
    ensures
        json_content(made) is Null,
{
    Value::Null
}

/// The variant `Value::Bool`.
#[verifier::external_body]
pub(crate) fn json_boolean(b: bool) -> (made: Value)
    ensures
        json_content(made) == JsonContent::Bool(b),
{
    Value::Bool(b)
}

/// The variant `Value::String`, holding a copy of the text.
#[verifier::external_body]
pub(crate) fn json_string(s: &str) -> (made: Value)
    ensures
        json_content(made) == JsonContent::Text(s@),
{
    Value::String(s.to_string())
}

/// The variant `Value::Number`, through `Number::from` at `i64`.
#[verifier::external_body]
pub(crate) fn json_number(n: i64) -> (made: Value)
    ensures
        json_content(made) == JsonContent::Integer(n),
{
    Value::Number(n.into())
}

/// Assignment through `Value`'s `IndexMut` with a string index: the value
/// becomes an object in which `key` holds `item` and every other member is
/// as it was. `serde_json` panics where the value is neither an object nor
/// null, which the precondition leaves out.
#[verifier::external_body]
pub(crate) fn json_set(v: &mut Value, key: &str, item: Value)
    requires
        takes_members(*old(v)),
    ensures
        json_content(*final(v)) == JsonContent::Object(members_of(*old(v)).insert(key@, item)),
{
    v[key] = item;
}

} // verus!
