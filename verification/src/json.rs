//! JSON documents, read by `serde_json`.

use serde_json::Value;
use vstd::prelude::*;

verus! {

/// A parsed JSON document, as `serde_json` holds it.
#[verifier::external_type_specification]
#[verifier::external_body]
pub struct ExValue(Value);

/// What makes a text no JSON document.
#[verifier::external_type_specification]
#[verifier::external_body]
pub struct ExError(serde_json::Error);

/// The model of a JSON value.
pub enum Json {
    Null,
    Bool(bool),
    /// A number, with its value where it is an integer of 64 bits without a sign.
    Number(Option<u64>),
    Text(Seq<char>),
    Array(Seq<Json>),
    Object(Map<Seq<char>, Json>),
}

impl Json {
    /// The member of an object under this key, and null where there is none.
    pub open spec fn member(self, key: Seq<char>) -> Json {
        match self {
            Json::Object(members) => if members.contains_key(key) {
                members[key]
            } else {
                Json::Null
            },
            _ => Json::Null,
        }
    }

    /// The element of an array at this position, and null where there is none.
    pub open spec fn element(self, index: int) -> Json {
        match self {
            Json::Array(elements) => if 0 <= index < elements.len() {
                elements[index]
            } else {
                Json::Null
            },
            _ => Json::Null,
        }
    }

    pub open spec fn as_text(self) -> Option<Seq<char>> {
        match self {
            Json::Text(text) => Some(text),
            _ => None,
        }
    }

    pub open spec fn as_integer(self) -> Option<u64> {
        match self {
            Json::Number(value) => value,
            _ => None,
        }
    }

    pub open spec fn as_elements(self) -> Option<Seq<Json>> {
        match self {
            Json::Array(elements) => Some(elements),
            _ => None,
        }
    }
}

/// What a value of `serde_json` holds.
pub uninterp spec fn json_of(value: Value) -> Json;

/// The document that `serde_json::from_str` reads from a text, if it accepts the text.
pub uninterp spec fn json_parsed(text: Seq<char>) -> Option<Json>;

/// What the values of an array hold.
pub open spec fn jsons_of(values: Seq<Value>) -> Seq<Json> {
    values.map_values(|value: Value| json_of(value))
}

/// Calls `serde_json::from_str`. Whether it accepts the text, and what it reads, depends on the
/// text alone; the grammar is left to `serde_json`.
#[verifier::external_body]
pub(crate) fn parse(text: &str) -> (res: Result<Value, serde_json::Error>)
    ensures
        res is Ok == json_parsed(text@) is Some,
        res is Ok ==> json_of(res->Ok_0) == json_parsed(text@)->0,
{
    serde_json::from_str::<Value>(text)
}

/// Indexes a `Value` by a string: the member of an object, or null where the value is no object
/// or has no such member.
#[verifier::external_body]
pub(crate) fn member<'a>(value: &'a Value, key: &str) -> (res: &'a Value)
    ensures
        json_of(*res) == json_of(*value).member(key@),
{
    &value[key]
}

/// Indexes a `Value` by a position: the element of an array, or null where the value is no array
/// or is too short.
#[verifier::external_body]
pub(crate) fn element<'a>(value: &'a Value, index: usize) -> (res: &'a Value)
    ensures
        json_of(*res) == json_of(*value).element(index as int),
{
    &value[index]
}

/// Calls `Value::as_str`: the text of a string, and nothing for any other value.
#[verifier::external_body]
pub(crate) fn as_str(value: &Value) -> (res: Option<&str>)
    ensures
        res is Some == json_of(*value).as_text() is Some,
        res is Some ==> res->0@ == json_of(*value).as_text()->0,
{
    value.as_str()
}

/// Calls `Value::as_u64`: the value of a number that is an integer of 64 bits without a sign,
/// and nothing for any other value.
#[verifier::external_body]
pub(crate) fn as_u64(value: &Value) -> (res: Option<u64>)
    ensures
        res == json_of(*value).as_integer(),
{
    value.as_u64()
}

/// Calls `Value::as_array`: the elements of an array, and nothing for any other value.
#[verifier::external_body]
pub(crate) fn as_array(value: &Value) -> (res: Option<&Vec<Value>>)
    ensures
        res is Some == json_of(*value).as_elements() is Some,
        res is Some ==> jsons_of(res->0@) == json_of(*value).as_elements()->0,
{
    value.as_array()
}

} // verus!
