//! JSON documents, as `serde_json` holds them.
//!
//! A document stays a `serde_json::Value`. What it holds is named by
//! `json_of`, a tree of plain values, and each accessor that the library calls
//! is stated over that tree.

use serde_json::Value;
use vstd::prelude::*;

verus! {

/// `serde_json::Value`, a JSON document. The library looks into it through
/// the functions below alone.
#[verifier::external_type_specification]
#[verifier::external_body]
pub struct ExValue(Value);

/// What a JSON document holds.
pub ghost enum Json {
    Null,
    Bool(bool),
    /// A number, by the text that `serde_json` prints for it.
    Number(Seq<char>),
    Text(Seq<char>),
    Array(Seq<Json>),
    /// The members of an object, in the order in which `serde_json` walks them.
    Object(Seq<(Seq<char>, Json)>),
}

/// What the document `value` holds.
pub uninterp spec fn json_of(value: Value) -> Json;

/// What `serde_json::from_str` makes of `text`: the document, or the error's
/// message.
pub uninterp spec fn parsed_json(text: Seq<char>) -> Result<Json, Seq<char>>;

/// The text that `serde_json` prints for a document that holds `json`.
pub uninterp spec fn printed_json(json: Json) -> Seq<char>;

/// The first of `members` under the name `key`.
pub open spec fn lookup(members: Seq<(Seq<char>, Json)>, key: Seq<char>) -> Option<Json>
    decreases members.len(),
{
    if members.len() == 0 {
        None
    } else if members[0].0 == key {
        Some(members[0].1)
    } else {
        lookup(members.drop_first(), key)
    }
}

impl Json {
    /// The member `key` of an object; `None` for what is no object or has no
    /// such member.
    pub open spec fn member(self, key: Seq<char>) -> Option<Json> {
        match self {
            Json::Object(members) => lookup(members, key),
            _ => None,
        }
    }

    /// The first member of an object; `None` for what is no object or has no
    /// members.
    pub open spec fn first_member(self) -> Option<Json> {
        match self {
            Json::Object(members) => if members.len() > 0 {
                Some(members[0].1)
            } else {
                None
            },
            _ => None,
        }
    }

    /// The text of a string; `None` for anything else.
    pub open spec fn text(self) -> Option<Seq<char>> {
        match self {
            Json::Text(text) => Some(text),
            _ => None,
        }
    }

    /// The items of an array; `None` for anything else.
    pub open spec fn items(self) -> Option<Seq<Json>> {
        match self {
            Json::Array(items) => Some(items),
            _ => None,
        }
    }
}

/// What a result of parsing stands for.
pub open spec fn parse_outcome(r: Result<Value, String>) -> Result<Json, Seq<char>> {
    match r {
        Ok(value) => Ok(json_of(value)),
        Err(message) => Err(message@),
    }
}

/// What an optional reference to a document stands for.
pub open spec fn optional_json(r: Option<&Value>) -> Option<Json> {
    match r {
        Some(value) => Some(json_of(*value)),
        None => None,
    }
}

/// What a list of documents holds.
pub open spec fn jsons_of(values: Seq<Value>) -> Seq<Json> {
    Seq::new(values.len(), |i: int| json_of(values[i]))
}

/// What a list of members holds.
pub open spec fn members_of(members: Seq<(&String, &Value)>) -> Seq<(Seq<char>, Json)> {
    Seq::new(members.len(), |i: int| (members[i].0@, json_of(*members[i].1)))
}

/// `serde_json::from_str` for a `Value`, the error handed back as its message.
/// The contract names the outcome.
#[verifier::external_body]
pub(crate) fn json_parse(text: &str) -> (r: Result<Value, String>)
    ensures
        parse_outcome(r) == parsed_json(text@),
{
    match serde_json::from_str::<Value>(text) {
        Ok(value) => Ok(value),
        Err(e) => Err(e.to_string()),
    }
}

/// `Value::to_string`: the document printed as JSON. The contract names the
/// text as a function of what the document holds.
#[verifier::external_body]
pub(crate) fn json_print(value: &Value) -> (r: String)
    ensures
        r@ == printed_json(json_of(*value)),
{
    value.to_string()
}

/// `Value::clone`: the copy holds what the document holds.
pub assume_specification[ <Value as Clone>::clone ](value: &Value) -> (r: Value)
    ensures
        json_of(r) == json_of(*value),
;

/// `Value::get` with a string: the member of that name where `value` is an
/// object that has one, `None` otherwise.
#[verifier::external_body]
pub(crate) fn json_get<'a>(value: &'a Value, key: &str) -> (r: Option<&'a Value>)
    ensures
        optional_json(r) == json_of(*value).member(key@),
{
    value.get(key)
}

/// `Value::as_str`: the text where `value` is a string, `None` otherwise.
#[verifier::external_body]
pub(crate) fn json_as_str<'a>(value: &'a Value) -> (r: Option<&'a str>)
    ensures
        r.deep_view() == json_of(*value).text(),
{
    value.as_str()
}

/// `Value::as_array`: the items where `value` is an array, `None` otherwise.
#[verifier::external_body]
pub(crate) fn json_as_array<'a>(value: &'a Value) -> (r: Option<&'a Vec<Value>>)
    ensures
        r is Some == json_of(*value).items() is Some,
        r is Some ==> json_of(*value).items() == Some(jsons_of(r.unwrap()@)),
{
    value.as_array()
}

/// `Value::as_object` and `Map::iter`: the members in the map's own order where
/// `value` is an object, `None` otherwise.
#[verifier::external_body]
pub(crate) fn json_members<'a>(value: &'a Value) -> (r: Option<Vec<(&'a String, &'a Value)>>)
    ensures
        r is Some == json_of(*value) is Object,
        r is Some ==> json_of(*value) == Json::Object(members_of(r.unwrap()@)),
{
    value.as_object().map(|members| members.iter().collect())
}

/// The first member of an object.
pub fn first_member<'a>(value: &'a Value) -> (r: Option<&'a Value>)
    ensures
        optional_json(r) == json_of(*value).first_member(),
{
    match json_members(value) {
        Some(members) => {
            if members.len() > 0 {
                let found: &'a Value = members[0].1;
                Some(found)
            } else {
                None
            }
        },
        None => None,
    }
}

} // verus!
