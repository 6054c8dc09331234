//! The JSON values exchanged with the archive service.
//!
//! Records and queries are `serde_json::Value`s. The verifier cannot look
//! inside one, so this module gives each value a mathematical model,
//! [`json_of`], and states what the `serde_json` operations used by the rest
//! of the crate do in terms of that model. Everything in this module that is
//! marked `external_body` is believed, not proved.

use serde_json::Value;
use vstd::prelude::*;

verus! {

/// `serde_json::Value`, a JSON value. The verifier sees nothing inside it.
#[verifier::external_type_specification]
#[verifier::external_body]
pub struct ExValue(serde_json::Value);

/// `serde_json::Error`, the reason why a text could not be parsed.
#[verifier::external_type_specification]
#[verifier::external_body]
pub struct ExJsonError(serde_json::Error);

/// `serde_json::Map`, the members of a JSON object.
#[verifier::external_type_specification]
#[verifier::external_body]
#[verifier::reject_recursive_types(K)]
#[verifier::reject_recursive_types(V)]
pub struct ExJsonMap<K, V>(serde_json::Map<K, V>);

/// The members of a JSON object under construction.
pub type JsonMap = serde_json::Map<String, Value>;

/// The three ways in which a JSON number is held.
pub enum JsonNumber {
    /// A whole number that is not negative.
    Unsigned(u64),
    /// A whole number below zero.
    Negative(i64),
    /// A number held as a 64-bit float. Of such a number the model keeps
    /// the whole part, as far as it lies within `u64`: what converting the
    /// float to `u64` gives.
    Real(u64),
}

/// The mathematical model of a JSON value.
pub enum Json {
    Null,
    Bool(bool),
    Number(JsonNumber),
    Text(Seq<char>),
    List(Seq<Json>),
    Object(Map<Seq<char>, Json>),
}

/// The model of a `serde_json::Value`.
pub uninterp spec fn json_of(value: Value) -> Json;

/// The members that a `serde_json::Map` holds, each under its key.
pub uninterp spec fn json_members(members: JsonMap) -> Map<Seq<char>, Json>;

/// What `serde_json::from_str` makes of a text: the parsed value, or `None`
/// where the text is not one JSON value.
pub uninterp spec fn json_parsed(text: Seq<char>) -> Option<Value>;

/// The number of bytes in the compact text that `serde_json::to_string`
/// writes for a value.
pub uninterp spec fn json_encoded_len(value: Value) -> nat;

/// What converting a `u64` to a 64-bit float and the float back to `u64`
/// gives. It is used for the numbers that a float does not hold exactly; they
/// come back as a number nearby.
pub uninterp spec fn float_whole(number: u64) -> u64;

/// The models of a sequence of values, in order.
pub open spec fn json_seq(values: Seq<Value>) -> Seq<Json> {
    values.map_values(|v: Value| json_of(v))
}

/// The member of `json` under `key`, where `json` is an object that has one.
pub open spec fn json_member(json: Json, key: Seq<char>) -> Option<Json> {
    match json {
        Json::Object(members) => if members.dom().contains(key) {
            Some(members[key])
        } else {
            None
        },
        _ => None,
    }
}

/// The members of an object that has none.
pub open spec fn no_members() -> Map<Seq<char>, Json> {
    Map::empty()
}

/// The largest whole number up to which every whole number is a 64-bit float.
pub open spec fn exact_float_limit() -> int {
    0x20_0000_0000_0000
}

/// The whole part of a JSON number, read by way of a 64-bit float and kept
/// within `u64`; `None` for what is not a number. An unsigned whole number
/// that a float holds exactly is read as itself, and a negative number as 0.
/// This is what `json_as_whole_number` returns.
pub open spec fn whole_number(json: Json) -> Option<u64> {
    match json {
        Json::Number(JsonNumber::Unsigned(number)) => if number <= exact_float_limit() {
            Some(number)
        } else {
            Some(float_whole(number))
        },
        Json::Number(JsonNumber::Negative(_)) => Some(0),
        Json::Number(JsonNumber::Real(whole)) => Some(whole),
        _ => None,
    }
}

/// `Value::Null`.
#[verifier::external_body]
pub(crate) fn json_null() -> (value: Value)
    ensures
        json_of(value) == Json::Null,
{
    Value::Null
}

/// `Value::Bool`: the JSON boolean `flag`.
#[verifier::external_body]
pub(crate) fn json_bool(flag: bool) -> (value: Value)
    ensures
        json_of(value) == Json::Bool(flag),
{
    Value::Bool(flag)
}

/// `Value::from` on a `u64`: the JSON number `number`, held as an unsigned
/// whole number.
#[verifier::external_body]
pub(crate) fn json_unsigned(number: u64) -> (value: Value)
    ensures
        json_of(value) == Json::Number(JsonNumber::Unsigned(number)),
{
    Value::from(number)
}

/// `Value::String`: the JSON string with the characters of `text`.
#[verifier::external_body]
pub(crate) fn json_text(text: String) -> (value: Value)
    ensures
        json_of(value) == Json::Text(text@),
{
    Value::String(text)
}

/// `Value::Array`: the JSON array of `items`, in their order.
#[verifier::external_body]
pub(crate) fn json_list(items: Vec<Value>) -> (value: Value)
    ensures
        json_of(value) == Json::List(json_seq(items@)),
{
    Value::Array(items)
}

/// `Value::Object`: the JSON object with exactly the members of `members`.
#[verifier::external_body]
pub(crate) fn json_object(members: JsonMap) -> (value: Value)
    ensures
        json_of(value) == Json::Object(json_members(members)),
{
    Value::Object(members)
}

/// `serde_json::Map::new`: a map without members.
#[verifier::external_body]
pub(crate) fn json_map_new() -> (fresh: JsonMap)
    ensures
        json_members(fresh) == no_members(),
{
    serde_json::Map::new()
}

/// `serde_json::Map::insert`: afterwards `key` holds `value`, whether or not
/// the key was present before, and every other member is as it was.
#[verifier::external_body]
pub(crate) fn json_map_insert(members: &mut JsonMap, key: String, value: Value)
    ensures
        json_members(*final(members)) == json_members(*old(members)).insert(key@, json_of(value)),
{
    members.insert(key, value);
}

/// `Value::get` with a string index: the member under `key` where the value
/// is an object that has one, and `None` for a missing key and for every
/// value that is not an object.
#[verifier::external_body]
pub(crate) fn json_get<'a>(value: &'a Value, key: &str) -> (found: Option<&'a Value>)
    ensures
        match json_member(json_of(*value), key@) {
            Some(member) => found matches Some(v) && json_of(*v) == member,
            None => found is None,
        },
{
    value.get(key)
}

/// `Value::as_array`: the items where the value is an array, else `None`.
#[verifier::external_body]
pub(crate) fn json_as_list<'a>(value: &'a Value) -> (found: Option<&'a Vec<Value>>)
    ensures
        match json_of(*value) {
            Json::List(items) => found matches Some(v) && json_seq(v@) == items,
            _ => found is None,
        },
{
    value.as_array()
}

/// Takes the items out of a value that is an array (the variant
/// `Value::Array`); any other value gives `None`.
#[verifier::external_body]
pub(crate) fn json_into_list(value: Value) -> (found: Option<Vec<Value>>)
    ensures
        match json_of(value) {
            Json::List(items) => found matches Some(v) && json_seq(v@) == items,
            _ => found is None,
        },
{
    match value {
        Value::Array(items) => Some(items),
        _ => None,
    }
}

/// `Value::as_str`: the characters where the value is a string, else `None`.
#[verifier::external_body]
pub(crate) fn json_as_text<'a>(value: &'a Value) -> (found: Option<&'a str>)
    ensures
        match json_of(*value) {
            Json::Text(text) => found matches Some(s) && s@ == text,
            _ => found is None,
        },
{
    value.as_str()
}

/// `Value::as_u64`: the number where the value is an unsigned whole number,
/// and `None` for a negative number, a number held as a float and every value
/// that is not a number.
#[verifier::external_body]
pub(crate) fn json_as_unsigned(value: &Value) -> (found: Option<u64>)
    ensures
        found == match json_of(*value) {
            Json::Number(JsonNumber::Unsigned(number)) => Some(number),
            _ => None::<u64>,
        },
{
    value.as_u64()
}

/// `Value::as_f64`, the float converted to `u64`. Every JSON number gives
/// `Some`, every other value `None`. An unsigned whole number that a float
/// holds exactly comes back unchanged, a negative one gives 0, and a number
/// held as a float gives its whole part.
#[verifier::external_body]
pub(crate) fn json_as_whole_number(value: &Value) -> (found: Option<u64>)
    ensures
        found == (match json_of(*value) {
            Json::Number(JsonNumber::Unsigned(number)) => if number <= exact_float_limit() {
                Some(number)
            } else {
                Some(float_whole(number))
            },
            Json::Number(JsonNumber::Negative(_)) => Some(0u64),
            Json::Number(JsonNumber::Real(whole)) => Some(whole),
            _ => None::<u64>,
        }),
{
    match value.as_f64() {
        Some(float) => Some(float as u64),
        None => None,
    }
}

/// `serde_json::to_string`, reduced to the length in bytes of the text.
/// Writing a `Value` cannot fail: its keys are strings, its numbers are
/// finite, and the text is written to memory. So the size is always there.
#[verifier::external_body]
pub(crate) fn json_encoded_size(value: &Value) -> (size: Option<usize>)
    ensures
        match size {
            Some(len) => len == json_encoded_len(*value),
            None => false,
        },
{
    match serde_json::to_string(value) {
        Ok(text) => Some(text.len()),
        Err(_) => None,
    }
}

/// `serde_json::from_str` into a `Value`: succeeds exactly where the text is
/// one JSON value, and then returns that value.
#[verifier::external_body]
pub(crate) fn json_parse(text: &str) -> (parsed: Result<Value, serde_json::Error>)
    ensures
        match json_parsed(text@) {
            Some(value) => parsed matches Ok(found) && found == value,
            None => parsed is Err,
        },
{
    serde_json::from_str::<Value>(text)
}

} // verus!
