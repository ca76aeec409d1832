//! JSON values, as `serde_json` reads and writes them.

use vstd::prelude::*;

verus! {

/// What a JSON value holds. A number is what it is as an unsigned 64-bit
/// integer, if it is one, and the way that it prints.
pub enum Json {
    Null,
    Bool(bool),
    Number(Option<u64>, Seq<char>),
    Text(Seq<char>),
    Array(Seq<Json>),
    Object(Map<Seq<char>, Json>),
}

impl Json {
    /// The member `key` of an object.
    pub open spec fn member(self, key: Seq<char>) -> Option<Json> {
        match self {
            Json::Object(members) => if members.dom().contains(key) {
                Some(members[key])
            } else {
                None
            },
            _ => None,
        }
    }

    /// The number, where it is an unsigned 64-bit integer.
    pub open spec fn unsigned(self) -> Option<u64> {
        match self {
            Json::Number(n, _) => n,
            _ => None,
        }
    }

    /// The text of a string.
    pub open spec fn text(self) -> Option<Seq<char>> {
        match self {
            Json::Text(s) => Some(s),
            _ => None,
        }
    }

    /// The truth value.
    pub open spec fn boolean(self) -> Option<bool> {
        match self {
            Json::Bool(b) => Some(b),
            _ => None,
        }
    }
}

/// `serde_json::Value`
#[verifier::external_type_specification]
#[verifier::external_body]
pub struct ExValue(serde_json::Value);

/// What `value` holds.
pub uninterp spec fn contents(value: serde_json::Value) -> Json;

/// What `serde_json::from_slice` reads `bytes` as: the value, or the text of its
/// complaint.
pub uninterp spec fn parsed(bytes: Seq<u8>) -> Result<Json, Seq<char>>;

/// The bytes that `serde_json::to_vec` writes for `value`.
pub uninterp spec fn encoded(value: Json) -> Seq<u8>;

/// Calls `serde_json::from_slice`: what it reads, and the text of its error,
/// depend on the bytes alone.
#[verifier::external_body]
pub(crate) fn from_slice(bytes: &[u8]) -> (r: Result<serde_json::Value, String>)
    ensures
        match r {
            Ok(value) => parsed(bytes@) == Ok::<Json, Seq<char>>(contents(value)),
            Err(e) => parsed(bytes@) == Err::<Json, Seq<char>>(e@),
        },
{
    serde_json::from_slice::<serde_json::Value>(bytes).map_err(|e| e.to_string())
}

/// Calls `serde_json::to_vec`, which writes every `Value`: it fails only on keys
/// that are not strings and on types that refuse to be written, and a `Value` has
/// neither. What it writes depends on what the value holds alone: the members of
/// an object are in the order of their names.
#[verifier::external_body]
pub(crate) fn to_vec(value: &serde_json::Value) -> (r: Result<Vec<u8>, String>)
    ensures
        r is Ok,
        r matches Ok(bytes) ==> bytes@ == encoded(contents(*value)),
{
    serde_json::to_vec(value).map_err(|e| e.to_string())
}

/// Calls `Value::is_null`: true of null alone.
#[verifier::external_body]
pub(crate) fn is_null(value: &serde_json::Value) -> (r: bool)
    ensures
        r == (contents(*value) == Json::Null),
{
    value.is_null()
}

/// Calls `Value::get` with a key: the member of that name, where the value is an
/// object and has one.
#[verifier::external_body]
pub(crate) fn get<'a>(value: &'a serde_json::Value, key: &str) -> (r: Option<&'a serde_json::Value>)
    ensures
        match r {
            Some(member) => contents(*value).member(key@) == Some(contents(*member)),
            None => contents(*value).member(key@) is None,
        },
{
    value.get(key)
}

/// Calls `Value::as_u64`: the number, where it is an unsigned 64-bit integer.
#[verifier::external_body]
pub(crate) fn as_u64(value: &serde_json::Value) -> (r: Option<u64>)
    ensures
        r == contents(*value).unsigned(),
{
    value.as_u64()
}

/// Calls `Value::as_bool`: the truth value, where it is one.
#[verifier::external_body]
pub(crate) fn as_bool(value: &serde_json::Value) -> (r: Option<bool>)
    ensures
        r == contents(*value).boolean(),
{
    value.as_bool()
}

/// Calls `Value::as_str`: the text, where the value is a string.
#[verifier::external_body]
pub(crate) fn as_str<'a>(value: &'a serde_json::Value) -> (r: Option<&'a str>)
    ensures
        match r {
            Some(s) => contents(*value).text() == Some(s@),
            None => contents(*value).text() is None,
        },
{
    value.as_str()
}

/// A member is found in an object under its own name and nowhere else; a number, a text
/// and a truth value are only what they are.
pub proof fn law_json_access(v: Json, members: Map<Seq<char>, Json>, key: Seq<char>)
    ensures
        Json::Object(members).member(key) is Some <==> members.dom().contains(key),
        members.dom().contains(key) ==> Json::Object(members).member(key) == Some(members[key]),
        !(v is Object) ==> v.member(key) is None,
        v matches Json::Number(n, _) ==> v.unsigned() == n,
        !(v is Number) ==> v.unsigned() is None,
        v matches Json::Text(s) ==> v.text() == Some(s),
        !(v is Text) ==> v.text() is None,
        v matches Json::Bool(truth) ==> v.boolean() == Some(truth),
        !(v is Bool) ==> v.boolean() is None,
{
}

} // verus!
