//! Single fields of the node's JSON answers, read with `serde_json`.
use vstd::prelude::*;

verus! {

#[verifier::external_type_specification]
#[verifier::external_body]
pub struct ExJsonError(serde_json::Error);

/// The string at `key` of the JSON object `text`; `None` when `text` is not
/// JSON, or the field is missing or not a string.
pub uninterp spec fn json_string_at(text: Seq<char>, key: Seq<char>) -> Option<Seq<char>>;

/// The boolean at `key` of the JSON object `text`; `None` when `text` is not
/// JSON, or the field is missing or not a boolean.
pub uninterp spec fn json_bool_at(text: Seq<char>, key: Seq<char>) -> Option<bool>;

/// `None` when `text` is not JSON; else the `u64` at `key` of the object, if
/// the field holds one.
pub uninterp spec fn json_u64_at(text: Seq<char>, key: Seq<char>) -> Option<Option<u64>>;

/// Reads a string field: `serde_json::from_str::<serde_json::Value>`, then
/// `Value::get` and `Value::as_str`. The result is named `json_string_at`.
#[verifier::external_body]
pub fn json_str_field(text: &str, key: &str) -> (r: Option<String>)
    ensures
        match json_string_at(text@, key@) {
            Some(s) => r is Some && r->Some_0@ == s,
            None => r is None,
        },
{
    match serde_json::from_str::<serde_json::Value>(text) {
        Ok(value) => match value.get(key) {
            Some(field) => field.as_str().map(str::to_string),
            None => None,
        },
        Err(_) => None,
    }
}

/// Reads a boolean field: `serde_json::from_str::<serde_json::Value>`, then
/// `Value::get` and `Value::as_bool`. The result is named `json_bool_at`.
#[verifier::external_body]
pub fn json_bool_field(text: &str, key: &str) -> (r: Option<bool>)
    ensures
        r == json_bool_at(text@, key@),
{
    match serde_json::from_str::<serde_json::Value>(text) {
        Ok(value) => match value.get(key) {
            Some(field) => field.as_bool(),
            None => None,
        },
        Err(_) => None,
    }
}

/// Reads a `u64` field: `serde_json::from_str::<serde_json::Value>`, then
/// `Value::get` and `Value::as_u64`; a text that is not JSON is the error.
/// The result is named `json_u64_at`; of the error nothing is said but that
/// it comes exactly when the name is `None`.
#[verifier::external_body]
pub fn json_u64_field(text: &str, key: &str) -> (r: Result<Option<u64>, serde_json::Error>)
    ensures
        r is Err <==> json_u64_at(text@, key@) is None,
        r matches Ok(v) ==> json_u64_at(text@, key@) == Some(v),
{
    match serde_json::from_str::<serde_json::Value>(text) {
        Ok(value) => match value.get(key) {
            Some(field) => Ok(field.as_u64()),
            None => Ok(None),
        },
        Err(error) => Err(error),
    }
}

} // verus!
