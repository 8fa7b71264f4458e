//! The JSON decoder that the providers read backend answers with. A decoded
//! value is opaque here: what it holds is known only through the accessors
//! below, whose contracts are taken on trust from the decoder.

use vstd::prelude::*;

verus! {

/// `serde_json::Value`, a decoded JSON value, carried through as it is.
#[verifier::external_type_specification]
#[verifier::external_body]
pub struct ExValue(serde_json::Value);

/// `serde_json::Error`, why a text was not decoded. Nothing is read from it.
#[verifier::external_type_specification]
#[verifier::external_body]
pub struct ExError(serde_json::Error);

/// The value that `serde_json::from_str` decodes `text` to, if it accepts it.
pub uninterp spec fn parsed_json(text: Seq<char>) -> Option<serde_json::Value>;

/// The elements of `v` as `serde_json::Value::as_array` gives them: `None`
/// unless `v` is a JSON array.
pub uninterp spec fn json_items(v: serde_json::Value) -> Option<Seq<serde_json::Value>>;

/// The member of `v` under `key` as `serde_json::Value::get` gives it: `None`
/// unless `v` is a JSON object that has the key.
pub uninterp spec fn json_member(v: serde_json::Value, key: Seq<char>) -> Option<
    serde_json::Value,
>;

/// The text of `v` as `serde_json::Value::as_str` gives it: `None` unless `v`
/// is a JSON string.
pub uninterp spec fn json_text(v: serde_json::Value) -> Option<Seq<char>>;

/// The integer of `v` as `serde_json::Value::as_i64` gives it: `None` unless
/// `v` is a JSON number that is an integer within `i64`.
pub uninterp spec fn json_integer(v: serde_json::Value) -> Option<i64>;

/// Whether `v` is the JSON `null`, as `serde_json::Value::is_null` tells.
pub uninterp spec fn json_null(v: serde_json::Value) -> bool;

/// Calls `serde_json::from_str` for a `serde_json::Value`. Trusted: the call
/// succeeds exactly on the texts that `parsed_json` gives a value for, and
/// then returns that value.
#[verifier::external_body]
pub(crate) fn parse(text: &str) -> (r: Result<serde_json::Value, serde_json::Error>)
    ensures
        match r {
            Ok(v) => parsed_json(text@) == Some(v),
            Err(_) => parsed_json(text@) is None,
        },
{
    serde_json::from_str::<serde_json::Value>(text)
}

/// Calls `serde_json::Value::as_array`. Trusted: the result is the elements
/// that `json_items` names, borrowed from `v`.
#[verifier::external_body]
pub(crate) fn items(v: &serde_json::Value) -> (r: Option<&Vec<serde_json::Value>>)
    ensures
        match r {
            Some(list) => json_items(*v) == Some(list@),
            None => json_items(*v) is None,
        },
{
    v.as_array()
}

/// Calls `serde_json::Value::get` with a string key. Trusted: the result is
/// the member that `json_member` names, borrowed from `v`.
#[verifier::external_body]
pub(crate) fn member<'a>(v: &'a serde_json::Value, key: &str) -> (r: Option<&'a serde_json::Value>)
    ensures
        match r {
            Some(m) => json_member(*v, key@) == Some(*m),
            None => json_member(*v, key@) is None,
        },
{
    v.get(key)
}

/// Calls `serde_json::Value::as_str`. Trusted: the result is the text that
/// `json_text` names, copied into a `String`.
#[verifier::external_body]
pub(crate) fn text(v: &serde_json::Value) -> (r: Option<String>)
    ensures
        match r {
            Some(s) => json_text(*v) == Some(s@),
            None => json_text(*v) is None,
        },
{
    v.as_str().map(String::from)
}

/// Calls `serde_json::Value::as_i64`. Trusted: the result is the integer
/// that `json_integer` names.
#[verifier::external_body]
pub(crate) fn integer(v: &serde_json::Value) -> (r: Option<i64>)
    ensures
        r == json_integer(*v),
{
    v.as_i64()
}

/// Calls `serde_json::Value::is_null`. Trusted: the result is what
/// `json_null` names.
#[verifier::external_body]
pub(crate) fn is_null(v: &serde_json::Value) -> (r: bool)
    ensures
        r == json_null(*v),
{
    v.is_null()
}

} // verus!
