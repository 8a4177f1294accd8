//! Trusted declarations for decoding the JSON that player responses
//! and foreign configuration files carry, relying on the serde_json
//! crate.
//!
//! Each extraction is deterministic in its input text, so its result
//! carries a name that contracts can speak of: the wrapper says the
//! call returns exactly that named value, and every decision taken on
//! an extracted value is made by verified functions that receive it
//! as an argument.

use vstd::prelude::*;

verus! {

/// The `data` field of a response line, when the line is JSON and the
/// field a string; a function of the line's text alone.
pub uninterp spec fn data_string_of(line: Seq<char>) -> Option<Seq<char>>;

/// The `data` field of a response line, when the line is JSON and the
/// field an integer within `i64`; a function of the line's text alone.
pub uninterp spec fn data_i64_of(line: Seq<char>) -> Option<i64>;

/// The decimal text of the `data` field of a response line, when the
/// line is JSON and the field a number; a function of the line's text
/// alone.
pub uninterp spec fn data_number_text_of(line: Seq<char>) -> Option<Seq<char>>;

/// The `api_key` field of a configuration text, when the text is JSON
/// and the field a string; a function of the text alone.
pub uninterp spec fn config_key_of(text: Seq<char>) -> Option<Seq<char>>;

/// Relies on serde_json's `from_str`, `Value::get` and
/// `Value::as_str`: the response's `data` field as text.
#[verifier::external_body]
pub(crate) fn data_string(line: &str) -> (r: Option<String>)
    ensures
        (match r {
            Some(s) => Some(s@),
            None => None,
        }) == data_string_of(line@),
{
    match serde_json::from_str::<serde_json::Value>(line) {
        Ok(v) => match v.get("data") {
            Some(d) => d.as_str().map(|s| s.to_string()),
            None => None,
        },
        Err(_) => None,
    }
}

/// Relies on serde_json's `from_str`, `Value::get` and
/// `Value::as_i64`: the response's `data` field as a signed integer.
#[verifier::external_body]
pub(crate) fn data_i64(line: &str) -> (r: Option<i64>)
    ensures
        r == data_i64_of(line@),
{
    match serde_json::from_str::<serde_json::Value>(line) {
        Ok(v) => match v.get("data") {
            Some(d) => d.as_i64(),
            None => None,
        },
        Err(_) => None,
    }
}

/// Relies on serde_json's `from_str`, `Value::get`, `Value::as_number`
/// and the number's `Display`: the decimal text of the response's
/// `data` field.
#[verifier::external_body]
pub(crate) fn data_number_text(line: &str) -> (r: Option<String>)
    ensures
        (match r {
            Some(t) => Some(t@),
            None => None,
        }) == data_number_text_of(line@),
{
    match serde_json::from_str::<serde_json::Value>(line) {
        Ok(v) => match v.get("data") {
            Some(d) => d.as_number().map(|n| n.to_string()),
            None => None,
        },
        Err(_) => None,
    }
}

/// Relies on serde_json's `from_str`, `Value::get` and
/// `Value::as_str`: the stored credential of a configuration text
/// that this crate's own parser does not recognize.
#[verifier::external_body]
pub(crate) fn config_api_key(text: &str) -> (r: Option<String>)
    ensures
        (match r {
            Some(k) => Some(k@),
            None => None,
        }) == config_key_of(text@),
{
    match serde_json::from_str::<serde_json::Value>(text) {
        Ok(v) => match v.get("api_key") {
            Some(k) => k.as_str().map(|s| s.to_string()),
            None => None,
        },
        Err(_) => None,
    }
}

} // verus!
