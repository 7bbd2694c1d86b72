//! Pretty-printing of JSON text.
//!
//! Reading and writing JSON is the work of `serde_json`. This module names
//! what its two functions return and decides what becomes of a text: a text
//! that is JSON is replaced by its indented form, any other text is kept.

use vstd::prelude::*;

verus! {

/// A JSON value of `serde_json`, carried as it is.
#[verifier::external_type_specification]
#[verifier::external_body]
pub struct ExJsonValue(serde_json::Value);

/// The JSON value that a text stands for, where the text is JSON.
pub uninterp spec fn json_value_of(text: Seq<char>) -> Option<serde_json::Value>;

/// The indented rendering of a JSON value, where it can be written.
pub uninterp spec fn pretty_text_of(value: serde_json::Value) -> Option<Seq<char>>;

/// `serde_json::from_str` for a `Value`: the value that `text` stands for, or
/// `None` where `text` is not JSON.
#[verifier::external_body]
pub(crate) fn parse_json(text: &str) -> (r: Option<serde_json::Value>)
    ensures
        r == json_value_of(text@),
{
    serde_json::from_str::<serde_json::Value>(text).ok()
}

/// `serde_json::to_string_pretty`: the indented rendering of `value`, or
/// `None` where it cannot be written.
#[verifier::external_body]
pub(crate) fn pretty_json(value: &serde_json::Value) -> (r: Option<String>)
    ensures
        r is Some <==> pretty_text_of(*value) is Some,
        r matches Some(s) ==> pretty_text_of(*value) == Some(s@),
{
    serde_json::to_string_pretty(value).ok()
}

/// The indented form of `text` where it is JSON that can be written again.
pub open spec fn pretty_form(text: Seq<char>) -> Option<Seq<char>> {
    match json_value_of(text) {
        Some(value) => pretty_text_of(value),
        None => None,
    }
}

/// What pretty-printing makes of `text`: its indented form, or `text` itself
/// where it has none.
pub open spec fn prettified(text: Seq<char>) -> Seq<char> {
    match pretty_form(text) {
        Some(pretty) => pretty,
        None => text,
    }
}

/// The indented form of `text`, where it is JSON that can be written again.
pub fn pretty_print(text: &str) -> (r: Option<String>)
    ensures
        r is Some <==> pretty_form(text@) is Some,
        r matches Some(s) ==> pretty_form(text@) == Some(s@),
{
    match parse_json(text) {
        Some(value) => pretty_json(&value),
        None => None,
    }
}

/// The text to show: the indented form where there is one, else the text as
/// it came.
pub fn choose_text(text: String, pretty: Option<String>) -> (r: String)
    ensures
        r@ == match pretty {
            Some(p) => p@,
            None => text@,
        },
{
    match pretty {
        Some(p) => p,
        None => text,
    }
}

/// Replaces a text that is JSON by its indented form and keeps any other text.
pub fn prettify(text: String) -> (r: String)
    ensures
        r@ == prettified(text@),
{
    let pretty = pretty_print(text.as_str());
    choose_text(text, pretty)
}

} // verus!
