//! JSON texts, read and written by `serde_json`.

use crate::text::option_text;
use vstd::prelude::*;
use vstd::string::*;

verus! {

/// A JSON text, indented; nothing for a text that is no JSON.
pub uninterp spec fn indented(text: Seq<char>) -> Option<Seq<char>>;

/// `serde_json::from_str` to a value and `serde_json::to_string_pretty` of it,
/// which depend on the text alone.
#[verifier::external_body]
fn indent(text: &str) -> (r: Option<String>)
    ensures
        option_text(r) == indented(text@),
{
    let value = serde_json::from_str::<serde_json::Value>(text).ok()?;
    serde_json::to_string_pretty(&value).ok()
}

/// A JSON object, indented; nothing for a text that is none.
pub uninterp spec fn indented_object(text: Seq<char>) -> Option<Seq<char>>;

/// `serde_json::from_str` to a map and `serde_json::to_string_pretty` of it,
/// which depend on the text alone.
#[verifier::external_body]
fn indent_object(text: &str) -> (r: Option<String>)
    ensures
        option_text(r) == indented_object(text@),
{
    let map = serde_json::from_str::<serde_json::Map<String, serde_json::Value>>(text).ok()?;
    serde_json::to_string_pretty(&map).ok()
}

/// The numbers in the array under a key of a JSON object, in the place of
/// anything else nothing; nothing at all where there is no such array.
pub uninterp spec fn numbers_under(text: Seq<char>, key: Seq<char>) -> Option<Seq<Option<u64>>>;

/// `serde_json::from_str` to a value, with `Value::get`, `Value::as_array` and
/// `Value::as_u64`, which depend on the text and the key alone.
#[verifier::external_body]
pub(crate) fn read_numbers(text: &str, key: &str) -> (r: Option<Vec<Option<u64>>>)
    ensures
        numbers_under(text@, key@) == (match r {
            Some(numbers) => Some(numbers@),
            None => None,
        }),
{
    let value = serde_json::from_str::<serde_json::Value>(text).ok()?;
    let array = value.get(key)?.as_array()?;
    Some(array.iter().map(|item| item.as_u64()).collect())
}

/// A text that is shown indented where that is possible, and as it is otherwise.
pub open spec fn or_raw(pretty: Option<Seq<char>>, raw: Seq<char>) -> Seq<char> {
    match pretty {
        Some(text) => text,
        None => raw,
    }
}

/// The indented text, or the raw one where there is none.
pub fn pretty_or_raw(pretty: Option<String>, raw: &str) -> (r: String)
    ensures
        r@ == or_raw(option_text(pretty), raw@),
{
    match pretty {
        Some(text) => text,
        None => raw.to_owned(),
    }
}

/// A JSON text for display. What cannot be parsed is shown as it is.
pub fn prettify_json(raw: &str) -> (r: String)
    ensures
        r@ == or_raw(indented(raw@), raw@),
{
    pretty_or_raw(indent(raw), raw)
}

/// A JSON object for display. What is none is shown as it is.
pub fn prettify_object(raw: &str) -> (r: String)
    ensures
        r@ == or_raw(indented_object(raw@), raw@),
{
    pretty_or_raw(indent_object(raw), raw)
}

/// A cursor for display. What is no JSON object is shown as it is.
pub fn prettify_cursor(cursor: &str) -> (r: String)
    ensures
        r@ == or_raw(indented_object(cursor@), cursor@),
{
    prettify_object(cursor)
}

} // verus!
