//! JSON text for values that the generated JavaScript embeds.
use vstd::prelude::*;

verus! {

/// The lowercase hexadecimal digit of `n` (below 16).
pub open spec fn hex_digit(n: int) -> char {
    seq!['0', '1', '2', '3', '4', '5', '6', '7', '8', '9', 'a', 'b', 'c', 'd', 'e', 'f'][n]
}

/// How `serde_json` writes a character inside a string literal: a quote and
/// a backslash after a backslash; backspace, tab, line feed, form feed and
/// carriage return as `\b`, `\t`, `\n`, `\f`, `\r`; the other control
/// characters below U+0020 as `\u00` and two lowercase hexadecimal digits;
/// every other character as it is.
pub open spec fn json_escape_char(c: char) -> Seq<char> {
    if c == '"' {
        seq!['\\', '"']
    } else if c == '\\' {
        seq!['\\', '\\']
    } else if c == '\x08' {
        seq!['\\', 'b']
    } else if c == '\t' {
        seq!['\\', 't']
    } else if c == '\n' {
        seq!['\\', 'n']
    } else if c == '\x0C' {
        seq!['\\', 'f']
    } else if c == '\r' {
        seq!['\\', 'r']
    } else if (c as int) < 0x20 {
        seq!['\\', 'u', '0', '0', hex_digit((c as int) / 16), hex_digit((c as int) % 16)]
    } else {
        seq![c]
    }
}

/// The characters of a text, each as `serde_json` writes it inside a string
/// literal.
pub open spec fn json_escaped(s: Seq<char>) -> Seq<char>
    decreases s.len(),
{
    if s.len() == 0 {
        Seq::empty()
    } else {
        json_escaped(s.drop_last()) + json_escape_char(s.last())
    }
}

/// The JSON string literal that `serde_json` writes for a text: the text in
/// double quotes, with quotes, backslashes and control characters escaped.
#[verifier::opaque]
pub open spec fn json_quote(s: Seq<char>) -> Seq<char> {
    seq!['"'] + json_escaped(s) + seq!['"']
}

/// Calls `serde_json::to_string` on a string slice. Serializing a `str` cannot
/// fail (the serializer writes into a `Vec<u8>`); the contract states the text
/// it returns: the serializer's compact formatter writes the string in quotes,
/// escaping each character as `format_escaped_str_contents` and
/// `write_char_escape` do.
#[verifier::external_body]
pub(crate) fn json_string(s: &str) -> (r: String)
    ensures
        r@ == json_quote(s@),
{
    serde_json::to_string(s).unwrap_or_default()
}

/// The number of items of the JSON array that `text` holds, if it holds an
/// array.
pub uninterp spec fn json_array_length(text: Seq<char>) -> Option<nat>;

/// Parses `text` with `serde_json::from_str` as a JSON value and, when it is
/// an array, counts its items (`Value::as_array`, then `len`). The contract
/// names the outcome.
#[verifier::external_body]
pub(crate) fn json_array_len(text: &str) -> (r: Option<usize>)
    ensures
        match r {
            Some(n) => json_array_length(text@) == Some(n as nat),
            None => json_array_length(text@) is None,
        },
{
    serde_json::from_str::<serde_json::Value>(text).ok().and_then(|v| v.as_array().map(|a| a.len()))
}

/// Whether `text` holds a JSON object with a member `key` whose value is
/// `null`.
pub uninterp spec fn json_null_member(text: Seq<char>, key: Seq<char>) -> bool;

/// Parses `text` with `serde_json::from_str` as a JSON value and tells
/// whether `Value::get(key)` finds a member that `Value::is_null` holds for.
/// The contract names the outcome.
#[verifier::external_body]
pub(crate) fn json_member_is_null(text: &str, key: &str) -> (r: bool)
    ensures
        r == json_null_member(text@, key@),
{
    match serde_json::from_str::<serde_json::Value>(text) {
        Ok(v) => v.get(key).is_some_and(serde_json::Value::is_null),
        Err(_) => false,
    }
}

/// The integer that the member `key` of the JSON object `text` holds, if it
/// holds one that fits an `i64`.
pub uninterp spec fn json_i64_member(text: Seq<char>, key: Seq<char>) -> Option<i64>;

/// Parses `text` with `serde_json::from_str` as a JSON value and reads
/// `Value::get(key)` with `Value::as_i64`. The contract names the outcome.
#[verifier::external_body]
pub(crate) fn json_member_i64(text: &str, key: &str) -> (r: Option<i64>)
    ensures
        r == json_i64_member(text@, key@),
{
    serde_json::from_str::<serde_json::Value>(text).ok().and_then(|v| v.get(key).and_then(serde_json::Value::as_i64))
}

/// The text that the member `key` of the JSON object `text` holds, if it
/// holds a string.
pub uninterp spec fn json_str_member(text: Seq<char>, key: Seq<char>) -> Option<Seq<char>>;

/// Parses `text` with `serde_json::from_str` as a JSON value and reads
/// `Value::get(key)` with `Value::as_str`. The contract names the outcome.
#[verifier::external_body]
pub(crate) fn json_member_str(text: &str, key: &str) -> (r: Option<String>)
    ensures
        match r {
            Some(s) => json_str_member(text@, key@) == Some(s@),
            None => json_str_member(text@, key@) is None,
        },
{
    serde_json::from_str::<serde_json::Value>(text).ok().and_then(|v| v.get(key).and_then(serde_json::Value::as_str).map(str::to_owned))
}

} // verus!
