//! JSON texts of form values, written and read by `serde_json`.

use std::collections::BTreeMap;

use vstd::prelude::*;

use crate::overview_collection::text_order;

verus! {

/// Lowercase hexadecimal digit of a value below sixteen.
pub open spec fn hex_digit(value: int) -> char {
    if value < 10 {
        (value + 48) as char
    } else {
        (value + 87) as char
    }
}

/// How a character stands inside a JSON string literal: `"` and `\` behind a backslash,
/// backspace, tab, line feed, form feed and carriage return as `\b`, `\t`, `\n`, `\f`, `\r`,
/// other characters below U+0020 as `\u00` and two lowercase hexadecimal digits, every other
/// character as itself.
pub open spec fn json_escape(character: char) -> Seq<char> {
    let code = character as u32 as int;
    if character == '"' {
        seq!['\\', '"']
    } else if character == '\\' {
        seq!['\\', '\\']
    } else if code == 0x08 {
        seq!['\\', 'b']
    } else if code == 0x09 {
        seq!['\\', 't']
    } else if code == 0x0A {
        seq!['\\', 'n']
    } else if code == 0x0C {
        seq!['\\', 'f']
    } else if code == 0x0D {
        seq!['\\', 'r']
    } else if code < 0x20 {
        seq!['\\', 'u', '0', '0', hex_digit(code / 16), hex_digit(code % 16)]
    } else {
        seq![character]
    }
}

/// The characters of a text, each as it stands inside a JSON string literal.
pub open spec fn json_escaped(text: Seq<char>) -> Seq<char>
    decreases text.len(),
{
    if text.len() == 0 {
        Seq::empty()
    } else {
        json_escaped(text.drop_last()) + json_escape(text.last())
    }
}

/// The JSON string literal `serde_json` writes for a text: the escaped text between double
/// quotes.
pub open spec fn json_quoted(text: Seq<char>) -> Seq<char> {
    seq!['"'] + json_escaped(text) + seq!['"']
}

/// The JSON array `serde_json` writes for a list of texts: their literals between brackets,
/// separated by commas, without spaces.
pub open spec fn json_string_array(items: Seq<Seq<char>>) -> Seq<char> {
    seq!['['] + crate::text::joined(items.map_values(|item: Seq<char>| json_quoted(item)), seq![','])
        + seq![']']
}

/// The JSON object `serde_json` writes for a map of texts given by its entries in key order:
/// `key:value` pairs of literals between braces, separated by commas, without spaces.
pub open spec fn json_string_object(entries: Seq<(Seq<char>, Seq<char>)>) -> Seq<char> {
    seq!['{'] + crate::text::joined(
        entries.map_values(
            |entry: (Seq<char>, Seq<char>)| json_quoted(entry.0) + seq![':'] + json_quoted(entry.1),
        ),
        seq![','],
    ) + seq!['}']
}

/// What `serde_json` reads from a text as a map of texts: the entries in key order, or the
/// error's message.
pub uninterp spec fn json_object_read(text: Seq<char>) -> Result<Seq<(Seq<char>, Seq<char>)>, Seq<char>>;

/// What `serde_json` reads from a text as a list of texts, or the error's message.
pub uninterp spec fn json_array_read(text: Seq<char>) -> Result<Seq<Seq<char>>, Seq<char>>;

/// What `serde_json` reads from a text as a list of 32-bit integers, or the error's message.
pub uninterp spec fn json_integers_read(text: Seq<char>) -> Result<Seq<i32>, Seq<char>>;

/// Entries whose keys strictly increase in code point order.
pub open spec fn keys_increasing(entries: Seq<(Seq<char>, Seq<char>)>) -> bool {
    forall|i: int| 0 <= i < entries.len() - 1 ==> text_order(#[trigger] entries[i].0, entries[i + 1].0) < 0
}

/// JSON string literal of a text.
///
/// Calls `serde_json::to_string` on the text, which writes the escaped text between double
/// quotes. Serializing a string cannot fail, so the error arm is never taken.
#[verifier::external_body]
pub(crate) fn quoted(value: &str) -> (result: String)
    ensures
        result@ == json_quoted(value@),
{
    match serde_json::to_string(value) {
        Ok(text) => text,
        Err(_) => String::new(),
    }
}

/// The JSON array serde_json writes for a list of 32-bit integers: each in decimal with a
/// leading `-` when negative, separated by commas, without spaces.
pub open spec fn json_integer_array(values: Seq<i32>) -> Seq<char> {
    seq!['['] + crate::text::joined(
        values.map_values(|value: i32| crate::number::signed_text(value as int)),
        seq![','],
    ) + seq![']']
}

/// JSON array of a list of 32-bit integers.
///
/// Calls `serde_json::to_string` on the list, whose compact formatter writes `[`, the numbers
/// in decimal separated by `,`, and `]`. Serializing integers cannot fail, so the error arm is
/// never taken.
#[verifier::external_body]
pub(crate) fn integers_text(values: &[i32]) -> (result: String)
    ensures
        result@ == json_integer_array(values@),
{
    match serde_json::to_string(values) {
        Ok(text) => text,
        Err(_) => String::new(),
    }
}

/// JSON array of a list of texts.
///
/// Calls `serde_json::to_string` on the list, whose compact formatter writes the literals
/// between brackets separated by commas. Serializing strings cannot fail, so the error arm is
/// never taken.
#[verifier::external_body]
pub(crate) fn args_text(values: &[String]) -> (result: String)
    ensures
        result@ == json_string_array(values@.map_values(|value: String| value@)),
{
    match serde_json::to_string(values) {
        Ok(text) => text,
        Err(_) => String::new(),
    }
}

/// JSON object of a map of texts given by its entries in key order.
///
/// Puts the entries, whose keys are distinct, into a `BTreeMap` and calls `serde_json::to_string`
/// on it, whose compact formatter writes `key:value` pairs in key order between braces,
/// separated by commas. Serializing a map with string keys cannot fail, so the error arm is
/// never taken.
#[verifier::external_body]
pub(crate) fn map_text(entries: &[(String, String)]) -> (result: String)
    requires
        keys_increasing(entries@.map_values(|entry: (String, String)| (entry.0@, entry.1@))),
    ensures
        result@ == json_string_object(entries@.map_values(|entry: (String, String)| (entry.0@, entry.1@))),
{
    let map: BTreeMap<&str, &str> = entries.iter().map(|entry| (entry.0.as_str(), entry.1.as_str())).collect();
    match serde_json::to_string(&map) {
        Ok(text) => text,
        Err(_) => String::new(),
    }
}

/// Reads a JSON object of texts.
///
/// Calls `serde_json::from_str` for a `BTreeMap<String, String>` and hands out its entries in
/// key order, or the error's message; both are named. A map holds each key once, and std
/// documents that its owning iterator yields the entries sorted by key, strings ordering by
/// their bytes, which is the order of their code points; so the keys strictly increase.
#[verifier::external_body]
pub(crate) fn read_json_object(text: &str) -> (result: Result<Vec<(String, String)>, String>)
    ensures
        match (result, json_object_read(text@)) {
            (Ok(entries), Ok(expected)) => entries@.map_values(
                |entry: (String, String)| (entry.0@, entry.1@),
            ) == expected,
            (Err(message), Err(expected)) => message@ == expected,
            _ => false,
        },
        result matches Ok(entries) ==> keys_increasing(
            entries@.map_values(|entry: (String, String)| (entry.0@, entry.1@)),
        ),
{
    match serde_json::from_str::<BTreeMap<String, String>>(text) {
        Ok(map) => Ok(map.into_iter().collect()),
        Err(error) => Err(error.to_string()),
    }
}

/// Reads a JSON array of texts.
///
/// Calls `serde_json::from_str` for a `Vec<String>`; the list, or the error's message, is named.
#[verifier::external_body]
pub(crate) fn read_json_array(text: &str) -> (result: Result<Vec<String>, String>)
    ensures
        match (result, json_array_read(text@)) {
            (Ok(items), Ok(expected)) => items.deep_view() == expected,
            (Err(message), Err(expected)) => message@ == expected,
            _ => false,
        },
{
    match serde_json::from_str::<Vec<String>>(text) {
        Ok(items) => Ok(items),
        Err(error) => Err(error.to_string()),
    }
}

/// Reads a JSON array of 32-bit integers.
///
/// Calls `serde_json::from_str` for a `Vec<i32>`; the list, or the error's message, is named.
#[verifier::external_body]
pub(crate) fn read_json_integers(text: &str) -> (result: Result<Vec<i32>, String>)
    ensures
        match (result, json_integers_read(text@)) {
            (Ok(items), Ok(expected)) => items@ == expected,
            (Err(message), Err(expected)) => message@ == expected,
            _ => false,
        },
{
    match serde_json::from_str::<Vec<i32>>(text) {
        Ok(items) => Ok(items),
        Err(error) => Err(error.to_string()),
    }
}

} // verus!
