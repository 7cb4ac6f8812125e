//! The JSON texts kept in text columns: lists of account ids and lists of strings.

use vstd::prelude::*;

use crate::text::{join, signed_decimal, views};

verus! {

/// serde_json's error, carried opaque.
#[verifier::external_type_specification]
#[verifier::external_body]
pub struct ExJsonError(serde_json::Error);

/// The compact JSON text of a list of integers: `[1,-2,3]`.
pub open spec fn json_int_list(ids: Seq<i64>) -> Seq<char> {
    "["@ + join(ids.map_values(|i: i64| signed_decimal(i as int)), ","@) + "]"@
}

/// Relies on `serde_json::to_string` on a `Vec<i64>`: compact output with each
/// integer in decimal. Writing integers into its in-memory buffer has no
/// failure path, so the result is `Ok`.
#[verifier::external_body]
pub(crate) fn encode_id_list(ids: &Vec<i64>) -> (r: Result<String, serde_json::Error>)
    ensures
        r is Ok,
        r matches Ok(s) ==> s@ == json_int_list(ids@),
{
    serde_json::to_string(ids)
}

/// The integers that a text holds as a JSON array, if it is one.
pub uninterp spec fn json_int_list_of(s: Seq<char>) -> Option<Seq<i64>>;

/// Relies on `serde_json::from_str::<Vec<i64>>`.
#[verifier::external_body]
pub(crate) fn parse_id_list(s: &str) -> (r: Result<Vec<i64>, serde_json::Error>)
    ensures
        match r {
            Ok(v) => json_int_list_of(s@) == Some(v@),
            Err(_) => json_int_list_of(s@) is None,
        },
{
    serde_json::from_str(s)
}

pub const HEX_LOWER: [char; 16] = [
    '0', '1', '2', '3', '4', '5', '6', '7', '8', '9', 'a', 'b', 'c', 'd', 'e', 'f',
];

/// One character inside a JSON string: `"` and `\` behind a backslash, the
/// control characters U+0000 to U+001F as `\b \t \n \f \r` or else as
/// `\u00xx` in lower-case hex, any other character as itself.
pub open spec fn json_escaped_char(c: char) -> Seq<char> {
    if c == '"' {
        seq!['\\', '"']
    } else if c == '\\' {
        seq!['\\', '\\']
    } else if c == '\u{8}' {
        seq!['\\', 'b']
    } else if c == '\t' {
        seq!['\\', 't']
    } else if c == '\n' {
        seq!['\\', 'n']
    } else if c == '\u{c}' {
        seq!['\\', 'f']
    } else if c == '\r' {
        seq!['\\', 'r']
    } else if (c as u32) < 0x20 {
        seq![
            '\\',
            'u',
            '0',
            '0',
            HEX_LOWER@[((c as u32) / 16) as int],
            HEX_LOWER@[((c as u32) % 16) as int],
        ]
    } else {
        seq![c]
    }
}

/// The characters of a text, each escaped.
pub open spec fn json_escaped(s: Seq<char>) -> Seq<char>
    decreases s.len(),
{
    if s.len() == 0 {
        Seq::empty()
    } else {
        json_escaped(s.drop_last()) + json_escaped_char(s.last())
    }
}

/// The compact JSON text of a list of strings: each quoted and escaped,
/// joined with `,` inside `[` and `]`.
pub open spec fn json_string_list(items: Seq<Seq<char>>) -> Seq<char> {
    "["@ + join(items.map_values(|s: Seq<char>| "\""@ + json_escaped(s) + "\""@), ","@) + "]"@
}

/// Relies on `serde_json::to_string` on a `Vec<String>`: compact output, each
/// string escaped by its table of escapes; writing strings into its in-memory
/// buffer has no failure path, so the result is `Ok`.
#[verifier::external_body]
pub(crate) fn encode_string_list(items: &Vec<String>) -> (r: Result<String, serde_json::Error>)
    ensures
        r is Ok,
        r matches Ok(s) ==> s@ == json_string_list(views(items@)),
{
    serde_json::to_string(items)
}

/// The strings that a text holds as a JSON array, if it is one.
pub uninterp spec fn json_string_list_of(s: Seq<char>) -> Option<Seq<Seq<char>>>;

/// Relies on `serde_json::from_str::<Vec<String>>`.
#[verifier::external_body]
pub(crate) fn parse_string_list(s: &str) -> (r: Result<Vec<String>, serde_json::Error>)
    ensures
        match r {
            Ok(v) => json_string_list_of(s@) == Some(views(v@)),
            Err(_) => json_string_list_of(s@) is None,
        },
{
    serde_json::from_str(s)
}

} // verus!
