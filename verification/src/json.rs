//! The two JSON operations the proxy needs, made by `serde_json`.
use vstd::prelude::*;

verus! {

/// The lower-case hexadecimal digit for `d` (`0 <= d < 16`).
pub open spec fn hex_lower(d: int) -> char {
    if d < 10 {
        ('0' as int + d) as char
    } else {
        ('a' as int + d - 10) as char
    }
}

/// How `serde_json` writes the character `c` inside a string literal: `"`
/// and `\` behind a backslash; backspace, tab, line feed, form feed and
/// carriage return as `\b`, `\t`, `\n`, `\f`, `\r`; the other characters
/// below U+0020 as `\u00XX` with lower-case hexadecimal digits; everything
/// else as it is.
pub open spec fn json_escape_char(c: char) -> Seq<char> {
    if c == '"' {
        seq!['\\', '"']
    } else if c == '\\' {
        seq!['\\', '\\']
    } else if c == '\u{8}' {
        seq!['\\', 'b']
    } else if c == '\t' {
        seq!['\\', 't']
    } else if c == '\n' {
        seq!['\\', 'n']
    } else if c == '\u{c}' {
        seq!['\\', 'f']
    } else if c == '\r' {
        seq!['\\', 'r']
    } else if (c as int) < 0x20 {
        seq!['\\', 'u', '0', '0', hex_lower(c as int / 16), hex_lower(c as int % 16)]
    } else {
        seq![c]
    }
}

/// The characters of `s`, each escaped as in [`json_escape_char`].
pub open spec fn json_escaped(s: Seq<char>) -> Seq<char>
    decreases s.len(),
{
    if s.len() == 0 {
        Seq::empty()
    } else {
        json_escaped(s.drop_last()) + json_escape_char(s.last())
    }
}

/// The JSON string literal that `serde_json` writes for the text `s`: the
/// escaped text between double quotes.
pub open spec fn json_quoted(s: Seq<char>) -> Seq<char> {
    seq!['"'] + json_escaped(s) + seq!['"']
}

/// The string value of member `field` of the JSON text `text`, as
/// `serde_json` reads it: `None` when `text` is not JSON, is not an object,
/// has no such member, or the member is not a string.
pub uninterp spec fn json_string_member(text: Seq<char>, field: Seq<char>) -> Option<Seq<char>>;

/// Writes `s` as a JSON string literal with `serde_json::to_string`.
///
/// Claimed of `serde_json`: the literal is [`json_quoted`] (the escape table
/// and `write_char_escape` of its compact formatter).  Serialising a
/// `str` into a `Vec` cannot fail (the writer never errs and a `str` always
/// serialises), so the empty fallback is never taken.
#[verifier::external_body]
pub(crate) fn quote_json(s: &str) -> (r: String)
    ensures
        r@ == json_quoted(s@),
{
    match serde_json::to_string(s) {
        Ok(t) => t,
        Err(_) => String::new(),
    }
}

/// Parses `text` with `serde_json::from_str` into a `serde_json::Value` and
/// reads member `field` of it with `Value::get` and `Value::as_str`.
///
/// Claimed of `serde_json`: the result depends on `text` and `field` alone.
#[verifier::external_body]
pub(crate) fn json_string_field(text: &str, field: &str) -> (r: Option<String>)
    ensures
        r is Some <==> json_string_member(text@, field@) is Some,
        r matches Some(v) ==> json_string_member(text@, field@) == Some(v@),
{
    match serde_json::from_str::<serde_json::Value>(text) {
        Ok(v) => match v.get(field) {
            Some(m) => match m.as_str() {
                Some(t) => Some(t.to_string()),
                None => None,
            },
            None => None,
        },
        Err(_) => None,
    }
}

} // verus!
