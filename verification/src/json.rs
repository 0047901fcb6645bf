//! JSON text produced by `serde_json` for the values the library embeds in
//! its own JSON framing.

use vstd::prelude::*;

verus! {

/// A lowercase hexadecimal digit (`n` below 16).
pub open spec fn hex_digit(n: u32) -> char {
    if n < 10 {
        (('0' as u32) + n) as char
    } else {
        (('a' as u32) + n - 10) as char
    }
}

/// How serde_json writes one character inside a JSON string: `"` and `\`
/// behind a backslash; backspace, tab, line feed, form feed and carriage
/// return as `\b`, `\t`, `\n`, `\f`, `\r`; the other control characters
/// below U+0020 as `\u00` and two lowercase hex digits; anything else as
/// it is.
pub open spec fn json_escaped(c: char) -> Seq<char> {
    let n = c as u32;
    if c == '"' {
        seq!['\\', '"']
    } else if c == '\\' {
        seq!['\\', '\\']
    } else if n == 0x08 {
        seq!['\\', 'b']
    } else if n == 0x09 {
        seq!['\\', 't']
    } else if n == 0x0a {
        seq!['\\', 'n']
    } else if n == 0x0c {
        seq!['\\', 'f']
    } else if n == 0x0d {
        seq!['\\', 'r']
    } else if n < 0x20 {
        seq!['\\', 'u', '0', '0', hex_digit(n / 16), hex_digit(n % 16)]
    } else {
        seq![c]
    }
}

/// Every character of `s` escaped as in a JSON string, in order.
pub open spec fn json_escape_all(s: Seq<char>) -> Seq<char>
    decreases s.len(),
{
    if s.len() == 0 {
        Seq::empty()
    } else {
        json_escape_all(s.drop_last()) + json_escaped(s.last())
    }
}

/// What `serde_json::to_string` returns for a string: the string quoted,
/// each character escaped as `json_escaped` says.
pub open spec fn json_string_text(s: Seq<char>) -> Seq<char> {
    seq!['"'] + json_escape_all(s) + seq!['"']
}

/// `serde_json::to_string` of a string slice. Writing a string into a
/// buffer cannot fail; the text is serde_json's quoting and escaping
/// (its `ESCAPE` table and `write_char_escape`).
#[verifier::external_body]
pub(crate) fn json_string(s: &str) -> (r: String)
    ensures
        r@ == json_string_text(s@),
{
    serde_json::to_string(s).unwrap_or_default()
}

/// What `serde_json::to_string` returns for a JSON value: its compact
/// text.
pub uninterp spec fn json_value_compact(v: serde_json::Value) -> Seq<char>;

/// `serde_json::to_string` of a JSON value (compact form). It cannot fail
/// for a `Value`: serialisation fails only on a failing `Serialize` impl or
/// a map key that is not a string, and `Value` has neither, while writing
/// into a buffer never fails. The text is named.
#[verifier::external_body]
pub(crate) fn json_value_text(v: &serde_json::Value) -> (r: Option<String>)
    ensures
        r is Some,
        r.unwrap()@ == json_value_compact(*v),
{
    serde_json::to_string(v).ok()
}

/// The compact JSON text of a value, `{}` should serialisation ever fail.
pub fn compact_json(v: &serde_json::Value) -> (r: String)
    ensures
        r@ == json_value_compact(*v),
{
    match json_value_text(v) {
        Some(t) => t,
        None => "{}".to_owned(),
    }
}

} // verus!
