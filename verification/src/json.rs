//! The JSON text that the feedback loop exchanges, through `serde_json`.

use vstd::prelude::*;

use crate::text::opt_view;

verus! {

/// The lowercase hexadecimal digit for `n` (below 16).
pub open spec fn hex_digit(n: u32) -> char {
    if n < 10 {
        (n + 48) as char
    } else {
        (n + 87) as char
    }
}

/// How `serde_json` writes one character inside a string literal: the
/// quote, the backslash and the control characters below U+0020 are
/// escaped (with JSON's short forms where it has them, as `\u00XX`
/// otherwise); every other character stands for itself.
pub open spec fn json_char_escape(c: char) -> Seq<char> {
    if c == '"' {
        seq!['\\', '"']
    } else if c == '\\' {
        seq!['\\', '\\']
    } else if c == '\u{8}' {
        seq!['\\', 'b']
    } else if c == '\t' {
        seq!['\\', 't']
    } else if c == '\n' {
        seq!['\\', 'n']
    } else if c == '\u{c}' {
        seq!['\\', 'f']
    } else if c == '\r' {
        seq!['\\', 'r']
    } else if (c as u32) < 0x20 {
        seq!['\\', 'u', '0', '0', hex_digit((c as u32) / 16), hex_digit((c as u32) % 16)]
    } else {
        seq![c]
    }
}

/// The characters of `s`, each as `json_char_escape` writes it.
pub open spec fn json_escaped(s: Seq<char>) -> Seq<char>
    decreases s.len(),
{
    if s.len() == 0 {
        seq![]
    } else {
        json_escaped(s.drop_last()) + json_char_escape(s.last())
    }
}

/// The JSON string literal that `serde_json` writes for `s`: its escaped
/// characters in double quotes.
pub open spec fn json_string_literal(s: Seq<char>) -> Seq<char> {
    seq!['"'] + json_escaped(s) + seq!['"']
}

/// What `serde_json` reads as the string member `key` of the top-level
/// object in `json`: `None` when the text is not a JSON value, when it has no
/// such member, or when the member is not a string.
pub uninterp spec fn json_string_member(json: Seq<char>, key: Seq<char>) -> Option<Seq<char>>;

/// Calls `serde_json::to_string` on a string slice, which writes the
/// string literal `json_string_literal(s)` (serde_json's
/// `format_escaped_str`). Serializing a `str` into the in-memory buffer
/// cannot fail: its only errors come from the writer, and a `Vec` writer
/// has none; the `Err` arm is never taken.
#[verifier::external_body]
pub(crate) fn json_quote(s: &str) -> (r: String)
    ensures
        r@ == json_string_literal(s@),
{
    match serde_json::to_string(s) {
        Ok(t) => t,
        Err(_) => String::new(),
    }
}

/// The pretty-printed JSON object `{ "status": "success", "stdout": s }`,
/// with `s` written as `serde_json` writes a string.
pub open spec fn success_object(s: Seq<char>) -> Seq<char> {
    "{\n  \"status\": \"success\",\n  \"stdout\": "@ + json_string_literal(s) + "\n}"@
}

/// A member value written verbatim inside quotes: lowercase ASCII letters
/// and underscores only, so nothing in it needs escaping.
pub open spec fn plain_name(x: Seq<char>) -> bool {
    forall|i: int| 0 <= i < x.len() ==> ('a' <= #[trigger] x[i] && x[i] <= 'z') || x[i] == '_'
}

/// The pretty-printed JSON object
/// `{ "status": "error", "phase": p, "error_type": t, "message": m }`, with
/// `p` and `t` quoted as they are and `m` written as `serde_json` writes a
/// string.
pub open spec fn error_object(p: Seq<char>, t: Seq<char>, m: Seq<char>) -> Seq<char> {
    "{\n  \"status\": \"error\",\n  \"phase\": \""@ + p + "\",\n  \"error_type\": \""@ + t
        + "\",\n  \"message\": "@ + json_string_literal(m) + "\n}"@
}

/// Calls `serde_json::from_str::<serde_json::Value>` on `json`, then
/// `Value::get(key)`, and keeps the member only where it is a JSON string.
/// The result is a function of `json` and `key` alone. Reading back the
/// `stdout` member of the object `success_object(s)` gives `s` (the parser
/// decodes the string literal that `serde_json::to_string` wrote for `s`)
/// and it has no `error_type` member; the object `error_object(p, t, m)`,
/// for plain names `p` and `t`, has no `stdout` member and its
/// `error_type` member is `t`.
#[verifier::external_body]
pub(crate) fn json_member_str(json: &str, key: &str) -> (r: Option<String>)
    ensures
        r matches Some(v) ==> json_string_member(json@, key@) == Some(v@),
        r is None ==> json_string_member(json@, key@) is None,
        forall|s: Seq<char>| json@ == #[trigger] success_object(s) && key@ == "stdout"@ ==> opt_view(r) == Some(s),
        forall|s: Seq<char>| json@ == #[trigger] success_object(s) && key@ == "error_type"@ ==> opt_view(r)
            == None::<Seq<char>>,
        forall|p: Seq<char>, t: Seq<char>, m: Seq<char>|
            plain_name(p) && plain_name(t) && json@ == #[trigger] error_object(p, t, m) && key@ == "stdout"@
                ==> opt_view(r) == None::<Seq<char>>,
        forall|p: Seq<char>, t: Seq<char>, m: Seq<char>|
            plain_name(p) && plain_name(t) && json@ == #[trigger] error_object(p, t, m) && key@ == "error_type"@
                ==> opt_view(r) == Some(t),
{
    match serde_json::from_str::<serde_json::Value>(json) {
        Ok(v) => match v.get(key) {
            Some(serde_json::Value::String(s)) => Some(s.clone()),
            _ => None,
        },
        Err(_) => None,
    }
}

} // verus!
