//! JSON text framing for resolution payloads. String literals are quoted and
//! escaped by `serde_json`; objects are framed here.
use vstd::prelude::*;
use crate::text::owned;

verus! {

/// How a JSON string literal writes one character: `"` and `\` after a
/// backslash, the control characters with a short escape as `\b`, `\t`, `\n`,
/// `\f`, `\r`, the other control characters below U+0020 as `\u00` and two
/// lower-case hex digits, and every other character as itself.
pub open spec fn json_escaped_char(c: char) -> Seq<char> {
    let hex = seq!['0', '1', '2', '3', '4', '5', '6', '7', '8', '9', 'a', 'b', 'c', 'd', 'e', 'f'];
    if c == '"' {
        seq!['\\', '"']
    } else if c == '\\' {
        seq!['\\', '\\']
    } else if c == '\u{8}' {
        seq!['\\', 'b']
    } else if c == '\t' {
        seq!['\\', 't']
    } else if c == '\n' {
        seq!['\\', 'n']
    } else if c == '\u{c}' {
        seq!['\\', 'f']
    } else if c == '\r' {
        seq!['\\', 'r']
    } else if (c as int) < 0x20 {
        seq!['\\', 'u', '0', '0', hex[(c as int) / 16], hex[(c as int) % 16]]
    } else {
        seq![c]
    }
}

/// The characters of `s`, each written as a JSON string literal writes it.
pub open spec fn json_escaped(s: Seq<char>) -> Seq<char>
    decreases s.len(),
{
    if s.len() == 0 {
        seq![]
    } else {
        json_escaped(s.drop_last()) + json_escaped_char(s.last())
    }
}

/// The JSON string literal of `s`: its escaped characters between quotes,
/// as `serde_json::to_string` writes a string.
pub open spec fn json_string_of(s: Seq<char>) -> Seq<char> {
    seq!['"'] + json_escaped(s) + seq!['"']
}

/// Calls `serde_json::to_string` on a `str`, which writes the string's JSON
/// literal: a quote, each character escaped as `json_escaped_char` says
/// (serde_json's escape table for the compact formatter), and a closing
/// quote. Serialising a `str` does not fail (serde_json fails only for
/// failing `Serialize` impls and non-string map keys).
#[verifier::external_body]
pub(crate) fn json_quote(s: &str) -> (r: String)
    ensures
        r@ == json_string_of(s@),
{
    match serde_json::to_string(s) {
        Ok(text) => text,
        Err(_) => String::new(),
    }
}

/// `"key":value` with `value` already JSON text.
pub open spec fn member(key: Seq<char>, value: Seq<char>) -> Seq<char> {
    json_string_of(key) + ":"@ + value
}

/// Appends `"key":value` to `out`.
pub fn push_member(out: &mut String, key: &str, value: &str)
    ensures
        final(out)@ == old(out)@ + member(key@, value@),
{
    let quoted = json_quote(key);
    out.append(quoted.as_str());
    out.append(":");
    out.append(value);
    assert(final(out)@ =~= old(out)@ + member(key@, value@));
}

/// The UTF-8 bytes of a string.
pub fn utf8_bytes(s: &String) -> (r: Vec<u8>)
    ensures
        r@ == vstd::utf8::encode_utf8(s@),
{
    s.as_str().as_bytes_vec()
}

} // verus!
