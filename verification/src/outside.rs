//! The calls that leave this crate.
//!
//! Each function here hands plain values to a function of another crate, or
//! of the standard library, and hands plain values back. Its contract is
//! taken on trust: Verus does not read the code behind it. Where the result
//! is a function of the arguments that would take pages to write down, the
//! contract gives it a name and says no more.

use crate::message::{is_wire_text, written_message};
use base64::Engine;
use sha1::Digest;
use vstd::prelude::*;
use vstd::utf8::*;

verus! {

/// The SHA-1 digest of a byte sequence.
pub uninterp spec fn sha1_of(data: Seq<u8>) -> Seq<u8>;

/// `sha1::Sha1::digest`: the SHA-1 digest of `data`, which is 20 bytes long
/// and depends on `data` alone.
#[verifier::external_body]
pub(crate) fn sha1_digest(data: &[u8]) -> (digest: Vec<u8>)
    ensures
        digest@ == sha1_of(data@),
        digest@.len() == 20,
{
    sha1::Sha1::digest(data).to_vec()
}

/// The base64 text of a byte sequence in the standard alphabet, without
/// padding.
pub uninterp spec fn base64_of(data: Seq<u8>) -> Seq<char>;

/// The length of the unpadded base64 text of `n` bytes: four characters for
/// every three bytes, and two or three for the one or two bytes left over.
pub open spec fn base64_len(n: nat) -> nat {
    if n % 3 == 0 {
        4 * (n / 3)
    } else if n % 3 == 1 {
        4 * (n / 3) + 2
    } else {
        4 * (n / 3) + 3
    }
}

/// `base64::Engine::encode` on `base64::engine::general_purpose::STANDARD_NO_PAD`:
/// the unpadded base64 text of `data`, which depends on `data` alone and has
/// the length that the crate's `encoded_len` gives. The outside function
/// panics where the length of the text does not fit in `usize`; `requires`
/// keeps such input out.
#[verifier::external_body]
pub(crate) fn base64_encode(data: &[u8]) -> (text: String)
    requires
        4 * (data@.len() / 3) + 3 <= usize::MAX,
    ensures
        text@ == base64_of(data@),
        text@.len() == base64_len(data@.len()),
{
    base64::engine::general_purpose::STANDARD_NO_PAD.encode(data)
}

/// What capture group `group` of the regular expression `pattern` holds in
/// the leftmost match in `haystack`: `None` where `pattern` is no valid
/// expression, where nothing matches, and where the group took no part.
pub uninterp spec fn regex_group_of(pattern: Seq<char>, haystack: Seq<char>, group: nat) -> Option<
    Seq<char>,
>;

/// `regex::Regex::new` on `pattern`, `Regex::captures` on `haystack`, then
/// `Captures::get` and `Match::as_str`: the text of one capture group of the
/// leftmost match, which depends on the three arguments alone.
#[verifier::external_body]
pub(crate) fn regex_capture(pattern: &str, haystack: &str, group: usize) -> (found: Option<String>)
    ensures
        found is Some <==> regex_group_of(pattern@, haystack@, group as nat) is Some,
        found matches Some(text) ==> regex_group_of(pattern@, haystack@, group as nat) == Some(
            text@,
        ),
{
    let expression = regex::Regex::new(pattern).ok()?;
    let captures = expression.captures(haystack)?;
    let found = captures.get(group)?;
    Some(found.as_str().to_owned())
}

/// The string that the JSON document `text` holds under `key`: `None` where
/// `text` is no JSON document, where the document is no object, where the
/// object has no member `key`, and where that member is no string.
pub uninterp spec fn json_member_of(text: Seq<char>, key: Seq<char>) -> Option<Seq<char>>;

/// What a string that may be missing is to the contracts.
pub open spec fn text_of(member: Option<String>) -> Option<Seq<char>> {
    match member {
        Some(value) => Some(value@),
        None => None,
    }
}

/// What [`json_string_member`] reads under `key` in `text`, as its contract
/// has it. Of the text that this library writes for a message, which is a
/// JSON object with the members `action` and `data`, each a string in which
/// quote, backslash and control characters are escaped, it reads the two
/// fields as they were written.
pub open spec fn json_member(text: Seq<char>, key: Seq<char>) -> Option<Seq<char>> {
    if is_wire_text(text) && key == "action"@ {
        Some(written_message(text).action)
    } else if is_wire_text(text) && key == "data"@ {
        Some(written_message(text).data)
    } else {
        json_member_of(text, key)
    }
}

/// `serde_json::from_str` to a `serde_json::Value`, then `Value::get` and
/// `Value::as_str`: the string member `key` of the JSON object `text`, which
/// depends on the two arguments alone. A string member is read with its
/// escapes undone, so that a string written by the rules of JSON comes back
/// as it was.
#[verifier::external_body]
pub(crate) fn json_string_member(text: &str, key: &str) -> (member: Option<String>)
    ensures
        is_wire_text(text@) && key@ == "action"@ ==> text_of(member) == Some(
            written_message(text@).action,
        ),
        is_wire_text(text@) && key@ == "data"@ ==> text_of(member) == Some(
            written_message(text@).data,
        ),
        !(is_wire_text(text@) && (key@ == "action"@ || key@ == "data"@)) ==> text_of(member)
            == json_member_of(text@, key@),
{
    let document: serde_json::Value = serde_json::from_str(text).ok()?;
    let member = document.get(key)?;
    let value = member.as_str()?;
    Some(value.to_owned())
}

/// `uuid::Uuid::new_v4`, read as a number by `Uuid::as_u128`: a random
/// identifier. Of every outcome only the version and variant bits are
/// known. The outside function panics where the operating system gives no
/// random bytes.
#[verifier::external_body]
pub(crate) fn random_uuid() -> (id: u128)
    ensures
        id & 0xF000_C000_0000_0000_0000 == 0x4000_8000_0000_0000_0000,
{
    uuid::Uuid::new_v4().as_u128()
}

/// `String::from_utf8`: `bytes` as a string, where they are UTF-8. The
/// string is made of the same bytes.
#[verifier::external_body]
pub(crate) fn utf8_text(bytes: Vec<u8>) -> (text: Option<String>)
    ensures
        text is Some <==> valid_utf8(bytes@),
        text matches Some(s) ==> encode_utf8(s@) == bytes@,
{
    String::from_utf8(bytes).ok()
}

/// The text that `String::from_utf8_lossy` reads from a byte sequence that
/// is not UTF-8, with U+FFFD in place of what is not.
pub uninterp spec fn lossy_text_of(bytes: Seq<u8>) -> Seq<char>;

/// What [`utf8_lossy_text`] reads from `bytes`, as its contract has it: the
/// text that they encode, where they are UTF-8.
pub open spec fn lossy_text(bytes: Seq<u8>) -> Seq<char> {
    if valid_utf8(bytes) {
        decode_utf8(bytes)
    } else {
        lossy_text_of(bytes)
    }
}

/// `String::from_utf8_lossy`: `bytes` read as text, which depends on `bytes`
/// alone. Bytes that are UTF-8 are read as the text they encode.
#[verifier::external_body]
pub(crate) fn utf8_lossy_text(bytes: &[u8]) -> (text: String)
    ensures
        valid_utf8(bytes@) ==> text@ == decode_utf8(bytes@),
        !valid_utf8(bytes@) ==> text@ == lossy_text_of(bytes@),
{
    String::from_utf8_lossy(bytes).into_owned()
}

/// `String::push`: `c` appended to the end of `text`.
#[verifier::external_body]
pub(crate) fn push_char(text: &mut String, c: char)
    ensures
        final(text)@ == old(text)@.push(c),
{
    text.push(c)
}

/// True of the characters that have the Unicode property White_Space, by
/// which `str::trim` goes.
pub uninterp spec fn white_space(c: char) -> bool;

/// A text without the white space at its start.
pub open spec fn trimmed_start(text: Seq<char>) -> Seq<char>
    decreases text.len(),
{
    if text.len() > 0 && white_space(text[0]) {
        trimmed_start(text.drop_first())
    } else {
        text
    }
}

/// A text without the white space at its end.
pub open spec fn trimmed_end(text: Seq<char>) -> Seq<char>
    decreases text.len(),
{
    if text.len() > 0 && white_space(text.last()) {
        trimmed_end(text.drop_last())
    } else {
        text
    }
}

/// A text without the white space at its two ends.
pub open spec fn trimmed_of(text: Seq<char>) -> Seq<char> {
    trimmed_end(trimmed_start(text))
}

/// `str::trim`: `text` without its leading and trailing white space, so that
/// what is left neither starts nor ends with a character of that kind.
#[verifier::external_body]
pub(crate) fn trim_text(text: &str) -> (trimmed: &str)
    ensures
        trimmed@ == trimmed_of(text@),
        trimmed@.len() > 0 ==> !white_space(trimmed@[0]) && !white_space(trimmed@.last()),
{
    text.trim()
}

} // verus!
