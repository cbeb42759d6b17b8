//! The calls that the decoder makes into `serde_json` and into std's UTF-8
//! check. Each is a trusted item whose contract says what the called
//! function's source or documentation shows; JSON values stay opaque.
use crate::text::{decimal, member, object};
use vstd::prelude::*;
use vstd::utf8::{decode_utf8, valid_utf8};

verus! {

/// A parsed JSON value of `serde_json`, carried through unread.
#[verifier::external_type_specification]
#[verifier::external_body]
pub struct ExJsonValue(serde_json::Value);

/// What `serde_json::from_str::<serde_json::Value>` parses the text to:
/// `None` when it refuses it. What it accepts (RFC 8259 JSON, with
/// serde_json's nesting limit) and the value it builds are a function of
/// the text alone.
pub uninterp spec fn json_value(text: Seq<char>) -> Option<serde_json::Value>;

/// The message (`Display` of `serde_json::Error`) with which
/// `serde_json::from_str::<serde_json::Value>` refuses the text; a function
/// of the text alone.
pub uninterp spec fn json_error_text(text: Seq<char>) -> Seq<char>;

/// The member `key` of the JSON object that the text parses to
/// (`Value::get` with a string key), when it has one.
pub uninterp spec fn json_member_value(text: Seq<char>, key: Seq<char>) -> Option<serde_json::Value>;

/// The member `key` of the JSON object that the text parses to, read by
/// `Value::as_u64`: `None` when the text is no object, lacks the key, or the
/// member is not an integer that fits in `u64`.
pub uninterp spec fn json_u64_member(text: Seq<char>, key: Seq<char>) -> Option<u64>;

/// The message (`Display` of `FromUtf8Error`) with which `String::from_utf8`
/// refuses the bytes; a function of the bytes alone.
pub uninterp spec fn utf8_error_text(bytes: Seq<u8>) -> Seq<char>;

/// Whether `serde_json::from_str::<serde_json::Value>` accepts the text.
pub open spec fn json_accepts(text: Seq<char>) -> bool {
    json_value(text) is Some
}

/// A JSON object with an integer member and a second member: the text
/// `{"<k1>":<n>,"<k2>":<p>}`, keys quoted as JSON quotes them.
pub open spec fn two_members(k1: Seq<char>, n: u64, k2: Seq<char>, p: Seq<char>) -> Seq<char> {
    object(seq![member(k1, decimal(n as nat)), member(k2, p)])
}

/// A JSON object with one integer member: `{"<k>":<n>}`.
pub open spec fn one_member(k: Seq<char>, n: u64) -> Seq<char> {
    object(seq![member(k, decimal(n as nat))])
}

/// How JSON parsing reads the integer member `key` of small objects: in
/// `{"<key>":<n>,"<k2>":<p>}` with a different second key and `p` itself
/// JSON, it is `n` whenever the whole text parses; `{"<key>":<n>}` always
/// parses, and its member `key` is `n`.
pub open spec fn reads_u64_member(
    text: Seq<char>,
    key: Seq<char>,
    r: Result<Option<u64>, String>,
) -> bool {
    &&& forall|n: u64, k2: Seq<char>, p: Seq<char>|
        #![trigger two_members(key, n, k2, p)]
        text == two_members(key, n, k2, p) && k2 != key && json_value(p) is Some && r is Ok
            ==> r == Ok::<Option<u64>, String>(Some(n))
    &&& forall|n: u64|
        #![trigger one_member(key, n)]
        text == one_member(key, n) ==> r == Ok::<Option<u64>, String>(Some(n))
}

/// How JSON parsing reads the member `key` of small objects: in
/// `{"<k1>":<n>,"<key>":<p>}` with a different first key and `p` itself
/// JSON, it is what `p` parses to whenever the whole text parses; in
/// `{"<k1>":<n>}` with a different key, there is none.
pub open spec fn reads_member(
    text: Seq<char>,
    key: Seq<char>,
    r: Result<Option<serde_json::Value>, String>,
) -> bool {
    &&& forall|k1: Seq<char>, n: u64, p: Seq<char>|
        #![trigger two_members(k1, n, key, p)]
        text == two_members(k1, n, key, p) && k1 != key && json_value(p) is Some && r is Ok
            ==> r == Ok::<Option<serde_json::Value>, String>(json_value(p))
    &&& forall|k1: Seq<char>, n: u64|
        #![trigger one_member(k1, n)]
        text == one_member(k1, n) && k1 != key ==> r == Ok::<
            Option<serde_json::Value>,
            String,
        >(None)
}

/// Calls `serde_json::from_str::<serde_json::Value>` and gives its error as
/// its message. The contract claims that it succeeds exactly on the texts
/// that `json_value` parses, returning that value, and otherwise fails with
/// the message that `json_error_text` names.
#[verifier::external_body]
pub(crate) fn parse_json(text: &str) -> (r: Result<serde_json::Value, String>)
    ensures
        r is Ok <==> json_value(text@) is Some,
        r matches Ok(v) ==> json_value(text@) == Some(v),
        r matches Err(m) ==> m@ == json_error_text(text@),
{
    serde_json::from_str::<serde_json::Value>(text).map_err(|e| e.to_string())
}

/// Calls `serde_json::from_str::<serde_json::Value>`, then reads the member
/// `key` with `Value::get` and `Value::as_u64`. The contract claims what
/// the names say, and how parsing reads small objects (`reads_u64_member`),
/// which follows from JSON's grammar as serde_json implements it.
#[verifier::external_body]
pub(crate) fn json_u64_member_of(text: &str, key: &str) -> (r: Result<Option<u64>, String>)
    ensures
        r is Ok <==> json_value(text@) is Some,
        r matches Ok(t) ==> t == json_u64_member(text@, key@),
        r matches Err(m) ==> m@ == json_error_text(text@),
        reads_u64_member(text@, key@, r),
{
    let v = serde_json::from_str::<serde_json::Value>(text).map_err(|e| e.to_string())?;
    Ok(v.get(key).and_then(serde_json::Value::as_u64))
}

/// Calls `serde_json::from_str::<serde_json::Value>`, then clones the
/// member `key` found by `Value::get`. The contract claims what the names
/// say, and how parsing reads small objects (`reads_member`), which follows
/// from JSON's grammar as serde_json implements it.
#[verifier::external_body]
pub(crate) fn json_member_of(text: &str, key: &str) -> (r: Result<Option<serde_json::Value>, String>)
    ensures
        r is Ok <==> json_value(text@) is Some,
        r matches Ok(d) ==> d == json_member_value(text@, key@),
        r matches Err(m) ==> m@ == json_error_text(text@),
        reads_member(text@, key@, r),
{
    let v = serde_json::from_str::<serde_json::Value>(text).map_err(|e| e.to_string())?;
    Ok(v.get(key).cloned())
}

/// Calls `String::from_utf8` and gives its error as its message. The
/// contract claims what std documents: it succeeds exactly on valid UTF-8,
/// the string holds the decoded characters, and otherwise it fails with
/// the message that `utf8_error_text` names.
#[verifier::external_body]
pub(crate) fn utf8_string(bytes: Vec<u8>) -> (r: Result<String, String>)
    ensures
        r is Ok <==> valid_utf8(bytes@),
        r matches Ok(s) ==> s@ == decode_utf8(bytes@),
        r matches Err(m) ==> m@ == utf8_error_text(bytes@),
{
    String::from_utf8(bytes).map_err(|e| e.to_string())
}

} // verus!
