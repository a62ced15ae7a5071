//! JSON payloads: parsing, setting a member, and writing the text out again,
//! all of it done by `serde_json`.

use vstd::prelude::*;

verus! {

/// A JSON value of `serde_json`, opaque to the verifier.
#[verifier::external_type_specification]
#[verifier::external_body]
pub struct ExJsonValue(serde_json::Value);

/// The error type of `serde_json`, opaque to the verifier.
#[verifier::external_type_specification]
#[verifier::external_body]
pub struct ExJsonError(serde_json::Error);

/// The compact JSON text that a value is written as.
pub uninterp spec fn json_text(value: serde_json::Value) -> Seq<char>;

/// What the parser makes of a body: the compact text of the value that it
/// reads, or nothing where it rejects the body.
pub uninterp spec fn json_parse(body: Seq<u8>) -> Option<Seq<char>>;

/// The compact text of an object after a member of it was set to a string.
pub uninterp spec fn json_with_member(text: Seq<char>, key: Seq<char>, value: Seq<char>) -> Seq<
    char,
>;

/// Whether a compact JSON text is that of an object: no other text opens
/// with a brace.
pub open spec fn text_is_object(text: Seq<char>) -> bool {
    text.len() > 0 && text[0] == '{'
}

/// Whether a compact JSON text is that of `null`.
pub open spec fn text_is_null(text: Seq<char>) -> bool {
    text == seq!['n', 'u', 'l', 'l']
}

/// Whether a member can be set on the value with this text: on an object,
/// and on `null`, which then becomes an object.
pub open spec fn text_takes_members(text: Seq<char>) -> bool {
    text_is_object(text) || text_is_null(text)
}

/// Calls `serde_json::from_reader` on the bytes. The contract names what it
/// returns: a value exactly where the parser accepts the bytes.
#[verifier::external_body]
pub(crate) fn parse(body: &[u8]) -> (r: Result<serde_json::Value, serde_json::Error>)
    ensures
        match r {
            Ok(value) => json_parse(body@) == Some(json_text(value)),
            Err(_) => json_parse(body@) is None,
        },
{
    serde_json::from_reader(body)
}

/// Calls `Value::is_object`. The contract claims that the objects are the
/// values whose compact text opens with a brace.
#[verifier::external_body]
pub(crate) fn is_object(value: &serde_json::Value) -> (b: bool)
    ensures
        b == text_is_object(json_text(*value)),
{
    value.is_object()
}

/// Calls `Value::is_null`. The contract claims that `null` is the one value
/// whose compact text is `null`.
#[verifier::external_body]
pub(crate) fn is_null(value: &serde_json::Value) -> (b: bool)
    ensures
        b == text_is_null(json_text(*value)),
{
    value.is_null()
}

/// Assigns through `IndexMut<&str>` of `Value`, which panics on a value that
/// is neither an object nor `null`. The contract names the text of the value
/// afterwards.
#[verifier::external_body]
pub(crate) fn set_member(target: &mut serde_json::Value, key: &str, value: &str)
    requires
        text_takes_members(json_text(*old(target))),
    ensures
        json_text(*final(target)) == json_with_member(json_text(*old(target)), key@, value@),
{
    target[key] = serde_json::Value::from(value);
}

/// Calls `serde_json::to_string`. The contract claims that the call succeeds
/// and gives the compact text of the value: writing a `Value` into memory
/// has no step that fails, since its keys are strings and its numbers finite.
#[verifier::external_body]
pub(crate) fn to_text(value: &serde_json::Value) -> (r: Result<String, serde_json::Error>)
    ensures
        r is Ok,
        r matches Ok(text) ==> text@ == json_text(*value),
{
    serde_json::to_string(value)
}

} // verus!
