//! JSON values as property values. The library carries them through and
//! never looks inside one.

use vstd::prelude::*;

verus! {

/// Declares `serde_json::Value` as a type that values of the library may
/// hold. Nothing is said of what is inside one.
#[verifier::external_type_specification]
#[verifier::external_body]
pub struct ExJsonValue(serde_json::Value);

/// The JSON string with the given text.
pub uninterp spec fn json_string(text: Seq<char>) -> serde_json::Value;

/// Builds `serde_json::Value::String` from the text: the JSON string with
/// that text.
#[verifier::external_body]
pub(crate) fn string_value(text: String) -> (value: serde_json::Value)
    ensures
        value == json_string(text@),
{
    serde_json::Value::String(text)
}

/// Calls `Clone::clone` of `serde_json::Value`, which copies the value with
/// everything in it.
#[verifier::external_body]
pub(crate) fn clone_value(value: &serde_json::Value) -> (copy: serde_json::Value)
    ensures
        copy == *value,
{
    value.clone()
}

} // verus!
