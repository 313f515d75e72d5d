//! The boundary to the JSON parser. The sprite-file format — which fields a
//! sprite source has and what shape they must take — is this crate's own,
//! verified logic; turning raw text into a JSON tree is serde_json's work,
//! relied on through the declarations below and validated nowhere else.
//!
//! Each outside result is deterministic — a function of the text or of the
//! tree value alone — so it is given a name (`parse_of`, `field_of`, …) that
//! the loader's contract can speak of. Nothing is assumed about what the
//! names yield: every fact about a loaded sprite still comes from the checks
//! the loader itself runs on what it reads out of the tree.

use vstd::prelude::*;

verus! {

/// serde_json's parsed JSON tree, declared so its values can pass through
/// this crate's signatures; what a value holds stays opaque to verification.
#[verifier::external_type_specification]
#[verifier::external_body]
pub struct ExValue(serde_json::Value);

/// The JSON tree that parsing a text yields, if the text parses at all.
pub uninterp spec fn parse_of(s: Seq<char>) -> Option<serde_json::Value>;

/// The named field of a value, if the value is an object and has it.
pub uninterp spec fn field_of(v: serde_json::Value, key: Seq<char>) -> Option<serde_json::Value>;

/// The characters of a value, if the value is a JSON string.
pub uninterp spec fn str_of(v: serde_json::Value) -> Option<Seq<char>>;

/// The elements of a value, if the value is a JSON array.
pub uninterp spec fn arr_of(v: serde_json::Value) -> Option<Seq<serde_json::Value>>;

/// The value as an unsigned integer, if it is a JSON number that fits one.
pub uninterp spec fn u64_of(v: serde_json::Value) -> Option<u64>;

/// Whether the value is JSON null.
pub uninterp spec fn null_of(v: serde_json::Value) -> bool;

/// Relies on serde_json::from_str::<Value>: parses text as one JSON value,
/// or fails on text that is not JSON; the result depends on the text alone.
#[verifier::external_body]
pub(crate) fn json_parse(text: &str) -> (r: Option<serde_json::Value>)
    ensures
        r == parse_of(text@),
{
    serde_json::from_str::<serde_json::Value>(text).ok()
}

/// Relies on serde_json::Value::get with a string index: the named field of
/// an object, or nothing when the value is no object or has no such field.
#[verifier::external_body]
pub(crate) fn json_get<'a>(v: &'a serde_json::Value, key: &str) -> (r: Option<
    &'a serde_json::Value,
>)
    ensures
        match r {
            Some(f) => field_of(*v, key@) == Some(*f),
            None => field_of(*v, key@) is None,
        },
{
    v.get(key)
}

/// Relies on serde_json::Value::as_str: the contents of a JSON string, or
/// nothing when the value is none.
#[verifier::external_body]
pub(crate) fn json_as_string(v: &serde_json::Value) -> (r: Option<String>)
    ensures
        match r {
            Some(s) => str_of(*v) == Some(s@),
            None => str_of(*v) is None,
        },
{
    v.as_str().map(|s| s.to_string())
}

/// Relies on serde_json::Value::as_array: the elements of a JSON array, or
/// nothing when the value is none.
#[verifier::external_body]
pub(crate) fn json_as_array<'a>(v: &'a serde_json::Value) -> (r: Option<
    &'a Vec<serde_json::Value>,
>)
    ensures
        match r {
            Some(a) => arr_of(*v) == Some(a@),
            None => arr_of(*v) is None,
        },
{
    v.as_array()
}

/// Relies on serde_json::Value::as_u64: a JSON number as an unsigned
/// integer, or nothing when the value is no number or does not fit.
#[verifier::external_body]
pub(crate) fn json_as_u64(v: &serde_json::Value) -> (r: Option<u64>)
    ensures
        r == u64_of(*v),
{
    v.as_u64()
}

/// Relies on serde_json::Value::is_null: whether the value is JSON null.
#[verifier::external_body]
pub(crate) fn json_is_null(v: &serde_json::Value) -> (r: bool)
    ensures
        r == null_of(*v),
{
    v.is_null()
}

} // verus!
