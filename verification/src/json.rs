//! The JSON reader behind the trajectory loader.
//!
//! Documents are read by `serde_json`. Nothing in this module is proved: each
//! function below hands one call to that crate, and its contract gives the
//! call's result a name that the loader's contracts are stated over.

use vstd::prelude::*;

verus! {

#[verifier::external_type_specification]
#[verifier::external_body]
pub struct ExValue(serde_json::Value);

#[verifier::external_type_specification]
#[verifier::external_body]
pub struct ExError(serde_json::Error);

/// What `serde_json::from_slice` makes of `bytes` when asked for a list of
/// values: the elements of the top-level array, or the reader's error.
pub uninterp spec fn json_document(bytes: Seq<u8>) -> Result<
    Seq<serde_json::Value>,
    serde_json::Error,
>;

/// The member of `value` under `key`: `None` when `value` is not an object or
/// has no such member.
pub uninterp spec fn json_member(value: serde_json::Value, key: Seq<char>) -> Option<
    serde_json::Value,
>;

/// The text of `value` when it is a JSON string.
pub uninterp spec fn json_text(value: serde_json::Value) -> Option<Seq<char>>;

/// The elements of `value` when it is a JSON array.
pub uninterp spec fn json_items(value: serde_json::Value) -> Option<Seq<serde_json::Value>>;

/// The binary64 bit pattern of `value` when it is a JSON number.
pub uninterp spec fn json_number(value: serde_json::Value) -> Option<u64>;

/// The message that `error` displays.
pub uninterp spec fn json_error_text(error: serde_json::Error) -> Seq<char>;

/// `serde_json::from_slice`, asked for a `Vec` of values. The result is the
/// one that `json_document` names for these bytes.
#[verifier::external_body]
pub(crate) fn parse_document(bytes: &[u8]) -> (r: Result<
    Vec<serde_json::Value>,
    serde_json::Error,
>)
    ensures
        match r {
            Ok(values) => json_document(bytes@) == Ok::<Seq<serde_json::Value>, serde_json::Error>(
                values@,
            ),
            Err(error) => json_document(bytes@) == Err::<Seq<serde_json::Value>, serde_json::Error>(
                error,
            ),
        },
{
    serde_json::from_slice(bytes)
}

/// `serde_json::Value::get` with a string key. The result is the member that
/// `json_member` names for this value and key.
#[verifier::external_body]
pub(crate) fn member<'a>(value: &'a serde_json::Value, key: &str) -> (r: Option<
    &'a serde_json::Value,
>)
    ensures
        match r {
            Some(found) => json_member(*value, key@) == Some(*found),
            None => json_member(*value, key@) is None,
        },
{
    value.get(key)
}

/// `serde_json::Value::as_str`. The result is the text that `json_text` names
/// for this value.
#[verifier::external_body]
pub(crate) fn text<'a>(value: &'a serde_json::Value) -> (r: Option<&'a str>)
    ensures
        match r {
            Some(found) => json_text(*value) == Some(found@),
            None => json_text(*value) is None,
        },
{
    value.as_str()
}

/// `serde_json::Value::as_array`. The result holds the elements that
/// `json_items` names for this value.
#[verifier::external_body]
pub(crate) fn items<'a>(value: &'a serde_json::Value) -> (r: Option<&'a Vec<serde_json::Value>>)
    ensures
        match r {
            Some(found) => json_items(*value) == Some(found@),
            None => json_items(*value) is None,
        },
{
    value.as_array()
}

/// `serde_json::Value::as_f64`, the number handed out as its bit pattern. The
/// result is the one that `json_number` names for this value.
#[verifier::external_body]
pub(crate) fn number(value: &serde_json::Value) -> (r: Option<u64>)
    ensures
        r == json_number(*value),
{
    value.as_f64().map(|x| x.to_bits())
}

/// The `Display` text of a `serde_json::Error`. The result is the message that
/// `json_error_text` names for this error.
#[verifier::external_body]
pub(crate) fn error_text(error: &serde_json::Error) -> (r: String)
    ensures
        r@ == json_error_text(*error),
{
    error.to_string()
}

} // verus!
