//! The boundary to `serde_json`: the JSON tree it parses out of a text, seen
//! through a mathematical model, and the few accessors the decoder reads it with.
//!
//! Nothing in this file is proved. Each function states what the `serde_json`
//! function it calls is trusted to do.
use vstd::prelude::*;

verus! {

/// What a JSON value holds, as far as this crate reads it.
///
/// A number carries its value only where it is an integer in `0 ..= u64::MAX`;
/// every other number is `Number(None)`.
pub enum JsonModel {
    Null,
    Bool(bool),
    Number(Option<u64>),
    Text(Seq<char>),
    Array(Seq<JsonModel>),
    Object(Map<Seq<char>, JsonModel>),
}

/// `serde_json::Value`, a parsed JSON document. Nothing inside it is visible
/// here but through `json_model`.
#[verifier::external_type_specification]
#[verifier::external_body]
pub struct ExJsonValue(serde_json::Value);

/// `serde_json::Error`, why a text was rejected. It is carried, never read.
#[verifier::external_type_specification]
#[verifier::external_body]
pub struct ExJsonError(serde_json::Error);

/// The tree that a `serde_json::Value` holds.
pub uninterp spec fn json_model(value: serde_json::Value) -> JsonModel;

/// The tree that `serde_json` reads out of `text`, or `None` where it rejects
/// the text.
pub uninterp spec fn json_document(text: Seq<char>) -> Option<JsonModel>;

/// The member `key` of an object; `None` for a missing key and for anything
/// that is not an object.
pub open spec fn member_of(model: JsonModel, key: Seq<char>) -> Option<JsonModel> {
    match model {
        JsonModel::Object(fields) => if fields.contains_key(key) {
            Some(fields[key])
        } else {
            None
        },
        _ => None,
    }
}

/// The models of a run of values, in order.
pub open spec fn models_of(values: Seq<serde_json::Value>) -> Seq<JsonModel> {
    values.map_values(|v: serde_json::Value| json_model(v))
}

/// Calls `serde_json::from_str` at type `serde_json::Value`.
///
/// Trusted: whether the text is accepted, and the tree that comes back,
/// depend on the text alone.
#[verifier::external_body]
pub(crate) fn parse_json(text: &str) -> (r: Result<serde_json::Value, serde_json::Error>)
    ensures
        match r {
            Ok(value) => json_document(text@) == Some(json_model(value)),
            Err(_) => json_document(text@) is None,
        },
{
    serde_json::from_str::<serde_json::Value>(text)
}

/// Calls `serde_json::Value::get` with a string key.
///
/// Trusted: the result is the member stored under `key` where the value is an
/// object that has one, and `None` otherwise.
#[verifier::external_body]
pub(crate) fn member<'a>(value: &'a serde_json::Value, key: &str) -> (r: Option<
    &'a serde_json::Value,
>)
    ensures
        match r {
            Some(found) => member_of(json_model(*value), key@) == Some(json_model(*found)),
            None => member_of(json_model(*value), key@) is None,
        },
{
    value.get(key)
}

/// Calls `serde_json::Value::as_array`.
///
/// Trusted: the result is the vector of elements where the value is an array,
/// and `None` otherwise.
#[verifier::external_body]
pub(crate) fn elements<'a>(value: &'a serde_json::Value) -> (r: Option<&'a Vec<serde_json::Value>>)
    ensures
        match r {
            Some(items) => json_model(*value) == JsonModel::Array(models_of(items@)),
            None => !(json_model(*value) is Array),
        },
{
    value.as_array()
}

/// Calls `serde_json::Value::as_str`.
///
/// Trusted: the result is the text where the value is a JSON string, and
/// `None` otherwise.
#[verifier::external_body]
pub(crate) fn text_of<'a>(value: &'a serde_json::Value) -> (r: Option<&'a str>)
    ensures
        match r {
            Some(text) => json_model(*value) == JsonModel::Text(text@),
            None => !(json_model(*value) is Text),
        },
{
    value.as_str()
}

/// Calls `serde_json::Value::as_u64`.
///
/// Trusted: the result is the number where the value is an integer in
/// `0 ..= u64::MAX`, and `None` otherwise.
#[verifier::external_body]
pub(crate) fn unsigned_of(value: &serde_json::Value) -> (r: Option<u64>)
    ensures
        r == unsigned_in(json_model(*value)),
{
    value.as_u64()
}

/// The integer that a model carries, if it is a number that carries one.
pub open spec fn unsigned_in(model: JsonModel) -> Option<u64> {
    match model {
        JsonModel::Number(n) => n,
        _ => None,
    }
}

/// Calls `serde_json::Value::is_null`.
///
/// Trusted: the result says whether the value is JSON `null`.
#[verifier::external_body]
pub(crate) fn is_null(value: &serde_json::Value) -> (r: bool)
    ensures
        r == (json_model(*value) is Null),
{
    value.is_null()
}

} // verus!
