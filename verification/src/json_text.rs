//! JSON text: reading it into values and writing values back, through serde_json.
use vstd::prelude::*;
use serde_json::Value;
use crate::json::JsonValue;

verus! {

#[verifier::external_type_specification]
#[verifier::external_body]
pub struct ExSerdeValue(serde_json::Value);

/// The value that serde_json reads from the text `text`, where it is JSON.
pub uninterp spec fn json_text_value(text: Seq<char>) -> Option<JsonValue>;

/// The compact text that serde_json writes for `v`.
pub uninterp spec fn json_text(v: JsonValue) -> Seq<char>;

/// The indented text that serde_json writes for `v`.
pub uninterp spec fn json_pretty_text(v: JsonValue) -> Seq<char>;

/// A serde_json value as the library holds it: one variant for one variant, numbers by the
/// text serde_json writes for them, object members in the order serde_json's map gives them.
#[verifier::external_body]
fn value_from_serde(v: &Value) -> JsonValue {
    match v {
        Value::Null => JsonValue::Null,
        Value::Bool(b) => JsonValue::Bool(*b),
        Value::Number(n) => JsonValue::Number(n.to_string()),
        Value::String(s) => JsonValue::String(s.clone()),
        Value::Array(a) => JsonValue::Array(a.iter().map(value_from_serde).collect()),
        Value::Object(m) => JsonValue::Object(m.iter().map(|(k, x)| (k.clone(), value_from_serde(x))).collect()),
    }
}

/// The library's value as a serde_json value: one variant for one variant; members are
/// inserted in turn, so where a key occurs twice the last one counts.
#[verifier::external_body]
fn value_to_serde(v: &JsonValue) -> Value {
    match v {
        JsonValue::Null => Value::Null,
        JsonValue::Bool(b) => Value::Bool(*b),
        JsonValue::Number(n) => n.parse().map(Value::Number).unwrap_or(Value::Null),
        JsonValue::String(s) => Value::String(s.clone()),
        JsonValue::Array(a) => Value::Array(a.iter().map(value_to_serde).collect()),
        JsonValue::Object(es) => Value::Object(es.iter().map(|(k, x)| (k.clone(), value_to_serde(x))).collect()),
    }
}

/// Reads JSON text. Calls `serde_json::from_str` into a `serde_json::Value`, which fails on
/// text that is not JSON and depends on the text alone; the claim is only that the result is
/// the value named `json_text_value` of the text (`None` where serde_json fails).
#[verifier::external_body]
pub(crate) fn parse_json(text: &str) -> (res: Option<JsonValue>)
    ensures
        res == json_text_value(text@),
{
    serde_json::from_str::<Value>(text).ok().map(|v| value_from_serde(&v))
}

/// Writes a value as compact JSON text. Calls `serde_json::to_string` on the value; writing a
/// `serde_json::Value` cannot fail, its keys being strings. The claim is only that the text is
/// the one named `json_text` of the value.
#[verifier::external_body]
pub(crate) fn to_json(v: &JsonValue) -> (res: String)
    ensures
        res@ == json_text(*v),
{
    serde_json::to_string(&value_to_serde(v)).unwrap_or_default()
}

/// Writes a value as indented JSON text. Calls `serde_json::to_string_pretty` on the value,
/// which cannot fail for a `serde_json::Value`. The claim is only that the text is the one
/// named `json_pretty_text` of the value.
#[verifier::external_body]
pub(crate) fn to_pretty_json(v: &JsonValue) -> (res: String)
    ensures
        res@ == json_pretty_text(*v),
{
    serde_json::to_string_pretty(&value_to_serde(v)).unwrap_or_default()
}

} // verus!
