use vstd::prelude::*;

use crate::json::{JsonModel, JsonValue};

verus! {

#[verifier::external_type_specification]
#[verifier::external_body]
pub struct ExSerdeValue(serde_json::Value);

/// The compact text serde_json writes of a JSON document
/// (`Value::to_string`): no white space, strings escaped, numbers as
/// serde_json writes them.
pub uninterp spec fn json_text(v: JsonModel) -> Seq<char>;

/// A document as serde_json holds it, converted one for one (a number read
/// back from its text).
#[verifier::external_body]
fn serde_value(v: &JsonValue) -> serde_json::Value {
    match v {
        JsonValue::Null => serde_json::Value::Null,
        JsonValue::Bool(b) => serde_json::Value::Bool(*b),
        JsonValue::Number(n) => serde_json::from_str(&n.text).unwrap_or(serde_json::Value::Null),
        JsonValue::String(s) => serde_json::Value::String(s.clone()),
        JsonValue::Array(items) => serde_json::Value::Array(items.iter().map(serde_value).collect()),
        JsonValue::Object(fields) => serde_json::Value::Object(
            fields.iter().map(|(key, value)| (key.clone(), serde_value(value))).collect(),
        ),
    }
}

/// The compact JSON text of `v` (serde_json's `Value::to_string`); the text
/// is named, not stated.
#[verifier::external_body]
pub(crate) fn to_json_text(v: &JsonValue) -> (r: String)
    ensures
        r@ == json_text(v@),
{
    serde_value(v).to_string()
}

} // verus!
