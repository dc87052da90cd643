//! JSON values of `serde_json`, carried through the library as they are.
use vstd::prelude::*;
use serde_json::Value;

verus! {

/// `serde_json::Value`, which tool arguments and parameter schemas are.
#[verifier::external_type_specification]
#[verifier::external_body]
pub struct ExValue(serde_json::Value);

/// The compact JSON text that `serde_json` writes for a value
/// (its `Display`, which `to_string` uses).
pub uninterp spec fn json_text(value: Value) -> Seq<char>;

/// The value that `serde_json::from_str` reads from a text, or `None` where
/// the text is not one JSON value.
pub uninterp spec fn json_parse(text: Seq<char>) -> Option<Value>;

/// The JSON string `Value::String` makes of a text.
pub uninterp spec fn json_string(text: Seq<char>) -> Value;

/// The JSON object with these keys and values, each key paired with the
/// value at its place; a later pair replaces an earlier one of the same key.
pub uninterp spec fn json_object(keys: Seq<Seq<char>>, values: Seq<Value>) -> Value;

/// The JSON array of these values, in order.
pub uninterp spec fn json_array(values: Seq<Value>) -> Value;

/// The JSON boolean `Value::Bool` makes.
pub uninterp spec fn json_bool(value: bool) -> Value;

/// `<Value as Clone>::clone`, derived in `serde_json`: the copy is the same
/// JSON value.
#[verifier::external_body]
pub(crate) fn clone_json(value: &Value) -> (res: Value)
    ensures
        res == *value,
{
    value.clone()
}

/// `Value::to_string`: the compact JSON text of the value.
#[verifier::external_body]
pub(crate) fn json_to_string(value: &Value) -> (res: String)
    ensures
        res@ == json_text(*value),
{
    value.to_string()
}

/// `serde_json::from_str::<Value>`: the value that the text holds, `None`
/// where the text is not JSON.
#[verifier::external_body]
pub(crate) fn parse_json(text: &str) -> (res: Option<Value>)
    ensures
        res == json_parse(text@),
{
    serde_json::from_str::<Value>(text).ok()
}

/// `Value::String`: the JSON string that holds the text.
#[verifier::external_body]
pub(crate) fn string_value(text: String) -> (res: Value)
    ensures
        res == json_string(text@),
{
    Value::String(text)
}

/// `Value::Object` of the `serde_json::Map` collected from the key and
/// value pairs.
#[verifier::external_body]
pub(crate) fn object_value(keys: Vec<String>, values: Vec<Value>) -> (res: Value)
    requires
        keys@.len() == values@.len(),
    ensures
        res == json_object(keys@.map_values(|k: String| k@), values@),
{
    Value::Object(keys.into_iter().zip(values).collect())
}

/// `Value::Array`.
#[verifier::external_body]
pub(crate) fn array_value(values: Vec<Value>) -> (res: Value)
    ensures
        res == json_array(values@),
{
    Value::Array(values)
}

/// `Value::Bool`.
#[verifier::external_body]
pub(crate) fn bool_value(value: bool) -> (res: Value)
    ensures
        res == json_bool(value),
{
    Value::Bool(value)
}

} // verus!
