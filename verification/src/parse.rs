//! Parsing JSON text into the library's document model.
//!
//! The text is parsed by serde_json; the resulting tree is rebuilt,
//! variant for variant, as the library's own `JsonValue`, on which all
//! further logic is verified. Parsing is deterministic, so its result
//! is named by an uninterpreted function of the text; nothing is
//! assumed about what that result is on any given text.

use vstd::prelude::*;

use crate::json::{JsonNum, JsonValue};
use crate::schema::ParseError;

verus! {

#[verifier::external_type_specification]
#[verifier::external_body]
pub struct ExSerdeJsonValue(serde_json::Value);

#[verifier::external_type_specification]
#[verifier::external_body]
pub struct ExSerdeJsonError(serde_json::Error);

/// The document a text parses to, in the library's model, or `None`
/// when the text is not valid JSON.
pub uninterp spec fn json_parse(text: Seq<char>) -> Option<JsonValue>;

/// Conversion arm of `parse_json_text`: rebuilds a parsed
/// `serde_json::Value` tree as the library's own `JsonValue`, one
/// variant for one variant. A number is reduced to its two views,
/// through `serde_json::Number::as_i64` and `as_f64`.
#[verifier::external_body]
fn from_json_value(v: serde_json::Value) -> JsonValue {
    match v {
        serde_json::Value::Null => JsonValue::Null,
        serde_json::Value::Bool(b) => JsonValue::Bool(b),
        serde_json::Value::Number(n) => JsonValue::Num(
            JsonNum { int: n.as_i64(), bits: n.as_f64().map(|x| x.to_bits()) },
        ),
        serde_json::Value::String(s) => JsonValue::Str(s),
        serde_json::Value::Array(items) => JsonValue::Arr(
            items.into_iter().map(from_json_value).collect(),
        ),
        serde_json::Value::Object(entries) => JsonValue::Obj(
            entries.into_iter().map(|(k, x)| (k, from_json_value(x))).collect(),
        ),
    }
}

/// Relies on `serde_json::from_str`: a deterministic, non-panicking
/// parse of the whole text, `Err` exactly when the text is not valid
/// JSON (or nests beyond serde_json's recursion limit).
#[verifier::external_body]
fn parse_json_text(text: &str) -> (r: Result<JsonValue, serde_json::Error>)
    ensures
        match r {
            Ok(doc) => json_parse(text@) == Some(doc),
            Err(_) => json_parse(text@) is None,
        },
{
    serde_json::from_str::<serde_json::Value>(text).map(from_json_value)
}

/// Parses JSON text into the library's document model; text that is
/// not valid JSON yields `InvalidJson`.
pub fn parse_schema(text: &str) -> (r: Result<JsonValue, ParseError>)
    ensures
        match r {
            Ok(doc) => json_parse(text@) == Some(doc),
            Err(e) => json_parse(text@) is None && e == ParseError::InvalidJson,
        },
{
    match parse_json_text(text) {
        Ok(doc) => Ok(doc),
        Err(_) => Err(ParseError::InvalidJson),
    }
}

} // verus!
