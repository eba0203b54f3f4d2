//! Tests of the schema interpreter: classification, attribute
//! extraction, and the two parse-level failures.

use schema_form::json::{JsonNum, JsonValue};
use schema_form::schema::{interpret, interpret_value, FieldKind, ParseError};

#[test]
fn malformed_text_is_invalid_json() {
    let r = interpret("{not json");
    assert_eq!(r.unwrap_err(), ParseError::InvalidJson);
}

#[test]
fn empty_text_is_invalid_json() {
    let r = interpret("");
    assert_eq!(r.unwrap_err(), ParseError::InvalidJson);
}

#[test]
fn missing_properties_is_rejected() {
    let r = interpret(r#"{"type":"object"}"#);
    assert_eq!(r.unwrap_err(), ParseError::MissingProperties);
}

#[test]
fn non_object_root_is_rejected() {
    assert_eq!(interpret("3").unwrap_err(), ParseError::MissingProperties);
    assert_eq!(interpret("[1,2]").unwrap_err(), ParseError::MissingProperties);
    assert_eq!(interpret("null").unwrap_err(), ParseError::MissingProperties);
}

#[test]
fn non_object_properties_is_rejected() {
    let r = interpret(r#"{"properties": 7}"#);
    assert_eq!(r.unwrap_err(), ParseError::MissingProperties);
}

#[test]
fn empty_properties_yield_no_fields() {
    let fields = interpret(r#"{"properties":{}}"#).unwrap();
    assert!(fields.is_empty());
}

#[test]
fn one_field_per_supported_property() {
    // serde_json iterates object keys in sorted order.
    let schema = r#"{"properties":{
        "name":{"type":"string"},
        "count":{"type":"integer"},
        "ratio":{"type":"number"},
        "flag":{"type":"boolean"},
        "nested":{"type":"object"}
    }}"#;
    let fields = interpret(schema).unwrap();
    assert_eq!(fields.len(), 3);
    assert_eq!(fields[0].key, "count");
    assert_eq!(fields[0].kind, FieldKind::Integer);
    assert_eq!(fields[1].key, "name");
    assert_eq!(fields[1].kind, FieldKind::Text);
    assert_eq!(fields[2].key, "ratio");
    assert_eq!(fields[2].kind, FieldKind::Number);
}

#[test]
fn missing_type_is_skipped() {
    let fields = interpret(r#"{"properties":{"a":{"title":"A"},"b":{"type":"string"}}}"#).unwrap();
    assert_eq!(fields.len(), 1);
    assert_eq!(fields[0].key, "b");
}

#[test]
fn title_defaults_to_none() {
    let fields = interpret(r#"{"properties":{"a":{"type":"string"}}}"#).unwrap();
    assert_eq!(fields[0].schema.title, "none");
    let titled = interpret(r#"{"properties":{"a":{"type":"string","title":"Label"}}}"#).unwrap();
    assert_eq!(titled[0].schema.title, "Label");
    let odd = interpret(r#"{"properties":{"a":{"type":"string","title":7}}}"#).unwrap();
    assert_eq!(odd[0].schema.title, "none");
}

#[test]
fn numeric_attributes_are_extracted() {
    let fields = interpret(
        r#"{"properties":{"a":{"type":"integer","minimum":1,"maximum":9,"default":5}}}"#,
    )
    .unwrap();
    let schema = &fields[0].schema;
    assert_eq!(schema.minimum.int, Some(1));
    assert_eq!(schema.maximum.int, Some(9));
    assert_eq!(schema.default.int, Some(5));
    assert_eq!(schema.minimum.bits, Some(1.0f64.to_bits()));
}

#[test]
fn float_attributes_carry_bit_patterns() {
    let fields = interpret(
        r#"{"properties":{"a":{"type":"number","minimum":0.5,"maximum":2.5,"default":1.2}}}"#,
    )
    .unwrap();
    let schema = &fields[0].schema;
    assert_eq!(schema.minimum.bits, Some(0.5f64.to_bits()));
    assert_eq!(schema.maximum.bits, Some(2.5f64.to_bits()));
    assert_eq!(schema.default.bits, Some(1.2f64.to_bits()));
    assert_eq!(schema.default.int, None);
}

#[test]
fn enum_values_are_reduced() {
    let fields =
        interpret(r#"{"properties":{"a":{"type":"string","enum":["x",3,true]}}}"#).unwrap();
    let entries = fields[0].schema.enum_values.as_ref().unwrap();
    assert_eq!(entries.len(), 3);
    assert_eq!(entries[0].text.as_deref(), Some("x"));
    assert_eq!(entries[0].int, None);
    assert_eq!(entries[1].text, None);
    assert_eq!(entries[1].int, Some(3));
    assert_eq!(entries[2].text, None);
    assert_eq!(entries[2].int, None);
}

#[test]
fn non_array_enum_is_no_enum() {
    let fields = interpret(r#"{"properties":{"a":{"type":"string","enum":"x"}}}"#).unwrap();
    assert!(fields[0].schema.enum_values.is_none());
}

#[test]
fn duplicate_keys_keep_the_last_property() {
    let fields =
        interpret(r#"{"properties":{"a":{"type":"string"},"a":{"type":"integer"}}}"#).unwrap();
    assert_eq!(fields.len(), 1);
    assert_eq!(fields[0].kind, FieldKind::Integer);
}

#[test]
fn interpret_value_matches_interpret() {
    let doc = JsonValue::Obj(vec![(
        "properties".to_string(),
        JsonValue::Obj(vec![(
            "a".to_string(),
            JsonValue::Obj(vec![
                ("type".to_string(), JsonValue::Str("integer".to_string())),
                ("default".to_string(), JsonValue::Num(JsonNum { int: Some(4), bits: Some(4.0f64.to_bits()) })),
            ]),
        )]),
    )]);
    let fields = interpret_value(&doc).unwrap();
    assert_eq!(fields.len(), 1);
    assert_eq!(fields[0].key, "a");
    assert_eq!(fields[0].kind, FieldKind::Integer);
    assert_eq!(fields[0].schema.default.int, Some(4));
}

#[test]
fn interpret_value_without_properties_fails() {
    let doc = JsonValue::Obj(vec![("other".to_string(), JsonValue::Null)]);
    assert_eq!(interpret_value(&doc).unwrap_err(), ParseError::MissingProperties);
    assert_eq!(interpret_value(&JsonValue::Null).unwrap_err(), ParseError::MissingProperties);
}
