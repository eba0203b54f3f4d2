//! Tests of form state serialization, the form state cells, and the
//! domain enumerations.

use schema_form::binder::schema_to_form_fields;
use schema_form::digits::i64_to_dec;
use schema_form::domain::{AppType, JobStatus, ResourceType, RunnerState, Size};
use schema_form::form::SchemaFormState;
use schema_form::json::{finite_bits, JsonValue};

/// Rebuilds a library JSON value as a serde_json value, for
/// order-insensitive comparisons.
fn to_serde(v: &JsonValue) -> serde_json::Value {
    match v {
        JsonValue::Null => serde_json::Value::Null,
        JsonValue::Bool(b) => serde_json::Value::Bool(*b),
        JsonValue::Num(n) => {
            if let Some(i) = n.int {
                serde_json::Value::Number(serde_json::Number::from(i))
            } else if let Some(b) = n.bits {
                serde_json::Number::from_f64(f64::from_bits(b))
                    .map(serde_json::Value::Number)
                    .unwrap_or(serde_json::Value::Null)
            } else {
                serde_json::Value::Null
            }
        },
        JsonValue::Str(s) => serde_json::Value::String(s.clone()),
        JsonValue::Arr(items) => serde_json::Value::Array(items.iter().map(to_serde).collect()),
        JsonValue::Obj(entries) => serde_json::Value::Object(
            entries.iter().map(|(k, x)| (k.clone(), to_serde(x))).collect(),
        ),
    }
}

#[test]
fn empty_state_serializes_to_empty_object() {
    let state = SchemaFormState::new();
    assert_eq!(state.to_json(), JsonValue::Obj(vec![]));
}

#[test]
fn round_trip_of_three_fields() {
    let schema = r#"{"properties":{
        "cells_x":{"type":"integer"},
        "density":{"type":"number"},
        "analysis_name":{"type":"string"}
    }}"#;
    let mut state = SchemaFormState::new();
    schema_to_form_fields(schema, &mut state).unwrap();
    state.set_int("cells_x", Some(10));
    state.set_float_bits("density", Some(1.2f64.to_bits()));
    state.set_text("analysis_name", "run1".to_string());
    let out = state.to_json();
    let expected: serde_json::Value =
        serde_json::from_str(r#"{"cells_x":10,"density":1.2,"analysis_name":"run1"}"#).unwrap();
    assert_eq!(to_serde(&out), expected);
}

#[test]
fn serialization_is_idempotent() {
    let mut state = SchemaFormState::new();
    schema_to_form_fields(
        r#"{"properties":{"a":{"type":"string"},"n":{"type":"integer","default":3}}}"#,
        &mut state,
    )
    .unwrap();
    state.set_text("a", "v".to_string());
    let first = state.to_json();
    let second = state.to_json();
    assert_eq!(first, second);
}

#[test]
fn unset_fields_are_omitted() {
    let mut state = SchemaFormState::new();
    state.get_or_create_text("empty_text");
    state.get_or_create_int("unset_int");
    state.get_or_create_text("kept");
    state.set_text("kept", "x".to_string());
    let out = state.to_json();
    let expected: serde_json::Value = serde_json::from_str(r#"{"kept":"x"}"#).unwrap();
    assert_eq!(to_serde(&out), expected);
}

#[test]
fn non_finite_floats_are_dropped() {
    let mut state = SchemaFormState::new();
    state.get_or_create_float("nan");
    state.get_or_create_float("inf");
    state.get_or_create_float("kept");
    state.set_float_bits("nan", Some(f64::NAN.to_bits()));
    state.set_float_bits("inf", Some(f64::INFINITY.to_bits()));
    state.set_float_bits("kept", Some(2.5f64.to_bits()));
    let out = state.to_json();
    let expected: serde_json::Value = serde_json::from_str(r#"{"kept":2.5}"#).unwrap();
    assert_eq!(to_serde(&out), expected);
}

#[test]
fn finite_bits_matches_std() {
    for x in [0.0f64, -0.0, 1.5, -2.5e300, f64::MIN_POSITIVE, f64::MAX] {
        assert!(finite_bits(x.to_bits()));
    }
    assert!(!finite_bits(f64::NAN.to_bits()));
    assert!(!finite_bits(f64::INFINITY.to_bits()));
    assert!(!finite_bits(f64::NEG_INFINITY.to_bits()));
}

#[test]
fn setting_an_absent_cell_is_a_no_op() {
    let mut state = SchemaFormState::new();
    state.set_text("ghostly", "x".to_string());
    state.set_int("ghostly", Some(1));
    state.set_float_bits("ghostly", Some(1.0f64.to_bits()));
    assert_eq!(state.get_text("ghostly"), None);
    assert_eq!(state.get_int("ghostly"), None);
    assert_eq!(state.get_float_bits("ghostly"), None);
    assert_eq!(state.to_json(), JsonValue::Obj(vec![]));
}

#[test]
fn get_or_create_keeps_existing_values() {
    let mut state = SchemaFormState::new();
    state.get_or_create_int("n");
    state.set_int("n", Some(7));
    state.get_or_create_int("n");
    assert_eq!(state.get_int("n"), Some(Some(7)));
}

#[test]
fn decimal_rendering_matches_std() {
    for i in [0i64, 7, -1, 10, -10, 1234567, -987654321, i64::MAX, i64::MIN] {
        assert_eq!(i64_to_dec(i), i.to_string());
    }
}

#[test]
fn job_status_labels() {
    assert_eq!(JobStatus::Queued.label(), "Queued");
    assert_eq!(
        JobStatus::UploadingInputResources.label(),
        "Uploading Input Resources"
    );
    assert_eq!(JobStatus::FailedResourceError.label(), "Failed - Resource Error");
    assert_eq!(JobStatus::default(), JobStatus::UploadingInputResources);
}

#[test]
fn domain_defaults() {
    assert_eq!(AppType::default(), AppType::Unknown);
    assert!(matches!(RunnerState::default(), RunnerState::Unknown));
    assert_ne!(ResourceType::Input, ResourceType::Output);
    assert_ne!(Size::Unsized, Size::Md);
}
