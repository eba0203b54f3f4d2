//! Tests of the field binder: cell creation, seeding, the re-seed
//! quirk, and widget descriptors.

use schema_form::binder::{schema_to_form_fields, Widget};
use schema_form::form::SchemaFormState;
use schema_form::schema::ParseError;

#[test]
fn plain_string_cell_starts_empty() {
    let mut state = SchemaFormState::new();
    let widgets =
        schema_to_form_fields(r#"{"properties":{"name":{"type":"string"}}}"#, &mut state).unwrap();
    assert_eq!(widgets.len(), 1);
    assert_eq!(widgets[0].0, "name");
    assert_eq!(widgets[0].1, Widget::Text);
    assert_eq!(state.get_text("name"), Some(String::new()));
}

#[test]
fn string_enum_seeds_first_option() {
    let mut state = SchemaFormState::new();
    let widgets = schema_to_form_fields(
        r#"{"properties":{"mode":{"type":"string","enum":["fast","slow"]}}}"#,
        &mut state,
    )
    .unwrap();
    let expected = Widget::SelectText {
        options: vec![
            ("fast".to_string(), "fast".to_string()),
            ("slow".to_string(), "slow".to_string()),
        ],
    };
    assert_eq!(widgets[0].1, expected);
    assert_eq!(state.get_text("mode"), Some("fast".to_string()));
}

#[test]
fn string_enum_keeps_a_non_empty_cell() {
    let mut state = SchemaFormState::new();
    state.get_or_create_text("mode");
    state.set_text("mode", "slow".to_string());
    schema_to_form_fields(
        r#"{"properties":{"mode":{"type":"string","enum":["fast","slow"]}}}"#,
        &mut state,
    )
    .unwrap();
    assert_eq!(state.get_text("mode"), Some("slow".to_string()));
}

#[test]
fn string_enum_coerces_odd_values() {
    let mut state = SchemaFormState::new();
    let widgets = schema_to_form_fields(
        r#"{"properties":{"m":{"type":"string","enum":[3,"x",true,-12]}}}"#,
        &mut state,
    )
    .unwrap();
    let expected = Widget::SelectText {
        options: vec![
            ("3".to_string(), "3".to_string()),
            ("x".to_string(), "x".to_string()),
            ("unknown".to_string(), "unknown".to_string()),
            ("-12".to_string(), "-12".to_string()),
        ],
    };
    assert_eq!(widgets[0].1, expected);
    assert_eq!(state.get_text("m"), Some("3".to_string()));
}

#[test]
fn empty_string_enum_leaves_cell_empty() {
    let mut state = SchemaFormState::new();
    let widgets =
        schema_to_form_fields(r#"{"properties":{"m":{"type":"string","enum":[]}}}"#, &mut state)
            .unwrap();
    assert_eq!(widgets[0].1, Widget::SelectText { options: vec![] });
    assert_eq!(state.get_text("m"), Some(String::new()));
}

#[test]
fn integer_cell_seeds_from_default() {
    let mut state = SchemaFormState::new();
    let widgets = schema_to_form_fields(
        r#"{"properties":{"n":{"type":"integer","minimum":1,"maximum":9,"default":5}}}"#,
        &mut state,
    )
    .unwrap();
    assert_eq!(widgets[0].1, Widget::Integer { min: Some(1), max: Some(9) });
    assert_eq!(state.get_int("n"), Some(Some(5)));
}

#[test]
fn integer_without_default_stays_unset() {
    let mut state = SchemaFormState::new();
    schema_to_form_fields(r#"{"properties":{"n":{"type":"integer"}}}"#, &mut state).unwrap();
    assert_eq!(state.get_int("n"), Some(None));
}

#[test]
fn rebinding_integer_overwrites_edits() {
    let schema = r#"{"properties":{"n":{"type":"integer","default":5}}}"#;
    let mut state = SchemaFormState::new();
    schema_to_form_fields(schema, &mut state).unwrap();
    state.set_int("n", Some(42));
    assert_eq!(state.get_int("n"), Some(Some(42)));
    schema_to_form_fields(schema, &mut state).unwrap();
    assert_eq!(state.get_int("n"), Some(Some(5)));
}

#[test]
fn rebinding_number_overwrites_edits() {
    let schema = r#"{"properties":{"x":{"type":"number","default":1.5}}}"#;
    let mut state = SchemaFormState::new();
    schema_to_form_fields(schema, &mut state).unwrap();
    state.set_float_bits("x", Some(9.25f64.to_bits()));
    schema_to_form_fields(schema, &mut state).unwrap();
    assert_eq!(state.get_float_bits("x"), Some(Some(1.5f64.to_bits())));
}

#[test]
fn integer_enum_defaults_to_first_option() {
    let mut state = SchemaFormState::new();
    let widgets = schema_to_form_fields(
        r#"{"properties":{"dim":{"type":"integer","enum":[2,3]}}}"#,
        &mut state,
    )
    .unwrap();
    let expected =
        Widget::SelectInteger { options: vec![(2, "2".to_string()), (3, "3".to_string())] };
    assert_eq!(widgets[0].1, expected);
    assert_eq!(state.get_int("dim"), Some(Some(2)));
}

#[test]
fn integer_enum_respects_schema_default() {
    let mut state = SchemaFormState::new();
    schema_to_form_fields(
        r#"{"properties":{"dim":{"type":"integer","enum":[2,3],"default":3}}}"#,
        &mut state,
    )
    .unwrap();
    assert_eq!(state.get_int("dim"), Some(Some(3)));
}

#[test]
fn integer_enum_skips_non_integer_entries() {
    let mut state = SchemaFormState::new();
    let widgets = schema_to_form_fields(
        r#"{"properties":{"dim":{"type":"integer","enum":["x",7,1.5]}}}"#,
        &mut state,
    )
    .unwrap();
    assert_eq!(widgets[0].1, Widget::SelectInteger { options: vec![(7, "7".to_string())] });
    assert_eq!(state.get_int("dim"), Some(Some(7)));
}

#[test]
fn number_cell_seeds_from_integer_default() {
    let mut state = SchemaFormState::new();
    let widgets = schema_to_form_fields(
        r#"{"properties":{"x":{"type":"number","minimum":0.5,"default":3}}}"#,
        &mut state,
    )
    .unwrap();
    assert_eq!(
        widgets[0].1,
        Widget::Float { min_bits: Some(0.5f64.to_bits()), max_bits: None }
    );
    assert_eq!(state.get_float_bits("x"), Some(Some(3.0f64.to_bits())));
}

#[test]
fn failed_binding_leaves_state_untouched() {
    let mut state = SchemaFormState::new();
    state.get_or_create_text("kept");
    state.set_text("kept", "v".to_string());
    let r = schema_to_form_fields("{not json", &mut state);
    assert_eq!(r.unwrap_err(), ParseError::InvalidJson);
    let r2 = schema_to_form_fields(r#"{"no_properties":1}"#, &mut state);
    assert_eq!(r2.unwrap_err(), ParseError::MissingProperties);
    assert_eq!(state.get_text("kept"), Some("v".to_string()));
}

#[test]
fn cells_are_reused_across_bindings() {
    let mut state = SchemaFormState::new();
    schema_to_form_fields(r#"{"properties":{"name":{"type":"string"}}}"#, &mut state).unwrap();
    state.set_text("name", "kept".to_string());
    schema_to_form_fields(r#"{"properties":{"name":{"type":"string"}}}"#, &mut state).unwrap();
    assert_eq!(state.get_text("name"), Some("kept".to_string()));
}
