//! A verified core for a schema-driven form generator.
//!
//! A JSON Schema document with string, integer and number properties is
//! interpreted into a list of classified fields; each field is bound to
//! a typed state cell and a widget descriptor; the aggregate form state
//! serializes back to a JSON object of the values that were set.

pub mod binder;
pub mod digits;
pub mod domain;
pub mod form;
pub mod json;
pub mod parse;
pub mod schema;
