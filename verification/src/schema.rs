//! The schema interpreter.
//!
//! It walks the `properties` object of a JSON Schema document and
//! classifies each property into one of the three supported field
//! kinds, extracting the attributes that the field binder reads.
//! Properties of any other type are skipped; a document without a
//! `properties` object is rejected.

use vstd::prelude::*;

use crate::json::{JsonNum, JsonValue};
use crate::parse::{json_parse, parse_schema};

verus! {

/// Why a schema document could not be interpreted.
#[derive(Clone, Copy, PartialEq, Eq, Debug)]
pub enum ParseError {
    /// The schema text is not valid JSON.
    InvalidJson,
    /// The document has no `properties` object at its root.
    MissingProperties,
}

/// The three primitive field kinds the form generator supports.
#[derive(Clone, Copy, PartialEq, Eq, Debug)]
pub enum FieldKind {
    Text,
    Integer,
    Number,
}

/// One value of a schema `enum` list, reduced to the two views the
/// binder reads: its string content, when it is a string, and its exact
/// integer value, when it is a number with one.
#[derive(PartialEq, Debug)]
pub struct EnumEntry {
    pub text: Option<String>,
    pub int: Option<i64>,
}

/// The view of an `EnumEntry`.
#[verifier::ext_equal]
pub struct EnumEntryView {
    pub text: Option<Seq<char>>,
    pub int: Option<i64>,
}

impl View for EnumEntry {
    type V = EnumEntryView;

    open spec fn view(&self) -> EnumEntryView {
        EnumEntryView {
            text: match self.text {
                Some(s) => Some(s@),
                None => None,
            },
            int: self.int,
        }
    }
}

/// The attributes of one property that the field binder reads.
///
/// `title` falls back to `"none"` when the property has none.
/// `enum_values` is present exactly when the property has an `enum`
/// array. `minimum`, `maximum` and `default` hold the numeric views of
/// those attributes; an absent or non-numeric attribute leaves both
/// views empty.
#[derive(PartialEq, Debug)]
pub struct FieldSchema {
    pub title: String,
    pub enum_values: Option<Vec<EnumEntry>>,
    pub minimum: JsonNum,
    pub maximum: JsonNum,
    pub default: JsonNum,
}

/// The view of a `FieldSchema`.
#[verifier::ext_equal]
pub struct FieldSchemaView {
    pub title: Seq<char>,
    pub enum_values: Option<Seq<EnumEntryView>>,
    pub minimum: JsonNum,
    pub maximum: JsonNum,
    pub default: JsonNum,
}

impl View for FieldSchema {
    type V = FieldSchemaView;

    open spec fn view(&self) -> FieldSchemaView {
        FieldSchemaView {
            title: self.title@,
            enum_values: match self.enum_values {
                Some(entries) => Some(entries@.map_values(|e: EnumEntry| e@)),
                None => None,
            },
            minimum: self.minimum,
            maximum: self.maximum,
            default: self.default,
        }
    }
}

/// One classified property of a schema: its key, the extracted
/// attributes, and the field kind its `type` names.
#[derive(PartialEq, Debug)]
pub struct ClassifiedField {
    pub key: String,
    pub schema: FieldSchema,
    pub kind: FieldKind,
}

/// The view of a `ClassifiedField`.
#[verifier::ext_equal]
pub struct ClassifiedFieldView {
    pub key: Seq<char>,
    pub schema: FieldSchemaView,
    pub kind: FieldKind,
}

impl View for ClassifiedField {
    type V = ClassifiedFieldView;

    open spec fn view(&self) -> ClassifiedFieldView {
        ClassifiedFieldView { key: self.key@, schema: self.schema@, kind: self.kind }
    }
}

/// The views of a list of classified fields.
pub open spec fn views_of(fields: Seq<ClassifiedField>) -> Seq<ClassifiedFieldView> {
    fields.map_values(|f: ClassifiedField| f@)
}

/// The kind a property's `type` attribute names, or `None` for any
/// unsupported or missing type.
pub open spec fn spec_kind_of(prop: JsonValue) -> Option<FieldKind> {
    match prop.spec_get("type"@) {
        Some(t) => match t.spec_as_str() {
            Some(name) => if name == "string"@ {
                Some(FieldKind::Text)
            } else if name == "integer"@ {
                Some(FieldKind::Integer)
            } else if name == "number"@ {
                Some(FieldKind::Number)
            } else {
                None
            },
            None => None,
        },
        None => None,
    }
}

/// The numeric views of an attribute value: both empty unless the
/// attribute is present and is a number.
pub open spec fn spec_num_of(attr: Option<JsonValue>) -> JsonNum {
    match attr {
        Some(JsonValue::Num(n)) => n,
        _ => (JsonNum { int: None, bits: None }),
    }
}

/// The reduced views of one `enum` list value.
pub open spec fn spec_enum_entry(v: JsonValue) -> EnumEntryView {
    EnumEntryView { text: v.spec_as_str(), int: v.spec_as_int() }
}

/// The attributes extracted from one property.
pub open spec fn spec_field_schema(prop: JsonValue) -> FieldSchemaView {
    FieldSchemaView {
        title: match prop.spec_get("title"@) {
            Some(t) => match t.spec_as_str() {
                Some(name) => name,
                None => "none"@,
            },
            None => "none"@,
        },
        enum_values: match prop.spec_get("enum"@) {
            Some(v) => match v.spec_as_array() {
                Some(items) => Some(items.map_values(|e: JsonValue| spec_enum_entry(e))),
                None => None,
            },
            None => None,
        },
        minimum: spec_num_of(prop.spec_get("minimum"@)),
        maximum: spec_num_of(prop.spec_get("maximum"@)),
        default: spec_num_of(prop.spec_get("default"@)),
    }
}

/// The classification of a `properties` entry list: one field per
/// property of a supported kind, in the order of the entries, and
/// nothing for the others.
pub open spec fn spec_classify(entries: Seq<(String, JsonValue)>) -> Seq<ClassifiedFieldView>
    decreases entries.len(),
{
    if entries.len() == 0 {
        Seq::empty()
    } else {
        let front = spec_classify(entries.drop_last());
        let entry = entries.last();
        match spec_kind_of(entry.1) {
            Some(kind) => front.push(
                ClassifiedFieldView {
                    key: entry.0@,
                    schema: spec_field_schema(entry.1),
                    kind,
                },
            ),
            None => front,
        }
    }
}

/// What interpreting a parsed document yields: the classification of
/// its `properties` entries, or `MissingProperties` when the document
/// root has no `properties` object.
pub open spec fn spec_interpret(doc: JsonValue) -> Result<Seq<ClassifiedFieldView>, ParseError> {
    match doc.spec_get("properties"@) {
        Some(JsonValue::Obj(entries)) => Ok(spec_classify(entries@)),
        _ => Err(ParseError::MissingProperties),
    }
}

/// Tests a string for equality with a literal.
fn str_is(s: &String, lit: &str) -> (r: bool)
    ensures
        r == (s@ == lit@),
{
    let wanted: String = lit.to_owned();
    *s == wanted
}

/// Classifies one property by its `type` attribute.
pub fn kind_of(prop: &JsonValue) -> (r: Option<FieldKind>)
    ensures
        r == spec_kind_of(*prop),
{
    match prop.get("type") {
        Some(t) => match t.as_str() {
            Some(name) => {
                if str_is(name, "string") {
                    Some(FieldKind::Text)
                } else if str_is(name, "integer") {
                    Some(FieldKind::Integer)
                } else if str_is(name, "number") {
                    Some(FieldKind::Number)
                } else {
                    None
                }
            },
            None => None,
        },
        None => None,
    }
}

/// The numeric views of an attribute value.
fn num_of(attr: Option<&JsonValue>) -> (r: JsonNum)
    ensures
        r == spec_num_of(match attr {
            Some(v) => Some(*v),
            None => None,
        }),
{
    match attr {
        Some(JsonValue::Num(n)) => *n,
        _ => JsonNum { int: None, bits: None },
    }
}

/// Extracts the attributes of one property that the binder reads.
pub fn field_schema_of(prop: &JsonValue) -> (r: FieldSchema)
    ensures
        r@ == spec_field_schema(*prop),
{
    let title: String = match prop.get("title") {
        Some(t) => match t.as_str() {
            Some(name) => name.clone(),
            None => String::from_str("none"),
        },
        None => String::from_str("none"),
    };
    let enum_values: Option<Vec<EnumEntry>> = match prop.get("enum") {
        Some(v) => match v.as_array() {
            Some(items) => {
                let mut reduced: Vec<EnumEntry> = Vec::new();
                let n: usize = items.len();
                for i in 0..n
                    invariant
                        n == items@.len(),
                        reduced@.len() == i as int,
                        forall|j: int|
                            0 <= j < i ==> #[trigger] reduced@[j]@ == spec_enum_entry(items@[j]),
                {
                    let text: Option<String> = match items[i].as_str() {
                        Some(s) => Some(s.clone()),
                        None => None,
                    };
                    let int_value: Option<i64> = items[i].as_int();
                    let entry = EnumEntry { text, int: int_value };
                    assert(entry@ == spec_enum_entry(items@[i as int]));
                    reduced.push(entry);
                }
                assert(reduced@.map_values(|e: EnumEntry| e@) =~= items@.map_values(
                    |e: JsonValue| spec_enum_entry(e),
                ));
                Some(reduced)
            },
            None => None,
        },
        None => None,
    };
    let minimum: JsonNum = num_of(prop.get("minimum"));
    let maximum: JsonNum = num_of(prop.get("maximum"));
    let default: JsonNum = num_of(prop.get("default"));
    let r = FieldSchema { title, enum_values, minimum, maximum, default };
    assert(r@ =~= spec_field_schema(*prop));
    r
}

/// Interprets a parsed schema document: one classified field per
/// supported property, in property order; fails with
/// `MissingProperties` when the document root has no `properties`
/// object.
pub fn interpret_value(doc: &JsonValue) -> (r: Result<Vec<ClassifiedField>, ParseError>)
    ensures
        match r {
            Ok(fields) => spec_interpret(*doc) == Ok::<_, ParseError>(views_of(fields@)),
            Err(e) => spec_interpret(*doc) == Err::<Seq<ClassifiedFieldView>, _>(e),
        },
{
    let properties = match doc.get("properties") {
        Some(p) => p,
        None => {
            return Err(ParseError::MissingProperties);
        },
    };
    match properties {
        JsonValue::Obj(entries) => {
            let mut fields: Vec<ClassifiedField> = Vec::new();
            let n: usize = entries.len();
            assert(spec_interpret(*doc) == Ok::<_, ParseError>(spec_classify(entries@)));
            for i in 0..n
                invariant
                    n == entries@.len(),
                    spec_interpret(*doc) == Ok::<_, ParseError>(spec_classify(entries@)),
                    views_of(fields@) =~= spec_classify(entries@.take(i as int)),
            {
                let prop: &JsonValue = &entries[i].1;
                match kind_of(prop) {
                    Some(kind) => {
                        let field = ClassifiedField {
                            key: entries[i].0.clone(),
                            schema: field_schema_of(prop),
                            kind,
                        };
                        fields.push(field);
                    },
                    None => {},
                }
                assert(entries@.take(i + 1).drop_last() =~= entries@.take(i as int));
                assert(entries@.take(i + 1).last() == entries@[i as int]);
            }
            assert(entries@.take(n as int) =~= entries@);
            Ok(fields)
        },
        _ => Err(ParseError::MissingProperties),
    }
}

/// The keys of the properties whose `type` names a supported kind, in
/// property order.
pub open spec fn spec_supported_keys(entries: Seq<(String, JsonValue)>) -> Seq<Seq<char>>
    decreases entries.len(),
{
    if entries.len() == 0 {
        Seq::empty()
    } else {
        let front = spec_supported_keys(entries.drop_last());
        if spec_kind_of(entries.last().1) is Some {
            front.push(entries.last().0@)
        } else {
            front
        }
    }
}

/// The keys of a list of classified fields, in field order.
pub open spec fn spec_field_keys(fields: Seq<ClassifiedFieldView>) -> Seq<Seq<char>>
    decreases fields.len(),
{
    if fields.len() == 0 {
        Seq::empty()
    } else {
        spec_field_keys(fields.drop_last()).push(fields.last().key)
    }
}

/// Classification yields exactly one field per property of a supported
/// kind, and none for any other property: the classified keys are
/// precisely the keys of the supported properties, in property order.
pub proof fn lemma_classify_one_per_supported(entries: Seq<(String, JsonValue)>)
    ensures
        spec_field_keys(spec_classify(entries)) == spec_supported_keys(entries),
    decreases entries.len(),
{
    if entries.len() > 0 {
        lemma_classify_one_per_supported(entries.drop_last());
        let front = spec_classify(entries.drop_last());
        match spec_kind_of(entries.last().1) {
            Some(kind) => {
                let whole = spec_classify(entries);
                assert(whole.drop_last() =~= front);
                assert(spec_field_keys(whole) == spec_field_keys(front).push(whole.last().key));
            },
            None => {},
        }
    }
}

/// Interprets raw schema text: parses it and classifies the properties
/// of the document it denotes. Text that is not valid JSON yields
/// `InvalidJson`; a document without a root `properties` object yields
/// `MissingProperties`.
pub fn interpret(schema_json: &str) -> (r: Result<Vec<ClassifiedField>, ParseError>)
    ensures
        json_parse(schema_json@) is None ==> r == Err::<Vec<ClassifiedField>, ParseError>(
            ParseError::InvalidJson,
        ),
        json_parse(schema_json@) matches Some(doc) ==> match r {
            Ok(fields) => spec_interpret(doc) == Ok::<_, ParseError>(views_of(fields@)),
            Err(e) => spec_interpret(doc) == Err::<Seq<ClassifiedFieldView>, _>(e),
        },
{
    match parse_schema(schema_json) {
        Ok(doc) => interpret_value(&doc),
        Err(e) => Err(e),
    }
}

} // verus!
