//! The field binder.
//!
//! For each classified property it makes sure the form state holds a
//! cell of the right kind, seeds that cell as the schema directs, and
//! describes the input widget the field gets: a free text box, an
//! enumerated choice, or a bounded numeric box.

use vstd::prelude::*;

use crate::digits::{i64_to_dec, spec_idec};
use crate::form::{
    ensure_cell, lemma_ensure_cell_found, lemma_set_first_found, set_first, view_lookup,
    SchemaFormState,
};
use crate::parse::json_parse;
use crate::schema::{
    interpret, spec_interpret, views_of, ClassifiedField, ClassifiedFieldView, EnumEntry,
    EnumEntryView, FieldKind, FieldSchema, FieldSchemaView, ParseError,
};

verus! {

/// What input widget a bound field gets. Numeric bounds carry over
/// from the schema; a float bound is a double-precision bit pattern.
#[derive(PartialEq, Debug)]
pub enum Widget {
    /// A free text box.
    Text,
    /// An enumerated choice of strings: `(value, display text)` pairs.
    SelectText { options: Vec<(String, String)> },
    /// A bounded integer box.
    Integer { min: Option<i64>, max: Option<i64> },
    /// An enumerated choice of integers: `(value, display text)` pairs.
    SelectInteger { options: Vec<(i64, String)> },
    /// A bounded float box.
    Float { min_bits: Option<u64>, max_bits: Option<u64> },
}

/// The view of a `Widget`.
#[verifier::ext_equal]
pub enum WidgetView {
    Text,
    SelectText { options: Seq<(Seq<char>, Seq<char>)> },
    Integer { min: Option<i64>, max: Option<i64> },
    SelectInteger { options: Seq<(i64, Seq<char>)> },
    Float { min_bits: Option<u64>, max_bits: Option<u64> },
}

impl View for Widget {
    type V = WidgetView;

    open spec fn view(&self) -> WidgetView {
        match self {
            Widget::Text => WidgetView::Text,
            Widget::SelectText { options } => WidgetView::SelectText {
                options: options@.map_values(|o: (String, String)| (o.0@, o.1@)),
            },
            Widget::Integer { min, max } => WidgetView::Integer { min: *min, max: *max },
            Widget::SelectInteger { options } => WidgetView::SelectInteger {
                options: options@.map_values(|o: (i64, String)| (o.0, o.1@)),
            },
            Widget::Float { min_bits, max_bits } => WidgetView::Float {
                min_bits: *min_bits,
                max_bits: *max_bits,
            },
        }
    }
}

/// The option a string choice gets from one enum value: a string stays
/// itself, a number is rendered in decimal, anything else becomes the
/// literal option `unknown`.
pub open spec fn spec_string_option(e: EnumEntryView) -> (Seq<char>, Seq<char>) {
    match e.text {
        Some(s) => (s, s),
        None => match e.int {
            Some(i) => (spec_idec(i as int), spec_idec(i as int)),
            None => ("unknown"@, "unknown"@),
        },
    }
}

/// The options of a string choice, one per enum value, in enum order.
pub open spec fn spec_string_options(entries: Seq<EnumEntryView>) -> Seq<(Seq<char>, Seq<char>)> {
    entries.map_values(|e: EnumEntryView| spec_string_option(e))
}

/// The options of an integer choice: one per integer enum value, in
/// enum order; enum values that are not integers are skipped.
pub open spec fn spec_int_options(entries: Seq<EnumEntryView>) -> Seq<(i64, Seq<char>)>
    decreases entries.len(),
{
    if entries.len() == 0 {
        Seq::empty()
    } else {
        let front = spec_int_options(entries.drop_last());
        match entries.last().int {
            Some(i) => front.push((i, spec_idec(i as int))),
            None => front,
        }
    }
}

/// The widget of a string field: a free text box, or a string choice
/// when the schema has an enum.
pub open spec fn spec_string_widget(schema: FieldSchemaView) -> WidgetView {
    match schema.enum_values {
        None => WidgetView::Text,
        Some(entries) => WidgetView::SelectText { options: spec_string_options(entries) },
    }
}

/// The widget of an integer field: a bounded integer box, or an
/// integer choice when the schema has an enum.
pub open spec fn spec_integer_widget(schema: FieldSchemaView) -> WidgetView {
    match schema.enum_values {
        None => WidgetView::Integer { min: schema.minimum.int, max: schema.maximum.int },
        Some(entries) => WidgetView::SelectInteger { options: spec_int_options(entries) },
    }
}

/// The widget of a number field: a bounded float box.
pub open spec fn spec_float_widget(schema: FieldSchemaView) -> WidgetView {
    WidgetView::Float { min_bits: schema.minimum.bits, max_bits: schema.maximum.bits }
}

/// What binding does to the string cells: the cell is created empty if
/// absent; with a non-empty enum, a cell still holding the empty
/// string is seeded with the first option's value.
pub open spec fn spec_bind_text_cells(
    texts: Seq<(Seq<char>, Seq<char>)>,
    key: Seq<char>,
    schema: FieldSchemaView,
) -> Seq<(Seq<char>, Seq<char>)> {
    let created = ensure_cell(texts, key, Seq::<char>::empty());
    match schema.enum_values {
        None => created,
        Some(entries) => {
            let options = spec_string_options(entries);
            if options.len() > 0 && view_lookup(created, key) == Some(Seq::<char>::empty()) {
                set_first(created, key, options[0].0)
            } else {
                created
            }
        },
    }
}

/// What binding does to the integer cells: the cell is created if
/// absent, then always re-seeded from the schema default, overwriting
/// any prior value; with a non-empty enum, a cell left unset is then
/// seeded with the first option's value.
pub open spec fn spec_bind_int_cells(
    ints: Seq<(Seq<char>, Option<i64>)>,
    key: Seq<char>,
    schema: FieldSchemaView,
) -> Seq<(Seq<char>, Option<i64>)> {
    let seeded = set_first(ensure_cell(ints, key, Option::<i64>::None), key, schema.default.int);
    match schema.enum_values {
        None => seeded,
        Some(entries) => {
            let options = spec_int_options(entries);
            if options.len() > 0 && view_lookup(seeded, key) == Some(Option::<i64>::None) {
                set_first(seeded, key, Some(options[0].0))
            } else {
                seeded
            }
        },
    }
}

/// What binding does to the float cells: the cell is created if
/// absent, then always re-seeded from the schema default, overwriting
/// any prior value.
pub open spec fn spec_bind_float_cells(
    floats: Seq<(Seq<char>, Option<u64>)>,
    key: Seq<char>,
    schema: FieldSchemaView,
) -> Seq<(Seq<char>, Option<u64>)> {
    set_first(ensure_cell(floats, key, Option::<u64>::None), key, schema.default.bits)
}

/// Builds the `(value, display)` options of a string choice from the
/// schema's enum values.
fn string_options(entries: &Vec<EnumEntry>) -> (r: Vec<(String, String)>)
    ensures
        r@.len() == entries@.len(),
        forall|j: int|
            0 <= j < entries@.len() ==> (#[trigger] r@[j].0@, r@[j].1@) == spec_string_option(
                entries@[j]@,
            ),
{
    let mut r: Vec<(String, String)> = Vec::new();
    let n: usize = entries.len();
    for i in 0..n
        invariant
            n == entries@.len(),
            r@.len() == i as int,
            forall|j: int|
                0 <= j < i ==> (#[trigger] r@[j].0@, r@[j].1@) == spec_string_option(
                    entries@[j]@,
                ),
    {
        let entry = &entries[i];
        let option: (String, String) = match &entry.text {
            Some(s) => (s.clone(), s.clone()),
            None => match entry.int {
                Some(v) => {
                    let rendered = i64_to_dec(v);
                    (rendered.clone(), rendered)
                },
                None => {
                    proof {
                        reveal_strlit("unknown");
                    }
                    (String::from_str("unknown"), String::from_str("unknown"))
                },
            },
        };
        r.push(option);
    }
    r
}

/// Builds the `(value, display)` options of an integer choice from the
/// schema's enum values, skipping values that are not integers.
fn int_options(entries: &Vec<EnumEntry>) -> (r: Vec<(i64, String)>)
    ensures
        r@.map_values(|o: (i64, String)| (o.0, o.1@)) == spec_int_options(
            entries@.map_values(|e: EnumEntry| e@),
        ),
{
    let ghost entry_views = entries@.map_values(|e: EnumEntry| e@);
    let mut r: Vec<(i64, String)> = Vec::new();
    let n: usize = entries.len();
    assert(r@.map_values(|o: (i64, String)| (o.0, o.1@)) =~= spec_int_options(
        entry_views.take(0),
    ));
    for i in 0..n
        invariant
            n == entries@.len(),
            entry_views == entries@.map_values(|e: EnumEntry| e@),
            entry_views.len() == n as int,
            r@.map_values(|o: (i64, String)| (o.0, o.1@)) == spec_int_options(
                entry_views.take(i as int),
            ),
    {
        match entries[i].int {
            Some(v) => {
                r.push((v, i64_to_dec(v)));
            },
            None => {},
        }
        assert(entry_views.take(i + 1).drop_last() =~= entry_views.take(i as int));
        assert(entry_views.take(i + 1).last() == entry_views[i as int]);
        assert(entry_views[i as int] == entries@[i as int]@);
        assert(r@.map_values(|o: (i64, String)| (o.0, o.1@)) =~= spec_int_options(
            entry_views.take(i + 1),
        ));
    }
    assert(entry_views.take(n as int) =~= entry_views);
    r
}

/// Binds one string field: the cell is created empty if absent. With
/// an enum the widget is a string choice, and a cell still holding the
/// empty string is seeded with the first option's value; without one
/// the widget is a free text box.
pub fn build_string_form_field(state: &mut SchemaFormState, key: &str, schema: &FieldSchema) -> (w:
    Widget)
    ensures
        final(state)@.texts == spec_bind_text_cells(old(state)@.texts, key@, schema@),
        final(state)@.ints == old(state)@.ints,
        final(state)@.floats == old(state)@.floats,
        w@ == spec_string_widget(schema@),
{
    state.get_or_create_text(key);
    let ghost created = ensure_cell(old(state)@.texts, key@, Seq::<char>::empty());
    match &schema.enum_values {
        None => Widget::Text,
        Some(entries) => {
            let ghost entry_views = entries@.map_values(|e: EnumEntry| e@);
            assert(schema@.enum_values == Some(entry_views)) by {
                assert(schema@.enum_values matches Some(evs) && evs =~= entry_views);
            }
            let options = string_options(entries);
            assert(options@.map_values(|o: (String, String)| (o.0@, o.1@)) =~= spec_string_options(
                entry_views,
            ));
            if options.len() > 0 {
                proof {
                    lemma_ensure_cell_found(old(state)@.texts, key@, Seq::<char>::empty());
                }
                match state.get_text(key) {
                    Some(current) => {
                        if current.as_str().is_empty() {
                            assert(current@ =~= Seq::<char>::empty());
                            let first: String = options[0].0.clone();
                            assert(first@ == spec_string_options(entry_views)[0].0);
                            state.set_text(key, first);
                        }
                    },
                    None => {},
                }
            }
            let w = Widget::SelectText { options };
            assert(w@ =~= spec_string_widget(schema@));
            w
        },
    }
}

/// Binds one integer field: the cell is created if absent and then
/// always re-seeded from the schema default, overwriting any prior
/// value. With an enum the widget is an integer choice, and a cell
/// left unset is seeded with the first option's value; without one the
/// widget is a bounded integer box.
pub fn build_integer_form_field(state: &mut SchemaFormState, key: &str, schema: &FieldSchema) -> (w:
    Widget)
    ensures
        final(state)@.ints == spec_bind_int_cells(old(state)@.ints, key@, schema@),
        final(state)@.texts == old(state)@.texts,
        final(state)@.floats == old(state)@.floats,
        w@ == spec_integer_widget(schema@),
{
    state.get_or_create_int(key);
    state.set_int(key, schema.default.int);
    let ghost seeded = set_first(
        ensure_cell(old(state)@.ints, key@, Option::<i64>::None),
        key@,
        schema@.default.int,
    );
    match &schema.enum_values {
        None => Widget::Integer { min: schema.minimum.int, max: schema.maximum.int },
        Some(entries) => {
            let ghost entry_views = entries@.map_values(|e: EnumEntry| e@);
            assert(schema@.enum_values == Some(entry_views)) by {
                assert(schema@.enum_values matches Some(evs) && evs =~= entry_views);
            }
            let options = int_options(entries);
            let ghost option_views = spec_int_options(entry_views);
            assert(options@.map_values(|o: (i64, String)| (o.0, o.1@)) == option_views);
            if options.len() > 0 {
                assert(options@.map_values(|o: (i64, String)| (o.0, o.1@))[0] == (
                    options@[0].0,
                    options@[0].1@,
                ));
                match state.get_int(key) {
                    Some(current) => {
                        if current.is_none() {
                            state.set_int(key, Some(options[0].0));
                        }
                    },
                    None => {
                        proof {
                            lemma_ensure_cell_found(old(state)@.ints, key@, Option::<i64>::None);
                            lemma_set_first_found(
                                ensure_cell(old(state)@.ints, key@, Option::<i64>::None),
                                key@,
                                schema@.default.int,
                            );
                        }
                    },
                }
            }
            let w = Widget::SelectInteger { options };
            assert(w@ =~= spec_integer_widget(schema@));
            w
        },
    }
}

/// Binds one number field: the cell is created if absent and then
/// always re-seeded from the schema default, overwriting any prior
/// value; the widget is a bounded float box.
pub fn build_float_form_field(state: &mut SchemaFormState, key: &str, schema: &FieldSchema) -> (w:
    Widget)
    ensures
        final(state)@.floats == spec_bind_float_cells(old(state)@.floats, key@, schema@),
        final(state)@.texts == old(state)@.texts,
        final(state)@.ints == old(state)@.ints,
        w@ == spec_float_widget(schema@),
{
    state.get_or_create_float(key);
    state.set_float_bits(key, schema.default.bits);
    Widget::Float { min_bits: schema.minimum.bits, max_bits: schema.maximum.bits }
}

/// The widget one classified field gets, by its kind.
pub open spec fn spec_widget_of(f: ClassifiedFieldView) -> WidgetView {
    match f.kind {
        FieldKind::Text => spec_string_widget(f.schema),
        FieldKind::Integer => spec_integer_widget(f.schema),
        FieldKind::Number => spec_float_widget(f.schema),
    }
}

/// What binding one classified field does to the whole form state: the
/// cell list of the field's kind is bound, the other two are left as
/// they are.
pub open spec fn spec_bind_field_state(
    v: crate::form::FormStateView,
    f: ClassifiedFieldView,
) -> crate::form::FormStateView {
    match f.kind {
        FieldKind::Text => (crate::form::FormStateView {
            texts: spec_bind_text_cells(v.texts, f.key, f.schema),
            ..v
        }),
        FieldKind::Integer => (crate::form::FormStateView {
            ints: spec_bind_int_cells(v.ints, f.key, f.schema),
            ..v
        }),
        FieldKind::Number => (crate::form::FormStateView {
            floats: spec_bind_float_cells(v.floats, f.key, f.schema),
            ..v
        }),
    }
}

/// What binding a whole field list does to the form state, first field
/// first.
pub open spec fn spec_bind_all(
    v: crate::form::FormStateView,
    fields: Seq<ClassifiedFieldView>,
) -> crate::form::FormStateView
    decreases fields.len(),
{
    if fields.len() == 0 {
        v
    } else {
        spec_bind_field_state(spec_bind_all(v, fields.drop_last()), fields.last())
    }
}

/// Binds one classified field, dispatching on its kind.
pub fn bind_field(state: &mut SchemaFormState, field: &ClassifiedField) -> (w: Widget)
    ensures
        final(state)@ == spec_bind_field_state(old(state)@, field@),
        w@ == spec_widget_of(field@),
{
    let w = match field.kind {
        FieldKind::Text => build_string_form_field(state, field.key.as_str(), &field.schema),
        FieldKind::Integer => build_integer_form_field(state, field.key.as_str(), &field.schema),
        FieldKind::Number => build_float_form_field(state, field.key.as_str(), &field.schema),
    };
    assert(state@ =~= spec_bind_field_state(old(state)@, field@));
    w
}

/// Binds every classified field in order, returning each field's key
/// beside its widget.
pub fn bind_fields(state: &mut SchemaFormState, fields: &Vec<ClassifiedField>) -> (widgets: Vec<
    (String, Widget),
>)
    ensures
        final(state)@ == spec_bind_all(old(state)@, views_of(fields@)),
        widgets@.len() == fields@.len(),
        forall|j: int|
            0 <= j < fields@.len() ==> (#[trigger] widgets@[j].0@, widgets@[j].1@) == (
                fields@[j]@.key,
                spec_widget_of(fields@[j]@),
            ),
{
    let ghost field_views = views_of(fields@);
    let mut widgets: Vec<(String, Widget)> = Vec::new();
    let n: usize = fields.len();
    assert(state@ == spec_bind_all(old(state)@, field_views.take(0)));
    for i in 0..n
        invariant
            n == fields@.len(),
            field_views == views_of(fields@),
            field_views.len() == n as int,
            state@ == spec_bind_all(old(state)@, field_views.take(i as int)),
            widgets@.len() == i as int,
            forall|j: int|
                0 <= j < i ==> (#[trigger] widgets@[j].0@, widgets@[j].1@) == (
                    field_views[j].key,
                    spec_widget_of(field_views[j]),
                ),
    {
        let f = &fields[i];
        assert(field_views[i as int] == fields@[i as int]@);
        let w = bind_field(state, f);
        assert(w@ == spec_widget_of(field_views[i as int]));
        let ghost pre_widgets = widgets@;
        let key_owned: String = f.key.clone();
        let ghost pushed = (key_owned, w);
        widgets.push((key_owned, w));
        proof {
            assert forall|j: int|
                0 <= j < i + 1 implies (#[trigger] widgets@[j].0@, widgets@[j].1@) == (
                field_views[j].key,
                spec_widget_of(field_views[j]),
            ) by {
                assert(widgets@ == pre_widgets.push(pushed));
                if j < i {
                    assert(widgets@[j] == pre_widgets[j]);
                    assert(pre_widgets[j].0@ == field_views[j].key);
                    assert(pre_widgets[j].1@ == spec_widget_of(field_views[j]));
                } else {
                    assert(pre_widgets.push(pushed)[j] == pushed);
                    assert(widgets@[j] == pushed);
                }
            }
        }
        assert(field_views.take(i + 1).drop_last() =~= field_views.take(i as int));
        assert(field_views.take(i + 1).last() == field_views[i as int]);
    }
    assert(field_views.take(n as int) =~= field_views);
    widgets
}

/// Builds a form from raw schema text: interprets the schema and binds
/// every classified field in order, returning each field's key beside
/// its widget. The form state is left untouched when interpretation
/// fails.
pub fn schema_to_form_fields(schema_json: &str, form_state: &mut SchemaFormState) -> (r: Result<
    Vec<(String, Widget)>,
    ParseError,
>)
    ensures
        json_parse(schema_json@) is None ==> (r matches Err(e) && e == ParseError::InvalidJson
            && *final(form_state) == *old(form_state)),
        json_parse(schema_json@) matches Some(doc) ==> match spec_interpret(doc) {
            Ok(field_views) => r matches Ok(widgets) && final(form_state)@ == spec_bind_all(
                old(form_state)@,
                field_views,
            ) && widgets@.len() == field_views.len() && (forall|j: int|
                0 <= j < field_views.len() ==> (#[trigger] widgets@[j].0@, widgets@[j].1@) == (
                    field_views[j].key,
                    spec_widget_of(field_views[j]),
                )),
            Err(e) => r matches Err(e2) && e2 == e && *final(form_state) == *old(form_state),
        },
{
    match interpret(schema_json) {
        Ok(fields) => Ok(bind_fields(form_state, &fields)),
        Err(e) => Err(e),
    }
}

/// A string field without an enum starts out empty: binding it where
/// no cell existed leaves the cell at the empty string.
pub proof fn lemma_text_bind_starts_empty(
    texts: Seq<(Seq<char>, Seq<char>)>,
    key: Seq<char>,
    schema: FieldSchemaView,
)
    requires
        schema.enum_values is None,
        view_lookup(texts, key) is None,
    ensures
        view_lookup(spec_bind_text_cells(texts, key, schema), key) == Some(Seq::<char>::empty()),
{
    lemma_ensure_cell_found(texts, key, Seq::<char>::empty());
}

/// A string field with a non-empty enum seeds an unset cell: after
/// binding, a cell that was absent or still held the empty string
/// holds the first option's value.
pub proof fn lemma_text_bind_seeds_first_option(
    texts: Seq<(Seq<char>, Seq<char>)>,
    key: Seq<char>,
    schema: FieldSchemaView,
    entries: Seq<EnumEntryView>,
)
    requires
        schema.enum_values == Some(entries),
        spec_string_options(entries).len() > 0,
        match view_lookup(texts, key) {
            Some(v) => v == Seq::<char>::empty(),
            None => true,
        },
    ensures
        view_lookup(spec_bind_text_cells(texts, key, schema), key) == Some(
            spec_string_options(entries)[0].0,
        ),
{
    lemma_ensure_cell_found(texts, key, Seq::<char>::empty());
    lemma_set_first_found(
        ensure_cell(texts, key, Seq::<char>::empty()),
        key,
        spec_string_options(entries)[0].0,
    );
}

/// The value an integer cell holds right after binding: the schema's
/// default, or the first enum option when the default is absent and
/// the enum has integer options.
pub open spec fn spec_bound_int_value(schema: FieldSchemaView) -> Option<i64> {
    match schema.enum_values {
        None => schema.default.int,
        Some(entries) => if schema.default.int is None && spec_int_options(entries).len() > 0 {
            Some(spec_int_options(entries)[0].0)
        } else {
            schema.default.int
        },
    }
}

/// Binding an integer field re-seeds its cell from the schema alone,
/// whatever the cell held before — edits made since an earlier binding
/// included. Binding twice therefore leaves the same value as binding
/// once.
pub proof fn lemma_int_bind_overwrites(
    ints: Seq<(Seq<char>, Option<i64>)>,
    key: Seq<char>,
    schema: FieldSchemaView,
)
    ensures
        view_lookup(spec_bind_int_cells(ints, key, schema), key) == Some(
            spec_bound_int_value(schema),
        ),
{
    let created = ensure_cell(ints, key, Option::<i64>::None);
    let seeded = set_first(created, key, schema.default.int);
    lemma_ensure_cell_found(ints, key, Option::<i64>::None);
    lemma_set_first_found(created, key, schema.default.int);
    match schema.enum_values {
        None => {},
        Some(entries) => {
            let options = spec_int_options(entries);
            if schema.default.int is None && options.len() > 0 {
                lemma_set_first_found(seeded, key, Some(options[0].0));
            }
        },
    }
}

/// Binding a number field re-seeds its cell from the schema alone,
/// whatever the cell held before. Binding twice therefore leaves the
/// same value as binding once.
pub proof fn lemma_float_bind_overwrites(
    floats: Seq<(Seq<char>, Option<u64>)>,
    key: Seq<char>,
    schema: FieldSchemaView,
)
    ensures
        view_lookup(spec_bind_float_cells(floats, key, schema), key) == Some(schema.default.bits),
{
    let created = ensure_cell(floats, key, Option::<u64>::None);
    lemma_ensure_cell_found(floats, key, Option::<u64>::None);
    lemma_set_first_found(created, key, schema.default.bits);
}

} // verus!
