//! The form state aggregator.
//!
//! One `SchemaFormState` owns every field cell of one rendered form:
//! string cells, integer cells and float cells, each keyed by field
//! name. A cell is created once and then found again under its key, so
//! widget and state stay in sync across re-renders. On demand the whole
//! state serializes to a JSON object holding the values that were set.

use vstd::prelude::*;

use crate::json::{spec_finite_bits, JsonNum, JsonValue};

verus! {

/// The view of one keyed cell list: keys as character sequences.
pub open spec fn view_lookup<T>(cells: Seq<(Seq<char>, T)>, key: Seq<char>) -> Option<T>
    decreases cells.len(),
{
    if cells.len() == 0 {
        None
    } else if cells[0].0 == key {
        Some(cells[0].1)
    } else {
        view_lookup(cells.drop_first(), key)
    }
}

/// A cell list with the payload of the first cell under `key` replaced;
/// a list without the key is left as it is.
pub open spec fn set_first<T>(cells: Seq<(Seq<char>, T)>, key: Seq<char>, value: T) -> Seq<
    (Seq<char>, T),
>
    decreases cells.len(),
{
    if cells.len() == 0 {
        cells
    } else if cells[0].0 == key {
        cells.update(0, (key, value))
    } else {
        seq![cells[0]] + set_first(cells.drop_first(), key, value)
    }
}

/// A cell list that surely has a cell under `key`: the list itself when
/// the key is present, else the list with a new cell of payload `fill`.
pub open spec fn ensure_cell<T>(cells: Seq<(Seq<char>, T)>, key: Seq<char>, fill: T) -> Seq<
    (Seq<char>, T),
> {
    if view_lookup(cells, key) is Some {
        cells
    } else {
        cells.push((key, fill))
    }
}

/// The aggregate state of one rendered form: every field cell, keyed by
/// field name, typed by field kind. A float cell holds the IEEE-754
/// double-precision bit pattern of its value.
#[derive(Clone, Debug)]
pub struct SchemaFormState {
    pub text_cells: Vec<(String, String)>,
    pub int_cells: Vec<(String, Option<i64>)>,
    pub float_cells: Vec<(String, Option<u64>)>,
}

/// The view of a `SchemaFormState`.
#[verifier::ext_equal]
pub struct FormStateView {
    pub texts: Seq<(Seq<char>, Seq<char>)>,
    pub ints: Seq<(Seq<char>, Option<i64>)>,
    pub floats: Seq<(Seq<char>, Option<u64>)>,
}

impl View for SchemaFormState {
    type V = FormStateView;

    open spec fn view(&self) -> FormStateView {
        FormStateView {
            texts: self.text_cells@.map_values(|c: (String, String)| (c.0@, c.1@)),
            ints: self.int_cells@.map_values(|c: (String, Option<i64>)| (c.0@, c.1)),
            floats: self.float_cells@.map_values(|c: (String, Option<u64>)| (c.0@, c.1)),
        }
    }
}

/// `view_lookup` answers `Some` of the payload of index `i` when `i` is
/// the first index whose key matches.
proof fn lemma_view_lookup_at<T>(cells: Seq<(Seq<char>, T)>, key: Seq<char>, i: int)
    requires
        0 <= i < cells.len(),
        cells[i].0 == key,
        forall|j: int| 0 <= j < i ==> cells[j].0 != key,
    ensures
        view_lookup(cells, key) == Some(cells[i].1),
    decreases i,
{
    if i > 0 {
        lemma_view_lookup_at(cells.drop_first(), key, i - 1);
    }
}

/// `view_lookup` answers `None` when no key matches.
proof fn lemma_view_lookup_absent<T>(cells: Seq<(Seq<char>, T)>, key: Seq<char>)
    requires
        forall|j: int| 0 <= j < cells.len() ==> cells[j].0 != key,
    ensures
        view_lookup(cells, key) is None,
    decreases cells.len(),
{
    if cells.len() > 0 {
        lemma_view_lookup_absent(cells.drop_first(), key);
    }
}

/// `set_first` replaces exactly the payload of the first matching
/// index, when one exists.
proof fn lemma_set_first_at<T>(cells: Seq<(Seq<char>, T)>, key: Seq<char>, value: T, i: int)
    requires
        0 <= i < cells.len(),
        cells[i].0 == key,
        forall|j: int| 0 <= j < i ==> cells[j].0 != key,
    ensures
        set_first(cells, key, value) =~= cells.update(i, (key, value)),
    decreases i,
{
    if i == 0 {
    } else {
        lemma_set_first_at(cells.drop_first(), key, value, i - 1);
        assert(set_first(cells, key, value) =~= seq![cells[0]] + cells.drop_first().update(
            i - 1,
            (key, value),
        ));
    }
}

/// `set_first` leaves a list without the key as it is.
proof fn lemma_set_first_absent<T>(cells: Seq<(Seq<char>, T)>, key: Seq<char>, value: T)
    requires
        forall|j: int| 0 <= j < cells.len() ==> cells[j].0 != key,
    ensures
        set_first(cells, key, value) =~= cells,
    decreases cells.len(),
{
    if cells.len() > 0 {
        lemma_set_first_absent(cells.drop_first(), key, value);
    }
}

/// A key appended to a list that lacks it is found with its fill
/// value.
pub proof fn lemma_view_lookup_push<T>(cells: Seq<(Seq<char>, T)>, key: Seq<char>, fill: T)
    requires
        view_lookup(cells, key) is None,
    ensures
        view_lookup(cells.push((key, fill)), key) == Some(fill),
    decreases cells.len(),
{
    if cells.len() == 0 {
        assert(cells.push((key, fill))[0] == (key, fill));
    } else {
        assert(cells.push((key, fill))[0] == cells[0]);
        assert(cells.push((key, fill)).drop_first() =~= cells.drop_first().push((key, fill)));
        lemma_view_lookup_push(cells.drop_first(), key, fill);
    }
}

/// `ensure_cell` always leaves a cell under the key: the old payload
/// when one existed, else the fill value.
pub proof fn lemma_ensure_cell_found<T>(cells: Seq<(Seq<char>, T)>, key: Seq<char>, fill: T)
    ensures
        view_lookup(ensure_cell(cells, key, fill), key) == match view_lookup(cells, key) {
            Some(v) => Some(v),
            None => Some(fill),
        },
{
    if view_lookup(cells, key) is None {
        lemma_view_lookup_push(cells, key, fill);
    }
}

/// After `set_first` on a present key, the key answers with the new
/// payload.
pub proof fn lemma_set_first_found<T>(cells: Seq<(Seq<char>, T)>, key: Seq<char>, value: T)
    requires
        view_lookup(cells, key) is Some,
    ensures
        view_lookup(set_first(cells, key, value), key) == Some(value),
    decreases cells.len(),
{
    if cells.len() > 0 {
        if cells[0].0 == key {
            assert(set_first(cells, key, value)[0] == (key, value));
        } else {
            let rest = set_first(cells.drop_first(), key, value);
            assert(set_first(cells, key, value)[0] == cells[0]);
            assert(set_first(cells, key, value).drop_first() =~= rest);
            lemma_set_first_found(cells.drop_first(), key, value);
        }
    }
}

/// Finds the first cell under `key` in one keyed list.
fn find_cell<T>(cells: &Vec<(String, T)>, key: &str) -> (r: Option<usize>)
    ensures
        match r {
            Some(i) => i < cells@.len() && cells@[i as int].0@ == key@ && (forall|j: int|
                0 <= j < i ==> cells@[j].0@ != key@),
            None => forall|j: int| 0 <= j < cells@.len() ==> cells@[j].0@ != key@,
        },
{
    let wanted: String = key.to_owned();
    let n: usize = cells.len();
    for i in 0..n
        invariant
            n == cells@.len(),
            wanted@ == key@,
            forall|j: int| 0 <= j < i ==> cells@[j].0@ != key@,
    {
        if cells[i].0 == wanted {
            return Some(i);
        }
    }
    None
}

impl SchemaFormState {
    /// A fresh form state with no cells.
    pub fn new() -> (r: SchemaFormState)
        ensures
            r@.texts == Seq::<(Seq<char>, Seq<char>)>::empty(),
            r@.ints == Seq::<(Seq<char>, Option<i64>)>::empty(),
            r@.floats == Seq::<(Seq<char>, Option<u64>)>::empty(),
    {
        let r = SchemaFormState { text_cells: Vec::new(), int_cells: Vec::new(), float_cells: Vec::new() };
        assert(r@.texts =~= Seq::<(Seq<char>, Seq<char>)>::empty());
        assert(r@.ints =~= Seq::<(Seq<char>, Option<i64>)>::empty());
        assert(r@.floats =~= Seq::<(Seq<char>, Option<u64>)>::empty());
        r
    }

    /// Makes sure a string cell exists under `key`; a new cell starts
    /// at the empty string. The cell of an already-present key is left
    /// untouched.
    pub fn get_or_create_text(&mut self, key: &str)
        ensures
            final(self)@.texts == ensure_cell(old(self)@.texts, key@, Seq::<char>::empty()),
            final(self)@.ints == old(self)@.ints,
            final(self)@.floats == old(self)@.floats,
    {
        match find_cell(&self.text_cells, key) {
            Some(i) => {
                proof {
                    lemma_view_lookup_at(self@.texts, key@, i as int);
                }
            },
            None => {
                proof {
                    lemma_view_lookup_absent(self@.texts, key@);
                }
                let ghost pre = self@.texts;
                self.text_cells.push((key.to_owned(), String::new()));
                assert(self@.texts =~= pre.push((key@, Seq::<char>::empty())));
            },
        }
    }

    /// Makes sure an integer cell exists under `key`; a new cell starts
    /// unset.
    pub fn get_or_create_int(&mut self, key: &str)
        ensures
            final(self)@.ints == ensure_cell(old(self)@.ints, key@, Option::<i64>::None),
            final(self)@.texts == old(self)@.texts,
            final(self)@.floats == old(self)@.floats,
    {
        match find_cell(&self.int_cells, key) {
            Some(i) => {
                proof {
                    lemma_view_lookup_at(self@.ints, key@, i as int);
                }
            },
            None => {
                proof {
                    lemma_view_lookup_absent(self@.ints, key@);
                }
                let ghost pre = self@.ints;
                self.int_cells.push((key.to_owned(), None));
                assert(self@.ints =~= pre.push((key@, Option::<i64>::None)));
            },
        }
    }

    /// Makes sure a float cell exists under `key`; a new cell starts
    /// unset.
    pub fn get_or_create_float(&mut self, key: &str)
        ensures
            final(self)@.floats == ensure_cell(old(self)@.floats, key@, Option::<u64>::None),
            final(self)@.texts == old(self)@.texts,
            final(self)@.ints == old(self)@.ints,
    {
        match find_cell(&self.float_cells, key) {
            Some(i) => {
                proof {
                    lemma_view_lookup_at(self@.floats, key@, i as int);
                }
            },
            None => {
                proof {
                    lemma_view_lookup_absent(self@.floats, key@);
                }
                let ghost pre = self@.floats;
                self.float_cells.push((key.to_owned(), None));
                assert(self@.floats =~= pre.push((key@, Option::<u64>::None)));
            },
        }
    }

    /// Writes the string cell under `key`, when one exists.
    pub fn set_text(&mut self, key: &str, value: String)
        ensures
            final(self)@.texts == set_first(old(self)@.texts, key@, value@),
            final(self)@.ints == old(self)@.ints,
            final(self)@.floats == old(self)@.floats,
    {
        match find_cell(&self.text_cells, key) {
            Some(i) => {
                proof {
                    lemma_set_first_at(self@.texts, key@, value@, i as int);
                }
                let ghost pre = self@.texts;
                let owned_key: String = self.text_cells[i].0.clone();
                self.text_cells.set(i, (owned_key, value));
                assert(self@.texts =~= pre.update(i as int, (key@, value@)));
            },
            None => {
                proof {
                    lemma_set_first_absent(self@.texts, key@, value@);
                }
            },
        }
    }

    /// Writes the integer cell under `key`, when one exists.
    pub fn set_int(&mut self, key: &str, value: Option<i64>)
        ensures
            final(self)@.ints == set_first(old(self)@.ints, key@, value),
            final(self)@.texts == old(self)@.texts,
            final(self)@.floats == old(self)@.floats,
    {
        match find_cell(&self.int_cells, key) {
            Some(i) => {
                proof {
                    lemma_set_first_at(self@.ints, key@, value, i as int);
                }
                let ghost pre = self@.ints;
                let owned_key: String = self.int_cells[i].0.clone();
                self.int_cells.set(i, (owned_key, value));
                assert(self@.ints =~= pre.update(i as int, (key@, value)));
            },
            None => {
                proof {
                    lemma_set_first_absent(self@.ints, key@, value);
                }
            },
        }
    }

    /// Writes the float cell under `key`, when one exists, as a
    /// double-precision bit pattern.
    pub fn set_float_bits(&mut self, key: &str, value: Option<u64>)
        ensures
            final(self)@.floats == set_first(old(self)@.floats, key@, value),
            final(self)@.texts == old(self)@.texts,
            final(self)@.ints == old(self)@.ints,
    {
        match find_cell(&self.float_cells, key) {
            Some(i) => {
                proof {
                    lemma_set_first_at(self@.floats, key@, value, i as int);
                }
                let ghost pre = self@.floats;
                let owned_key: String = self.float_cells[i].0.clone();
                self.float_cells.set(i, (owned_key, value));
                assert(self@.floats =~= pre.update(i as int, (key@, value)));
            },
            None => {
                proof {
                    lemma_set_first_absent(self@.floats, key@, value);
                }
            },
        }
    }

    /// Reads the string cell under `key`, when one exists.
    pub fn get_text(&self, key: &str) -> (r: Option<String>)
        ensures
            match r {
                Some(s) => view_lookup(self@.texts, key@) == Some(s@),
                None => view_lookup(self@.texts, key@) is None,
            },
    {
        match find_cell(&self.text_cells, key) {
            Some(i) => {
                proof {
                    lemma_view_lookup_at(self@.texts, key@, i as int);
                }
                Some(self.text_cells[i].1.clone())
            },
            None => {
                proof {
                    lemma_view_lookup_absent(self@.texts, key@);
                }
                None
            },
        }
    }

    /// Reads the integer cell under `key`: `None` when there is no such
    /// cell, else the cell's value.
    pub fn get_int(&self, key: &str) -> (r: Option<Option<i64>>)
        ensures
            r == view_lookup(self@.ints, key@),
    {
        match find_cell(&self.int_cells, key) {
            Some(i) => {
                proof {
                    lemma_view_lookup_at(self@.ints, key@, i as int);
                }
                Some(self.int_cells[i].1)
            },
            None => {
                proof {
                    lemma_view_lookup_absent(self@.ints, key@);
                }
                None
            },
        }
    }

    /// Reads the float cell under `key`: `None` when there is no such
    /// cell, else the cell's value as a double-precision bit pattern.
    pub fn get_float_bits(&self, key: &str) -> (r: Option<Option<u64>>)
        ensures
            r == view_lookup(self@.floats, key@),
    {
        match find_cell(&self.float_cells, key) {
            Some(i) => {
                proof {
                    lemma_view_lookup_at(self@.floats, key@, i as int);
                }
                Some(self.float_cells[i].1)
            },
            None => {
                proof {
                    lemma_view_lookup_absent(self@.floats, key@);
                }
                None
            },
        }
    }

    /// Serializes the whole form state to a JSON object: one entry per
    /// string cell with a non-empty value, one per integer cell with a
    /// set value, one per float cell with a set, finite value; every
    /// other cell is omitted.
    pub fn to_json(&self) -> (r: JsonValue)
        ensures
            r matches JsonValue::Obj(entries) && entries@ == spec_output_entries(*self),
    {
        let mut entries: Vec<(String, JsonValue)> = Vec::new();
        let n_t: usize = self.text_cells.len();
        assert(entries@ =~= spec_text_entries(self.text_cells@.take(0)));
        for i in 0..n_t
            invariant
                n_t == self.text_cells@.len(),
                entries@ == spec_text_entries(self.text_cells@.take(i as int)),
        {
            let cell = &self.text_cells[i];
            if !cell.1.as_str().is_empty() {
                entries.push((cell.0.clone(), JsonValue::Str(cell.1.clone())));
            }
            assert(self.text_cells@.take(i + 1).drop_last() =~= self.text_cells@.take(i as int));
            assert(self.text_cells@.take(i + 1).last() == self.text_cells@[i as int]);
        }
        assert(self.text_cells@.take(n_t as int) =~= self.text_cells@);
        let ghost text_part = spec_text_entries(self.text_cells@);

        let n_i: usize = self.int_cells.len();
        assert(entries@ =~= text_part + spec_int_entries(self.int_cells@.take(0)));
        for i in 0..n_i
            invariant
                n_i == self.int_cells@.len(),
                entries@ == text_part + spec_int_entries(self.int_cells@.take(i as int)),
        {
            let cell = &self.int_cells[i];
            match cell.1 {
                Some(v) => {
                    entries.push(
                        (cell.0.clone(), JsonValue::Num(JsonNum { int: Some(v), bits: None })),
                    );
                },
                None => {},
            }
            assert(self.int_cells@.take(i + 1).drop_last() =~= self.int_cells@.take(i as int));
            assert(self.int_cells@.take(i + 1).last() == self.int_cells@[i as int]);
            assert(entries@ =~= text_part + spec_int_entries(self.int_cells@.take(i + 1)));
        }
        assert(self.int_cells@.take(n_i as int) =~= self.int_cells@);
        let ghost int_part = spec_int_entries(self.int_cells@);

        let n_f: usize = self.float_cells.len();
        assert(entries@ =~= text_part + int_part + spec_float_entries(self.float_cells@.take(0)));
        for i in 0..n_f
            invariant
                n_f == self.float_cells@.len(),
                entries@ == text_part + int_part + spec_float_entries(
                    self.float_cells@.take(i as int),
                ),
        {
            let cell = &self.float_cells[i];
            match cell.1 {
                Some(b) => {
                    if crate::json::finite_bits(b) {
                        entries.push(
                            (cell.0.clone(), JsonValue::Num(JsonNum { int: None, bits: Some(b) })),
                        );
                    }
                },
                None => {},
            }
            assert(self.float_cells@.take(i + 1).drop_last() =~= self.float_cells@.take(i as int));
            assert(self.float_cells@.take(i + 1).last() == self.float_cells@[i as int]);
            assert(entries@ =~= text_part + int_part + spec_float_entries(
                self.float_cells@.take(i + 1),
            ));
        }
        assert(self.float_cells@.take(n_f as int) =~= self.float_cells@);
        JsonValue::Obj(entries)
    }
}

/// The serialized entries of the string cells: one `Str` entry per cell
/// with a non-empty value, in cell order.
pub open spec fn spec_text_entries(cells: Seq<(String, String)>) -> Seq<(String, JsonValue)>
    decreases cells.len(),
{
    if cells.len() == 0 {
        Seq::empty()
    } else {
        let front = spec_text_entries(cells.drop_last());
        let c = cells.last();
        if c.1@.len() != 0 {
            front.push((c.0, JsonValue::Str(c.1)))
        } else {
            front
        }
    }
}

/// The serialized entries of the integer cells: one integer `Num` entry
/// per cell with a set value, in cell order.
pub open spec fn spec_int_entries(cells: Seq<(String, Option<i64>)>) -> Seq<(String, JsonValue)>
    decreases cells.len(),
{
    if cells.len() == 0 {
        Seq::empty()
    } else {
        let front = spec_int_entries(cells.drop_last());
        let c = cells.last();
        if c.1 is Some {
            front.push((c.0, JsonValue::Num(JsonNum { int: c.1, bits: None })))
        } else {
            front
        }
    }
}

/// The serialized entries of the float cells: one float `Num` entry per
/// cell with a set, finite value, in cell order.
pub open spec fn spec_float_entries(cells: Seq<(String, Option<u64>)>) -> Seq<(String, JsonValue)>
    decreases cells.len(),
{
    if cells.len() == 0 {
        Seq::empty()
    } else {
        let front = spec_float_entries(cells.drop_last());
        let c = cells.last();
        if c.1 matches Some(b) && spec_finite_bits(b) {
            front.push((c.0, JsonValue::Num(JsonNum { int: None, bits: c.1 })))
        } else {
            front
        }
    }
}

/// Everything `to_json` emits: the string entries, then the integer
/// entries, then the float entries.
pub open spec fn spec_output_entries(s: SchemaFormState) -> Seq<(String, JsonValue)> {
    spec_text_entries(s.text_cells@) + spec_int_entries(s.int_cells@) + spec_float_entries(
        s.float_cells@,
    )
}

/// Looking a key up behind an entry whose key differs does not change
/// the answer.
proof fn lemma_lookup_push_other(
    entries: Seq<(String, JsonValue)>,
    entry: (String, JsonValue),
    key: Seq<char>,
)
    requires
        entry.0@ != key,
        JsonValue::spec_lookup(entries, key) is None,
    ensures
        JsonValue::spec_lookup(entries.push(entry), key) is None,
    decreases entries.len(),
{
    if entries.len() == 0 {
        assert(entries.push(entry)[0] == entry);
        assert(entries.push(entry).drop_first() =~= Seq::<(String, JsonValue)>::empty());
        assert(JsonValue::spec_lookup(Seq::<(String, JsonValue)>::empty(), key) is None);
    } else {
        assert(entries.push(entry)[0] == entries[0]);
        assert(entries.push(entry).drop_first() =~= entries.drop_first().push(entry));
        lemma_lookup_push_other(entries.drop_first(), entry, key);
    }
}

/// A lookup that fails on the first part of a concatenation falls
/// through to the second part.
proof fn lemma_lookup_append_none(
    xs: Seq<(String, JsonValue)>,
    ys: Seq<(String, JsonValue)>,
    key: Seq<char>,
)
    requires
        JsonValue::spec_lookup(xs, key) is None,
    ensures
        JsonValue::spec_lookup(xs + ys, key) == JsonValue::spec_lookup(ys, key),
    decreases xs.len(),
{
    if xs.len() == 0 {
        assert(xs + ys =~= ys);
    } else {
        assert((xs + ys).drop_first() =~= xs.drop_first() + ys);
        lemma_lookup_append_none(xs.drop_first(), ys, key);
    }
}

/// String cells that hold nothing but the empty string under `key`
/// contribute no entry under `key`.
proof fn lemma_text_entries_skip_key(cells: Seq<(String, String)>, key: Seq<char>)
    requires
        forall|j: int|
            0 <= j < cells.len() && cells[j].0@ == key ==> cells[j].1@.len() == 0,
    ensures
        JsonValue::spec_lookup(spec_text_entries(cells), key) is None,
    decreases cells.len(),
{
    if cells.len() > 0 {
        assert(forall|j: int|
            0 <= j < cells.drop_last().len() && cells.drop_last()[j].0@ == key
                ==> cells.drop_last()[j].1@.len() == 0);
        lemma_text_entries_skip_key(cells.drop_last(), key);
        let c = cells.last();
        if c.1@.len() != 0 {
            assert(c == cells[cells.len() - 1]);
            lemma_lookup_push_other(
                spec_text_entries(cells.drop_last()),
                (c.0, JsonValue::Str(c.1)),
                key,
            );
        }
    }
}

/// Integer cells that are unset under `key` contribute no entry under
/// `key`.
proof fn lemma_int_entries_skip_key(cells: Seq<(String, Option<i64>)>, key: Seq<char>)
    requires
        forall|j: int| 0 <= j < cells.len() && cells[j].0@ == key ==> cells[j].1 is None,
    ensures
        JsonValue::spec_lookup(spec_int_entries(cells), key) is None,
    decreases cells.len(),
{
    if cells.len() > 0 {
        assert(forall|j: int|
            0 <= j < cells.drop_last().len() && cells.drop_last()[j].0@ == key
                ==> cells.drop_last()[j].1 is None);
        lemma_int_entries_skip_key(cells.drop_last(), key);
        let c = cells.last();
        if c.1 is Some {
            assert(c == cells[cells.len() - 1]);
            lemma_lookup_push_other(
                spec_int_entries(cells.drop_last()),
                (c.0, JsonValue::Num(JsonNum { int: c.1, bits: None })),
                key,
            );
        }
    }
}

/// Float cells that are unset or non-finite under `key` contribute no
/// entry under `key`.
proof fn lemma_float_entries_skip_key(cells: Seq<(String, Option<u64>)>, key: Seq<char>)
    requires
        forall|j: int|
            0 <= j < cells.len() && cells[j].0@ == key ==> match cells[j].1 {
                Some(b) => !spec_finite_bits(b),
                None => true,
            },
    ensures
        JsonValue::spec_lookup(spec_float_entries(cells), key) is None,
    decreases cells.len(),
{
    if cells.len() > 0 {
        assert(forall|j: int|
            0 <= j < cells.drop_last().len() && cells.drop_last()[j].0@ == key ==> match cells.drop_last()[j].1 {
                Some(b) => !spec_finite_bits(b),
                None => true,
            });
        lemma_float_entries_skip_key(cells.drop_last(), key);
        let c = cells.last();
        if c.1 matches Some(b) && spec_finite_bits(b) {
            assert(c == cells[cells.len() - 1]);
            lemma_lookup_push_other(
                spec_float_entries(cells.drop_last()),
                (c.0, JsonValue::Num(JsonNum { int: None, bits: c.1 })),
                key,
            );
        }
    }
}

/// A field left unset is absent from the serialized output: when every
/// string cell under `key` holds the empty string, every integer cell
/// under `key` is unset, and every float cell under `key` is unset or
/// holds a non-finite value, the serialized object has no entry under
/// `key`.
pub proof fn lemma_unset_cells_omitted(s: SchemaFormState, key: Seq<char>)
    requires
        forall|j: int|
            0 <= j < s.text_cells@.len() && s.text_cells@[j].0@ == key
                ==> s.text_cells@[j].1@.len() == 0,
        forall|j: int|
            0 <= j < s.int_cells@.len() && s.int_cells@[j].0@ == key
                ==> s.int_cells@[j].1 is None,
        forall|j: int|
            0 <= j < s.float_cells@.len() && s.float_cells@[j].0@ == key ==> match s.float_cells@[j].1 {
                Some(b) => !spec_finite_bits(b),
                None => true,
            },
    ensures
        JsonValue::spec_lookup(spec_output_entries(s), key) is None,
{
    let texts = spec_text_entries(s.text_cells@);
    let ints = spec_int_entries(s.int_cells@);
    let floats = spec_float_entries(s.float_cells@);
    lemma_text_entries_skip_key(s.text_cells@, key);
    lemma_int_entries_skip_key(s.int_cells@, key);
    lemma_float_entries_skip_key(s.float_cells@, key);
    assert(texts + ints + floats =~= texts + (ints + floats));
    lemma_lookup_append_none(ints, floats, key);
    lemma_lookup_append_none(texts, ints + floats, key);
}

/// Serialization is a function of the form state alone: two
/// serializations of the same state, with no edit between them, yield
/// the same entries.
pub proof fn lemma_to_json_deterministic(
    s: SchemaFormState,
    first: Seq<(String, JsonValue)>,
    second: Seq<(String, JsonValue)>,
)
    requires
        first == spec_output_entries(s),
        second == spec_output_entries(s),
    ensures
        first == second,
{
}

} // verus!
