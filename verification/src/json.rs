//! The library's own model of a parsed JSON document.
//!
//! A document is held as plain data: strings, 64-bit integers, the bit
//! pattern of a double-precision number, arrays and keyed entry lists.
//! All logic that reads a document is verified against the spec
//! functions below.

use vstd::prelude::*;

verus! {

/// A JSON number, seen through the two views the form logic reads.
///
/// `int` is the exact value when the number is an integer that fits in
/// `i64`; `bits` is the IEEE-754 double-precision bit pattern of the
/// numeric value, when that view is known.
#[derive(Clone, Copy, PartialEq, Eq, Debug)]
pub struct JsonNum {
    pub int: Option<i64>,
    pub bits: Option<u64>,
}

/// A JSON value. Object entries keep the order in which they were
/// produced; a key is looked up by its first occurrence.
#[derive(PartialEq, Debug)]
pub enum JsonValue {
    Null,
    Bool(bool),
    Num(JsonNum),
    Str(String),
    Arr(Vec<JsonValue>),
    Obj(Vec<(String, JsonValue)>),
}

impl JsonValue {
    /// The value under `key` in an object's entry list: the first entry
    /// whose key matches, if any.
    pub open spec fn spec_lookup(entries: Seq<(String, JsonValue)>, key: Seq<char>) -> Option<
        JsonValue,
    >
        decreases entries.len(),
    {
        if entries.len() == 0 {
            None
        } else if entries[0].0@ == key {
            Some(entries[0].1)
        } else {
            Self::spec_lookup(entries.drop_first(), key)
        }
    }

    /// The value under `key`, when `self` is an object that has it.
    /// On any value that is not an object the answer is `None`.
    pub open spec fn spec_get(self, key: Seq<char>) -> Option<JsonValue> {
        match self {
            JsonValue::Obj(entries) => Self::spec_lookup(entries@, key),
            _ => None,
        }
    }

    /// Looks `key` up in `self`, when `self` is an object.
    pub fn get<'a>(&'a self, key: &str) -> (r: Option<&'a JsonValue>)
        ensures
            match r {
                Some(v) => self.spec_get(key@) == Some(*v),
                None => self.spec_get(key@) is None,
            },
    {
        match self {
            JsonValue::Obj(entries) => {
                let wanted: String = key.to_owned();
                let n: usize = entries.len();
                assert(entries@.skip(0) == entries@);
                for i in 0..n
                    invariant
                        n == entries@.len(),
                        wanted@ == key@,
                        self.spec_get(key@) == Self::spec_lookup(
                            entries@.skip(i as int),
                            key@,
                        ),
                {
                    assert(entries@.skip(i as int)[0] == entries@[i as int]);
                    if entries[i].0 == wanted {
                        assert(Self::spec_lookup(entries@.skip(i as int), key@) == Some(
                            entries@[i as int].1,
                        ));
                        return Some(&entries[i].1);
                    }
                    assert(entries@.skip(i as int).drop_first() =~= entries@.skip(i + 1));
                }
                assert(entries@.skip(n as int).len() == 0);
                None
            },
            _ => None,
        }
    }

    /// The string content, when `self` is a string.
    pub open spec fn spec_as_str(self) -> Option<Seq<char>> {
        match self {
            JsonValue::Str(s) => Some(s@),
            _ => None,
        }
    }

    /// The string content, when `self` is a string.
    pub fn as_str<'a>(&'a self) -> (r: Option<&'a String>)
        ensures
            match r {
                Some(s) => self.spec_as_str() == Some(s@),
                None => self.spec_as_str() is None,
            },
    {
        match self {
            JsonValue::Str(s) => Some(s),
            _ => None,
        }
    }

    /// The exact integer value, when `self` is a number with one.
    pub open spec fn spec_as_int(self) -> Option<i64> {
        match self {
            JsonValue::Num(n) => n.int,
            _ => None,
        }
    }

    /// The exact integer value, when `self` is a number with one.
    pub fn as_int(&self) -> (r: Option<i64>)
        ensures
            r == self.spec_as_int(),
    {
        match self {
            JsonValue::Num(n) => n.int,
            _ => None,
        }
    }

    /// The double-precision bit pattern, when `self` is a number whose
    /// float view is known.
    pub open spec fn spec_as_bits(self) -> Option<u64> {
        match self {
            JsonValue::Num(n) => n.bits,
            _ => None,
        }
    }

    /// The double-precision bit pattern, when `self` is a number whose
    /// float view is known.
    pub fn as_bits(&self) -> (r: Option<u64>)
        ensures
            r == self.spec_as_bits(),
    {
        match self {
            JsonValue::Num(n) => n.bits,
            _ => None,
        }
    }

    /// The element list, when `self` is an array.
    pub open spec fn spec_as_array(self) -> Option<Seq<JsonValue>> {
        match self {
            JsonValue::Arr(items) => Some(items@),
            _ => None,
        }
    }

    /// The element list, when `self` is an array.
    pub fn as_array<'a>(&'a self) -> (r: Option<&'a Vec<JsonValue>>)
        ensures
            match r {
                Some(items) => self.spec_as_array() == Some(items@),
                None => self.spec_as_array() is None,
            },
    {
        match self {
            JsonValue::Arr(items) => Some(items),
            _ => None,
        }
    }
}

/// Whether an IEEE-754 double-precision bit pattern denotes a finite
/// value: its exponent field (bits 52 to 62) is not all ones.
pub open spec fn spec_finite_bits(bits: u64) -> bool {
    (bits >> 52) & 0x7ff != 0x7ff
}

/// Checks that a double-precision bit pattern is finite, that is,
/// neither an infinity nor a NaN.
pub fn finite_bits(bits: u64) -> (r: bool)
    ensures
        r == spec_finite_bits(bits),
{
    (bits >> 52) & 0x7ff != 0x7ff
}

} // verus!
