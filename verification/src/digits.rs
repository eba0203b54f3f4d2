//! Decimal rendering of integers, for the display text of enumerated
//! options.

use vstd::prelude::*;

verus! {

/// The decimal digit character for one digit value.
pub open spec fn spec_digit_char(d: nat) -> char {
    if d == 0 {
        '0'
    } else if d == 1 {
        '1'
    } else if d == 2 {
        '2'
    } else if d == 3 {
        '3'
    } else if d == 4 {
        '4'
    } else if d == 5 {
        '5'
    } else if d == 6 {
        '6'
    } else if d == 7 {
        '7'
    } else if d == 8 {
        '8'
    } else {
        '9'
    }
}

/// The decimal rendering of a natural number, most significant digit
/// first, without leading zeros (a single `'0'` for zero).
pub open spec fn spec_udec(n: nat) -> Seq<char>
    decreases n,
{
    if n < 10 {
        seq![spec_digit_char(n)]
    } else {
        spec_udec(n / 10).push(spec_digit_char(n % 10))
    }
}

/// The decimal rendering of an integer: a leading `'-'` for a negative
/// value, then the rendering of its magnitude.
pub open spec fn spec_idec(i: int) -> Seq<char> {
    if i < 0 {
        seq!['-'] + spec_udec((-i) as nat)
    } else {
        spec_udec(i as nat)
    }
}

/// The one-character string of one decimal digit.
fn digit_str(d: u64) -> (s: &'static str)
    requires
        d < 10,
    ensures
        s@ == seq![spec_digit_char(d as nat)],
{
    proof {
        reveal_strlit("0");
        reveal_strlit("1");
        reveal_strlit("2");
        reveal_strlit("3");
        reveal_strlit("4");
        reveal_strlit("5");
        reveal_strlit("6");
        reveal_strlit("7");
        reveal_strlit("8");
        reveal_strlit("9");
    }
    match d {
        0 => "0",
        1 => "1",
        2 => "2",
        3 => "3",
        4 => "4",
        5 => "5",
        6 => "6",
        7 => "7",
        8 => "8",
        _ => "9",
    }
}

/// Renders an unsigned 64-bit value in decimal.
pub fn u64_to_dec(n: u64) -> (s: String)
    ensures
        s@ == spec_udec(n as nat),
    decreases n,
{
    if n < 10 {
        digit_str(n).to_owned()
    } else {
        let mut s = u64_to_dec(n / 10);
        s.append(digit_str(n % 10));
        assert(s@ == spec_udec((n / 10) as nat).push(spec_digit_char((n % 10) as nat)));
        s
    }
}

/// Renders a signed 64-bit value in decimal.
pub fn i64_to_dec(i: i64) -> (s: String)
    ensures
        s@ == spec_idec(i as int),
{
    if i >= 0 {
        u64_to_dec(i as u64)
    } else {
        let mag: u64 = ((-(i + 1)) as u64) + 1;
        assert(mag as int == -(i as int));
        let mut s: String = String::from_str("-");
        let rest = u64_to_dec(mag);
        s.append(rest.as_str());
        proof {
            reveal_strlit("-");
            assert(s@ =~= spec_idec(i as int));
        }
        s
    }
}

} // verus!
