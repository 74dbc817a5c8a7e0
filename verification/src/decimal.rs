//! Plain decimal numbers as text: an optional minus sign, digits, and at most
//! one decimal point with digits on at least one side of it.

use crate::text::{
    all_digits, all_digits_in, digits_to_u64, digits_value, find_byte, first_byte, trim,
    trim_bounds,
};
use vstd::prelude::*;
use vstd::slice::slice_subrange;

verus! {

/// The digits before the decimal point of an unsigned number.
pub open spec fn whole_part(body: Seq<u8>) -> Seq<u8> {
    match first_byte(body, 46) {
        Some(k) => body.subrange(0, k),
        None => body,
    }
}

/// The digits behind the decimal point of an unsigned number.
pub open spec fn fraction_part(body: Seq<u8>) -> Seq<u8> {
    match first_byte(body, 46) {
        Some(k) => body.subrange(k + 1, body.len() as int),
        None => Seq::empty(),
    }
}

/// `body` is digits with at most one decimal point among them, and at least
/// one digit.
pub open spec fn is_unsigned_decimal(body: Seq<u8>) -> bool {
    &&& all_digits(whole_part(body))
    &&& all_digits(fraction_part(body))
    &&& whole_part(body).len() + fraction_part(body).len() > 0
}

/// `t` without one leading minus sign, if it has one.
pub open spec fn unsigned_body(t: Seq<u8>) -> Seq<u8> {
    if t.len() > 0 && t[0] == 45 {
        t.skip(1)
    } else {
        t
    }
}

/// `t` is a decimal number with an optional minus sign in front.
pub open spec fn is_decimal(t: Seq<u8>) -> bool {
    is_unsigned_decimal(unsigned_body(t))
}

/// Whether `s` is an unsigned decimal number.
pub fn check_unsigned_decimal(s: &[u8]) -> (r: bool)
    ensures
        r == is_unsigned_decimal(s@),
{
    match find_byte(s, 46) {
        Some(k) => {
            s.len() > 1 && all_digits_in(s, 0, k) && all_digits_in(s, k + 1, s.len())
        },
        None => {
            proof {
                assert(s@.subrange(0, s@.len() as int) =~= s@);
            }
            s.len() > 0 && all_digits_in(s, 0, s.len())
        },
    }
}

/// Whether `s` is a decimal number with an optional minus sign in front.
pub fn check_decimal(s: &[u8]) -> (r: bool)
    ensures
        r == is_decimal(s@),
{
    if s.len() > 0 && s[0] == 45 {
        let body = slice_subrange(s, 1, s.len());
        proof {
            assert(body@ =~= s@.skip(1));
        }
        check_unsigned_decimal(body)
    } else {
        check_unsigned_decimal(s)
    }
}

/// Digit `i` of `f`, or zero behind its end.
pub open spec fn digit_at(f: Seq<u8>, i: int) -> nat {
    if 0 <= i < f.len() {
        (f[i] - 48) as nat
    } else {
        0
    }
}

/// The first six digits behind a decimal point, read as millionths.
pub open spec fn millionths(f: Seq<u8>) -> nat {
    digit_at(f, 0) * 100_000 + digit_at(f, 1) * 10_000 + digit_at(f, 2) * 1_000 + digit_at(f, 3)
        * 100 + digit_at(f, 4) * 10 + digit_at(f, 5)
}

/// An unsigned decimal number of seconds in whole microseconds, rounded down.
pub open spec fn decimal_micros(body: Seq<u8>) -> nat {
    digits_value(whole_part(body)) * 1_000_000 + millionths(fraction_part(body))
}

/// The positive duration in microseconds that `text` spells in seconds, once
/// surrounding whitespace is removed. There is none where `text` is no
/// unsigned decimal number, where it comes to less than a microsecond, or
/// where it does not fit in 64 bits.
pub open spec fn parsed_duration(text: Seq<u8>) -> Option<u64> {
    let t = trim(text);
    if is_unsigned_decimal(t) && 0 < decimal_micros(t) <= u64::MAX {
        Some(decimal_micros(t) as u64)
    } else {
        None
    }
}

fn digit_or_zero(s: &[u8], i: usize) -> (r: u64)
    requires
        all_digits(s@),
    ensures
        r == digit_at(s@, i as int),
        r <= 9,
{
    if i < s.len() {
        (s[i] - 48) as u64
    } else {
        0
    }
}

/// Reads a duration in seconds, written as an unsigned decimal number, in
/// whole microseconds.
pub fn parse_duration_micros(text: &[u8]) -> (r: Option<u64>)
    ensures
        r == parsed_duration(text@),
{
    let (a, b) = trim_bounds(text);
    let t = slice_subrange(text, a, b);
    if !check_unsigned_decimal(t) {
        return None;
    }
    let dot: usize = match find_byte(t, 46) {
        Some(k) => k,
        None => t.len(),
    };
    let frac_from: usize = if dot < t.len() { dot + 1 } else { dot };
    let frac = slice_subrange(t, frac_from, t.len());
    proof {
        assert(t@.subrange(0, t@.len() as int) =~= t@);
        assert(frac@ =~= fraction_part(t@));
        assert(t@.subrange(0, dot as int) =~= whole_part(t@));
    }
    let whole: u64 = match digits_to_u64(t, 0, dot) {
        Some(w) => w,
        None => {
            return None;
        },
    };
    let part: u64 = digit_or_zero(frac, 0) * 100_000 + digit_or_zero(frac, 1) * 10_000
        + digit_or_zero(frac, 2) * 1_000 + digit_or_zero(frac, 3) * 100 + digit_or_zero(frac, 4)
        * 10 + digit_or_zero(frac, 5);
    let total: u128 = (whole as u128) * 1_000_000u128 + (part as u128);
    if total == 0 || total > 0xffff_ffff_ffff_ffffu128 {
        None
    } else {
        Some(total as u64)
    }
}

} // verus!
