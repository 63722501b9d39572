//! Verified decimal formatting of integers.

use vstd::prelude::*;

use crate::text::chars_to_string;

verus! {

/// The digit character for a value between 0 and 9.
pub open spec fn digit_char(d: int) -> char {
    if d == 0 {
        '0'
    } else if d == 1 {
        '1'
    } else if d == 2 {
        '2'
    } else if d == 3 {
        '3'
    } else if d == 4 {
        '4'
    } else if d == 5 {
        '5'
    } else if d == 6 {
        '6'
    } else if d == 7 {
        '7'
    } else if d == 8 {
        '8'
    } else {
        '9'
    }
}

/// The decimal digits of a non-negative value, most significant first.
pub open spec fn dec_chars_nat(n: int) -> Seq<char>
    decreases n,
{
    if n < 10 {
        seq![digit_char(n)]
    } else {
        dec_chars_nat(n / 10).push(digit_char(n % 10))
    }
}

/// The decimal rendering of an integer, with a leading minus sign when
/// negative.
pub open spec fn dec_chars_int(v: int) -> Seq<char> {
    if v < 0 {
        seq!['-'] + dec_chars_nat(-v)
    } else {
        dec_chars_nat(v)
    }
}

/// A month key `YYYY-MM`: the year, a dash, and the two-digit month.
pub open spec fn month_key_chars(y: int, m: int) -> Seq<char> {
    dec_chars_int(y) + seq!['-'] + pad2_spec(m)
}

/// The month number padded to two digits.
pub open spec fn pad2_spec(m: int) -> Seq<char> {
    if 0 <= m < 10 {
        seq!['0'] + dec_chars_nat(m)
    } else {
        dec_chars_nat(m)
    }
}

fn digit_of(d: u64) -> (c: char)
    requires
        d < 10,
    ensures
        c == digit_char(d as int),
{
    match d {
        0 => '0',
        1 => '1',
        2 => '2',
        3 => '3',
        4 => '4',
        5 => '5',
        6 => '6',
        7 => '7',
        8 => '8',
        _ => '9',
    }
}

/// The decimal digits of an unsigned value.
pub fn format_u64(n: u64) -> (r: Vec<char>)
    ensures
        r@ == dec_chars_nat(n as int),
    decreases n,
{
    if n < 10 {
        let mut r: Vec<char> = Vec::new();
        r.push(digit_of(n));
        proof {
            assert(r@ =~= seq![digit_char(n as int)]);
        }
        r
    } else {
        let mut r = format_u64(n / 10);
        r.push(digit_of(n % 10));
        r
    }
}

/// The decimal rendering of a signed value.
pub fn format_i64(v: i64) -> (r: Vec<char>)
    ensures
        r@ == dec_chars_int(v as int),
{
    if v < 0 {
        let mag = (-(v as i128)) as u64;
        let mut r: Vec<char> = Vec::new();
        r.push('-');
        let mut d = format_u64(mag);
        r.append(&mut d);
        proof {
            assert(r@ =~= seq!['-'] + dec_chars_nat(mag as int));
        }
        r
    } else {
        format_u64(v as u64)
    }
}

/// The calendar key of a year and month, rendered `YYYY-MM`.
pub fn month_key(y: i32, m: u8) -> (r: String)
    ensures
        r@ == month_key_chars(y as int, m as int),
{
    let mut r = format_i64(y as i64);
    r.push('-');
    let mut p = pad2(m);
    r.append(&mut p);
    proof {
        assert(r@ =~= dec_chars_int(y as int) + seq!['-'] + pad2_spec(m as int));
    }
    chars_to_string(&r)
}

/// The month number padded to two digits.
pub fn pad2(m: u8) -> (r: Vec<char>)
    ensures
        r@ == pad2_spec(m as int),
{
    if m < 10 {
        let mut r: Vec<char> = Vec::new();
        r.push('0');
        let mut d = format_u64(m as u64);
        r.append(&mut d);
        proof {
            assert(r@ =~= seq!['0'] + dec_chars_nat(m as int));
        }
        r
    } else {
        format_u64(m as u64)
    }
}

} // verus!
