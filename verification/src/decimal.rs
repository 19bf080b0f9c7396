//! Rendering integers as decimal strings, with a mathematical definition of
//! the digit sequence that the executable code is proved to produce.

use vstd::prelude::*;

use crate::strutil::chars_to_string;

verus! {

/// The character for a single decimal digit.
pub open spec fn digit_char(d: int) -> char
    recommends
        0 <= d < 10,
{
    if d == 0 {
        '0'
    } else if d == 1 {
        '1'
    } else if d == 2 {
        '2'
    } else if d == 3 {
        '3'
    } else if d == 4 {
        '4'
    } else if d == 5 {
        '5'
    } else if d == 6 {
        '6'
    } else if d == 7 {
        '7'
    } else if d == 8 {
        '8'
    } else {
        '9'
    }
}

/// The decimal digit string of a natural number, most significant digit
/// first, with no leading zeros (a single `'0'` for zero).
pub open spec fn dec_nat(n: nat) -> Seq<char>
    decreases n,
{
    if n < 10 {
        seq![digit_char(n as int)]
    } else {
        dec_nat(n / 10).push(digit_char((n % 10) as int))
    }
}

/// The decimal string of an integer: the digit string, preceded by `'-'` for
/// a negative value.
pub open spec fn dec_int(n: int) -> Seq<char> {
    if n >= 0 {
        dec_nat(n as nat)
    } else {
        seq!['-'] + dec_nat((-n) as nat)
    }
}

fn digit_to_char(d: u64) -> (c: char)
    requires
        d < 10,
    ensures
        c == digit_char(d as int),
{
    if d == 0 {
        '0'
    } else if d == 1 {
        '1'
    } else if d == 2 {
        '2'
    } else if d == 3 {
        '3'
    } else if d == 4 {
        '4'
    } else if d == 5 {
        '5'
    } else if d == 6 {
        '6'
    } else if d == 7 {
        '7'
    } else if d == 8 {
        '8'
    } else {
        '9'
    }
}

/// Renders `n` in decimal.
pub fn u64_to_string(n: u64) -> (s: String)
    ensures
        s@ == dec_nat(n as nat),
{
    let mut digits: Vec<char> = Vec::new();
    let mut m: u64 = n;
    proof {
        assert(dec_nat(n as nat) + digits@ =~= dec_nat(n as nat));
    }
    while m >= 10
        invariant
            dec_nat(n as nat) == dec_nat(m as nat) + digits@,
        decreases m,
    {
        let ghost old_digits = digits@;
        let d: u64 = m % 10;
        let c = digit_to_char(d);
        digits.insert(0, c);
        proof {
            assert(digits@ =~= seq![c] + old_digits);
            assert(dec_nat(m as nat) == dec_nat((m / 10) as nat).push(c));
            assert(dec_nat((m / 10) as nat).push(c) + old_digits =~= dec_nat((m / 10) as nat)
                + (seq![c] + old_digits));
        }
        m = m / 10;
    }
    let ghost old_digits = digits@;
    let c = digit_to_char(m);
    digits.insert(0, c);
    proof {
        assert(digits@ =~= seq![c] + old_digits);
        assert(dec_nat(m as nat) =~= seq![c]);
        assert(dec_nat(m as nat) + old_digits =~= seq![c] + old_digits);
    }
    chars_to_string(&digits)
}

/// Renders `n` in decimal, with a leading `'-'` when it is negative. The
/// smallest `i64` is excluded only because its magnitude does not fit in the
/// type when negated.
pub fn i64_to_string(n: i64) -> (s: String)
    requires
        n != i64::MIN,
    ensures
        s@ == dec_int(n as int),
{
    if n >= 0 {
        u64_to_string(n as u64)
    } else {
        let mut s = String::new();
        crate::strutil::push_char(&mut s, '-');
        let t = u64_to_string((-n) as u64);
        proof {
            assert(s@ =~= seq!['-']);
        }
        s.append(t.as_str());
        s
    }
}

} // verus!
