//! Verified decimal formatting of integers.

use vstd::prelude::*;
use vstd::string::StringExecFns;
use crate::strutil::push_char;

verus! {

/// The decimal digit character for one digit value.
pub open spec fn digit_char(d: nat) -> char
    recommends
        d < 10,
{
    if d == 0 {
        '0'
    } else if d == 1 {
        '1'
    } else if d == 2 {
        '2'
    } else if d == 3 {
        '3'
    } else if d == 4 {
        '4'
    } else if d == 5 {
        '5'
    } else if d == 6 {
        '6'
    } else if d == 7 {
        '7'
    } else if d == 8 {
        '8'
    } else {
        '9'
    }
}

/// The decimal digit string of a natural number, most significant digit
/// first, without leading zeros (a lone `0` for zero).
pub open spec fn dec_digits(n: nat) -> Seq<char>
    decreases n,
{
    if n < 10 {
        seq![digit_char(n)]
    } else {
        dec_digits(n / 10).push(digit_char(n % 10))
    }
}

/// The decimal string of an integer: a `-` sign for negative values,
/// then the digits of the magnitude.
pub open spec fn dec_str_int(v: int) -> Seq<char> {
    if v < 0 {
        seq!['-'] + dec_digits((-v) as nat)
    } else {
        dec_digits(v as nat)
    }
}

fn digit_to_char(d: u64) -> (c: char)
    requires
        d < 10,
    ensures
        c == digit_char(d as nat),
{
    if d == 0 {
        '0'
    } else if d == 1 {
        '1'
    } else if d == 2 {
        '2'
    } else if d == 3 {
        '3'
    } else if d == 4 {
        '4'
    } else if d == 5 {
        '5'
    } else if d == 6 {
        '6'
    } else if d == 7 {
        '7'
    } else if d == 8 {
        '8'
    } else {
        '9'
    }
}

/// Formats an unsigned 64-bit integer as its decimal string.
pub fn u64_to_dec_string(n: u64) -> (s: String)
    ensures
        s@ == dec_digits(n as nat),
{
    let mut digits: Vec<char> = Vec::new();
    let mut m: u64 = n;
    if m == 0 {
        let mut s = String::new();
        push_char(&mut s, '0');
        proof {
            assert(s@ =~= dec_digits(0));
        }
        return s;
    }
    while m > 0
        invariant
            m > 0 ==> dec_digits(n as nat) == dec_digits(m as nat) + digits@.reverse(),
            m == 0 ==> dec_digits(n as nat) == digits@.reverse(),
        decreases m,
    {
        let d = m % 10;
        digits.push(digit_to_char(d));
        proof {
            assert(digits@.reverse() =~= seq![digit_char(d as nat)] + digits@.drop_last().reverse());
            if m >= 10 {
                assert(dec_digits(m as nat) == dec_digits((m as nat) / 10).push(
                    digit_char((m as nat) % 10),
                ));
                assert(dec_digits((m / 10) as nat) + digits@.reverse() =~= dec_digits(m as nat)
                    + digits@.drop_last().reverse());
            } else {
                assert(dec_digits(m as nat) == seq![digit_char(m as nat)]);
                assert(digits@.reverse() =~= dec_digits(m as nat) + digits@.drop_last().reverse());
            }
        }
        m = m / 10;
    }
    let mut s = String::new();
    let mut k: usize = digits.len();
    while k > 0
        invariant
            k <= digits.len(),
            s@.len() == digits@.len() - k,
            forall|t: int| 0 <= t < s@.len() ==> s@[t] == digits@[digits@.len() - 1 - t],
        decreases k,
    {
        k = k - 1;
        push_char(&mut s, digits[k]);
    }
    proof {
        assert(s@ =~= digits@.reverse());
    }
    s
}

/// Formats a signed 64-bit integer as its decimal string.
pub fn i64_to_dec_string(v: i64) -> (s: String)
    ensures
        s@ == dec_str_int(v as int),
{
    if v >= 0 {
        u64_to_dec_string(v as u64)
    } else {
        let mag: u64 = ((-(v + 1)) as u64) + 1;
        proof {
            assert(mag as nat == -(v as int));
        }
        let tail = u64_to_dec_string(mag);
        let mut s = String::from_str("-");
        s.append(tail.as_str());
        proof {
            reveal_strlit("-");
            assert(s@ =~= seq!['-'] + dec_digits((-(v as int)) as nat));
        }
        s
    }
}

} // verus!
