//! Small verified helpers between `String`, `&str` and `Vec<char>`.

use vstd::prelude::*;
use vstd::string::StrSliceExecFns;

verus! {

/// A sequence of character vectors as plain character sequences.
pub open spec fn rows_view(s: Seq<Vec<char>>) -> Seq<Seq<char>> {
    s.map_values(|r: Vec<char>| r@)
}

/// Relies on `String::push`: appends exactly the one character to the
/// string.
#[verifier::external_body]
pub fn push_char(s: &mut String, c: char)
    ensures
        final(s)@ == old(s)@.push(c),
{
    s.push(c);
}

/// Collects the characters of a string slice into a vector.
pub fn str_to_chars(s: &str) -> (v: Vec<char>)
    ensures
        v@ == s@,
{
    let n = s.unicode_len();
    let mut v: Vec<char> = Vec::new();
    let mut i: usize = 0;
    while i < n
        invariant
            i <= n,
            n == s@.len(),
            v@ == s@.take(i as int),
        decreases n - i,
    {
        v.push(s.get_char(i));
        i = i + 1;
        proof {
            assert(v@ =~= s@.take(i as int));
        }
    }
    proof {
        assert(s@.take(n as int) =~= s@);
    }
    v
}

/// Copies the characters of a half-open index range into a new vector.
pub fn copy_range(v: &Vec<char>, from: usize, to: usize) -> (r: Vec<char>)
    requires
        from <= to <= v.len(),
    ensures
        r@ == v@.subrange(from as int, to as int),
{
    let mut r: Vec<char> = Vec::new();
    let mut k: usize = from;
    while k < to
        invariant
            from <= k <= to <= v.len(),
            r@ == v@.subrange(from as int, k as int),
        decreases to - k,
    {
        r.push(v[k]);
        k = k + 1;
        proof {
            assert(r@ =~= v@.subrange(from as int, k as int));
        }
    }
    r
}

/// Builds a string out of a vector of characters.
pub fn chars_to_string(v: &Vec<char>) -> (s: String)
    ensures
        s@ == v@,
{
    let mut s = String::new();
    let mut i: usize = 0;
    while i < v.len()
        invariant
            i <= v.len(),
            s@ == v@.take(i as int),
        decreases v.len() - i,
    {
        push_char(&mut s, v[i]);
        i = i + 1;
        proof {
            assert(s@ =~= v@.take(i as int));
        }
    }
    proof {
        assert(v@.take(v.len() as int) =~= v@);
    }
    s
}

} // verus!
