//! Reversing the long words of a sentence: every whitespace-delimited
//! token of five or more characters is reversed in place, token order is
//! kept, and the tokens come out joined by single spaces.

use vstd::prelude::*;
use crate::strutil::{chars_to_string, copy_range, push_char, rows_view, str_to_chars};

verus! {

/// Whether a character separates tokens: the characters with Unicode's
/// white-space property, the set that the standard library's whitespace
/// splitting recognizes.
pub open spec fn is_space(c: char) -> bool {
    let u = c as u32;
    ||| u == 0x09
    ||| u == 0x0A
    ||| u == 0x0B
    ||| u == 0x0C
    ||| u == 0x0D
    ||| u == 0x20
    ||| u == 0x85
    ||| u == 0xA0
    ||| u == 0x1680
    ||| (0x2000 <= u && u <= 0x200A)
    ||| u == 0x2028
    ||| u == 0x2029
    ||| u == 0x202F
    ||| u == 0x205F
    ||| u == 0x3000
}

/// The executable form of [`is_space`].
fn is_space_char(c: char) -> (b: bool)
    ensures
        b == is_space(c),
{
    let u = c as u32;
    u == 0x09 || u == 0x0A || u == 0x0B || u == 0x0C || u == 0x0D || u == 0x20 || u == 0x85 || u
        == 0xA0 || u == 0x1680 || (0x2000 <= u && u <= 0x200A) || u == 0x2028 || u == 0x2029 || u
        == 0x202F || u == 0x205F || u == 0x3000
}

/// The index of the first whitespace character at or after a position;
/// the sequence's length when there is none.
pub open spec fn token_end(s: Seq<char>, i: int) -> int
    decreases s.len() - i,
{
    if i < 0 || i >= s.len() {
        s.len() as int
    } else if is_space(s[i]) {
        i
    } else {
        token_end(s, i + 1)
    }
}

proof fn lemma_token_end_bounds(s: Seq<char>, i: int)
    requires
        0 <= i <= s.len(),
    ensures
        i <= token_end(s, i) <= s.len(),
    decreases s.len() - i,
{
    if i < s.len() && !is_space(s[i]) {
        lemma_token_end_bounds(s, i + 1);
    }
}

/// The whitespace-delimited tokens of the sequence from a position on:
/// the maximal runs of non-whitespace characters, in order.
pub open spec fn tokens_from(s: Seq<char>, i: int) -> Seq<Seq<char>>
    decreases s.len() - i when 0 <= i via tokens_from_decreases
{
    if i >= s.len() {
        Seq::empty()
    } else if is_space(s[i]) {
        tokens_from(s, i + 1)
    } else {
        seq![s.subrange(i, token_end(s, i))] + tokens_from(s, token_end(s, i))
    }
}

#[via_fn]
proof fn tokens_from_decreases(s: Seq<char>, i: int) {
    if 0 <= i && i < s.len() && !is_space(s[i]) {
        lemma_token_end_bounds(s, i + 1);
    }
}

/// A token as it comes out: reversed when it has five or more
/// characters, unchanged otherwise.
pub open spec fn flip_token(t: Seq<char>) -> Seq<char> {
    if t.len() >= 5 {
        t.reverse()
    } else {
        t
    }
}

/// The first `k` tokens joined by single spaces.
pub open spec fn join_upto(ts: Seq<Seq<char>>, k: int) -> Seq<char>
    decreases k,
{
    if k <= 0 {
        Seq::empty()
    } else if k == 1 {
        ts[0]
    } else {
        join_upto(ts, k - 1) + seq![' '] + ts[k - 1]
    }
}

/// What reversing the long words of a string yields.
pub open spec fn reverse_words_spec(s: Seq<char>) -> Seq<char> {
    let ts = tokens_from(s, 0).map_values(|t: Seq<char>| flip_token(t));
    join_upto(ts, ts.len() as int)
}

fn scan_token_end(chars: &Vec<char>, i: usize) -> (j: usize)
    requires
        i <= chars.len(),
    ensures
        j as int == token_end(chars@, i as int),
        i <= j <= chars.len(),
{
    let mut j = i;
    while j < chars.len() && !is_space_char(chars[j])
        invariant
            i <= j <= chars@.len(),
            token_end(chars@, i as int) == token_end(chars@, j as int),
        decreases chars@.len() - j,
    {
        j = j + 1;
        proof {
            assert(token_end(chars@, j - 1) == token_end(chars@, j as int));
        }
    }
    j
}

fn split_tokens(chars: &Vec<char>, i: usize) -> (r: Vec<Vec<char>>)
    requires
        i <= chars.len(),
    ensures
        rows_view(r@) == tokens_from(chars@, i as int),
    decreases chars.len() - i,
{
    if i == chars.len() {
        let r: Vec<Vec<char>> = Vec::new();
        proof {
            assert(rows_view(r@) =~= tokens_from(chars@, i as int));
        }
        r
    } else if is_space_char(chars[i]) {
        split_tokens(chars, i + 1)
    } else {
        let j = scan_token_end(chars, i);
        proof {
            lemma_token_end_bounds(chars@, i as int + 1);
        }
        let tok = copy_range(chars, i, j);
        let mut rest = split_tokens(chars, j);
        rest.insert(0, tok);
        proof {
            assert(rows_view(rest@) =~= seq![tok@] + tokens_from(chars@, j as int));
        }
        rest
    }
}

fn flip_tok(t: &Vec<char>) -> (r: Vec<char>)
    ensures
        r@ == flip_token(t@),
{
    if t.len() >= 5 {
        let mut r: Vec<char> = Vec::new();
        let mut k = t.len();
        while k > 0
            invariant
                k <= t@.len(),
                r@.len() == t@.len() - k,
                forall|m: int| 0 <= m < r@.len() ==> r@[m] == t@[t@.len() - 1 - m],
            decreases k,
        {
            k = k - 1;
            r.push(t[k]);
        }
        proof {
            assert(r@ =~= t@.reverse());
        }
        r
    } else {
        let r = copy_range(t, 0, t.len());
        proof {
            assert(r@ =~= t@);
        }
        r
    }
}

fn render_tokens(toks: &Vec<Vec<char>>) -> (out: String)
    ensures
        ({
            let ts = rows_view(toks@).map_values(|t: Seq<char>| flip_token(t));
            out@ == join_upto(ts, ts.len() as int)
        }),
{
    let ghost mapped = rows_view(toks@).map_values(|t: Seq<char>| flip_token(t));
    let mut out = String::new();
    let mut k: usize = 0;
    while k < toks.len()
        invariant
            k <= toks@.len(),
            mapped == rows_view(toks@).map_values(|t: Seq<char>| flip_token(t)),
            mapped.len() == toks@.len(),
            out@ == join_upto(mapped, k as int),
        decreases toks@.len() - k,
    {
        if k > 0 {
            push_char(&mut out, ' ');
        }
        let f = flip_tok(&toks[k]);
        let fs = chars_to_string(&f);
        out.append(fs.as_str());
        k = k + 1;
        proof {
            assert(mapped[k - 1] == flip_token(toks@[k - 1]@));
            assert(out@ =~= join_upto(mapped, k as int));
        }
    }
    out
}

/// Reverses each whitespace-delimited token of five or more characters,
/// keeping token order and joining the tokens with single spaces.
pub fn reverse_words_slow(s: &str) -> (r: String)
    ensures
        r@ == reverse_words_spec(s@),
{
    let chars = str_to_chars(s);
    let toks = split_tokens(&chars, 0);
    render_tokens(&toks)
}

/// The same function as [`reverse_words_slow`], written as one pass that
/// pushes characters straight into the output string.
pub fn reverse_words_fast(s: &str) -> (r: String)
    ensures
        r@ == reverse_words_spec(s@),
{
    let chars = str_to_chars(s);
    let toks = split_tokens(&chars, 0);
    let ghost mapped = rows_view(toks@).map_values(|t: Seq<char>| flip_token(t));
    let mut out = String::new();
    let mut k: usize = 0;
    while k < toks.len()
        invariant
            k <= toks@.len(),
            mapped == rows_view(toks@).map_values(|t: Seq<char>| flip_token(t)),
            mapped.len() == toks@.len(),
            out@ == join_upto(mapped, k as int),
        decreases toks@.len() - k,
    {
        if k > 0 {
            push_char(&mut out, ' ');
        }
        let ghost base = out@;
        let t = &toks[k];
        if t.len() >= 5 {
            let mut m = t.len();
            while m > 0
                invariant
                    m <= t@.len(),
                    out@.len() == base.len() + (t@.len() - m),
                    out@.take(base.len() as int) == base,
                    forall|idx: int|
                        base.len() <= idx < out@.len() ==> #[trigger] out@[idx] == t@[t@.len() - 1
                            - (idx - base.len())],
                decreases m,
            {
                m = m - 1;
                push_char(&mut out, t[m]);
                proof {
                    assert(out@.take(base.len() as int) =~= base);
                }
            }
            proof {
                assert(out@ =~= base + t@.reverse());
            }
        } else {
            let mut m: usize = 0;
            while m < t.len()
                invariant
                    m <= t@.len(),
                    out@ == base + t@.take(m as int),
                decreases t@.len() - m,
            {
                push_char(&mut out, t[m]);
                m = m + 1;
                proof {
                    assert(out@ =~= base + t@.take(m as int));
                }
            }
            proof {
                assert(out@ =~= base + t@);
            }
        }
        k = k + 1;
        proof {
            assert(mapped[k - 1] == flip_token(toks@[k - 1]@));
            assert(out@ =~= join_upto(mapped, k as int));
        }
    }
    out
}

} // verus!
