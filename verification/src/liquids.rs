//! Separating the liquids in a glass: every symbol carries a fixed
//! specific weight, unknown symbols weigh nothing, and the glass settles
//! into rows of the lightest liquid first. Symbols of equal weight keep
//! their original order.

use vstd::prelude::*;
use crate::strutil::{copy_range, rows_view};

verus! {

/// The specific weight of a liquid symbol, scaled to whole units so that
/// the order of the weights is kept: unknown symbols weigh nothing.
pub open spec fn weight_rank(c: char) -> int {
    if c == 'H' {
        136
    } else if c == 'W' {
        100
    } else if c == 'A' {
        87
    } else if c == 'O' {
        80
    } else {
        0
    }
}

/// The predicate selecting the symbols of one weight class.
pub open spec fn rank_pred(k: int) -> spec_fn(char) -> bool {
    |c: char| weight_rank(c) == k
}

/// All cells of a glass, read row by row.
pub open spec fn cells_spec(rows: Seq<Seq<char>>) -> Seq<char>
    decreases rows.len(),
{
    if rows.len() == 0 {
        Seq::empty()
    } else {
        cells_spec(rows.drop_last()) + rows.last()
    }
}

/// The cells in weight order: the lightest class first; inside one
/// weight class the original order of the cells is kept.
pub open spec fn sorted_cells(s: Seq<char>) -> Seq<char> {
    s.filter(rank_pred(0)) + s.filter(rank_pred(80)) + s.filter(rank_pred(87)) + s.filter(
        rank_pred(100),
    ) + s.filter(rank_pred(136))
}

/// The sequence cut into rows of the given width; the last row may be
/// shorter.
pub open spec fn chunks_of(s: Seq<char>, w: int) -> Seq<Seq<char>>
    decreases s.len()
        when w >= 1
{
    if s.len() == 0 {
        Seq::empty()
    } else if s.len() <= w {
        seq![s]
    } else {
        seq![s.take(w)] + chunks_of(s.skip(w), w)
    }
}

fn flatten_glass(glass: &[Vec<char>]) -> (cells: Vec<char>)
    ensures
        cells@ == cells_spec(rows_view(glass@)),
{
    let mut cells: Vec<char> = Vec::new();
    let mut i: usize = 0;
    proof {
        assert(rows_view(glass@).take(0) =~= Seq::<Seq<char>>::empty());
    }
    while i < glass.len()
        invariant
            i <= glass@.len(),
            cells@ == cells_spec(rows_view(glass@).take(i as int)),
        decreases glass@.len() - i,
    {
        let ghost pre = cells@;
        let row = &glass[i];
        let mut j: usize = 0;
        while j < row.len()
            invariant
                j <= row@.len(),
                row@ == glass@[i as int]@,
                i < glass@.len(),
                cells@ == pre + row@.take(j as int),
            decreases row@.len() - j,
        {
            cells.push(row[j]);
            j = j + 1;
            proof {
                assert(cells@ =~= pre + row@.take(j as int));
            }
        }
        i = i + 1;
        proof {
            let t = rows_view(glass@).take(i as int);
            assert(t.drop_last() =~= rows_view(glass@).take(i as int - 1));
            assert(t.last() == glass@[i as int - 1]@);
            assert(row@.take(row@.len() as int) =~= row@);
        }
    }
    proof {
        assert(rows_view(glass@).take(glass@.len() as int) =~= rows_view(glass@));
    }
    cells
}

fn sort_cells(cells: &Vec<char>) -> (sorted: Vec<char>)
    ensures
        sorted@ == sorted_cells(cells@),
{
    let mut b0: Vec<char> = Vec::new();
    let mut b1: Vec<char> = Vec::new();
    let mut b2: Vec<char> = Vec::new();
    let mut b3: Vec<char> = Vec::new();
    let mut b4: Vec<char> = Vec::new();
    let mut k: usize = 0;
    proof {
        assert(cells@.take(0) =~= Seq::<char>::empty());
    }
    while k < cells.len()
        invariant
            k <= cells@.len(),
            b0@ == cells@.take(k as int).filter(rank_pred(0)),
            b1@ == cells@.take(k as int).filter(rank_pred(80)),
            b2@ == cells@.take(k as int).filter(rank_pred(87)),
            b3@ == cells@.take(k as int).filter(rank_pred(100)),
            b4@ == cells@.take(k as int).filter(rank_pred(136)),
        decreases cells@.len() - k,
    {
        let ghost pre = cells@.take(k as int);
        let c = cells[k];
        if c == 'O' {
            b1.push(c);
        } else if c == 'A' {
            b2.push(c);
        } else if c == 'W' {
            b3.push(c);
        } else if c == 'H' {
            b4.push(c);
        } else {
            b0.push(c);
        }
        k = k + 1;
        proof {
            assert(cells@.take(k as int) =~= pre.push(c));
            pre.lemma_filter_push(c, rank_pred(0));
            pre.lemma_filter_push(c, rank_pred(80));
            pre.lemma_filter_push(c, rank_pred(87));
            pre.lemma_filter_push(c, rank_pred(100));
            pre.lemma_filter_push(c, rank_pred(136));
        }
    }
    proof {
        assert(cells@.take(cells@.len() as int) =~= cells@);
    }
    let mut sorted = b0;
    sorted.append(&mut b1);
    sorted.append(&mut b2);
    sorted.append(&mut b3);
    sorted.append(&mut b4);
    proof {
        assert(sorted@ =~= sorted_cells(cells@));
    }
    sorted
}

fn chunk_rows(s: &Vec<char>, start: usize, w: usize) -> (r: Vec<Vec<char>>)
    requires
        w >= 1,
        start <= s.len(),
    ensures
        rows_view(r@) == chunks_of(s@.skip(start as int), w as int),
    decreases s.len() - start,
{
    if start == s.len() {
        let r: Vec<Vec<char>> = Vec::new();
        proof {
            assert(s@.skip(start as int) =~= Seq::<char>::empty());
            assert(rows_view(r@) =~= chunks_of(s@.skip(start as int), w as int));
        }
        r
    } else {
        let remaining = s.len() - start;
        let end = if remaining <= w {
            s.len()
        } else {
            start + w
        };
        let row = copy_range(s, start, end);
        let mut rest = chunk_rows(s, end, w);
        rest.insert(0, row);
        proof {
            let tail = s@.skip(start as int);
            if remaining <= w {
                assert(s@.skip(end as int) =~= Seq::<char>::empty());
                assert(row@ =~= tail);
                assert(rows_view(rest@) =~= chunks_of(tail, w as int));
            } else {
                assert(row@ =~= tail.take(w as int));
                assert(s@.skip(end as int) =~= tail.skip(w as int));
                assert(rows_view(rest@) =~= chunks_of(tail, w as int));
            }
        }
        rest
    }
}

/// Pours the glass into settled rows: all cells are sorted ascending by
/// their specific weight, symbols of equal weight keeping their original
/// order, and are then laid out again in rows as wide as the glass's
/// first row (the last row may be shorter).
pub fn separate_liquids(glass: &[Vec<char>]) -> (r: Vec<Vec<char>>)
    requires
        glass@.len() > 0 ==> glass@[0]@.len() > 0,
    ensures
        glass@.len() == 0 ==> r@.len() == 0,
        glass@.len() > 0 ==> rows_view(r@) == chunks_of(
            sorted_cells(cells_spec(rows_view(glass@))),
            glass@[0]@.len() as int,
        ),
{
    if glass.is_empty() {
        return Vec::new();
    }
    let width = glass[0].len();
    let cells = flatten_glass(glass);
    let sorted = sort_cells(&cells);
    let r = chunk_rows(&sorted, 0, width);
    proof {
        assert(sorted@.skip(0) =~= sorted@);
    }
    r
}

} // verus!
