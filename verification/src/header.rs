//! The header resolver: maps header cell text to its column position.

use vstd::prelude::*;
use crate::cells::Cell;

verus! {

/// The mapping that the header row of a sheet induces: only text cells
/// contribute, and of two cells with the same text the rightmost
/// position wins.
pub open spec fn header_map_spec(row: Seq<Cell>, n: int) -> Map<Seq<char>, int>
    decreases n,
{
    if n <= 0 {
        Map::empty()
    } else {
        let m = header_map_spec(row, n - 1);
        match row[n - 1] {
            Cell::Text(t) => m.insert(t@, n - 1),
            _ => m,
        }
    }
}

/// Mapping from header text to zero-based column position, built once
/// from the header row and immutable thereafter.
pub struct HeaderIndex {
    entries: Vec<(String, usize)>,
}

impl HeaderIndex {
    /// Each header text maps to exactly one position.
    pub closed spec fn wf(&self) -> bool {
        forall|i: int, j: int|
            0 <= i < j < self.entries@.len() ==> self.entries@[i].0@ != self.entries@[j].0@
    }

    pub closed spec fn view(&self) -> Map<Seq<char>, int> {
        Self::entries_map(self.entries@)
    }

    pub closed spec fn entries_map(s: Seq<(String, usize)>) -> Map<Seq<char>, int>
        decreases s.len(),
    {
        if s.len() == 0 {
            Map::empty()
        } else {
            Self::entries_map(s.drop_last()).insert(s.last().0@, s.last().1 as int)
        }
    }

    /// An empty index.
    pub fn new() -> (h: Self)
        ensures
            h@ == Map::<Seq<char>, int>::empty(),
            h.wf(),
    {
        let h = HeaderIndex { entries: Vec::new() };
        proof {
            assert(h@ =~= Map::<Seq<char>, int>::empty());
        }
        h
    }

    /// Records that the given header text stands at the given column; a
    /// position already recorded for the same text is overwritten.
    pub fn set_column(&mut self, name: String, idx: usize)
        requires
            old(self).wf(),
        ensures
            final(self).wf(),
            final(self)@ == old(self)@.insert(name@, idx as int),
    {
        let mut i: usize = 0;
        while i < self.entries.len()
            invariant
                self == old(self),
                old(self).wf(),
                i <= self.entries@.len(),
                forall|k: int| 0 <= k < i ==> self.entries@[k].0@ != name@,
            decreases self.entries@.len() - i,
        {
            if string_eq(&self.entries[i].0, &name) {
                let ghost pre = self.entries@;
                self.entries[i] = (name, idx);
                proof {
                    assert(self.entries@ =~= pre.update(i as int, self.entries@[i as int]));
                    Self::lemma_entries_map_update(pre, i as int, self.entries@[i as int]);
                    assert(forall|k: int|
                        0 <= k < pre.len() && k != i ==> self.entries@[k] == pre[k]);
                    assert(self@ == old(self)@.insert(name@, idx as int));
                }
                return ;
            }
            i = i + 1;
        }
        self.entries.push((name, idx));
        proof {
            assert(self.entries@.drop_last() =~= old(self).entries@);
            assert(self@ == old(self)@.insert(name@, idx as int));
            assert forall|a: int, b: int|
                0 <= a < b < self.entries@.len() implies self.entries@[a].0@
                != self.entries@[b].0@ by {
                if b == self.entries@.len() - 1 {
                    assert(self.entries@[a].0@ != name@);
                }
            }
        }
    }

    /// Looks a header text up; `Some` exactly when the text was recorded.
    pub fn lookup(&self, name: &String) -> (r: Option<usize>)
        requires
            self.wf(),
        ensures
            match r {
                Some(p) => self@.contains_key(name@) && p as int == self@[name@],
                None => !self@.contains_key(name@),
            },
    {
        let mut i: usize = 0;
        while i < self.entries.len()
            invariant
                self.wf(),
                i <= self.entries@.len(),
                forall|k: int| 0 <= k < i ==> self.entries@[k].0@ != name@,
                self@ == Self::entries_map(self.entries@),
            decreases self.entries@.len() - i,
        {
            if string_eq(&self.entries[i].0, name) {
                proof {
                    Self::lemma_entries_map_found(self.entries@, i as int);
                }
                return Some(self.entries[i].1);
            }
            i = i + 1;
        }
        proof {
            Self::lemma_entries_map_absent(self.entries@, name@);
        }
        None
    }

    /// A text that no entry carries is not a key of the entry map.
    proof fn lemma_entries_map_absent(s: Seq<(String, usize)>, t: Seq<char>)
        requires
            forall|k: int| 0 <= k < s.len() ==> s[k].0@ != t,
        ensures
            !Self::entries_map(s).contains_key(t),
        decreases s.len(),
    {
        if s.len() > 0 {
            assert(forall|k: int| 0 <= k < s.drop_last().len() ==> s.drop_last()[k] == s[k]);
            Self::lemma_entries_map_absent(s.drop_last(), t);
        }
    }

    /// With distinct texts, the map sends a present text to its position.
    proof fn lemma_entries_map_found(s: Seq<(String, usize)>, i: int)
        requires
            0 <= i < s.len(),
            forall|a: int, b: int| 0 <= a < b < s.len() ==> s[a].0@ != s[b].0@,
        ensures
            Self::entries_map(s).contains_key(s[i].0@),
            Self::entries_map(s)[s[i].0@] == s[i].1 as int,
        decreases s.len(),
    {
        if i == s.len() - 1 {
        } else {
            Self::lemma_entries_map_found(s.drop_last(), i);
            assert(s.drop_last()[i] == s[i]);
        }
    }

    /// Replacing the entry at a position replaces just that text's image.
    proof fn lemma_entries_map_update(s: Seq<(String, usize)>, i: int, e: (String, usize))
        requires
            0 <= i < s.len(),
            forall|a: int, b: int| 0 <= a < b < s.len() ==> s[a].0@ != s[b].0@,
            e.0@ == s[i].0@,
        ensures
            Self::entries_map(s.update(i, e)) == Self::entries_map(s).insert(e.0@, e.1 as int),
        decreases s.len(),
    {
        let s2 = s.update(i, e);
        if i == s.len() - 1 {
            assert(s2.drop_last() =~= s.drop_last());
            assert(Self::entries_map(s2) =~= Self::entries_map(s).insert(e.0@, e.1 as int));
        } else {
            Self::lemma_entries_map_update(s.drop_last(), i, e);
            assert(s2.drop_last() =~= s.drop_last().update(i, e));
            assert(s2.last() == s.last());
            assert(s.last().0@ != e.0@);
            assert(Self::entries_map(s2) =~= Self::entries_map(s).insert(e.0@, e.1 as int));
        }
    }
}

/// Compares two strings character for character.
pub fn string_eq(a: &String, b: &String) -> (r: bool)
    ensures
        r == (a@ == b@),
{
    a.eq(b)
}

/// Builds the header index from the header row: only text cells
/// contribute, later duplicates overwrite earlier ones.
pub fn build_header_index(row: &Vec<Cell>) -> (h: HeaderIndex)
    ensures
        h.wf(),
        h@ == header_map_spec(row@, row@.len() as int),
{
    let mut h = HeaderIndex::new();
    let mut i: usize = 0;
    while i < row.len()
        invariant
            i <= row@.len(),
            h.wf(),
            h@ == header_map_spec(row@, i as int),
        decreases row@.len() - i,
    {
        match &row[i] {
            Cell::Text(t) => {
                let name = t.clone();
                h.set_column(name, i);
            },
            _ => {},
        }
        i = i + 1;
    }
    h
}

/// A text header cell at a position yields that position in the index,
/// unless a later cell carries the same text; then the later position
/// wins. Stated for the rightmost cell with a given text: the index maps
/// the text to exactly that cell's position.
pub proof fn lemma_header_text_position(row: Seq<Cell>, i: int, t: Seq<char>)
    requires
        0 <= i < row.len(),
        row[i] matches Cell::Text(s) && s@ == t,
        forall|j: int|
            i < j < row.len() ==> !(#[trigger] row[j] matches Cell::Text(u) && u@ == t),
    ensures
        header_map_spec(row, row.len() as int).contains_key(t),
        header_map_spec(row, row.len() as int)[t] == i,
{
    lemma_header_map_prefix(row, i, t, row.len() as int);
}

proof fn lemma_header_map_prefix(row: Seq<Cell>, i: int, t: Seq<char>, n: int)
    requires
        0 <= i < n <= row.len(),
        row[i] matches Cell::Text(s) && s@ == t,
        forall|j: int| i < j < n ==> !(#[trigger] row[j] matches Cell::Text(u) && u@ == t),
    ensures
        header_map_spec(row, n).contains_key(t),
        header_map_spec(row, n)[t] == i,
    decreases n,
{
    if n - 1 == i {
    } else {
        lemma_header_map_prefix(row, i, t, n - 1);
    }
}

} // verus!
