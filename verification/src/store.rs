//! The aggregator's store: supplier entries keyed by name, where an
//! entry inserted for a name already present fully replaces the old one;
//! and the output builder that renders the finalized store into plain
//! string records.

use vstd::prelude::*;
use crate::cells::{EntryModel, SupplierEntry};
use crate::header::string_eq;
use crate::numfmt::{dec_str_int, i64_to_dec_string};

verus! {

/// One output record, every field already in its string form.
#[derive(Debug)]
pub struct OutputRecord {
    pub name: String,
    pub stock: String,
    pub price: String,
}

/// The payload of an output record (the name is the key).
pub struct RecordModel {
    pub stock: Seq<char>,
    pub price: Seq<char>,
}

/// How a stored entry is rendered into a record payload: the stock is
/// already a decimal string, the price is formatted as one.
pub open spec fn render_model(e: EntryModel) -> RecordModel {
    RecordModel { stock: e.stock, price: dec_str_int(e.price) }
}

/// The name-keyed map that a sequence of output records induces.
pub open spec fn records_map(rs: Seq<OutputRecord>) -> Map<Seq<char>, RecordModel>
    decreases rs.len(),
{
    if rs.len() == 0 {
        Map::empty()
    } else {
        records_map(rs.drop_last()).insert(
            rs.last().name@,
            RecordModel { stock: rs.last().stock@, price: rs.last().price@ },
        )
    }
}

/// The deduplicated-by-name store of extracted entries.
pub struct SupplierStore {
    entries: Vec<SupplierEntry>,
}

impl SupplierStore {
    /// Each name owns exactly one entry.
    pub closed spec fn wf(&self) -> bool {
        forall|i: int, j: int|
            0 <= i < j < self.entries@.len() ==> self.entries@[i].name@ != self.entries@[j].name@
    }

    pub closed spec fn view(&self) -> Map<Seq<char>, EntryModel> {
        Self::entries_map(self.entries@)
    }

    pub closed spec fn entries_map(s: Seq<SupplierEntry>) -> Map<Seq<char>, EntryModel>
        decreases s.len(),
    {
        if s.len() == 0 {
            Map::empty()
        } else {
            Self::entries_map(s.drop_last()).insert(s.last().name@, s.last()@)
        }
    }

    /// An empty store.
    pub fn new() -> (st: Self)
        ensures
            st@ == Map::<Seq<char>, EntryModel>::empty(),
            st.wf(),
    {
        let st = SupplierStore { entries: Vec::new() };
        proof {
            assert(st@ =~= Map::<Seq<char>, EntryModel>::empty());
        }
        st
    }

    /// Inserts an entry under its name; an entry already stored under
    /// that name is fully replaced, no fields are merged.
    pub fn upsert(&mut self, e: SupplierEntry)
        requires
            old(self).wf(),
        ensures
            final(self).wf(),
            final(self)@ == old(self)@.insert(e.name@, e@),
    {
        let mut i: usize = 0;
        while i < self.entries.len()
            invariant
                self == old(self),
                old(self).wf(),
                i <= self.entries@.len(),
                forall|k: int| 0 <= k < i ==> self.entries@[k].name@ != e.name@,
            decreases self.entries@.len() - i,
        {
            if string_eq(&self.entries[i].name, &e.name) {
                let ghost pre = self.entries@;
                let ghost key = e.name@;
                self.entries[i] = e;
                proof {
                    assert(self.entries@ =~= pre.update(i as int, self.entries@[i as int]));
                    Self::lemma_entries_map_update(pre, i as int, self.entries@[i as int]);
                    assert(self@ == old(self)@.insert(key, self.entries@[i as int]@));
                }
                return ;
            }
            i = i + 1;
        }
        self.entries.push(e);
        proof {
            assert(self.entries@.drop_last() =~= old(self).entries@);
            assert forall|a: int, b: int|
                0 <= a < b < self.entries@.len() implies self.entries@[a].name@
                != self.entries@[b].name@ by {
                if b == self.entries@.len() - 1 {
                    assert(self.entries@[a].name@ != self.entries@.last().name@);
                }
            }
        }
    }

    /// Renders the store into one output record per entry, each field in
    /// its string form.
    pub fn to_records(&self) -> (rs: Vec<OutputRecord>)
        requires
            self.wf(),
        ensures
            records_map(rs@) == self@.map_values(|e: EntryModel| render_model(e)),
            forall|i: int, j: int| 0 <= i < j < rs@.len() ==> rs@[i].name@ != rs@[j].name@,
    {
        let mut rs: Vec<OutputRecord> = Vec::new();
        let mut i: usize = 0;
        proof {
            assert(self.entries@.take(0) =~= Seq::<SupplierEntry>::empty());
            assert(records_map(rs@) =~= Self::entries_map(self.entries@.take(0)).map_values(
                |e: EntryModel| render_model(e),
            ));
        }
        while i < self.entries.len()
            invariant
                self.wf(),
                i <= self.entries@.len(),
                rs@.len() == i,
                forall|k: int| 0 <= k < i ==> rs@[k].name@ == self.entries@[k].name@,
                records_map(rs@) == Self::entries_map(self.entries@.take(i as int)).map_values(
                    |e: EntryModel| render_model(e),
                ),
            decreases self.entries@.len() - i,
        {
            let ghost rs_pre = rs@;
            let e = &self.entries[i];
            let rec = OutputRecord {
                name: e.name.clone(),
                stock: e.stock.clone(),
                price: i64_to_dec_string(e.price),
            };
            rs.push(rec);
            i = i + 1;
            proof {
                let t = self.entries@.take(i as int);
                assert(t.drop_last() =~= self.entries@.take(i as int - 1));
                assert(rs@.drop_last() =~= rs_pre);
                assert(records_map(rs@) =~= Self::entries_map(t).map_values(
                    |e: EntryModel| render_model(e),
                ));
            }
        }
        proof {
            assert(self.entries@.take(self.entries@.len() as int) =~= self.entries@);
        }
        rs
    }

    /// Replacing the entry at a position replaces just that name's image.
    proof fn lemma_entries_map_update(s: Seq<SupplierEntry>, i: int, e: SupplierEntry)
        requires
            0 <= i < s.len(),
            forall|a: int, b: int| 0 <= a < b < s.len() ==> s[a].name@ != s[b].name@,
            e.name@ == s[i].name@,
        ensures
            Self::entries_map(s.update(i, e)) == Self::entries_map(s).insert(e.name@, e@),
        decreases s.len(),
    {
        let s2 = s.update(i, e);
        if i == s.len() - 1 {
            assert(s2.drop_last() =~= s.drop_last());
            assert(Self::entries_map(s2) =~= Self::entries_map(s).insert(e.name@, e@));
        } else {
            Self::lemma_entries_map_update(s.drop_last(), i, e);
            assert(s2.drop_last() =~= s.drop_last().update(i, e));
            assert(s2.last() == s.last());
            assert(s.last().name@ != e.name@);
            assert(Self::entries_map(s2) =~= Self::entries_map(s).insert(e.name@, e@));
        }
    }
}

} // verus!
