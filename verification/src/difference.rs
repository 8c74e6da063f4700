//! The elements of one collection that are absent from another, keeping
//! the first collection's order and duplicates.

use vstd::prelude::*;
use vstd::std_specs::cmp::PartialEqSpec;

verus! {

/// Whether a sequence holds an element, compared by the element type's
/// own equality specification.
pub open spec fn holds_elem<T: PartialEq>(s: Seq<T>, x: T) -> bool {
    exists|i: int| 0 <= i < s.len() && s[i].eq_spec(&x)
}

/// The predicate selecting what a sequence does not hold.
pub open spec fn absent_pred<T: PartialEq>(s: Seq<T>) -> spec_fn(T) -> bool {
    |x: T| !holds_elem(s, x)
}

fn slice_holds<T: Eq + Copy + core::hash::Hash>(v: &[T], x: T) -> (b: bool)
    ensures
        T::obeys_eq_spec() ==> b == holds_elem(v@, x),
{
    let mut i: usize = 0;
    while i < v.len()
        invariant
            i <= v@.len(),
            T::obeys_eq_spec() ==> forall|k: int| 0 <= k < i ==> !(#[trigger] v@[k].eq_spec(&x)),
        decreases v@.len() - i,
    {
        if v[i] == x {
            return true;
        }
        i = i + 1;
    }
    false
}

/// Returns the elements of the first collection that the second does not
/// contain, in the first collection's order, duplicates kept.
pub fn select_unmatched<T: Eq + Copy + core::hash::Hash>(v1: &[T], v2: &[T]) -> (r: Vec<T>)
    ensures
        T::obeys_eq_spec() ==> r@ == v1@.filter(absent_pred(v2@)),
{
    let mut r: Vec<T> = Vec::new();
    let mut i: usize = 0;
    proof {
        assert(v1@.take(0) =~= Seq::<T>::empty());
    }
    while i < v1.len()
        invariant
            i <= v1@.len(),
            T::obeys_eq_spec() ==> r@ == v1@.take(i as int).filter(absent_pred(v2@)),
        decreases v1@.len() - i,
    {
        let ghost pre = v1@.take(i as int);
        let x = v1[i];
        if !slice_holds(v2, x) {
            r.push(x);
        }
        i = i + 1;
        proof {
            if T::obeys_eq_spec() {
                assert(v1@.take(i as int) =~= pre.push(v1@[i - 1]));
                pre.lemma_filter_push(v1@[i - 1], absent_pred(v2@));
            }
        }
    }
    proof {
        assert(v1@.take(v1@.len() as int) =~= v1@);
    }
    r
}

} // verus!
