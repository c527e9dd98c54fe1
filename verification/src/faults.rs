//! The set of sectors that failed while proving, read out in ascending
//! order.

use vstd::prelude::*;
use crate::error::SectorId;
use std::collections::BTreeSet;
use vstd::std_specs::btree::{
    axiom_increasing_seq_meaning, group_btree_axioms, increasing_seq, spec_btree_keys_iter,
};
use vstd::std_specs::cmp::OrdSpec;
use vstd::std_specs::iter::IteratorSpec;

verus! {

/// Whether each element of `s` is smaller than the next.
pub open spec fn strictly_ascending(s: Seq<SectorId>) -> bool {
    forall|i: int, j: int| 0 <= i < j < s.len() ==> s[i] < s[j]
}

/// A set of sector ids that is read out in ascending order.
pub struct FaultSet {
    ids: BTreeSet<SectorId>,
}

impl View for FaultSet {
    type V = Set<SectorId>;

    closed spec fn view(&self) -> Set<SectorId> {
        self.ids@
    }
}

impl FaultSet {
    /// The empty set.
    pub fn new() -> (set: FaultSet)
        ensures
            set@ == Set::<SectorId>::empty(),
    {
        FaultSet { ids: BTreeSet::new() }
    }

    /// Adds `id` to the set; an id that is in the set already stays once.
    pub fn insert(&mut self, id: SectorId)
        ensures
            final(self)@ == old(self)@.insert(id),
    {
        broadcast use group_btree_axioms;
        broadcast use vstd::laws_cmp::group_laws_cmp;

        self.ids.insert(id);
    }

    /// Whether no id is in the set.
    pub fn is_empty(&self) -> (empty: bool)
        ensures
            empty == (self@ == Set::<SectorId>::empty()),
    {
        broadcast use group_btree_axioms;

        let empty = self.ids.is_empty();
        proof {
            if empty {
                assert(self.ids@ =~= Set::<SectorId>::empty());
            }
        }
        empty
    }

    /// The ids of the set in ascending order, each once.
    pub fn into_sorted(self) -> (ids: Vec<SectorId>)
        ensures
            strictly_ascending(ids@),
            ids@.to_set() == self@,
    {
        broadcast use group_btree_axioms;
        broadcast use vstd::laws_cmp::group_laws_cmp;

        let mut ids: Vec<SectorId> = Vec::new();
        let iter = self.ids.iter();
        let ghost keys = iter.remaining();
        assert(keys == spec_btree_keys_iter(&self.ids).remaining());
        assert(increasing_seq(keys));
        assert(keys.unref().to_set() == self.ids@);
        for id in it: iter
            invariant
                it.seq() == keys,
                ids@ == keys.take(it.index()).unref(),
        {
            ids.push(*id);
            assert(keys.take(it.index() + 1).unref() =~= keys.take(it.index()).unref().push(*id));
        }
        assert(ids@ =~= keys.unref());
        proof {
            axiom_increasing_seq_meaning::<&SectorId>(keys);
            assert forall|i: int, j: int| 0 <= i < j < ids.len() implies ids[i] < ids[j] by {
                assert(OrdSpec::cmp_spec(&keys[i], &keys[j]) is Less);
            }
        }
        ids
    }
}

} // verus!
