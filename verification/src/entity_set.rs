//! The query index: a compact set of entity ids, backed by a hierarchical
//! sparse bitset from the `hi_sparse_bitset` crate. Every use of the outside
//! crate stands behind the trusted items of this module.

use vstd::prelude::*;

verus! {

use crate::EntityId;
use hi_sparse_bitset::BitSetInterface;

/// The number of distinct entity ids the query index can address; every id
/// inserted must lie below it. It equals
/// `hi_sparse_bitset::BitSet::<_128bit>::max_capacity()`.
pub const ENTITY_CAP: usize = 2097152;

/// A set of entity identifiers supporting insertion, removal, ordered
/// enumeration and n-way intersection. The underlying hierarchical bitset
/// type cannot be declared to the verifier (its type parameters bottom out in
/// types of further crates), so the whole struct is held opaque and its
/// contents are named by `entity_set_elems`.
#[verifier::external_body]
pub struct EntitySet {
    bits: hi_sparse_bitset::BitSet<hi_sparse_bitset::config::_128bit>,
}

/// The set of entity ids an `EntitySet` holds.
pub uninterp spec fn entity_set_elems(s: EntitySet) -> Set<usize>;

impl View for EntitySet {
    type V = Set<usize>;

    open spec fn view(&self) -> Set<usize> {
        entity_set_elems(*self)
    }
}

impl EntitySet {
    /// Relies on hi_sparse_bitset::BitSet::new: a fresh bitset holds nothing.
    #[verifier::external_body]
    pub fn new() -> (r: Self)
        ensures
            entity_set_elems(r) == Set::<usize>::empty(),
            r@ == Set::<usize>::empty(),
    {
        EntitySet { bits: hi_sparse_bitset::BitSet::new() }
    }

    /// Relies on hi_sparse_bitset::BitSet::insert: adds the index to the set.
    /// It panics if the index is at or above the capacity, so that is ruled
    /// out here.
    #[verifier::external_body]
    pub fn insert(&mut self, entity: &EntityId)
        requires
            entity.0 < ENTITY_CAP,
        ensures
            final(self)@ == old(self)@.insert(entity.0),
    {
        self.bits.insert(entity.0)
    }

    /// Relies on hi_sparse_bitset::BitSet::remove: drops the index from the
    /// set and reports whether it was held. It panics if the index is at or
    /// above the capacity, so that is ruled out here.
    #[verifier::external_body]
    pub fn remove(&mut self, entity: &EntityId) -> (r: bool)
        requires
            entity.0 < ENTITY_CAP,
        ensures
            final(self)@ == old(self)@.remove(entity.0),
            r == old(self)@.contains(entity.0),
    {
        self.bits.remove(entity.0)
    }

    /// Relies on hi_sparse_bitset iteration (BitSetInterface::iter), which
    /// enumerates exactly the held indices, in ascending order.
    #[verifier::external_body]
    pub fn to_vec(&self) -> (r: Vec<EntityId>)
        ensures
            forall|i: int, j: int| 0 <= i < j < r@.len() ==> r@[i].0 < r@[j].0,
            forall|i: int| 0 <= i < r@.len() ==> self@.contains((#[trigger] r@[i]).0),
            forall|e: usize| #[trigger] self@.contains(e)
                ==> exists|i: int| 0 <= i < r@.len() && (#[trigger] r@[i]).0 == e,
    {
        self.bits.iter().map(EntityId).collect()
    }

    /// Relies on hi_sparse_bitset::reduce with the And operation: the
    /// intersection of the listed sets, materialized into a fresh bitset. A
    /// `None` entry contributes no restriction. `reduce` returns `None` on an
    /// empty iterator and its default cache takes at most 32 sets, so at
    /// least one `Some` entry is demanded and the list must be short.
    #[verifier::external_body]
    pub fn intersection(sets: &[Option<&EntitySet>]) -> (r: EntitySet)
        requires
            sets@.len() <= 32,
            exists|i: int| 0 <= i < sets@.len() && (#[trigger] sets@[i]) is Some,
        ensures
            r@.finite(),
            forall|e: usize| #[trigger] r@.contains(e)
                <==> (forall|i: int| 0 <= i < sets@.len()
                    ==> ((#[trigger] sets@[i]) matches Some(s) ==> s@.contains(e))),
    {
        let bitsets = sets.iter().filter_map(|set| set.map(|set| &set.bits));
        let reduced = hi_sparse_bitset::reduce(hi_sparse_bitset::ops::And, bitsets).unwrap();
        EntitySet { bits: hi_sparse_bitset::BitSet::from(reduced) }
    }
}

} // verus!
