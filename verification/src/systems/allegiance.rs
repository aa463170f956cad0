//! Allegiance: an enumerated faction tag. The system keeps a query index of
//! all entities that have an allegiance, consistent with the store at every
//! step.

use vstd::prelude::*;

verus! {

use crate::EntityId;
use crate::entity_set::ENTITY_CAP;
use crate::entity_set::EntitySet;
use crate::notification::NotificationHandler;
use crate::store::ComponentMap;
use crate::store::lemma_map_of_contains;
use crate::store::lemma_map_of_index;

/// A faction tag: a closed set, extensible by adding variants.
#[derive(Clone, Copy, PartialEq, Eq, Structural, Debug)]
pub enum Allegiance {
    Player,
    Golem,
}

fn contains_allegiance(values: &[Allegiance], a: Allegiance) -> (r: bool)
    ensures
        r == values@.contains(a),
{
    let mut i: usize = 0;
    while i < values.len()
        invariant
            i <= values@.len(),
            forall|j: int| 0 <= j < i ==> values@[j] != a,
        decreases values@.len() - i,
    {
        if values[i] == a {
            return true;
        }
        i = i + 1;
    }
    false
}

pub struct AllegianceSystem<H> {
    pub notification_handler: H,
    pub entities: EntitySet,
    pub allegiance_map: ComponentMap<Allegiance>,
}

impl<H: NotificationHandler> AllegianceSystem<H> {
    /// The mapping from entity id to its allegiance.
    pub open spec fn m(&self) -> Map<usize, Allegiance> {
        self.allegiance_map.m()
    }

    pub open spec fn wf(&self) -> bool {
        &&& self.allegiance_map.wf()
        &&& self.entities@ == self.m().dom()
        &&& self.entities@.finite()
        &&& forall|e: usize| #[trigger] self.m().dom().contains(e) ==> e < ENTITY_CAP
    }

    pub fn new(notification_handler: H) -> (r: Self)
        ensures
            r.wf(),
            r.m() == Map::<usize, Allegiance>::empty(),
    {
        let r = AllegianceSystem {
            notification_handler,
            entities: EntitySet::new(),
            allegiance_map: ComponentMap::new(),
        };
        proof {
            assert(r.entities@ =~= r.m().dom());
        }
        r
    }

    pub fn allegiance(&self, entity: &EntityId) -> (r: Option<&Allegiance>)
        requires
            self.wf(),
        ensures
            match r {
                Some(a) => self.m().dom().contains(entity.0) && *a == self.m()[entity.0],
                None => !self.m().dom().contains(entity.0),
            },
    {
        self.allegiance_map.get(entity.0)
    }

    /// The set of entities whose stored allegiance is one of `allegiances`.
    /// An empty `allegiances` yields an empty result.
    pub fn entities(&self, allegiances: &[Allegiance]) -> (r: EntitySet)
        requires
            self.wf(),
        ensures
            r@.finite(),
            r@ == Set::new(
                |e: usize| self.m().dom().contains(e) && allegiances@.contains(self.m()[e]),
            ),
    {
        let mut result = EntitySet::new();
        let n = self.allegiance_map.len();
        let mut i: usize = 0;
        while i < n
            invariant
                self.wf(),
                n == self.allegiance_map.pairs().len(),
                i <= n,
                result@.finite(),
                forall|e: usize| #[trigger] result@.contains(e) <==> exists|j: int|
                    0 <= j < i && (#[trigger] self.allegiance_map.pairs()[j]).0 == e
                        && allegiances@.contains(self.allegiance_map.pairs()[j].1),
            decreases n - i,
        {
            let (entity, allegiance) = *self.allegiance_map.entry_at(i);
            proof {
                lemma_map_of_index(self.allegiance_map.pairs(), i as int);
            }
            if contains_allegiance(allegiances, allegiance) {
                result.insert(&EntityId(entity));
            }
            proof {
                assert forall|e: usize| #[trigger] result@.contains(e) implies exists|j: int|
                    0 <= j < i + 1 && (#[trigger] self.allegiance_map.pairs()[j]).0 == e
                        && allegiances@.contains(self.allegiance_map.pairs()[j].1) by {
                    if e == entity && allegiances@.contains(allegiance) {
                        assert(self.allegiance_map.pairs()[i as int].0 == e);
                    } else {
                        assert(exists|j: int|
                            0 <= j < i && (#[trigger] self.allegiance_map.pairs()[j]).0 == e
                                && allegiances@.contains(self.allegiance_map.pairs()[j].1));
                    }
                }
            }
            i = i + 1;
        }
        proof {
            let pairs = self.allegiance_map.pairs();
            assert forall|e: usize| #[trigger] result@.contains(e) implies self.m().dom().contains(
                e,
            ) && allegiances@.contains(self.m()[e]) by {
                let j = choose|j: int|
                    0 <= j < n && (#[trigger] pairs[j]).0 == e && allegiances@.contains(
                        pairs[j].1,
                    );
                lemma_map_of_index(pairs, j);
            }
            assert forall|e: usize|
                self.m().dom().contains(e) && allegiances@.contains(self.m()[e])
                implies #[trigger] result@.contains(e) by {
                lemma_map_of_contains(pairs, e);
                let j = choose|j: int| 0 <= j < pairs.len() && (#[trigger] pairs[j]).0 == e;
                lemma_map_of_index(pairs, j);
            }
            assert(result@ =~= Set::new(
                |e: usize| self.m().dom().contains(e) && allegiances@.contains(self.m()[e]),
            ));
        }
        result
    }

    pub fn insert(&mut self, entity: EntityId, allegiance: Allegiance)
        requires
            old(self).wf(),
            entity.0 < ENTITY_CAP,
        ensures
            final(self).wf(),
            final(self).m() == old(self).m().insert(entity.0, allegiance),
    {
        self.entities.insert(&entity);
        self.allegiance_map.insert(entity.0, allegiance);
        proof {
            assert(self.entities@ =~= self.m().dom());
        }
    }

    pub fn remove(&mut self, entity: &EntityId)
        requires
            old(self).wf(),
        ensures
            final(self).wf(),
            final(self).m() == old(self).m().remove(entity.0),
    {
        if self.allegiance_map.contains_key(entity.0) {
            self.entities.remove(entity);
        }
        self.allegiance_map.remove(entity.0);
        proof {
            assert(self.entities@ =~= self.m().dom());
        }
    }
}

} // verus!
