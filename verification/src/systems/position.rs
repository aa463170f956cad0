//! Position: an integer coordinate pair, compared by exact equality for
//! queries. The system keeps a query index of all entities that have a
//! position, consistent with the store at every step.

use vstd::prelude::*;

verus! {

use crate::EntityId;
use crate::entity_set::ENTITY_CAP;
use crate::entity_set::EntitySet;
use crate::notification::Notification;
use crate::notification::NotificationHandler;
use crate::store::ComponentMap;
use crate::store::lemma_map_of_contains;
use crate::store::lemma_map_of_index;

/// A position component.
#[derive(Clone, Copy, PartialEq, Eq, Structural, Debug)]
pub struct Position {
    pub x: i64,
    pub y: i64,
}

fn contains_position(values: &[Position], p: Position) -> (r: bool)
    ensures
        r == values@.contains(p),
{
    let mut i: usize = 0;
    while i < values.len()
        invariant
            i <= values@.len(),
            forall|j: int| 0 <= j < i ==> values@[j] != p,
        decreases values@.len() - i,
    {
        if values[i] == p {
            return true;
        }
        i = i + 1;
    }
    false
}

pub struct PositionSystem<H> {
    pub notification_handler: H,
    pub entities: EntitySet,
    pub position_map: ComponentMap<Position>,
}

impl<H: NotificationHandler> PositionSystem<H> {
    /// The mapping from entity id to its position.
    pub open spec fn m(&self) -> Map<usize, Position> {
        self.position_map.m()
    }

    pub open spec fn wf(&self) -> bool {
        &&& self.position_map.wf()
        &&& self.entities@ == self.m().dom()
        &&& self.entities@.finite()
        &&& forall|e: usize| #[trigger] self.m().dom().contains(e) ==> e < ENTITY_CAP
    }

    pub fn new(notification_handler: H) -> (r: Self)
        ensures
            r.wf(),
            r.m() == Map::<usize, Position>::empty(),
    {
        let r = PositionSystem {
            notification_handler,
            entities: EntitySet::new(),
            position_map: ComponentMap::new(),
        };
        proof {
            assert(r.entities@ =~= r.m().dom());
        }
        r
    }

    pub fn position(&self, entity: &EntityId) -> (r: Option<&Position>)
        requires
            self.wf(),
        ensures
            match r {
                Some(p) => self.m().dom().contains(entity.0) && *p == self.m()[entity.0],
                None => !self.m().dom().contains(entity.0),
            },
    {
        self.position_map.get(entity.0)
    }

    /// The set of entities whose stored position is one of `positions`. An
    /// empty `positions` yields an empty result.
    pub fn entities(&self, positions: &[Position]) -> (r: EntitySet)
        requires
            self.wf(),
        ensures
            r@.finite(),
            r@ == Set::new(
                |e: usize| self.m().dom().contains(e) && positions@.contains(self.m()[e]),
            ),
    {
        let mut result = EntitySet::new();
        let n = self.position_map.len();
        let mut i: usize = 0;
        while i < n
            invariant
                self.wf(),
                n == self.position_map.pairs().len(),
                i <= n,
                result@.finite(),
                forall|e: usize| #[trigger] result@.contains(e) <==> exists|j: int|
                    0 <= j < i && (#[trigger] self.position_map.pairs()[j]).0 == e
                        && positions@.contains(self.position_map.pairs()[j].1),
            decreases n - i,
        {
            let (entity, position) = *self.position_map.entry_at(i);
            proof {
                lemma_map_of_index(self.position_map.pairs(), i as int);
            }
            if contains_position(positions, position) {
                result.insert(&EntityId(entity));
            }
            proof {
                assert forall|e: usize| #[trigger] result@.contains(e) implies exists|j: int|
                    0 <= j < i + 1 && (#[trigger] self.position_map.pairs()[j]).0 == e
                        && positions@.contains(self.position_map.pairs()[j].1) by {
                    if e == entity && positions@.contains(position) {
                        assert(self.position_map.pairs()[i as int].0 == e);
                    } else {
                        assert(exists|j: int|
                            0 <= j < i && (#[trigger] self.position_map.pairs()[j]).0 == e
                                && positions@.contains(self.position_map.pairs()[j].1));
                    }
                }
            }
            i = i + 1;
        }
        proof {
            let pairs = self.position_map.pairs();
            assert forall|e: usize| #[trigger] result@.contains(e) implies self.m().dom().contains(
                e,
            ) && positions@.contains(self.m()[e]) by {
                let j = choose|j: int|
                    0 <= j < n && (#[trigger] pairs[j]).0 == e && positions@.contains(pairs[j].1);
                lemma_map_of_index(pairs, j);
            }
            assert forall|e: usize|
                self.m().dom().contains(e) && positions@.contains(self.m()[e])
                implies #[trigger] result@.contains(e) by {
                lemma_map_of_contains(pairs, e);
                let j = choose|j: int| 0 <= j < pairs.len() && (#[trigger] pairs[j]).0 == e;
                lemma_map_of_index(pairs, j);
            }
            assert(result@ =~= Set::new(
                |e: usize| self.m().dom().contains(e) && positions@.contains(self.m()[e]),
            ));
        }
        result
    }

    /// Move the target to a new position; a no-op if it has none.
    pub fn move_to(&mut self, entity: EntityId, position: Position)
        requires
            old(self).wf(),
        ensures
            final(self).wf(),
            final(self).m() == if old(self).m().dom().contains(entity.0) {
                old(self).m().insert(entity.0, position)
            } else {
                old(self).m()
            },
    {
        if !self.position_map.contains_key(entity.0) {
            return ;
        }
        self.position_map.insert(entity.0, position);
        proof {
            assert(self.m().dom() =~= old(self).m().dom());
        }
        self.notification_handler.notify(entity, &Notification::ChangePosition(Some(position)));
    }

    pub fn insert(&mut self, entity: EntityId, position: Position)
        requires
            old(self).wf(),
            entity.0 < ENTITY_CAP,
        ensures
            final(self).wf(),
            final(self).m() == old(self).m().insert(entity.0, position),
    {
        self.entities.insert(&entity);
        self.position_map.insert(entity.0, position);
        proof {
            assert(self.entities@ =~= self.m().dom());
        }
    }

    pub fn remove(&mut self, entity: &EntityId)
        requires
            old(self).wf(),
        ensures
            final(self).wf(),
            final(self).m() == old(self).m().remove(entity.0),
    {
        if self.position_map.contains_key(entity.0) {
            self.entities.remove(entity);
        }
        self.position_map.remove(entity.0);
        proof {
            assert(self.entities@ =~= self.m().dom());
        }
    }
}

} // verus!
