//! The world: owner of the five component stores and the id allocator, and
//! the single mutation surface. Every mutation goes through `perform`, whose
//! contract equates the new state with the recursive interpreter of the
//! model module.

use vstd::prelude::*;

verus! {

use crate::EntityId;
use crate::action::Action;
use crate::action::ActionV;
use crate::action::RecursionLimit;
use crate::entity_query::ComponentFilter;
use crate::entity_query::EntityQuery;
use crate::entity_set::ENTITY_CAP;
use crate::entity_set::EntitySet;
use crate::event::Event;
use crate::model::MAX_STACK_DEPTH;
use crate::model::WorldModel;
use crate::model::action_ok;
use crate::model::action_rank;
use crate::model::empty_model;
use crate::model::model_wf;
use crate::model::spawn_model;
use crate::model::spec_emit;
use crate::model::spec_emit_list;
use crate::model::spec_emit_pairs;
use crate::model::spec_handle;
use crate::model::spec_perform;
use crate::model::spec_perform_targets;
use crate::model::spec_resolve;
use crate::model::strictly_sorted;
use crate::notification::Notification;
use crate::notification::NotificationHandler;
use crate::store::lemma_map_of_contains;
use crate::store::lemma_map_of_index;
use crate::systems::Allegiance;
use crate::systems::AllegianceSystem;
use crate::systems::Armor;
use crate::systems::ArmorSystem;
use crate::systems::Health;
use crate::systems::HealthSystem;
use crate::systems::Position;
use crate::systems::PositionSystem;
use crate::systems::Reaction;
use crate::systems::ReactionSystem;
use crate::systems::clone_reactions;
use crate::systems::pairs_deep;
use crate::systems::rlist_wf;

/// The world: all component stores, the monotonically increasing entity id
/// allocator, and the notification handler supplied at construction.
pub struct World<H> {
    notification_handler: H,
    next_entity: EntityId,
    allegiance_system: AllegianceSystem<H>,
    armor_system: ArmorSystem<H>,
    health_system: HealthSystem<H>,
    position_system: PositionSystem<H>,
    reaction_system: ReactionSystem<H>,
}

impl<H: NotificationHandler> World<H> {
    /// The abstract state this world denotes.
    pub closed spec fn model(&self) -> WorldModel {
        WorldModel {
            next_id: self.next_entity.0,
            allegiances: self.allegiance_system.m(),
            armors: self.armor_system.m(),
            healths: self.health_system.m(),
            positions: self.position_system.m(),
            reactions: self.reaction_system.lists(),
        }
    }

    /// Well-formedness: every store holds its own invariant and the query
    /// indices agree with their stores.
    pub closed spec fn wf(&self) -> bool {
        &&& self.allegiance_system.wf()
        &&& self.armor_system.wf()
        &&& self.health_system.wf()
        &&& self.position_system.wf()
        &&& self.reaction_system.wf()
    }

    /// A well-formed world denotes a well-formed model.
    pub proof fn lemma_wf_model(&self)
        requires
            self.wf(),
        ensures
            model_wf(self.model()),
    {
    }

    pub fn allegiance(&self, entity: EntityId) -> (r: Option<Allegiance>)
        requires
            self.wf(),
        ensures
            r == if self.model().allegiances.dom().contains(entity.0) {
                Some(self.model().allegiances[entity.0])
            } else {
                None::<Allegiance>
            },
    {
        match self.allegiance_system.allegiance(&entity) {
            Some(a) => Some(*a),
            None => None,
        }
    }

    pub fn armor(&self, entity: EntityId) -> (r: Option<Armor>)
        requires
            self.wf(),
        ensures
            r == if self.model().armors.dom().contains(entity.0) {
                Some(self.model().armors[entity.0])
            } else {
                None::<Armor>
            },
    {
        match self.armor_system.get(&entity) {
            Some(a) => Some(*a),
            None => None,
        }
    }

    pub fn health(&self, entity: EntityId) -> (r: Option<Health>)
        requires
            self.wf(),
        ensures
            r == if self.model().healths.dom().contains(entity.0) {
                Some(self.model().healths[entity.0])
            } else {
                None::<Health>
            },
    {
        match self.health_system.get(&entity) {
            Some(h) => Some(*h),
            None => None,
        }
    }

    pub fn position(&self, entity: EntityId) -> (r: Option<Position>)
        requires
            self.wf(),
        ensures
            r == if self.model().positions.dom().contains(entity.0) {
                Some(self.model().positions[entity.0])
            } else {
                None::<Position>
            },
    {
        match self.position_system.position(&entity) {
            Some(p) => Some(*p),
            None => None,
        }
    }

    /// The target's reaction list, if it has one stored.
    pub fn reactions(&self, entity: EntityId) -> (r: Option<Vec<Reaction>>)
        requires
            self.wf(),
        ensures
            match r {
                Some(v) => exists|i: int|
                    0 <= i < self.model().reactions.len()
                        && (#[trigger] self.model().reactions[i]).0 == entity.0
                        && self.model().reactions[i].1 == v@,
                None => forall|i: int|
                    0 <= i < self.model().reactions.len()
                        ==> (#[trigger] self.model().reactions[i]).0 != entity.0,
            },
    {
        let got = self.reaction_system.get(&entity);
        proof {
            lemma_map_of_contains(self.reaction_system.reactions_map.pairs(), entity.0);
        }
        match got {
            Some(list) => {
                let cloned = clone_reactions(list);
                proof {
                    let pairs = self.reaction_system.reactions_map.pairs();
                    let i = choose|i: int| 0 <= i < pairs.len() && (#[trigger] pairs[i]).0
                        == entity.0;
                    lemma_map_of_index(pairs, i);
                    assert(self.model().reactions[i] == (pairs[i].0, pairs[i].1@));
                }
                Some(cloned)
            },
            None => {
                proof {
                    let pairs = self.reaction_system.reactions_map.pairs();
                    assert forall|i: int| 0 <= i < self.model().reactions.len()
                        implies (#[trigger] self.model().reactions[i]).0 != entity.0 by {
                        assert(self.model().reactions[i] == (pairs[i].0, pairs[i].1@));
                        lemma_map_of_index(pairs, i);
                    }
                }
                None
            },
        }
    }

    /// Spawn a new entity with the given optional components and reaction
    /// list, returning the fresh id.
    pub fn spawn(
        &mut self,
        allegiance: Option<Allegiance>,
        armor: Option<Armor>,
        health: Option<Health>,
        position: Option<Position>,
        reactions: Vec<Reaction>,
    ) -> (r: EntityId)
        requires
            old(self).wf(),
            old(self).model().next_id < ENTITY_CAP,
            armor matches Some(a) ==> a.current >= 0,
            rlist_wf(reactions@),
        ensures
            final(self).wf(),
            r.0 == old(self).model().next_id,
            final(self).model() == spawn_model(
                old(self).model(),
                allegiance,
                armor,
                health,
                position,
                reactions@,
            ),
    {
        let entity = self.next_entity;
        self.next_entity = EntityId(entity.0 + 1);
        if let Some(a) = allegiance {
            self.allegiance_system.insert(entity, a);
        }
        if let Some(a) = armor {
            self.armor_system.insert(entity, a);
        }
        if let Some(h) = health {
            self.health_system.insert(entity, h);
        }
        if let Some(p) = position {
            self.position_system.insert(entity, p);
        }
        let reactions_seen = clone_reactions(&reactions);
        self.reaction_system.insert(entity, reactions);
        self.notification_handler.notify(
            entity,
            &Notification::Spawn { allegiance, armor, health, position, reactions: reactions_seen },
        );
        entity
    }
}

impl<H: NotificationHandler> World<H> {
    /// Apply one action to a (source, target) pair at the given recursion
    /// depth. The new state and the completion flag are exactly those of the
    /// interpreter: an aborted cascade keeps its applied mutations and
    /// reports the recursion limit.
    pub fn perform(
        &mut self,
        action: Action,
        source: EntityId,
        target: EntityId,
        stack_depth: u64,
    ) -> (r: Result<(), RecursionLimit>)
        requires
            old(self).wf(),
            action_ok(action@, old(self).model()),
        ensures
            final(self).wf(),
            final(self).model() == spec_perform(
                old(self).model(),
                action@,
                source.0,
                target.0,
                stack_depth,
            ).0,
            (r is Ok) == spec_perform(
                old(self).model(),
                action@,
                source.0,
                target.0,
                stack_depth,
            ).1,
        decreases MAX_STACK_DEPTH - stack_depth, action_rank(action@), 2int,
    {
        let ghost m0 = old(self).model();
        let ghost av = action@;
        if stack_depth >= MAX_STACK_DEPTH {
            return Err(RecursionLimit);
        }
        match action {
            Action::Spawn { allegiance, armor, health, position, reactions } => {
                let ghost reactions_view = reactions@;
                let _ = self.spawn(allegiance, armor, health, position, reactions);
                proof {
                    assert(av == ActionV::Spawn {
                        allegiance,
                        armor,
                        health,
                        position,
                        reactions: reactions_view,
                    });
                }
                Ok(())
            },
            Action::Destroy => {
                match self.emit(&Event::BeforeDestroy, source, target, stack_depth) {
                    Ok(()) => {},
                    Err(e) => {
                        return Err(e);
                    },
                }
                let ghost w1 = self.model();
                self.allegiance_system.remove(&target);
                self.armor_system.remove(&target);
                self.health_system.remove(&target);
                self.position_system.remove(&target);
                self.reaction_system.remove(&target);
                self.notification_handler.notify(target, &Notification::Destroy);
                proof {
                    assert(self.model() == crate::model::purge_model(w1, target.0));
                }
                Ok(())
            },
            Action::Move { to_position } => {
                let from_position = match self.position_system.position(&target) {
                    Some(p) => *p,
                    None => {
                        return Ok(());
                    },
                };
                self.position_system.move_to(target, to_position);
                self.emit(&Event::AfterMove { from_position }, source, target, stack_depth)
            },
            Action::Damage { amount } => {
                let overflow = match self.armor_system.lose(target, amount) {
                    Some(o) => o,
                    None => amount,
                };
                let ghost w1 = self.model();
                let is_alive = match self.health_system.lose(target, overflow) {
                    Some(b) => b,
                    None => {
                        return Ok(());
                    },
                };
                let ghost w2 = self.model();
                if overflow > 0 {
                    match self.emit(&Event::AfterDamage, source, target, stack_depth) {
                        Ok(()) => {},
                        Err(e) => {
                            return Err(e);
                        },
                    }
                }
                let ghost w3 = self.model();
                if !is_alive {
                    let r = self.perform(Action::Destroy, source, target, stack_depth);
                    proof {
                        assert((self.model(), r is Ok) == spec_perform(
                            w3,
                            ActionV::Destroy,
                            source.0,
                            target.0,
                            stack_depth,
                        ));
                    }
                    r
                } else {
                    Ok(())
                }
            },
            Action::GainArmor { amount } => {
                self.armor_system.gain(target, amount);
                Ok(())
            },
        }
    }

    /// Evaluate one (event, reaction) pair against its reactor: test the
    /// trigger predicate and, on fire, re-enter the dispatcher one level
    /// deeper.
    fn handle_event(
        &mut self,
        event: &Event,
        source: EntityId,
        target: EntityId,
        reactor: EntityId,
        reaction: &Reaction,
        stack_depth: u64,
    ) -> (r: Result<(), RecursionLimit>)
        requires
            old(self).wf(),
            stack_depth < MAX_STACK_DEPTH,
            crate::systems::reaction_wf(*reaction),
        ensures
            final(self).wf(),
            final(self).model() == spec_handle(
                old(self).model(),
                *event,
                source.0,
                target.0,
                reactor.0,
                *reaction,
                stack_depth,
            ).0,
            (r is Ok) == spec_handle(
                old(self).model(),
                *event,
                source.0,
                target.0,
                reactor.0,
                *reaction,
                stack_depth,
            ).1,
        decreases MAX_STACK_DEPTH - stack_depth, 1int, 0int,
    {
        match (*event, *reaction) {
            (Event::AfterMove { from_position }, Reaction::OpportunityAttack { damage_amount }) => {
                let reactor_allegiance = match self.allegiance_system.allegiance(&reactor) {
                    Some(a) => *a,
                    None => {
                        return Ok(());
                    },
                };
                let target_allegiance = match self.allegiance_system.allegiance(&target) {
                    Some(a) => *a,
                    None => {
                        return Ok(());
                    },
                };
                if target_allegiance == reactor_allegiance {
                    return Ok(());
                }
                let reactor_position = match self.position_system.position(&reactor) {
                    Some(p) => *p,
                    None => {
                        return Ok(());
                    },
                };
                if !(from_position == reactor_position) {
                    return Ok(());
                }
                self.perform(
                    Action::Damage { amount: damage_amount },
                    reactor,
                    target,
                    stack_depth + 1,
                )
            },
            (Event::AfterDamage, Reaction::Reinforce { armor_amount }) => {
                if !(target == reactor) {
                    return Ok(());
                }
                self.perform(
                    Action::GainArmor { amount: armor_amount },
                    reactor,
                    reactor,
                    stack_depth + 1,
                )
            },
            (Event::BeforeDestroy, Reaction::Spite { damage_amount }) => {
                if !(target == reactor) {
                    return Ok(());
                }
                self.perform(
                    Action::Damage { amount: damage_amount },
                    reactor,
                    source,
                    stack_depth + 1,
                )
            },
            _ => Ok(()),
        }
    }

    /// Resolve a query into the concrete set of matching entities.
    fn entities(&self, query: &EntityQuery) -> (r: EntitySet)
        requires
            self.wf(),
            !(query.allegiance_filter@ is Ignore && query.position_filter@ is Ignore),
        ensures
            r@.finite(),
            r@ == spec_resolve(
                self.model(),
                query.allegiance_filter@,
                query.position_filter@,
            ),
    {
        let allegiance_entities: Option<EntitySet> = match &query.allegiance_filter {
            ComponentFilter::Include(values) => Some(self.allegiance_system.entities(values)),
            _ => None,
        };
        let position_entities: Option<EntitySet> = match &query.position_filter {
            ComponentFilter::Include(values) => Some(self.position_system.entities(values)),
            _ => None,
        };
        let allegiance_ref: Option<&EntitySet> = match &query.allegiance_filter {
            ComponentFilter::Ignore => None,
            ComponentFilter::Include(_) => allegiance_entities.as_ref(),
            ComponentFilter::Any => Some(&self.allegiance_system.entities),
        };
        let position_ref: Option<&EntitySet> = match &query.position_filter {
            ComponentFilter::Ignore => None,
            ComponentFilter::Include(_) => position_entities.as_ref(),
            ComponentFilter::Any => Some(&self.position_system.entities),
        };
        let mut refs: Vec<Option<&EntitySet>> = Vec::new();
        refs.push(allegiance_ref);
        refs.push(position_ref);
        let result = EntitySet::intersection(refs.as_slice());
        proof {
            let m = self.model();
            let af = query.allegiance_filter@;
            let pf = query.position_filter@;
            let ca = crate::model::contrib_allegiance(m, af);
            let cp = crate::model::contrib_position(m, pf);
            assert(refs@[0] == allegiance_ref);
            assert(refs@[1] == position_ref);
            assert(match allegiance_ref {
                Some(s) => ca is Some && s@ == ca.unwrap(),
                None => ca is None,
            });
            assert(match position_ref {
                Some(s) => cp is Some && s@ == cp.unwrap(),
                None => cp is None,
            });
            assert forall|e: usize| #[trigger] result@.contains(e)
                <==> spec_resolve(m, af, pf).contains(e) by {
                assert(result@.contains(e) <==> (forall|i: int|
                    0 <= i < refs@.len() ==> ((#[trigger] refs@[i]) matches Some(s)
                        ==> s@.contains(e))));
                if result@.contains(e) {
                    assert(refs@[0] matches Some(s) ==> s@.contains(e));
                    assert(refs@[1] matches Some(s) ==> s@.contains(e));
                } else {
                }
            }
            assert(result@ =~= spec_resolve(m, af, pf));
        }
        result
    }

    /// Resolve a query and fan the action out to every matching entity, in
    /// ascending id order, with the same source and depth for each dispatch.
    /// An abort stops the fan-out; mutations already applied are kept.
    pub fn perform_with_query(
        &mut self,
        action: Action,
        source: EntityId,
        query: EntityQuery,
        stack_depth: u64,
    ) -> (r: Result<(), RecursionLimit>)
        requires
            old(self).wf(),
            action_ok(action@, old(self).model()),
            !(action@ is Spawn),
            !(query.allegiance_filter@ is Ignore && query.position_filter@ is Ignore),
        ensures
            final(self).wf(),
            exists|targets: Seq<usize>|
                {
                    &&& strictly_sorted(targets)
                    &&& forall|e: usize| targets.contains(e) <==> spec_resolve(
                        old(self).model(),
                        query.allegiance_filter@,
                        query.position_filter@,
                    ).contains(e)
                    &&& (final(self).model(), r is Ok) == #[trigger] spec_perform_targets(
                        old(self).model(),
                        action@,
                        source.0,
                        targets,
                        stack_depth,
                        0,
                    )
                },
    {
        let ghost m0 = old(self).model();
        let ghost av = action@;
        let set = self.entities(&query);
        let targets = set.to_vec();
        let ghost ts = targets@.map_values(|e: EntityId| e.0);
        proof {
            assert(strictly_sorted(ts)) by {
                assert forall|i: int, j: int| 0 <= i < j < ts.len() implies ts[i] < ts[j] by {
                    assert(ts[i] == targets@[i].0);
                    assert(ts[j] == targets@[j].0);
                }
            }
            assert forall|e: usize| ts.contains(e) implies set@.contains(e) by {
                let i = choose|i: int| 0 <= i < ts.len() && ts[i] == e;
                assert(targets@[i].0 == e);
            }
            assert forall|e: usize| set@.contains(e) implies ts.contains(e) by {
                let i = choose|i: int| 0 <= i < targets@.len() && (#[trigger] targets@[i]).0 == e;
                assert(ts[i] == e);
            }
        }
        let n = targets.len();
        let mut i: usize = 0;
        while i < n
            invariant
                self.wf(),
                m0 == old(self).model(),
                av == action@,
                !(av is Spawn),
                action_ok(av, m0),
                n == targets@.len(),
                ts == targets@.map_values(|e: EntityId| e.0),
                strictly_sorted(ts),
                forall|e: usize| ts.contains(e) <==> spec_resolve(
                    m0,
                    query.allegiance_filter@,
                    query.position_filter@,
                ).contains(e),
                i <= n,
                spec_perform_targets(m0, av, source.0, ts, stack_depth, 0)
                    == spec_perform_targets(
                    self.model(),
                    av,
                    source.0,
                    ts,
                    stack_depth,
                    i as int,
                ),
            decreases n - i,
        {
            let target = targets[i];
            let cloned = action.clone();
            let ghost before = self.model();
            proof {
                assert(action_ok(av, before));
                assert(ts[i as int] == target.0);
            }
            match self.perform(cloned, source, target, stack_depth) {
                Ok(()) => {
                    proof {
                        assert(spec_perform_targets(before, av, source.0, ts, stack_depth, i as int)
                            == spec_perform_targets(
                            self.model(),
                            av,
                            source.0,
                            ts,
                            stack_depth,
                            i + 1,
                        ));
                    }
                },
                Err(e) => {
                    proof {
                        assert(spec_perform_targets(before, av, source.0, ts, stack_depth, i as int)
                            == (self.model(), false));
                        assert((self.model(), false) == spec_perform_targets(
                            m0,
                            av,
                            source.0,
                            ts,
                            stack_depth,
                            0,
                        ));
                        assert(strictly_sorted(ts) && (forall|e: usize| ts.contains(e)
                            <==> spec_resolve(
                            m0,
                            query.allegiance_filter@,
                            query.position_filter@,
                        ).contains(e)) && (self.model(), false) == #[trigger] spec_perform_targets(
                            m0,
                            av,
                            source.0,
                            ts,
                            stack_depth,
                            0,
                        ));
                    }
                    return Err(e);
                },
            }
            i = i + 1;
        }
        proof {
            assert(spec_perform_targets(m0, av, source.0, ts, stack_depth, 0) == (
                self.model(),
                true,
            ));
            assert(strictly_sorted(ts) && (forall|e: usize| ts.contains(e) <==> spec_resolve(
                m0,
                query.allegiance_filter@,
                query.position_filter@,
            ).contains(e)) && (self.model(), true) == #[trigger] spec_perform_targets(
                m0,
                av,
                source.0,
                ts,
                stack_depth,
                0,
            ));
        }
        Ok(())
    }

    /// Broadcast an event: snapshot the reaction store, then evaluate every
    /// (reactor, reaction) pair of the snapshot in order; reactions added or
    /// removed by cascading actions do not affect the current broadcast.
    fn emit(
        &mut self,
        event: &Event,
        source: EntityId,
        target: EntityId,
        stack_depth: u64,
    ) -> (r: Result<(), RecursionLimit>)
        requires
            old(self).wf(),
            stack_depth < MAX_STACK_DEPTH,
        ensures
            final(self).wf(),
            final(self).model() == spec_emit(
                old(self).model(),
                *event,
                source.0,
                target.0,
                stack_depth,
            ).0,
            (r is Ok) == spec_emit(old(self).model(), *event, source.0, target.0, stack_depth).1,
        decreases MAX_STACK_DEPTH - stack_depth, 1int, 1int,
    {
        let ghost m0 = old(self).model();
        let ghost ev = *event;
        let snapshot = self.reaction_system.snapshot();
        let ghost snap = pairs_deep(snapshot@);
        proof {
            assert(snap == m0.reactions);
        }
        let n = snapshot.len();
        let mut i: usize = 0;
        while i < n
            invariant
                self.wf(),
                stack_depth < MAX_STACK_DEPTH,
                ev == *event,
                m0 == old(self).model(),
                snap == m0.reactions,
                n == snapshot@.len(),
                snap == pairs_deep(snapshot@),
                forall|t: int| 0 <= t < snap.len() ==> rlist_wf((#[trigger] snap[t]).1),
                i <= n,
                snap.len() == n,
                spec_emit_pairs(m0, snap, ev, source.0, target.0, stack_depth, 0)
                    == spec_emit_pairs(
                    self.model(),
                    snap,
                    ev,
                    source.0,
                    target.0,
                    stack_depth,
                    i as int,
                ),
            decreases n - i,
        {
            let ghost wi = self.model();
            let reactor = snapshot[i].0;
            let ghost list = snap[i as int].1;
            proof {
                assert(snap[i as int] == (snapshot@[i as int].0, snapshot@[i as int].1@));
                assert(reactor == snap[i as int].0);
            }
            let m = snapshot[i].1.len();
            let mut j: usize = 0;
            while j < m
                invariant
                    self.wf(),
                    stack_depth < MAX_STACK_DEPTH,
                    ev == *event,
                    m0 == old(self).model(),
                    snap == m0.reactions,
                    n == snapshot@.len(),
                    snap == pairs_deep(snapshot@),
                    forall|t: int| 0 <= t < snap.len() ==> rlist_wf((#[trigger] snap[t]).1),
                    i < n,
                    snap.len() == n,
                    reactor == snap[i as int].0,
                    list == snap[i as int].1,
                    m == list.len(),
                    j <= m,
                    spec_emit_pairs(m0, snap, ev, source.0, target.0, stack_depth, 0)
                        == spec_emit_pairs(wi, snap, ev, source.0, target.0, stack_depth, i as int),
                    spec_emit_list(wi, reactor, list, ev, source.0, target.0, stack_depth, 0)
                        == spec_emit_list(
                        self.model(),
                        reactor,
                        list,
                        ev,
                        source.0,
                        target.0,
                        stack_depth,
                        j as int,
                    ),
                decreases m - j,
            {
                let reaction = snapshot[i].1[j];
                let ghost before = self.model();
                proof {
                    assert(snap[i as int] == (snapshot@[i as int].0, snapshot@[i as int].1@));
                    assert(reaction == list[j as int]);
                    assert(rlist_wf(list));
                }
                match self.handle_event(
                    event,
                    source,
                    target,
                    EntityId(reactor),
                    &reaction,
                    stack_depth,
                ) {
                    Ok(()) => {
                        proof {
                            assert(spec_emit_list(
                                before,
                                reactor,
                                list,
                                ev,
                                source.0,
                                target.0,
                                stack_depth,
                                j as int,
                            ) == spec_emit_list(
                                self.model(),
                                reactor,
                                list,
                                ev,
                                source.0,
                                target.0,
                                stack_depth,
                                j + 1,
                            ));
                        }
                    },
                    Err(e) => {
                        proof {
                            assert(spec_emit_list(
                                before,
                                reactor,
                                list,
                                ev,
                                source.0,
                                target.0,
                                stack_depth,
                                j as int,
                            ) == (self.model(), false));
                            assert(spec_emit_pairs(
                                wi,
                                snap,
                                ev,
                                source.0,
                                target.0,
                                stack_depth,
                                i as int,
                            ) == (self.model(), false));
                            assert(spec_emit(m0, ev, source.0, target.0, stack_depth) == (
                                self.model(),
                                false,
                            ));
                        }
                        return Err(e);
                    },
                }
                j = j + 1;
            }
            proof {
                assert(spec_emit_list(
                    wi,
                    reactor,
                    list,
                    ev,
                    source.0,
                    target.0,
                    stack_depth,
                    0,
                ) == (self.model(), true));
                assert(spec_emit_pairs(wi, snap, ev, source.0, target.0, stack_depth, i as int)
                    == spec_emit_pairs(
                    self.model(),
                    snap,
                    ev,
                    source.0,
                    target.0,
                    stack_depth,
                    i + 1,
                ));
            }
            i = i + 1;
        }
        proof {
            assert(spec_emit_pairs(m0, snap, ev, source.0, target.0, stack_depth, 0) == (
                self.model(),
                true,
            ));
            assert(spec_emit(m0, ev, source.0, target.0, stack_depth) == (self.model(), true));
        }
        Ok(())
    }
}

impl<H: NotificationHandler + Clone> World<H> {
    /// An empty world observing through the given handler.
    pub fn new(notification_handler: H) -> (r: Self)
        ensures
            r.wf(),
            r.model() == empty_model(),
    {
        let r = World {
            notification_handler: notification_handler.clone(),
            next_entity: EntityId(1),
            allegiance_system: AllegianceSystem::new(notification_handler.clone()),
            armor_system: ArmorSystem::new(notification_handler.clone()),
            health_system: HealthSystem::new(notification_handler.clone()),
            position_system: PositionSystem::new(notification_handler.clone()),
            reaction_system: ReactionSystem::new(notification_handler),
        };
        r
    }
}

} // verus!
