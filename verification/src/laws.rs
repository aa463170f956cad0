//! The laws of the engine, stated and proved over the model: the store
//! invariants survive every dispatch (including an aborted one), losing armor
//! never leaves it negative, zero damage changes nothing, a completed destroy
//! purges its target everywhere, queries round-trip through spawns, and a
//! dispatch at the depth limit aborts with the world untouched.

use vstd::prelude::*;

verus! {

use crate::action::ActionV;
use crate::entity_query::FilterV;
use crate::event::Event;
use crate::model::MAX_STACK_DEPTH;
use crate::model::WorldModel;
use crate::model::action_ok;
use crate::model::action_rank;
use crate::model::model_wf;
use crate::model::purge_model;
use crate::model::spawn_model;
use crate::model::spec_emit;
use crate::model::spec_emit_list;
use crate::model::spec_emit_pairs;
use crate::model::spec_handle;
use crate::model::spec_perform;
use crate::model::spec_resolve;
use crate::store::lemma_insert_key;
use crate::store::lemma_insert_key_entries;
use crate::store::lemma_map_of_contains;
use crate::store::lemma_remove_key;
use crate::store::lemma_remove_key_entries;
use crate::store::map_of;
use crate::store::remove_key;
use crate::systems::Armor;
use crate::systems::Allegiance;
use crate::systems::Health;
use crate::systems::Position;
use crate::systems::Reaction;
use crate::systems::lose_armor;
use crate::systems::lose_armor_overflow;
use crate::systems::reaction_wf;
use crate::systems::rlist_wf;

/// Losing armor never leaves `current` negative, for any starting armor at
/// or above zero and any amount; the overflow returned is exactly the part
/// of the amount above the starting armor. The exact remainder holds
/// whenever the subtraction stays within the machine integers (a negative
/// amount near the integer minimum saturates instead).
pub proof fn lemma_armor_lose_never_negative(a: Armor, amount: i64)
    requires
        a.current >= 0,
    ensures
        lose_armor(a, amount).current >= 0,
        lose_armor_overflow(a, amount) == if amount - a.current > 0 {
            amount - a.current
        } else {
            0
        },
        a.current - amount <= i64::MAX ==> lose_armor(a, amount).current == if a.current - amount
            < 0 {
            0
        } else {
            a.current - amount
        },
{
}

/// Every dispatch preserves the store invariants, whether it completes or
/// aborts at the recursion guard.
pub proof fn lemma_perform_wf(
    w: WorldModel,
    action: ActionV,
    source: usize,
    target: usize,
    depth: u64,
)
    requires
        model_wf(w),
        action_ok(action, w),
    ensures
        model_wf(spec_perform(w, action, source, target, depth).0),
    decreases MAX_STACK_DEPTH - depth, action_rank(action), 3int, 0int, 0int, 0int,
{
    if depth >= MAX_STACK_DEPTH {
    } else {
        match action {
            ActionV::Spawn { allegiance, armor, health, position, reactions } => {
                let w1 = spawn_model(w, allegiance, armor, health, position, reactions);
                assert forall|e: usize| #[trigger] w1.armors.dom().contains(e)
                    implies w1.armors[e].current >= 0 by {
                    if !(armor matches Some(ar) && e == w.next_id) {
                        assert(w.armors.dom().contains(e));
                    }
                }
                assert forall|e: usize| #[trigger] w1.allegiances.dom().contains(e)
                    implies e < crate::entity_set::ENTITY_CAP by {
                    if !(allegiance is Some && e == w.next_id) {
                        assert(w.allegiances.dom().contains(e));
                    }
                }
                assert forall|e: usize| #[trigger] w1.positions.dom().contains(e)
                    implies e < crate::entity_set::ENTITY_CAP by {
                    if !(position is Some && e == w.next_id) {
                        assert(w.positions.dom().contains(e));
                    }
                }
                if reactions.len() > 0 {
                    lemma_insert_key(w.reactions, w.next_id, reactions);
                    assert forall|i: int| 0 <= i < w1.reactions.len()
                        implies (#[trigger] w1.reactions[i]).1.len() > 0
                            && rlist_wf(w1.reactions[i].1) by {
                        lemma_insert_key_entries(w.reactions, w.next_id, reactions, i);
                        if w1.reactions[i] != (w.next_id, reactions) {
                            let j = choose|j: int|
                                0 <= j < w.reactions.len() && #[trigger] w.reactions[j]
                                    == w1.reactions[i];
                        }
                    }
                }
            },
            ActionV::Destroy => {
                lemma_emit_wf(w, Event::BeforeDestroy, source, target, depth);
                let (w1, ok) = spec_emit(w, Event::BeforeDestroy, source, target, depth);
                if ok {
                    let w2 = purge_model(w1, target);
                    lemma_remove_key(w1.reactions, target);
                    assert forall|e: usize| #[trigger] w2.armors.dom().contains(e)
                        implies w2.armors[e].current >= 0 by {
                        assert(w1.armors.dom().contains(e));
                    }
                    assert forall|e: usize| #[trigger] w2.allegiances.dom().contains(e)
                        implies e < crate::entity_set::ENTITY_CAP by {
                        assert(w1.allegiances.dom().contains(e));
                    }
                    assert forall|e: usize| #[trigger] w2.positions.dom().contains(e)
                        implies e < crate::entity_set::ENTITY_CAP by {
                        assert(w1.positions.dom().contains(e));
                    }
                    assert forall|i: int| 0 <= i < w2.reactions.len()
                        implies (#[trigger] w2.reactions[i]).1.len() > 0
                            && rlist_wf(w2.reactions[i].1) by {
                        lemma_remove_key_entries(w1.reactions, target, i);
                        let j = choose|j: int|
                            0 <= j < w1.reactions.len() && #[trigger] w1.reactions[j]
                                == w2.reactions[i];
                    }
                }
            },
            ActionV::Move { to_position } => {
                if w.positions.dom().contains(target) {
                    let from_position = w.positions[target];
                    let w1 = WorldModel { positions: w.positions.insert(target, to_position), ..w };
                    assert forall|e: usize| #[trigger] w1.positions.dom().contains(e)
                        implies e < crate::entity_set::ENTITY_CAP by {
                        if e != target {
                            assert(w.positions.dom().contains(e));
                        }
                    }
                    lemma_emit_wf(
                        w1,
                        Event::AfterMove { from_position },
                        source,
                        target,
                        depth,
                    );
                }
            },
            ActionV::Damage { amount } => {
                let (w1, overflow) = if w.armors.dom().contains(target) {
                    (
                        WorldModel {
                            armors: w.armors.insert(target, lose_armor(w.armors[target], amount)),
                            ..w
                        },
                        lose_armor_overflow(w.armors[target], amount),
                    )
                } else {
                    (w, amount)
                };
                assert forall|e: usize| #[trigger] w1.armors.dom().contains(e)
                    implies w1.armors[e].current >= 0 by {
                    if e != target || !w.armors.dom().contains(target) {
                        assert(w.armors.dom().contains(e));
                    }
                }
                if w1.healths.dom().contains(target) {
                    let new_health = crate::systems::lose_health(w1.healths[target], overflow);
                    let w2 = WorldModel { healths: w1.healths.insert(target, new_health), ..w1 };
                    assert(model_wf(w2));
                    if overflow > 0 {
                        lemma_emit_wf(w2, Event::AfterDamage, source, target, depth);
                    }
                    let (w3, ok) = if overflow > 0 {
                        spec_emit(w2, Event::AfterDamage, source, target, depth)
                    } else {
                        (w2, true)
                    };
                    if ok && new_health.current <= 0 {
                        lemma_perform_wf(w3, ActionV::Destroy, source, target, depth);
                    }
                }
            },
            ActionV::GainArmor { amount } => {
                if w.armors.dom().contains(target) {
                    let w1 = WorldModel {
                        armors: w.armors.insert(target, crate::systems::gain_armor(
                            w.armors[target],
                            amount,
                        )),
                        ..w
                    };
                    assert forall|e: usize| #[trigger] w1.armors.dom().contains(e)
                        implies w1.armors[e].current >= 0 by {
                        if e != target {
                            assert(w.armors.dom().contains(e));
                        }
                    }
                }
            },
        }
    }
}

/// Every event broadcast preserves the store invariants.
pub proof fn lemma_emit_wf(w: WorldModel, event: Event, source: usize, target: usize, depth: u64)
    requires
        model_wf(w),
    ensures
        model_wf(spec_emit(w, event, source, target, depth).0),
    decreases MAX_STACK_DEPTH - depth, 1int, 2int, 0int, 0int, 0int,
{
    lemma_emit_pairs_wf(w, w.reactions, event, source, target, depth, 0);
}

pub proof fn lemma_emit_pairs_wf(
    w: WorldModel,
    snapshot: Seq<(usize, Seq<Reaction>)>,
    event: Event,
    source: usize,
    target: usize,
    depth: u64,
    i: int,
)
    requires
        model_wf(w),
        forall|t: int| 0 <= t < snapshot.len() ==> rlist_wf((#[trigger] snapshot[t]).1),
    ensures
        model_wf(spec_emit_pairs(w, snapshot, event, source, target, depth, i).0),
    decreases MAX_STACK_DEPTH - depth, 1int, 1int, snapshot.len() - i, 0int, 0int,
{
    if i < 0 || i >= snapshot.len() {
    } else {
        lemma_emit_list_wf(w, snapshot[i].0, snapshot[i].1, event, source, target, depth, 0);
        let (w1, ok) = spec_emit_list(
            w,
            snapshot[i].0,
            snapshot[i].1,
            event,
            source,
            target,
            depth,
            0,
        );
        if ok {
            lemma_emit_pairs_wf(w1, snapshot, event, source, target, depth, i + 1);
        }
    }
}

pub proof fn lemma_emit_list_wf(
    w: WorldModel,
    reactor: usize,
    list: Seq<Reaction>,
    event: Event,
    source: usize,
    target: usize,
    depth: u64,
    j: int,
)
    requires
        model_wf(w),
        rlist_wf(list),
    ensures
        model_wf(spec_emit_list(w, reactor, list, event, source, target, depth, j).0),
    decreases MAX_STACK_DEPTH - depth, 1int, 1int, 0int, list.len() - j, 0int,
{
    if j < 0 || j >= list.len() {
    } else {
        lemma_handle_wf(w, event, source, target, reactor, list[j], depth);
        let (w1, ok) = spec_handle(w, event, source, target, reactor, list[j], depth);
        if ok {
            lemma_emit_list_wf(w1, reactor, list, event, source, target, depth, j + 1);
        }
    }
}

pub proof fn lemma_handle_wf(
    w: WorldModel,
    event: Event,
    source: usize,
    target: usize,
    reactor: usize,
    reaction: Reaction,
    depth: u64,
)
    requires
        model_wf(w),
        reaction_wf(reaction),
    ensures
        model_wf(spec_handle(w, event, source, target, reactor, reaction, depth).0),
    decreases MAX_STACK_DEPTH - depth, 1int, 0int, 0int, 0int, 0int,
{
    if depth >= MAX_STACK_DEPTH {
    } else {
        match (event, reaction) {
            (
                Event::AfterMove { from_position },
                Reaction::OpportunityAttack { damage_amount },
            ) => {
                if w.allegiances.dom().contains(reactor) && w.allegiances.dom().contains(target)
                    && w.allegiances[target] != w.allegiances[reactor]
                    && w.positions.dom().contains(reactor) && w.positions[reactor]
                    == from_position {
                    lemma_perform_wf(
                        w,
                        ActionV::Damage { amount: damage_amount },
                        reactor,
                        target,
                        (depth + 1) as u64,
                    );
                }
            },
            (Event::AfterDamage, Reaction::Reinforce { armor_amount }) => {
                if target == reactor {
                    lemma_perform_wf(
                        w,
                        ActionV::GainArmor { amount: armor_amount },
                        reactor,
                        reactor,
                        (depth + 1) as u64,
                    );
                }
            },
            (Event::BeforeDestroy, Reaction::Spite { damage_amount }) => {
                if target == reactor {
                    lemma_perform_wf(
                        w,
                        ActionV::Damage { amount: damage_amount },
                        reactor,
                        source,
                        (depth + 1) as u64,
                    );
                }
            },
            _ => {},
        }
    }
}

/// Dealing zero damage changes nothing and completes without raising any
/// event — unless the target is an undestroyed corpse (stored health at or
/// below zero), on which even a zero hit triggers the death cascade.
pub proof fn lemma_damage_zero_is_noop(w: WorldModel, source: usize, target: usize, depth: u64)
    requires
        model_wf(w),
        depth < MAX_STACK_DEPTH,
        w.healths.dom().contains(target) ==> w.healths[target].current > 0,
    ensures
        spec_perform(w, ActionV::Damage { amount: 0 }, source, target, depth) == (w, true),
{
    if w.armors.dom().contains(target) {
        assert(lose_armor(w.armors[target], 0) == w.armors[target]);
        assert(w.armors.insert(target, lose_armor(w.armors[target], 0)) =~= w.armors);
    }
    let w1 = if w.armors.dom().contains(target) {
        WorldModel { armors: w.armors.insert(target, lose_armor(w.armors[target], 0)), ..w }
    } else {
        w
    };
    assert(w1 == w);
    if w.healths.dom().contains(target) {
        let new_health = crate::systems::lose_health(w.healths[target], 0);
        assert(new_health == w.healths[target]);
        assert(w.healths.insert(target, new_health) =~= w.healths);
        let w2 = WorldModel { healths: w.healths.insert(target, new_health), ..w };
        assert(w2 == w);
    }
}

/// A completed destroy leaves the target absent from every component store.
pub proof fn lemma_destroy_purges(w: WorldModel, source: usize, target: usize, depth: u64)
    requires
        model_wf(w),
        spec_perform(w, ActionV::Destroy, source, target, depth).1,
    ensures
        !spec_perform(w, ActionV::Destroy, source, target, depth).0.allegiances.dom().contains(
            target,
        ),
        !spec_perform(w, ActionV::Destroy, source, target, depth).0.armors.dom().contains(target),
        !spec_perform(w, ActionV::Destroy, source, target, depth).0.healths.dom().contains(target),
        !spec_perform(w, ActionV::Destroy, source, target, depth).0.positions.dom().contains(
            target,
        ),
        forall|i: int|
            0 <= i < spec_perform(w, ActionV::Destroy, source, target, depth).0.reactions.len()
                ==> (#[trigger] spec_perform(
                w,
                ActionV::Destroy,
                source,
                target,
                depth,
            ).0.reactions[i]).0 != target,
{
    lemma_emit_wf(w, Event::BeforeDestroy, source, target, depth);
    let (w1, ok) = spec_emit(w, Event::BeforeDestroy, source, target, depth);
    let w2 = purge_model(w1, target);
    lemma_remove_key(w1.reactions, target);
    lemma_map_of_contains(remove_key(w1.reactions, target), target);
    assert forall|i: int| 0 <= i < w2.reactions.len()
        implies (#[trigger] w2.reactions[i]).0 != target by {
        if w2.reactions[i].0 == target {
            assert(map_of(w2.reactions).dom().contains(target));
            assert(map_of(w1.reactions).remove(target).dom().contains(target));
        }
    }
}

/// An entity absent from every store is matched by no query: resolution can
/// only return entities present in some constraining dimension.
pub proof fn lemma_absent_entity_not_in_query(
    w: WorldModel,
    af: FilterV<Allegiance>,
    pf: FilterV<Position>,
    entity: usize,
)
    requires
        !(af is Ignore && pf is Ignore),
        !w.allegiances.dom().contains(entity),
        !w.positions.dom().contains(entity),
    ensures
        !spec_resolve(w, af, pf).contains(entity),
{
}

/// Query round-trip: after spawning an entity with a given allegiance, an
/// allegiance inclusion query matches exactly what it matched before, plus
/// the fresh entity precisely when its allegiance is one of the included
/// values.
pub proof fn lemma_spawn_query_roundtrip(
    w: WorldModel,
    allegiance: Allegiance,
    armor: Option<Armor>,
    health: Option<Health>,
    position: Option<Position>,
    reactions: Seq<Reaction>,
    values: Seq<Allegiance>,
)
    ensures
        spec_resolve(
            spawn_model(w, Some(allegiance), armor, health, position, reactions),
            FilterV::Include(values),
            FilterV::Ignore,
        ) == if values.contains(allegiance) {
            spec_resolve(w, FilterV::Include(values), FilterV::Ignore).insert(w.next_id)
        } else {
            spec_resolve(w, FilterV::Include(values), FilterV::Ignore).remove(w.next_id)
        },
{
    let w1 = spawn_model(w, Some(allegiance), armor, health, position, reactions);
    let before = spec_resolve(w, FilterV::Include(values), FilterV::Ignore);
    let after = spec_resolve(w1, FilterV::Include(values), FilterV::Ignore);
    if values.contains(allegiance) {
        assert(after =~= before.insert(w.next_id));
    } else {
        assert(after =~= before.remove(w.next_id));
    }
}

/// A mover never triggers its own opportunity attack: when the reactor is
/// the moved entity itself, the differing-allegiance test fails and the
/// reaction has no effect.
pub proof fn lemma_no_self_opportunity_attack(
    w: WorldModel,
    from_position: Position,
    source: usize,
    mover: usize,
    damage_amount: i64,
    depth: u64,
)
    requires
        depth < MAX_STACK_DEPTH,
    ensures
        spec_handle(
            w,
            Event::AfterMove { from_position },
            source,
            mover,
            mover,
            Reaction::OpportunityAttack { damage_amount },
            depth,
        ) == (w, true),
{
}

/// The recursion guard: a dispatch at or beyond the depth limit aborts
/// without touching the world.
pub proof fn lemma_recursion_guard(
    w: WorldModel,
    action: ActionV,
    source: usize,
    target: usize,
    depth: u64,
)
    requires
        depth >= MAX_STACK_DEPTH,
    ensures
        spec_perform(w, action, source, target, depth) == (w, false),
{
}

} // verus!
