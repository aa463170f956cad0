//! The mathematical model of a world and of the dispatch engine: the state
//! the contracts speak of, and a recursive interpreter giving the exact
//! meaning of every action, event broadcast and reaction, including the
//! recursion guard.

use vstd::prelude::*;

verus! {

use crate::action::ActionV;
use crate::entity_query::FilterV;
use crate::entity_set::ENTITY_CAP;
use crate::event::Event;
use crate::store::insert_key;
use crate::store::remove_key;
use crate::store::unique_keys;
use crate::systems::Allegiance;
use crate::systems::Armor;
use crate::systems::Health;
use crate::systems::Position;
use crate::systems::Reaction;
use crate::systems::gain_armor;
use crate::systems::lose_armor;
use crate::systems::lose_armor_overflow;
use crate::systems::lose_health;
use crate::systems::rlist_wf;

/// The recursion guard: a dispatch at this depth or beyond aborts instead of
/// re-entering, breaking misconfigured reaction cycles.
pub const MAX_STACK_DEPTH: u64 = 16;

/// The abstract state of a world: the five stores and the id allocator. The
/// reaction store keeps its iteration order, which event broadcasts follow.
pub struct WorldModel {
    pub next_id: usize,
    pub allegiances: Map<usize, Allegiance>,
    pub armors: Map<usize, Armor>,
    pub healths: Map<usize, Health>,
    pub positions: Map<usize, Position>,
    pub reactions: Seq<(usize, Seq<Reaction>)>,
}

/// The state of a freshly constructed world: empty stores, ids from 1 (id 0
/// stands for the world itself).
pub open spec fn empty_model() -> WorldModel {
    WorldModel {
        next_id: 1usize,
        allegiances: Map::empty(),
        armors: Map::empty(),
        healths: Map::empty(),
        positions: Map::empty(),
        reactions: Seq::empty(),
    }
}

/// The store invariants: armor never negative, reaction lists non-empty and
/// well formed with distinct reactors, indexed entities within the query
/// index capacity.
pub open spec fn model_wf(w: WorldModel) -> bool {
    &&& forall|e: usize| #[trigger] w.armors.dom().contains(e) ==> w.armors[e].current >= 0
    &&& unique_keys(w.reactions)
    &&& forall|i: int| 0 <= i < w.reactions.len() ==> (#[trigger] w.reactions[i]).1.len() > 0
        && rlist_wf(w.reactions[i].1)
    &&& forall|e: usize| #[trigger] w.allegiances.dom().contains(e) ==> e < ENTITY_CAP
    &&& forall|e: usize| #[trigger] w.positions.dom().contains(e) ==> e < ENTITY_CAP
}

/// What an action demands of the caller: a spawn must have room for a fresh
/// id and hand over valid components; an armor gain is non-negative.
pub open spec fn action_ok(a: ActionV, w: WorldModel) -> bool {
    match a {
        ActionV::Spawn { armor, reactions, .. } => {
            &&& w.next_id < ENTITY_CAP
            &&& (armor matches Some(ar) ==> ar.current >= 0)
            &&& rlist_wf(reactions)
        },
        ActionV::GainArmor { amount } => amount >= 0,
        _ => true,
    }
}

/// The world after destroying `target`: removed from every store, as one
/// logical step.
pub open spec fn purge_model(w: WorldModel, target: usize) -> WorldModel {
    WorldModel {
        next_id: w.next_id,
        allegiances: w.allegiances.remove(target),
        armors: w.armors.remove(target),
        healths: w.healths.remove(target),
        positions: w.positions.remove(target),
        reactions: remove_key(w.reactions, target),
    }
}

/// The world after spawning an entity with the given optional components:
/// the fresh id is the old allocator value; an empty reaction list is not
/// stored.
pub open spec fn spawn_model(
    w: WorldModel,
    allegiance: Option<Allegiance>,
    armor: Option<Armor>,
    health: Option<Health>,
    position: Option<Position>,
    reactions: Seq<Reaction>,
) -> WorldModel {
    let id = w.next_id;
    WorldModel {
        next_id: (w.next_id + 1) as usize,
        allegiances: match allegiance {
            Some(a) => w.allegiances.insert(id, a),
            None => w.allegiances,
        },
        armors: match armor {
            Some(a) => w.armors.insert(id, a),
            None => w.armors,
        },
        healths: match health {
            Some(h) => w.healths.insert(id, h),
            None => w.healths,
        },
        positions: match position {
            Some(p) => w.positions.insert(id, p),
            None => w.positions,
        },
        reactions: if reactions.len() == 0 {
            w.reactions
        } else {
            insert_key(w.reactions, id, reactions)
        },
    }
}

/// Orders the mutual recursion of the interpreter: a damage that kills
/// re-enters with a destroy at the same depth, so destroy ranks below the
/// other actions.
pub open spec fn action_rank(a: ActionV) -> int {
    match a {
        ActionV::Destroy => 1,
        _ => 2,
    }
}

/// The meaning of one dispatched action: the world after it, and whether the
/// whole cascade completed (`false`: the recursion guard aborted it; the
/// mutations applied so far are kept).
pub open spec fn spec_perform(
    w: WorldModel,
    action: ActionV,
    source: usize,
    target: usize,
    depth: u64,
) -> (WorldModel, bool)
    decreases MAX_STACK_DEPTH - depth, action_rank(action), 3int, 0int, 0int, 0int,
{
    if depth >= MAX_STACK_DEPTH {
        (w, false)
    } else {
        match action {
            ActionV::Spawn { allegiance, armor, health, position, reactions } => (
                spawn_model(w, allegiance, armor, health, position, reactions),
                true,
            ),
            ActionV::Destroy => {
                let (w1, ok) = spec_emit(w, Event::BeforeDestroy, source, target, depth);
                if !ok {
                    (w1, false)
                } else {
                    (purge_model(w1, target), true)
                }
            },
            ActionV::Move { to_position } => {
                if !w.positions.dom().contains(target) {
                    (w, true)
                } else {
                    let from_position = w.positions[target];
                    let w1 = WorldModel { positions: w.positions.insert(target, to_position), ..w };
                    spec_emit(w1, Event::AfterMove { from_position }, source, target, depth)
                }
            },
            ActionV::Damage { amount } => {
                let (w1, overflow) = if w.armors.dom().contains(target) {
                    (
                        WorldModel {
                            armors: w.armors.insert(target, lose_armor(w.armors[target], amount)),
                            ..w
                        },
                        lose_armor_overflow(w.armors[target], amount),
                    )
                } else {
                    (w, amount)
                };
                if !w1.healths.dom().contains(target) {
                    (w1, true)
                } else {
                    let new_health = lose_health(w1.healths[target], overflow);
                    let w2 = WorldModel { healths: w1.healths.insert(target, new_health), ..w1 };
                    let (w3, ok) = if overflow > 0 {
                        spec_emit(w2, Event::AfterDamage, source, target, depth)
                    } else {
                        (w2, true)
                    };
                    if !ok {
                        (w3, false)
                    } else if new_health.current <= 0 {
                        spec_perform(w3, ActionV::Destroy, source, target, depth)
                    } else {
                        (w3, true)
                    }
                }
            },
            ActionV::GainArmor { amount } => {
                if w.armors.dom().contains(target) {
                    (
                        WorldModel {
                            armors: w.armors.insert(target, gain_armor(w.armors[target], amount)),
                            ..w
                        },
                        true,
                    )
                } else {
                    (w, true)
                }
            },
        }
    }
}

/// The meaning of broadcasting an event: every (reactor, reaction) pair of
/// the snapshot taken at this moment is evaluated in order.
pub open spec fn spec_emit(
    w: WorldModel,
    event: Event,
    source: usize,
    target: usize,
    depth: u64,
) -> (WorldModel, bool)
    decreases MAX_STACK_DEPTH - depth, 1int, 2int, 0int, 0int, 0int,
{
    spec_emit_pairs(w, w.reactions, event, source, target, depth, 0)
}

/// The broadcast from snapshot entry `i` on.
pub open spec fn spec_emit_pairs(
    w: WorldModel,
    snapshot: Seq<(usize, Seq<Reaction>)>,
    event: Event,
    source: usize,
    target: usize,
    depth: u64,
    i: int,
) -> (WorldModel, bool)
    decreases MAX_STACK_DEPTH - depth, 1int, 1int, snapshot.len() - i, 0int, 0int,
{
    if i < 0 || i >= snapshot.len() {
        (w, true)
    } else {
        let (w1, ok) = spec_emit_list(
            w,
            snapshot[i].0,
            snapshot[i].1,
            event,
            source,
            target,
            depth,
            0,
        );
        if !ok {
            (w1, false)
        } else {
            spec_emit_pairs(w1, snapshot, event, source, target, depth, i + 1)
        }
    }
}

/// One reactor's list from reaction `j` on.
pub open spec fn spec_emit_list(
    w: WorldModel,
    reactor: usize,
    list: Seq<Reaction>,
    event: Event,
    source: usize,
    target: usize,
    depth: u64,
    j: int,
) -> (WorldModel, bool)
    decreases MAX_STACK_DEPTH - depth, 1int, 1int, 0int, list.len() - j, 0int,
{
    if j < 0 || j >= list.len() {
        (w, true)
    } else {
        let (w1, ok) = spec_handle(w, event, source, target, reactor, list[j], depth);
        if !ok {
            (w1, false)
        } else {
            spec_emit_list(w1, reactor, list, event, source, target, depth, j + 1)
        }
    }
}

/// The meaning of one (event, reaction) pair: the trigger predicate, and on
/// fire the re-entered action at depth + 1.
pub open spec fn spec_handle(
    w: WorldModel,
    event: Event,
    source: usize,
    target: usize,
    reactor: usize,
    reaction: Reaction,
    depth: u64,
) -> (WorldModel, bool)
    decreases MAX_STACK_DEPTH - depth, 1int, 0int, 0int, 0int, 0int,
{
    if depth >= MAX_STACK_DEPTH {
        (w, false)
    } else {
        match (event, reaction) {
            (
                Event::AfterMove { from_position },
                Reaction::OpportunityAttack { damage_amount },
            ) => {
                if !w.allegiances.dom().contains(reactor) {
                    (w, true)
                } else if !w.allegiances.dom().contains(target) {
                    (w, true)
                } else if w.allegiances[target] == w.allegiances[reactor] {
                    (w, true)
                } else if !w.positions.dom().contains(reactor) {
                    (w, true)
                } else if w.positions[reactor] != from_position {
                    (w, true)
                } else {
                    spec_perform(
                        w,
                        ActionV::Damage { amount: damage_amount },
                        reactor,
                        target,
                        (depth + 1) as u64,
                    )
                }
            },
            (Event::AfterDamage, Reaction::Reinforce { armor_amount }) => {
                if target != reactor {
                    (w, true)
                } else {
                    spec_perform(
                        w,
                        ActionV::GainArmor { amount: armor_amount },
                        reactor,
                        reactor,
                        (depth + 1) as u64,
                    )
                }
            },
            (Event::BeforeDestroy, Reaction::Spite { damage_amount }) => {
                if target != reactor {
                    (w, true)
                } else {
                    spec_perform(
                        w,
                        ActionV::Damage { amount: damage_amount },
                        reactor,
                        source,
                        (depth + 1) as u64,
                    )
                }
            },
            _ => (w, true),
        }
    }
}

/// The entity set one filter dimension contributes: nothing for an ignored
/// dimension, the matching entities for an inclusion, all tracked entities
/// for an any-value demand. An empty inclusion list yields an empty set.
pub open spec fn contrib_allegiance(w: WorldModel, f: FilterV<Allegiance>) -> Option<Set<usize>> {
    match f {
        FilterV::Ignore => None,
        FilterV::Include(values) => Some(
            Set::new(
                |e: usize| w.allegiances.dom().contains(e) && values.contains(w.allegiances[e]),
            ),
        ),
        FilterV::Any => Some(w.allegiances.dom()),
    }
}

pub open spec fn contrib_position(w: WorldModel, f: FilterV<Position>) -> Option<Set<usize>> {
    match f {
        FilterV::Ignore => None,
        FilterV::Include(values) => Some(
            Set::new(|e: usize| w.positions.dom().contains(e) && values.contains(w.positions[e])),
        ),
        FilterV::Any => Some(w.positions.dom()),
    }
}

/// The entity set a query resolves to: the intersection of the contributing
/// dimensions. At least one dimension must contribute.
pub open spec fn spec_resolve(
    w: WorldModel,
    af: FilterV<Allegiance>,
    pf: FilterV<Position>,
) -> Set<usize> {
    match (contrib_allegiance(w, af), contrib_position(w, pf)) {
        (Some(x), Some(y)) => x.intersect(y),
        (Some(x), None) => x,
        (None, Some(y)) => y,
        (None, None) => Set::empty(),
    }
}

pub open spec fn strictly_sorted(s: Seq<usize>) -> bool {
    forall|i: int, j: int| 0 <= i < j < s.len() ==> s[i] < s[j]
}

/// The meaning of fanning an action out over a target list, from index `i`
/// on: each target is dispatched in turn; an abort stops the fan-out.
pub open spec fn spec_perform_targets(
    w: WorldModel,
    action: ActionV,
    source: usize,
    targets: Seq<usize>,
    depth: u64,
    i: int,
) -> (WorldModel, bool)
    decreases targets.len() - i,
{
    if i < 0 || i >= targets.len() {
        (w, true)
    } else {
        let (w1, ok) = spec_perform(w, action, source, targets[i], depth);
        if !ok {
            (w1, false)
        } else {
            spec_perform_targets(w1, action, source, targets, depth, i + 1)
        }
    }
}

} // verus!
