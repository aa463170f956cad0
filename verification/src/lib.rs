//! A small entity-component engine for turn-based combat.
//!
//! Entities carry optional components (allegiance, armor, health, position,
//! reactions) and are mutated exclusively through actions. Actions may raise
//! events; events are broadcast to every entity holding a matching reaction,
//! which may itself trigger further actions, producing a bounded recursive
//! chain guarded by a stack-depth limit.

use vstd::prelude::*;

mod store;
mod entity_set;
mod notification;
mod systems;
mod action;
mod event;
mod entity_query;
mod model;
mod world;
mod laws;

pub use entity_set::EntitySet;
pub use entity_set::ENTITY_CAP;
pub use store::ComponentMap;
pub use store::map_of;
pub use store::insert_key;
pub use store::remove_key;
pub use store::unique_keys;
pub use notification::Notification;
pub use notification::NotificationHandler;
pub use notification::NoopHandler;
pub use systems::Allegiance;
pub use systems::AllegianceSystem;
pub use systems::Armor;
pub use systems::ArmorSystem;
pub use systems::Health;
pub use systems::HealthSystem;
pub use systems::Position;
pub use systems::PositionSystem;
pub use systems::Reaction;
pub use systems::ReactionSystem;
pub use systems::gain_armor;
pub use systems::lose_armor;
pub use systems::lose_armor_overflow;
pub use systems::lose_health;
pub use systems::sat_sub_i64;
pub use systems::reaction_wf;
pub use systems::rlist_wf;
pub use systems::pairs_deep;
pub use systems::clone_reactions;
pub use action::Action;
pub use action::ActionV;
pub use action::RecursionLimit;
pub use event::Event;
pub use entity_query::ComponentFilter;
pub use entity_query::EntityQuery;
pub use entity_query::FilterV;
pub use model::WorldModel;
pub use model::MAX_STACK_DEPTH;
pub use model::empty_model;
pub use model::model_wf;
pub use model::action_ok;
pub use model::action_rank;
pub use model::purge_model;
pub use model::spawn_model;
pub use model::spec_perform;
pub use model::spec_emit;
pub use model::spec_emit_pairs;
pub use model::spec_emit_list;
pub use model::spec_handle;
pub use model::contrib_allegiance;
pub use model::contrib_position;
pub use model::spec_resolve;
pub use model::strictly_sorted;
pub use model::spec_perform_targets;
pub use world::World;
pub use laws::lemma_armor_lose_never_negative;
pub use laws::lemma_perform_wf;
pub use laws::lemma_emit_wf;
pub use laws::lemma_emit_pairs_wf;
pub use laws::lemma_emit_list_wf;
pub use laws::lemma_handle_wf;
pub use laws::lemma_damage_zero_is_noop;
pub use laws::lemma_destroy_purges;
pub use laws::lemma_absent_entity_not_in_query;
pub use laws::lemma_spawn_query_roundtrip;
pub use laws::lemma_no_self_opportunity_attack;
pub use laws::lemma_recursion_guard;

verus! {

/// An opaque, densely allocated entity handle. Id 0 is reserved for the
/// world itself as a synthetic source or target of world-initiated actions.
#[derive(Clone, Copy, PartialEq, Eq, Structural, Hash, Debug)]
pub struct EntityId(pub usize);

/// The reserved sentinel id standing for the world itself.
pub const WORLD_ENTITY_ID: usize = 0;

} // verus!
