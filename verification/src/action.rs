//! Actions: the closed set of requested mutations. An action is applied to a
//! (source, target) pair by the dispatcher and may raise an event after it
//! applies.

use vstd::prelude::*;

verus! {

use crate::systems::Allegiance;
use crate::systems::Armor;
use crate::systems::Health;
use crate::systems::Position;
use crate::systems::Reaction;
use crate::systems::clone_reactions;

/// A requested mutation, applied to a target on behalf of a source.
pub enum Action {
    Spawn {
        allegiance: Option<Allegiance>,
        armor: Option<Armor>,
        health: Option<Health>,
        position: Option<Position>,
        reactions: Vec<Reaction>,
    },
    Destroy,
    Move { to_position: Position },
    Damage { amount: i64 },
    GainArmor { amount: i64 },
}

/// The abstract value of an action: a spawn's reaction list as a sequence.
pub enum ActionV {
    Spawn {
        allegiance: Option<Allegiance>,
        armor: Option<Armor>,
        health: Option<Health>,
        position: Option<Position>,
        reactions: Seq<Reaction>,
    },
    Destroy,
    Move { to_position: Position },
    Damage { amount: i64 },
    GainArmor { amount: i64 },
}

impl View for Action {
    type V = ActionV;

    open spec fn view(&self) -> ActionV {
        match self {
            Action::Spawn { allegiance, armor, health, position, reactions } => ActionV::Spawn {
                allegiance: *allegiance,
                armor: *armor,
                health: *health,
                position: *position,
                reactions: reactions@,
            },
            Action::Destroy => ActionV::Destroy,
            Action::Move { to_position } => ActionV::Move { to_position: *to_position },
            Action::Damage { amount } => ActionV::Damage { amount: *amount },
            Action::GainArmor { amount } => ActionV::GainArmor { amount: *amount },
        }
    }
}

impl Clone for Action {
    fn clone(&self) -> (r: Self)
        ensures
            r@ == self@,
    {
        match self {
            Action::Spawn { allegiance, armor, health, position, reactions } => Action::Spawn {
                allegiance: *allegiance,
                armor: *armor,
                health: *health,
                position: *position,
                reactions: clone_reactions(reactions),
            },
            Action::Destroy => Action::Destroy,
            Action::Move { to_position } => Action::Move { to_position: *to_position },
            Action::Damage { amount } => Action::Damage { amount: *amount },
            Action::GainArmor { amount } => Action::GainArmor { amount: *amount },
        }
    }
}

/// The error of an aborted dispatch: the recursion depth limit was exceeded,
/// which signals a misconfigured reaction cycle. Mutations already applied
/// are kept; the chain merely stops propagating.
#[derive(Clone, Copy, PartialEq, Eq, Structural, Debug)]
pub struct RecursionLimit;

} // verus!
