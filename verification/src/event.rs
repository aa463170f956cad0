//! Events: facts broadcast after an action commits, consumed by reactions.

use vstd::prelude::*;

verus! {

use crate::systems::Position;

/// A fact broadcast after an action commits. A move carries the prior
/// position, which opportunity-attack predicates depend on.
#[derive(Clone, Copy, PartialEq, Eq, Structural, Debug)]
pub enum Event {
    AfterMove { from_position: Position },
    AfterDamage,
    BeforeDestroy,
}

} // verus!
