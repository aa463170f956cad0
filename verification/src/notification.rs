//! The notification side channel: an external owner may supply a handler at
//! construction time and mirror world state from the change descriptors it
//! receives. The world functions identically with or without a real handler;
//! `NoopHandler` is the no-op default.

use vstd::prelude::*;

verus! {

use crate::EntityId;
use crate::systems::Allegiance;
use crate::systems::Armor;
use crate::systems::Health;
use crate::systems::Position;
use crate::systems::Reaction;

/// A change descriptor handed to the notification handler after a mutation.
pub enum Notification {
    Spawn {
        allegiance: Option<Allegiance>,
        armor: Option<Armor>,
        health: Option<Health>,
        position: Option<Position>,
        reactions: Vec<Reaction>,
    },
    Destroy,
    ChangeAllegiance(Option<Allegiance>),
    ChangeArmor(Option<Armor>),
    ChangeHealth(Option<Health>),
    ChangePosition(Option<Position>),
    ChangeReactions(Vec<Reaction>),
}

/// An observer of component changes. It is called synchronously after each
/// mutation and receives only plain values, never the world itself, so it
/// cannot re-enter the mutation entry points.
pub trait NotificationHandler {
    fn notify(&mut self, entity: EntityId, notification: &Notification);
}

/// The default handler: ignores every notification.
#[derive(Clone, Copy)]
pub struct NoopHandler;

impl NotificationHandler for NoopHandler {
    fn notify(&mut self, _entity: EntityId, _notification: &Notification) {
    }
}

} // verus!
