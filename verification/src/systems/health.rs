//! Health: `current` may go to zero or below, signaling death; `max` is
//! informational and never enforced as a clamp.

use vstd::prelude::*;

verus! {

use crate::EntityId;
use crate::notification::Notification;
use crate::notification::NotificationHandler;
use crate::store::ComponentMap;

/// A health component.
#[derive(Clone, Copy, PartialEq, Eq, Structural, Debug)]
pub struct Health {
    pub current: i64,
    pub max: i64,
}

/// Subtraction on the machine integers, saturating at both bounds.
pub open spec fn sat_sub_i64(c: i64, a: i64) -> i64 {
    if c - a > i64::MAX {
        i64::MAX
    } else if c - a < i64::MIN {
        i64::MIN
    } else {
        (c - a) as i64
    }
}

/// Health after losing `amount`: unclamped below zero in the domain sense,
/// saturating only at the machine bounds.
pub open spec fn lose_health(h: Health, amount: i64) -> Health {
    Health { current: sat_sub_i64(h.current, amount), max: h.max }
}

pub struct HealthSystem<H> {
    pub notification_handler: H,
    pub health_map: ComponentMap<Health>,
}

impl<H: NotificationHandler> HealthSystem<H> {
    /// The mapping from entity id to its health.
    pub open spec fn m(&self) -> Map<usize, Health> {
        self.health_map.m()
    }

    pub open spec fn wf(&self) -> bool {
        self.health_map.wf()
    }

    pub fn new(notification_handler: H) -> (r: Self)
        ensures
            r.wf(),
            r.m() == Map::<usize, Health>::empty(),
    {
        HealthSystem { notification_handler, health_map: ComponentMap::new() }
    }

    pub fn get(&self, entity: &EntityId) -> (r: Option<&Health>)
        requires
            self.wf(),
        ensures
            match r {
                Some(h) => self.m().dom().contains(entity.0) && *h == self.m()[entity.0],
                None => !self.m().dom().contains(entity.0),
            },
    {
        self.health_map.get(entity.0)
    }

    /// Decrease the target's health and report whether it is still alive
    /// (`current > 0`), or nothing if the target has no health.
    pub fn lose(&mut self, entity: EntityId, amount: i64) -> (r: Option<bool>)
        requires
            old(self).wf(),
        ensures
            final(self).wf(),
            match r {
                Some(is_alive) => old(self).m().dom().contains(entity.0)
                    && final(self).m() == old(self).m().insert(
                        entity.0,
                        lose_health(old(self).m()[entity.0], amount),
                    )
                    && is_alive == (lose_health(old(self).m()[entity.0], amount).current > 0),
                None => !old(self).m().dom().contains(entity.0)
                    && final(self).m() == old(self).m(),
            },
    {
        let health = match self.health_map.get(entity.0) {
            Some(health) => *health,
            None => {
                return None;
            },
        };
        let wide: i128 = health.current as i128 - amount as i128;
        let clamped = if wide > i64::MAX as i128 {
            i64::MAX
        } else if wide < i64::MIN as i128 {
            i64::MIN
        } else {
            wide as i64
        };
        let updated = Health { current: clamped, max: health.max };
        self.health_map.insert(entity.0, updated);
        self.notification_handler.notify(entity, &Notification::ChangeHealth(Some(updated)));
        Some(updated.current > 0)
    }

    pub fn insert(&mut self, entity: EntityId, health: Health)
        requires
            old(self).wf(),
        ensures
            final(self).wf(),
            final(self).m() == old(self).m().insert(entity.0, health),
    {
        self.health_map.insert(entity.0, health);
    }

    pub fn remove(&mut self, entity: &EntityId)
        requires
            old(self).wf(),
        ensures
            final(self).wf(),
            final(self).m() == old(self).m().remove(entity.0),
    {
        self.health_map.remove(entity.0);
    }
}

} // verus!
