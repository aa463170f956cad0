//! Armor: a non-negative-clamped integer shield. Damage is routed through it
//! first; whatever it cannot absorb is returned as overflow.

use vstd::prelude::*;

verus! {

use crate::EntityId;
use crate::notification::Notification;
use crate::notification::NotificationHandler;
use crate::store::ComponentMap;

/// An armor component: `current` never goes negative.
#[derive(Clone, Copy, PartialEq, Eq, Structural, Debug)]
pub struct Armor {
    pub current: i64,
}

/// Armor after gaining `amount` (non-negative), saturating at the machine
/// bound since there is no upper clamp in the domain.
pub open spec fn gain_armor(a: Armor, amount: i64) -> Armor {
    Armor {
        current: if a.current + amount > i64::MAX {
            i64::MAX
        } else {
            (a.current + amount) as i64
        },
    }
}

/// Armor after losing `amount`: clamped at zero from below; a negative
/// `amount` grows the armor, saturating at the machine bound.
pub open spec fn lose_armor(a: Armor, amount: i64) -> Armor {
    Armor {
        current: if amount >= 0 {
            if amount > a.current {
                0
            } else {
                (a.current - amount) as i64
            }
        } else {
            if a.current - amount > i64::MAX {
                i64::MAX
            } else {
                (a.current - amount) as i64
            }
        },
    }
}

/// The damage that passes through armor to health: the part of `amount` that
/// the armor could not absorb.
pub open spec fn lose_armor_overflow(a: Armor, amount: i64) -> i64 {
    if amount >= 0 && amount > a.current {
        (amount - a.current) as i64
    } else {
        0
    }
}

pub struct ArmorSystem<H> {
    pub notification_handler: H,
    pub armor_map: ComponentMap<Armor>,
}

impl<H: NotificationHandler> ArmorSystem<H> {
    /// The mapping from entity id to its armor.
    pub open spec fn m(&self) -> Map<usize, Armor> {
        self.armor_map.m()
    }

    pub open spec fn wf(&self) -> bool {
        &&& self.armor_map.wf()
        &&& forall|e: usize| #[trigger] self.m().dom().contains(e) ==> self.m()[e].current >= 0
    }

    pub fn new(notification_handler: H) -> (r: Self)
        ensures
            r.wf(),
            r.m() == Map::<usize, Armor>::empty(),
    {
        ArmorSystem { notification_handler, armor_map: ComponentMap::new() }
    }

    pub fn get(&self, entity: &EntityId) -> (r: Option<&Armor>)
        requires
            self.wf(),
        ensures
            match r {
                Some(a) => self.m().dom().contains(entity.0) && *a == self.m()[entity.0],
                None => !self.m().dom().contains(entity.0),
            },
    {
        self.armor_map.get(entity.0)
    }

    /// Increase the target's armor; a no-op if it has none.
    pub fn gain(&mut self, entity: EntityId, amount: i64)
        requires
            old(self).wf(),
            amount >= 0,
        ensures
            final(self).wf(),
            final(self).m() == if old(self).m().dom().contains(entity.0) {
                old(self).m().insert(entity.0, gain_armor(old(self).m()[entity.0], amount))
            } else {
                old(self).m()
            },
    {
        let current = match self.armor_map.get(entity.0) {
            Some(armor) => armor.current,
            None => {
                return ;
            },
        };
        proof {
            assert(old(self).m().dom().contains(entity.0));
            assert(current >= 0);
        }
        let updated = Armor {
            current: if amount <= i64::MAX - current {
                current + amount
            } else {
                i64::MAX
            },
        };
        self.armor_map.insert(entity.0, updated);
        proof {
            assert forall|e: usize| #[trigger] self.m().dom().contains(e)
                implies self.m()[e].current >= 0 by {
                if e != entity.0 {
                    assert(old(self).m().dom().contains(e));
                }
            }
        }
        self.notification_handler.notify(entity, &Notification::ChangeArmor(Some(updated)));
    }

    /// Decrease the target's armor, clamping at zero; returns the overflow
    /// damage that passes through to health, or nothing if the target has no
    /// armor.
    pub fn lose(&mut self, entity: EntityId, amount: i64) -> (r: Option<i64>)
        requires
            old(self).wf(),
        ensures
            final(self).wf(),
            match r {
                Some(overflow) => old(self).m().dom().contains(entity.0)
                    && overflow == lose_armor_overflow(old(self).m()[entity.0], amount)
                    && final(self).m() == old(self).m().insert(
                        entity.0,
                        lose_armor(old(self).m()[entity.0], amount),
                    ),
                None => !old(self).m().dom().contains(entity.0)
                    && final(self).m() == old(self).m(),
            },
    {
        let current = match self.armor_map.get(entity.0) {
            Some(armor) => armor.current,
            None => {
                return None;
            },
        };
        proof {
            assert(old(self).m().dom().contains(entity.0));
            assert(current >= 0);
        }
        let (updated, overflow) = if amount >= 0 {
            if amount > current {
                (Armor { current: 0 }, amount - current)
            } else {
                (Armor { current: current - amount }, 0)
            }
        } else {
            let wide: i128 = current as i128 - amount as i128;
            let clamped = if wide > i64::MAX as i128 {
                i64::MAX
            } else {
                wide as i64
            };
            (Armor { current: clamped }, 0)
        };
        self.armor_map.insert(entity.0, updated);
        proof {
            assert forall|e: usize| #[trigger] self.m().dom().contains(e)
                implies self.m()[e].current >= 0 by {
                if e != entity.0 {
                    assert(old(self).m().dom().contains(e));
                }
            }
        }
        self.notification_handler.notify(entity, &Notification::ChangeArmor(Some(updated)));
        Some(overflow)
    }

    pub fn insert(&mut self, entity: EntityId, armor: Armor)
        requires
            old(self).wf(),
            armor.current >= 0,
        ensures
            final(self).wf(),
            final(self).m() == old(self).m().insert(entity.0, armor),
    {
        self.armor_map.insert(entity.0, armor);
        proof {
            assert forall|e: usize| #[trigger] self.m().dom().contains(e)
                implies self.m()[e].current >= 0 by {
                if e != entity.0 {
                    assert(old(self).m().dom().contains(e));
                }
            }
        }
    }

    pub fn remove(&mut self, entity: &EntityId)
        requires
            old(self).wf(),
        ensures
            final(self).wf(),
            final(self).m() == old(self).m().remove(entity.0),
    {
        self.armor_map.remove(entity.0);
        proof {
            assert forall|e: usize| #[trigger] self.m().dom().contains(e)
                implies self.m()[e].current >= 0 by {
                assert(old(self).m().dom().contains(e));
            }
        }
    }
}

} // verus!
