use world::Allegiance;
use world::Armor;
use world::ArmorSystem;
use world::ComponentMap;
use world::EntityId;
use world::EntitySet;
use world::Health;
use world::HealthSystem;
use world::NoopHandler;
use world::Notification;
use world::NotificationHandler;
use world::Position;
use world::PositionSystem;
use world::World;

use std::cell::RefCell;
use std::rc::Rc;

#[test]
fn armor_lose_clamps_at_zero_and_returns_overflow() {
    let mut armor = ArmorSystem::new(NoopHandler);
    armor.insert(EntityId(1), Armor { current: 5 });
    assert_eq!(armor.lose(EntityId(1), 7), Some(2));
    assert_eq!(armor.get(&EntityId(1)), Some(&Armor { current: 0 }));
    assert_eq!(armor.lose(EntityId(1), 4), Some(4));
    assert_eq!(armor.get(&EntityId(1)), Some(&Armor { current: 0 }));
    assert_eq!(armor.lose(EntityId(2), 4), None);
}

#[test]
fn armor_lose_exact_remainder() {
    let mut armor = ArmorSystem::new(NoopHandler);
    armor.insert(EntityId(1), Armor { current: 9 });
    assert_eq!(armor.lose(EntityId(1), 4), Some(0));
    assert_eq!(armor.get(&EntityId(1)), Some(&Armor { current: 5 }));
}

#[test]
fn armor_lose_negative_amount_grows_armor() {
    let mut armor = ArmorSystem::new(NoopHandler);
    armor.insert(EntityId(1), Armor { current: 2 });
    assert_eq!(armor.lose(EntityId(1), -3), Some(0));
    assert_eq!(armor.get(&EntityId(1)), Some(&Armor { current: 5 }));
}

#[test]
fn armor_gain_saturates_at_the_machine_bound() {
    let mut armor = ArmorSystem::new(NoopHandler);
    armor.insert(EntityId(1), Armor { current: i64::MAX - 1 });
    armor.gain(EntityId(1), 10);
    assert_eq!(armor.get(&EntityId(1)), Some(&Armor { current: i64::MAX }));
}

#[test]
fn health_lose_may_go_negative_and_reports_life() {
    let mut health = HealthSystem::new(NoopHandler);
    health.insert(EntityId(1), Health { current: 2, max: 2 });
    assert_eq!(health.lose(EntityId(1), 1), Some(true));
    assert_eq!(health.lose(EntityId(1), 3), Some(false));
    assert_eq!(health.get(&EntityId(1)), Some(&Health { current: -2, max: 2 }));
    assert_eq!(health.lose(EntityId(9), 3), None);
}

#[test]
fn position_move_to_overwrites_only_present_entities() {
    let mut positions = PositionSystem::new(NoopHandler);
    positions.insert(EntityId(1), Position { x: 0, y: 0 });
    positions.move_to(EntityId(1), Position { x: 2, y: 3 });
    positions.move_to(EntityId(2), Position { x: 9, y: 9 });
    assert_eq!(positions.position(&EntityId(1)), Some(&Position { x: 2, y: 3 }));
    assert_eq!(positions.position(&EntityId(2)), None);
}

#[test]
fn position_entities_with_values() {
    let mut positions = PositionSystem::new(NoopHandler);
    positions.insert(EntityId(1), Position { x: 0, y: 0 });
    positions.insert(EntityId(2), Position { x: 1, y: 0 });
    positions.insert(EntityId(3), Position { x: 0, y: 0 });
    let matching = positions.entities(&[Position { x: 0, y: 0 }]);
    let ids: Vec<usize> = matching.to_vec().into_iter().map(|e| e.0).collect();
    assert_eq!(ids, vec![1, 3]);
    let nothing = positions.entities(&[]);
    assert!(nothing.to_vec().is_empty());
}

#[test]
fn component_map_overwrites_and_removes() {
    let mut map: ComponentMap<Allegiance> = ComponentMap::new();
    map.insert(7, Allegiance::Player);
    map.insert(7, Allegiance::Golem);
    assert_eq!(map.get(7), Some(&Allegiance::Golem));
    assert_eq!(map.len(), 1);
    map.remove(7);
    assert_eq!(map.get(7), None);
    assert!(!map.contains_key(7));
}

#[test]
fn entity_set_iterates_in_ascending_order() {
    let mut set = EntitySet::new();
    set.insert(&EntityId(5));
    set.insert(&EntityId(1));
    set.insert(&EntityId(3));
    set.insert(&EntityId(3));
    let ids: Vec<usize> = set.to_vec().into_iter().map(|e| e.0).collect();
    assert_eq!(ids, vec![1, 3, 5]);
    assert!(set.remove(&EntityId(3)));
    assert!(!set.remove(&EntityId(3)));
    let ids: Vec<usize> = set.to_vec().into_iter().map(|e| e.0).collect();
    assert_eq!(ids, vec![1, 5]);
}

#[test]
fn entity_set_intersection_ignores_unconstrained_entries() {
    let mut a = EntitySet::new();
    a.insert(&EntityId(1));
    a.insert(&EntityId(2));
    a.insert(&EntityId(4));
    let mut b = EntitySet::new();
    b.insert(&EntityId(2));
    b.insert(&EntityId(3));
    b.insert(&EntityId(4));
    let both = EntitySet::intersection(&[Some(&a), Some(&b)]);
    let ids: Vec<usize> = both.to_vec().into_iter().map(|e| e.0).collect();
    assert_eq!(ids, vec![2, 4]);
    let only_a = EntitySet::intersection(&[Some(&a), None]);
    let ids: Vec<usize> = only_a.to_vec().into_iter().map(|e| e.0).collect();
    assert_eq!(ids, vec![1, 2, 4]);
}

#[derive(Clone)]
struct CountingHandler {
    hits: Rc<RefCell<usize>>,
}

impl NotificationHandler for CountingHandler {
    fn notify(&mut self, _entity: EntityId, _notification: &Notification) {
        *self.hits.borrow_mut() += 1;
    }
}

#[test]
fn notifications_reach_the_supplied_handler() {
    let hits = Rc::new(RefCell::new(0usize));
    let mut w = World::new(CountingHandler { hits: Rc::clone(&hits) });
    let id = w.spawn(
        None,
        Some(Armor { current: 1 }),
        Some(Health { current: 5, max: 5 }),
        None,
        Vec::new(),
    );
    let spawned = *hits.borrow();
    assert!(spawned >= 1);
    let r = w.perform(world::Action::Damage { amount: 1 }, EntityId(0), id, 0);
    assert_eq!(r, Ok(()));
    assert!(*hits.borrow() > spawned);
}
