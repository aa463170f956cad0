use world::Action;
use world::Allegiance;
use world::Armor;
use world::ComponentFilter;
use world::EntityId;
use world::EntityQuery;
use world::Health;
use world::NoopHandler;
use world::Position;
use world::Reaction;
use world::RecursionLimit;
use world::World;
use world::WORLD_ENTITY_ID;

fn new_world() -> World<NoopHandler> {
    World::new(NoopHandler)
}

#[test]
fn spawn_allocates_sequential_ids() {
    let mut w = new_world();
    let a = w.spawn(Some(Allegiance::Player), None, None, None, Vec::new());
    let b = w.spawn(Some(Allegiance::Golem), None, None, None, Vec::new());
    assert_eq!(a, EntityId(1));
    assert_eq!(b, EntityId(2));
    assert_ne!(a.0, WORLD_ENTITY_ID);
    assert_eq!(w.allegiance(a), Some(Allegiance::Player));
    assert_eq!(w.allegiance(b), Some(Allegiance::Golem));
    assert_eq!(w.armor(a), None);
}

#[test]
fn spawn_action_through_perform() {
    let mut w = new_world();
    let r = w.perform(
        Action::Spawn {
            allegiance: Some(Allegiance::Player),
            armor: Some(Armor { current: 5 }),
            health: Some(Health { current: 10, max: 10 }),
            position: Some(Position { x: 0, y: 0 }),
            reactions: vec![Reaction::OpportunityAttack { damage_amount: 10 }],
        },
        EntityId(WORLD_ENTITY_ID),
        EntityId(WORLD_ENTITY_ID),
        0,
    );
    assert_eq!(r, Ok(()));
    let id = EntityId(1);
    assert_eq!(w.armor(id), Some(Armor { current: 5 }));
    assert_eq!(w.health(id), Some(Health { current: 10, max: 10 }));
    assert_eq!(w.position(id), Some(Position { x: 0, y: 0 }));
    let reactions = w.reactions(id).expect("reaction list stored");
    assert_eq!(reactions, vec![Reaction::OpportunityAttack { damage_amount: 10 }]);
}

#[test]
fn empty_reaction_list_is_not_stored() {
    let mut w = new_world();
    let id = w.spawn(None, None, None, None, Vec::new());
    assert!(w.reactions(id).is_none());
}

#[test]
fn deal_zero_damage_changes_nothing() {
    let mut w = new_world();
    let id = w.spawn(
        None,
        Some(Armor { current: 2 }),
        Some(Health { current: 3, max: 3 }),
        None,
        vec![Reaction::Reinforce { armor_amount: 3 }],
    );
    let r = w.perform(Action::Damage { amount: 0 }, EntityId(WORLD_ENTITY_ID), id, 0);
    assert_eq!(r, Ok(()));
    assert_eq!(w.armor(id), Some(Armor { current: 2 }));
    assert_eq!(w.health(id), Some(Health { current: 3, max: 3 }));
}

#[test]
fn damage_routes_through_armor_to_health() {
    let mut w = new_world();
    let id = w.spawn(
        None,
        Some(Armor { current: 5 }),
        Some(Health { current: 10, max: 10 }),
        None,
        Vec::new(),
    );
    let r = w.perform(Action::Damage { amount: 7 }, EntityId(WORLD_ENTITY_ID), id, 0);
    assert_eq!(r, Ok(()));
    assert_eq!(w.armor(id), Some(Armor { current: 0 }));
    assert_eq!(w.health(id), Some(Health { current: 8, max: 10 }));
}

#[test]
fn damage_without_health_stops_after_armor() {
    let mut w = new_world();
    let id = w.spawn(None, Some(Armor { current: 3 }), None, None, Vec::new());
    let r = w.perform(Action::Damage { amount: 10 }, EntityId(WORLD_ENTITY_ID), id, 0);
    assert_eq!(r, Ok(()));
    assert_eq!(w.armor(id), Some(Armor { current: 0 }));
    assert_eq!(w.health(id), None);
}

#[test]
fn gain_armor_has_no_upper_clamp() {
    let mut w = new_world();
    let id = w.spawn(None, Some(Armor { current: 1 }), None, None, Vec::new());
    let r = w.perform(Action::GainArmor { amount: 41 }, id, id, 0);
    assert_eq!(r, Ok(()));
    assert_eq!(w.armor(id), Some(Armor { current: 42 }));
}

#[test]
fn gain_armor_without_armor_is_noop() {
    let mut w = new_world();
    let id = w.spawn(None, None, Some(Health { current: 1, max: 1 }), None, Vec::new());
    let r = w.perform(Action::GainArmor { amount: 5 }, id, id, 0);
    assert_eq!(r, Ok(()));
    assert_eq!(w.armor(id), None);
    assert_eq!(w.health(id), Some(Health { current: 1, max: 1 }));
}

#[test]
fn move_without_position_is_noop() {
    let mut w = new_world();
    let id = w.spawn(Some(Allegiance::Player), None, None, None, Vec::new());
    let r = w.perform(Action::Move { to_position: Position { x: 1, y: 1 } }, id, id, 0);
    assert_eq!(r, Ok(()));
    assert_eq!(w.position(id), None);
}

#[test]
fn destroy_purges_every_store() {
    let mut w = new_world();
    let id = w.spawn(
        Some(Allegiance::Golem),
        Some(Armor { current: 1 }),
        Some(Health { current: 2, max: 2 }),
        Some(Position { x: 3, y: 4 }),
        vec![Reaction::Reinforce { armor_amount: 1 }],
    );
    let r = w.perform(Action::Destroy, EntityId(WORLD_ENTITY_ID), id, 0);
    assert_eq!(r, Ok(()));
    assert_eq!(w.allegiance(id), None);
    assert_eq!(w.armor(id), None);
    assert_eq!(w.health(id), None);
    assert_eq!(w.position(id), None);
    assert!(w.reactions(id).is_none());
}

#[test]
fn destroyed_entity_is_not_matched_by_queries() {
    let mut w = new_world();
    let gone = w.spawn(
        Some(Allegiance::Golem),
        None,
        Some(Health { current: 5, max: 5 }),
        Some(Position { x: 0, y: 0 }),
        Vec::new(),
    );
    let kept = w.spawn(
        Some(Allegiance::Golem),
        None,
        Some(Health { current: 5, max: 5 }),
        Some(Position { x: 0, y: 0 }),
        Vec::new(),
    );
    let r = w.perform(Action::Destroy, EntityId(WORLD_ENTITY_ID), gone, 0);
    assert_eq!(r, Ok(()));
    let query = EntityQuery {
        allegiance_filter: ComponentFilter::Include(&[Allegiance::Golem]),
        position_filter: ComponentFilter::Ignore,
    };
    let r = w.perform_with_query(Action::Damage { amount: 1 }, EntityId(WORLD_ENTITY_ID), query, 0);
    assert_eq!(r, Ok(()));
    assert_eq!(w.health(gone), None);
    assert_eq!(w.health(kept), Some(Health { current: 4, max: 5 }));
}

#[test]
fn opportunity_attack_fires_on_vacated_tile() {
    let mut w = new_world();
    let player = w.spawn(
        Some(Allegiance::Player),
        Some(Armor { current: 5 }),
        Some(Health { current: 10, max: 10 }),
        Some(Position { x: 0, y: 5 }),
        Vec::new(),
    );
    let golem = w.spawn(
        Some(Allegiance::Golem),
        None,
        Some(Health { current: 3, max: 3 }),
        Some(Position { x: 0, y: 5 }),
        vec![Reaction::OpportunityAttack { damage_amount: 10 }],
    );
    let r = w.perform(Action::Move { to_position: Position { x: 1, y: 5 } }, player, player, 0);
    assert_eq!(r, Ok(()));
    assert_eq!(w.position(player), Some(Position { x: 1, y: 5 }));
    assert_eq!(w.armor(player), Some(Armor { current: 0 }));
    assert_eq!(w.health(player), Some(Health { current: 5, max: 10 }));
    assert_eq!(w.health(golem), Some(Health { current: 3, max: 3 }));
}

#[test]
fn moving_the_reactor_does_not_trigger_its_own_attack() {
    let mut w = new_world();
    let player = w.spawn(
        Some(Allegiance::Player),
        None,
        Some(Health { current: 10, max: 10 }),
        Some(Position { x: 7, y: 7 }),
        Vec::new(),
    );
    let golem = w.spawn(
        Some(Allegiance::Golem),
        None,
        Some(Health { current: 3, max: 3 }),
        Some(Position { x: 0, y: 5 }),
        vec![Reaction::OpportunityAttack { damage_amount: 10 }],
    );
    let r = w.perform(Action::Move { to_position: Position { x: 0, y: 6 } }, golem, golem, 0);
    assert_eq!(r, Ok(()));
    assert_eq!(w.health(golem), Some(Health { current: 3, max: 3 }));
    assert_eq!(w.health(player), Some(Health { current: 10, max: 10 }));
}

#[test]
fn reinforce_reacts_to_damage() {
    let mut w = new_world();
    let id = w.spawn(
        None,
        Some(Armor { current: 0 }),
        Some(Health { current: 3, max: 3 }),
        None,
        vec![Reaction::Reinforce { armor_amount: 3 }],
    );
    let r = w.perform(Action::Damage { amount: 1 }, EntityId(WORLD_ENTITY_ID), id, 0);
    assert_eq!(r, Ok(()));
    assert_eq!(w.health(id), Some(Health { current: 2, max: 3 }));
    assert_eq!(w.armor(id), Some(Armor { current: 3 }));
}

#[test]
fn spite_retaliates_against_the_killer() {
    let mut w = new_world();
    let attacker = w.spawn(
        Some(Allegiance::Player),
        None,
        Some(Health { current: 100, max: 100 }),
        None,
        Vec::new(),
    );
    let victim = w.spawn(
        Some(Allegiance::Golem),
        None,
        Some(Health { current: 1, max: 1 }),
        None,
        vec![Reaction::Spite { damage_amount: 50 }],
    );
    let r = w.perform(Action::Damage { amount: 1 }, attacker, victim, 0);
    assert_eq!(r, Ok(()));
    assert_eq!(w.health(victim), None);
    assert_eq!(w.allegiance(victim), None);
    assert_eq!(w.health(attacker), Some(Health { current: 50, max: 100 }));
}

#[test]
fn query_roundtrip_matches_exactly_the_golems() {
    let mut w = new_world();
    let g1 = w.spawn(Some(Allegiance::Golem), None, Some(Health { current: 9, max: 9 }), None, Vec::new());
    let p1 = w.spawn(Some(Allegiance::Player), None, Some(Health { current: 9, max: 9 }), None, Vec::new());
    let g2 = w.spawn(Some(Allegiance::Golem), None, Some(Health { current: 9, max: 9 }), None, Vec::new());
    let none = w.spawn(None, None, Some(Health { current: 9, max: 9 }), None, Vec::new());
    let query = EntityQuery {
        allegiance_filter: ComponentFilter::Include(&[Allegiance::Golem]),
        position_filter: ComponentFilter::Ignore,
    };
    let r = w.perform_with_query(Action::Damage { amount: 2 }, EntityId(WORLD_ENTITY_ID), query, 0);
    assert_eq!(r, Ok(()));
    assert_eq!(w.health(g1), Some(Health { current: 7, max: 9 }));
    assert_eq!(w.health(g2), Some(Health { current: 7, max: 9 }));
    assert_eq!(w.health(p1), Some(Health { current: 9, max: 9 }));
    assert_eq!(w.health(none), Some(Health { current: 9, max: 9 }));
}

#[test]
fn query_intersects_allegiance_and_position() {
    let mut w = new_world();
    let near = w.spawn(
        Some(Allegiance::Golem),
        None,
        Some(Health { current: 9, max: 9 }),
        Some(Position { x: 0, y: 5 }),
        Vec::new(),
    );
    let far = w.spawn(
        Some(Allegiance::Golem),
        None,
        Some(Health { current: 9, max: 9 }),
        Some(Position { x: 4, y: 4 }),
        Vec::new(),
    );
    let other = w.spawn(
        Some(Allegiance::Player),
        None,
        Some(Health { current: 9, max: 9 }),
        Some(Position { x: 0, y: 5 }),
        Vec::new(),
    );
    let query = EntityQuery {
        allegiance_filter: ComponentFilter::Include(&[Allegiance::Golem]),
        position_filter: ComponentFilter::Include(&[Position { x: 0, y: 5 }]),
    };
    let r = w.perform_with_query(Action::Damage { amount: 1 }, EntityId(WORLD_ENTITY_ID), query, 0);
    assert_eq!(r, Ok(()));
    assert_eq!(w.health(near), Some(Health { current: 8, max: 9 }));
    assert_eq!(w.health(far), Some(Health { current: 9, max: 9 }));
    assert_eq!(w.health(other), Some(Health { current: 9, max: 9 }));
}

#[test]
fn query_any_requires_component_presence() {
    let mut w = new_world();
    let placed = w.spawn(
        None,
        None,
        Some(Health { current: 9, max: 9 }),
        Some(Position { x: 1, y: 1 }),
        Vec::new(),
    );
    let unplaced = w.spawn(None, None, Some(Health { current: 9, max: 9 }), None, Vec::new());
    let query = EntityQuery {
        allegiance_filter: ComponentFilter::Ignore,
        position_filter: ComponentFilter::Any,
    };
    let r = w.perform_with_query(Action::Damage { amount: 1 }, EntityId(WORLD_ENTITY_ID), query, 0);
    assert_eq!(r, Ok(()));
    assert_eq!(w.health(placed), Some(Health { current: 8, max: 9 }));
    assert_eq!(w.health(unplaced), Some(Health { current: 9, max: 9 }));
}

#[test]
fn empty_include_list_matches_nothing() {
    let mut w = new_world();
    let id = w.spawn(Some(Allegiance::Golem), None, Some(Health { current: 9, max: 9 }), None, Vec::new());
    let query = EntityQuery {
        allegiance_filter: ComponentFilter::Include(&[]),
        position_filter: ComponentFilter::Ignore,
    };
    let r = w.perform_with_query(Action::Damage { amount: 1 }, EntityId(WORLD_ENTITY_ID), query, 0);
    assert_eq!(r, Ok(()));
    assert_eq!(w.health(id), Some(Health { current: 9, max: 9 }));
}

#[test]
fn recursion_guard_aborts_mutual_spite() {
    let mut w = new_world();
    let a = w.spawn(
        Some(Allegiance::Player),
        Some(Armor { current: 0 }),
        Some(Health { current: 1, max: 1 }),
        None,
        vec![Reaction::Spite { damage_amount: 50 }],
    );
    let b = w.spawn(
        Some(Allegiance::Golem),
        Some(Armor { current: 0 }),
        Some(Health { current: 1, max: 1 }),
        None,
        vec![Reaction::Spite { damage_amount: 50 }],
    );
    let r = w.perform(Action::Damage { amount: 1 }, b, a, 0);
    assert_eq!(r, Err(RecursionLimit));
    for id in [a, b] {
        if let Some(armor) = w.armor(id) {
            assert!(armor.current >= 0);
        }
    }
    let c = w.spawn(Some(Allegiance::Player), None, None, None, Vec::new());
    assert_eq!(w.allegiance(c), Some(Allegiance::Player));
}

#[test]
fn dispatch_at_the_depth_limit_is_rejected() {
    let mut w = new_world();
    let id = w.spawn(None, None, Some(Health { current: 5, max: 5 }), None, Vec::new());
    let r = w.perform(Action::Damage { amount: 1 }, EntityId(WORLD_ENTITY_ID), id, world::MAX_STACK_DEPTH);
    assert_eq!(r, Err(RecursionLimit));
    assert_eq!(w.health(id), Some(Health { current: 5, max: 5 }));
}

#[test]
fn negative_damage_heals_an_unarmored_entity() {
    let mut w = new_world();
    let id = w.spawn(None, None, Some(Health { current: 3, max: 10 }), None, Vec::new());
    let r = w.perform(Action::Damage { amount: -4 }, EntityId(WORLD_ENTITY_ID), id, 0);
    assert_eq!(r, Ok(()));
    assert_eq!(w.health(id), Some(Health { current: 7, max: 10 }));
}

#[test]
fn negative_damage_grows_armor_and_spares_health() {
    let mut w = new_world();
    let id = w.spawn(
        None,
        Some(Armor { current: 1 }),
        Some(Health { current: 3, max: 10 }),
        None,
        Vec::new(),
    );
    let r = w.perform(Action::Damage { amount: -4 }, EntityId(WORLD_ENTITY_ID), id, 0);
    assert_eq!(r, Ok(()));
    assert_eq!(w.armor(id), Some(Armor { current: 5 }));
    assert_eq!(w.health(id), Some(Health { current: 3, max: 10 }));
}
