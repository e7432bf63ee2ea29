use vampire_rpg::components::combat::{AIBehavior, AIState};
use vampire_rpg::components::entities::{
    contains_id, remove_entities_by_id, GameEntity, Position,
};
use vampire_rpg::components::entity_iterator::EntityFinder;
use vampire_rpg::components::environment::{classify, TileType};
use vampire_rpg::components::game_data::{EntityType, GamePhase};
use vampire_rpg::components::inventory::Inventory;
use vampire_rpg::systems::objectives::ObjectivesSystem;
use vampire_rpg::systems::spawn_cadence::SpawnCadence;
use vampire_rpg::systems::world::WorldSystem;
use vampire_rpg::systems::SystemUpdateOrder;

fn create_test_entities(count: usize) -> Vec<GameEntity> {
    (0..count)
        .map(|i| GameEntity {
            id: i as u32,
            position: Position { x: (i as i64) * 10, y: (i as i64) * 10 },
            entity_type: if i % 2 == 0 { EntityType::Player } else { EntityType::Animal },
        })
        .collect()
}

#[test]
fn test_entity_finder() {
    let entities = create_test_entities(50);

    if let Some(entity) = entities.first() {
        let found = EntityFinder::by_id(&entities, entity.id);
        assert!(found.is_some());
        assert_eq!(found.unwrap().id, entity.id);
    }
}

#[test]
fn finder_reports_missing_and_first_match() {
    let mut entities = create_test_entities(5);
    assert!(EntityFinder::by_id(&entities, 99).is_none());
    assert_eq!(EntityFinder::position_by_id(&entities, 3), Some(3));
    entities.push(GameEntity {
        id: 3,
        position: Position::new(1, 2),
        entity_type: EntityType::Shelter,
    });
    assert_eq!(EntityFinder::position_by_id(&entities, 3), Some(3));
    assert_eq!(EntityFinder::by_id(&entities, 3).unwrap().position.x, 30);
    assert!(!EntityFinder::is_sorted_by_id(&entities));
    assert!(EntityFinder::is_sorted_by_id(&create_test_entities(120)));
}

#[test]
fn entities_leave_by_identifier_in_order() {
    let mut entities = create_test_entities(6);
    remove_entities_by_id(&mut entities, &vec![4, 0, 9]);
    let left: Vec<u32> = entities.iter().map(|e| e.id).collect();
    assert_eq!(left, vec![1, 2, 3, 5]);
    assert!(contains_id(&vec![4, 0, 9], 9));
    assert!(!contains_id(&vec![4, 0, 9], 1));
}

#[test]
fn test_world_system_ground_validation() {
    assert!(WorldSystem::has_ground_at_position(100, 640));
    assert!(WorldSystem::has_ground_at_position(800, 800));
    assert!(!WorldSystem::has_ground_at_position(100, 600));
    assert!(!WorldSystem::has_ground_at_position(800, 200));
}

#[test]
fn test_generate_random_ground_position() {
    for _ in 0..10 {
        let (x, y) = WorldSystem::generate_random_ground_position();
        assert!(x >= 64);
        assert!(x <= 1536);
        assert!(y >= 704);
        assert!(y <= 1136);
    }
}

#[test]
fn random_positions_vary() {
    let mut xs: Vec<i64> = Vec::new();
    for _ in 0..200 {
        let (x, y) = WorldSystem::generate_random_ground_position();
        assert!(x >= 64 && x < 1536);
        assert!(y >= 704 && y < 1136);
        assert!(WorldSystem::has_ground_at_position(x, y));
        xs.push(x);
    }
    assert!(xs.iter().any(|x| *x != 64));
    assert!(xs.iter().any(|x| *x != xs[0]));
}

#[test]
fn test_is_relocatable_to_ground() {
    assert!(WorldSystem::is_relocatable_to_ground(500, 590));
    assert!(WorldSystem::is_relocatable_to_ground(800, 620));
    assert!(WorldSystem::is_relocatable_to_ground(200, 560));

    assert!(!WorldSystem::is_relocatable_to_ground(500, 400));
    assert!(!WorldSystem::is_relocatable_to_ground(800, 200));
    assert!(!WorldSystem::is_relocatable_to_ground(200, 100));

    assert!(!WorldSystem::is_relocatable_to_ground(-100, 550));
    assert!(!WorldSystem::is_relocatable_to_ground(2000, 550));
}

#[test]
fn spawn_needs_ground() {
    let spawned = WorldSystem::spawn_entity_at_position(3, EntityType::Animal, 1600, 1200);
    let entity = spawned.unwrap();
    assert_eq!(entity.id, 3);
    assert_eq!(entity.position, Position { x: 1600, y: 1200 });
    assert!(matches!(entity.entity_type, EntityType::Animal));
    assert!(WorldSystem::spawn_entity_at_position(3, EntityType::Animal, 1601, 1200).is_none());
    assert!(WorldSystem::spawn_entity_at_position(3, EntityType::Animal, 0, 639).is_none());
    assert!(WorldSystem::spawn_entity_at_position(3, EntityType::Shelter, 0, 640).is_some());
}

#[test]
fn tiles_classify_by_position_alone() {
    assert_eq!(classify(0, 0), TileType::Grass);
    assert_eq!(classify(5 * 64, 0), TileType::Grass);
    assert_eq!(classify(6 * 64, 0), TileType::Dirt);
    assert_eq!(classify(3 * 64, 4 * 64), TileType::Dirt);
    assert_eq!(classify(8 * 64, 0), TileType::DeadGrass);
    assert_eq!(classify(0, 9 * 64), TileType::Stone);
    assert_eq!(classify(10 * 64, 0), TileType::Grass);
    assert_eq!(classify(-64, -64), TileType::Grass);
    assert_eq!(classify(-4 * 64, 5 * 64), TileType::Stone);
    assert_eq!(classify(-63, 63), TileType::Grass);
    assert_eq!(classify(i64::MIN, i64::MIN), classify(i64::MIN, i64::MIN));
    let mut x: i64 = -700;
    while x < 700 {
        assert_eq!(classify(x, 3 * x), classify(x, 3 * x));
        x += 13;
    }
}

#[test]
fn cadence_waits_for_the_spacing() {
    let mut tracker = SpawnCadence::new(800, 300);
    assert!(!tracker.is_due(720));
    assert!(!tracker.is_due(501));
    assert!(tracker.is_due(500));
    assert!(tracker.is_due(240));
    tracker.record(240);
    assert_eq!(tracker.last_spawn_y, 240);
    assert_eq!(tracker.spacing, 300);
    assert!(!tracker.is_due(0));
    assert!(tracker.is_due(-60));
    assert!(!SpawnCadence::new(i64::MIN, 1).is_due(i64::MAX));
    assert!(SpawnCadence::new(i64::MAX, 1).is_due(i64::MIN));
}

#[test]
fn cadence_spawns_once_within_the_spacing() {
    let mut tracker = SpawnCadence::new(800, 150);
    let mut spawns = 0;
    for center in [600i64, 590, 560, 520, 480, 455] {
        if tracker.is_due(center) {
            tracker.record(center);
            spawns += 1;
        }
    }
    assert_eq!(spawns, 1);
}

#[test]
fn inventory_respects_capacity() {
    let mut inventory = Inventory::new(10);
    assert!(!inventory.has_item("blood vial", 0));
    assert!(inventory.add_item("blood vial".to_string(), 4));
    assert!(inventory.add_item("stake".to_string(), 5));
    assert!(inventory.has_item("blood vial", 4));
    assert!(!inventory.has_item("blood vial", 5));
    assert!(!inventory.add_item("blood vial".to_string(), 2));
    assert!(inventory.add_item("blood vial".to_string(), 1));
    assert!(inventory.has_item("blood vial", 5));
    assert_eq!(inventory.item_count(), 10);
    assert_eq!(inventory.items.len(), 2);
    assert_eq!(inventory.capacity, 10);
}

#[test]
fn inventory_forgets_emptied_names() {
    let mut inventory = Inventory::new(10);
    assert!(inventory.add_item("stake".to_string(), 5));
    assert!(!inventory.remove_item("stake", 6));
    assert!(!inventory.remove_item("garlic", 1));
    assert!(inventory.remove_item("stake", 2));
    assert!(inventory.has_item("stake", 3));
    assert!(inventory.has_item("stake", 0));
    assert!(inventory.remove_item("stake", 3));
    assert!(!inventory.has_item("stake", 0));
    assert_eq!(inventory.item_count(), 0);
    assert!(inventory.items.is_empty());
    assert!(inventory.add_item("garlic".to_string(), 0));
    assert!(inventory.has_item("garlic", 0));
}

#[test]
fn test_get_initial_objectives() {
    let objectives = ObjectivesSystem::get_initial_objectives(&GamePhase::SurvivalAndDiscovery);
    assert_eq!(objectives.len(), 5);
    assert!(objectives.contains(&"Survive your first week".to_string()));
}

#[test]
fn test_can_advance_phase() {
    let completed = vec!["obj1".to_string(), "obj2".to_string(), "obj3".to_string()];

    assert!(ObjectivesSystem::can_advance_phase(
        &GamePhase::SurvivalAndDiscovery,
        &completed,
        7,
        0
    ));

    assert!(!ObjectivesSystem::can_advance_phase(
        &GamePhase::SurvivalAndDiscovery,
        &completed,
        3,
        0
    ));
}

#[test]
fn test_get_next_phase() {
    assert_eq!(
        ObjectivesSystem::get_next_phase(&GamePhase::SurvivalAndDiscovery),
        Some(GamePhase::ClanEncounters)
    );

    assert_eq!(ObjectivesSystem::get_next_phase(&GamePhase::WorldReaction), None);
}

#[test]
fn test_explored_zones() {
    let zones = ObjectivesSystem::get_explored_zones(200, 700);
    assert!(zones.contains(&"Northwest Territory"));

    let zones = ObjectivesSystem::get_explored_zones(900, 900);
    assert!(zones.contains(&"Southeast Territory"));
}

#[test]
fn each_phase_opens_with_its_objectives() {
    let last = ObjectivesSystem::get_initial_objectives(&GamePhase::WorldReaction);
    assert_eq!(
        last,
        vec![
            "Conquer all vampire clans".to_string(),
            "Earn the title of Apex Hunter".to_string(),
            "Become an apex predator".to_string(),
            "Master blood sensing".to_string(),
            "Learn shadow manipulation".to_string(),
        ]
    );
    assert_eq!(ObjectivesSystem::get_initial_objectives(&GamePhase::ClanEncounters)[2], "Prove your combat prowess");
    assert_eq!(ObjectivesSystem::get_initial_objectives(&GamePhase::EmpireBuilding)[4], "Map the entire realm");
    assert_eq!(ObjectivesSystem::get_explored_zones(400, 799), vec!["North Central Territory"]);
    assert_eq!(ObjectivesSystem::get_explored_zones(799, 800), vec!["South Central Territory"]);
    assert_eq!(ObjectivesSystem::get_explored_zones(0, 800), vec!["Southwest Territory"]);
    assert_eq!(ObjectivesSystem::get_explored_zones(800, 0), vec!["Northeast Territory"]);
}

#[test]
fn milestones_complete_open_objectives() {
    let mut open = ObjectivesSystem::get_initial_objectives(&GamePhase::SurvivalAndDiscovery);
    let mut done: Vec<String> = Vec::new();
    ObjectivesSystem::check_feeding_objectives(4, &mut open, &mut done);
    assert_eq!(open.len(), 5);
    ObjectivesSystem::check_feeding_objectives(30, &mut open, &mut done);
    assert_eq!(done, vec!["Feed on blood sources".to_string()]);
    assert_eq!(open.len(), 4);
    ObjectivesSystem::check_survival_objectives(400, &mut open, &mut done);
    assert_eq!(done, vec!["Feed on blood sources".to_string(), "Survive your first week".to_string()]);
    ObjectivesSystem::check_combat_objectives(500, &mut open, &mut done);
    assert_eq!(done.len(), 2);
    ObjectivesSystem::complete_objective("Unknown", &mut open, &mut done);
    assert_eq!(open.len(), 3);
    let entities = create_test_entities(3);
    ObjectivesSystem::check_exploration_objectives(&entities, 1, &mut open, &mut done);
    assert_eq!(open.len(), 3);
    let mut clan_open = ObjectivesSystem::get_initial_objectives(&GamePhase::ClanEncounters);
    let mut clan_done: Vec<String> = Vec::new();
    ObjectivesSystem::check_combat_objectives(10, &mut clan_open, &mut clan_done);
    assert_eq!(clan_done, vec!["Prove your combat prowess".to_string()]);
    assert!(ObjectivesSystem::can_advance_phase(&GamePhase::ClanEncounters, &vec!["a".to_string(); 8], 0, 1));
    assert!(!ObjectivesSystem::can_advance_phase(&GamePhase::EmpireBuilding, &vec!["a".to_string(); 12], 0, 1));
    assert!(!ObjectivesSystem::can_advance_phase(&GamePhase::WorldReaction, &vec!["a".to_string(); 20], 400, 9));
}

#[test]
fn defaults_and_update_order() {
    assert_eq!(AIState::default(), AIState::Idle);
    assert_eq!(AIBehavior::default(), AIBehavior::Neutral);
    assert_eq!(GamePhase::default(), GamePhase::SurvivalAndDiscovery);
    assert_eq!(SystemUpdateOrder::Input.position(), 0);
    assert_eq!(SystemUpdateOrder::AI.position(), 2);
    assert_eq!(SystemUpdateOrder::Objectives.position(), 6);
}

#[test]
fn test_spawn_bounds() {
    let bounds = WorldSystem::get_spawn_bounds(&EntityType::Player);
    assert_eq!(bounds, (350, 450, 640, 740));

    let bounds = WorldSystem::get_spawn_bounds(&EntityType::Animal);
    assert_eq!(bounds, (50, 1200, 650, 1150));
}

#[test]
fn test_valid_spawn_position() {
    let entities = vec![GameEntity {
        id: 0,
        position: Position { x: 100, y: 100 },
        entity_type: EntityType::Animal,
    }];

    assert!(!WorldSystem::is_valid_spawn_position(&entities, 101, 101, 50));

    assert!(WorldSystem::is_valid_spawn_position(&entities, 200, 200, 50));
}

#[test]
fn spawn_distance_is_measured_exactly() {
    let entities = vec![GameEntity {
        id: 0,
        position: Position { x: 0, y: 0 },
        entity_type: EntityType::Animal,
    }];
    assert!(WorldSystem::is_valid_spawn_position(&entities, 30, 40, 50));
    assert!(!WorldSystem::is_valid_spawn_position(&entities, 30, 39, 50));
    assert!(WorldSystem::is_valid_spawn_position(&entities, 0, 0, 0));
    assert!(WorldSystem::is_valid_spawn_position(&entities, 0, 0, -5));
    assert!(!WorldSystem::is_valid_spawn_position(&entities, 0, 0, 1));
    assert!(WorldSystem::is_valid_spawn_position(&entities, i64::MAX, i64::MIN, i64::MAX));
    assert!(!WorldSystem::is_valid_spawn_position(&entities, i64::MAX - 1, 0, i64::MAX));
    assert!(WorldSystem::is_valid_spawn_position(&Vec::new(), 3, 3, 1000));
}

#[test]
fn safe_spawn_positions_keep_their_distance() {
    let entities = create_test_entities(20);
    assert!(WorldSystem::find_safe_spawn_position(&entities, &EntityType::Animal, 10, 0).is_none());
    let mut found_any = false;
    for _ in 0..50 {
        if let Some((x, y)) =
            WorldSystem::find_safe_spawn_position(&entities, &EntityType::HostileInfected, 40, 5)
        {
            found_any = true;
            assert!(x >= 50 && x < 1350 && y >= 640 && y < 850);
            assert!(WorldSystem::is_valid_spawn_position(&entities, x, y, 40));
        }
    }
    assert!(found_any);
    let crowd = vec![GameEntity {
        id: 9,
        position: Position { x: 400, y: 690 },
        entity_type: EntityType::Player,
    }];
    assert!(WorldSystem::find_safe_spawn_position(&crowd, &EntityType::Player, 5000, 20).is_none());
}

#[test]
fn clear_spawn_area_yields_a_position_at_once() {
    let nobody: Vec<GameEntity> = Vec::new();
    for _ in 0..20 {
        let (x, y) =
            WorldSystem::find_safe_spawn_position(&nobody, &EntityType::Animal, 500, 1).unwrap();
        assert!(x >= 50 && x < 1200 && y >= 650 && y < 1150);
    }
    let crowd = create_test_entities(30);
    assert!(WorldSystem::find_safe_spawn_position(&crowd, &EntityType::Player, 0, 1).is_some());
    let far = vec![GameEntity {
        id: 1,
        position: Position { x: 5000, y: 5000 },
        entity_type: EntityType::Animal,
    }];
    let found = WorldSystem::find_safe_spawn_position(&far, &EntityType::Shelter, 100, 1);
    let (x, y) = found.unwrap();
    assert!(x >= 0 && x < 1600 && y >= 0 && y < 800);
}
