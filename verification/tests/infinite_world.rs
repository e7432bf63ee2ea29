use vampire_rpg::components::entities::GameEntity;
use vampire_rpg::components::environment::{GroundTile, TileType};
use vampire_rpg::components::game_data::EntityType;
use vampire_rpg::systems::chunk::{
    chunk_id_of, generate_band_tiles, WorldChunk, CHUNK_SIZE, CLEANUP_DISTANCE,
    GENERATION_DISTANCE, WORLD_MAX_Y,
};
use vampire_rpg::systems::infinite_world::InfiniteWorldSystem;
use vampire_rpg::systems::world_view::{SpawnContext, StreamingConfig};

fn screen() -> SpawnContext {
    SpawnContext { screen_width: 1280, screen_height: 720 }
}

fn sorted_ids(system: &InfiniteWorldSystem) -> Vec<i64> {
    let mut ids = system.live_chunk_ids();
    ids.sort();
    ids
}

fn entity_ids(entities: &Vec<GameEntity>) -> Vec<u32> {
    entities.iter().map(|e| e.id).collect()
}

#[test]
fn test_chunk_creation() {
    let chunk = WorldChunk::new(480);
    assert_eq!(chunk.start_y, 480);
    assert_eq!(chunk.end_y, 0);
    assert!(!chunk.generated);
}

#[test]
fn test_chunk_contains_y() {
    let chunk = WorldChunk::new(480);
    assert!(chunk.contains_y(240));
    assert!(!chunk.contains_y(500));
    assert!(!chunk.contains_y(-50));
}

#[test]
fn test_infinite_world_system_creation() {
    let system = InfiniteWorldSystem::new(1000);
    assert_eq!(system.get_next_entity_id(), 1000);
    assert_eq!(system.chunk_count(), 0);
}

#[test]
fn chunk_holds_its_upper_edge_only() {
    let chunk = WorldChunk::new(480);
    assert!(chunk.contains_y(480));
    assert!(chunk.contains_y(1));
    assert!(!chunk.contains_y(0));
    assert!(!chunk.contains_y(481));
    let below = WorldChunk::new(chunk.end_y);
    assert!(below.contains_y(chunk.end_y));
    assert!(!below.contains_y(1));
}

#[test]
fn default_system_starts_at_one_thousand() {
    let system = InfiniteWorldSystem::default();
    assert_eq!(system.get_next_entity_id(), 1000);
    assert_eq!(system.chunk_count(), 0);
    assert_eq!(system.get_last_player_y(), 600);
    assert_eq!(system.get_ground_y_base(), 520);
}

#[test]
fn chunk_id_rounds_down() {
    assert_eq!(chunk_id_of(600), 1);
    assert_eq!(chunk_id_of(-840), -2);
    assert_eq!(chunk_id_of(0), 0);
    assert_eq!(chunk_id_of(479), 0);
    assert_eq!(chunk_id_of(480), 1);
    assert_eq!(chunk_id_of(-1), -1);
    assert_eq!(chunk_id_of(-480), -1);
    assert_eq!(chunk_id_of(-481), -2);
    assert_eq!(chunk_id_of(i64::MIN), i64::MIN / 480 - 1);
    assert_eq!(chunk_id_of(i64::MAX), i64::MAX / 480);
}

#[test]
fn every_coordinate_lies_in_exactly_one_chunk() {
    let mut y: i64 = -1998;
    while y <= 2000 {
        let id = chunk_id_of(y);
        let mut holders = 0;
        let mut candidate: i64 = -10;
        while candidate <= 10 {
            let chunk = WorldChunk::new((candidate + 1) * CHUNK_SIZE);
            if chunk.contains_y(y) {
                holders += 1;
                if y % CHUNK_SIZE == 0 {
                    assert_eq!(candidate, id - 1);
                } else {
                    assert_eq!(candidate, id);
                }
            }
            candidate += 1;
        }
        assert_eq!(holders, 1);
        y += 6;
    }
}

#[test]
fn first_update_creates_the_window() {
    let mut system = InfiniteWorldSystem::new(1000);
    let mut entities: Vec<GameEntity> = Vec::new();
    system.update(600, &mut entities, &screen());
    assert_eq!(sorted_ids(&system), vec![-2, -1, 0, 1]);
    assert_eq!(system.chunk_count(), 4);
    for id in [-2i64, -1, 0, 1] {
        assert!(system.has_chunk(id));
        let chunk = system.get_chunk(id).unwrap();
        assert!(chunk.generated);
        assert_eq!(chunk.end_y, id * 480);
        assert_eq!(chunk.start_y, (id + 1) * 480);
    }
    assert!(!system.has_chunk(2));
    assert!(!system.has_chunk(-3));
    assert_eq!(system.get_last_player_y(), 600);
}

#[test]
fn advancing_keeps_chunks_up_to_the_threshold() {
    let mut system = InfiniteWorldSystem::new(1000);
    let mut entities: Vec<GameEntity> = Vec::new();
    system.update(600, &mut entities, &screen());
    let owned_before: Vec<Vec<u32>> =
        [-2i64, -1, 0, 1].iter().map(|id| system.get_chunk(*id).unwrap().entities.clone()).collect();
    system.update(0, &mut entities, &screen());
    assert_eq!(sorted_ids(&system), vec![-3, -2, -1, 0, 1]);
    for id in system.live_chunk_ids() {
        assert!(system.get_chunk(id).unwrap().start_y <= 960);
    }
    let owned_after: Vec<Vec<u32>> =
        [-2i64, -1, 0, 1].iter().map(|id| system.get_chunk(*id).unwrap().entities.clone()).collect();
    assert_eq!(owned_before, owned_after);
}

#[test]
fn chunks_behind_the_threshold_leave_with_their_entities() {
    let mut seen_owned_entity = false;
    let mut round = 0;
    while round < 40 {
        let mut system = InfiniteWorldSystem::new(1000);
        let mut entities: Vec<GameEntity> = Vec::new();
        system.update(600, &mut entities, &screen());
        let owned: Vec<u32> = system.get_chunk(1).unwrap().entities.clone();
        for id in &owned {
            seen_owned_entity = true;
            assert_eq!(entities.iter().filter(|e| e.id == *id).count(), 1);
        }
        let kept_before: Vec<u32> =
            entity_ids(&entities).into_iter().filter(|id| !owned.contains(id)).collect();
        system.update(-1, &mut entities, &screen());
        assert!(!system.has_chunk(1));
        assert!(system.has_chunk(0));
        for id in &owned {
            assert!(entities.iter().all(|e| e.id != *id));
        }
        let kept_after: Vec<u32> = entity_ids(&entities);
        assert_eq!(&kept_after[..kept_before.len()], &kept_before[..]);
        round += 1;
    }
    assert!(seen_owned_entity);
}

#[test]
fn second_update_at_the_same_position_changes_nothing() {
    let mut system = InfiniteWorldSystem::new(1000);
    let mut entities: Vec<GameEntity> = Vec::new();
    system.update(600, &mut entities, &screen());
    let ids = sorted_ids(&system);
    let held = entity_ids(&entities);
    let next = system.get_next_entity_id();
    system.update(600, &mut entities, &screen());
    assert_eq!(sorted_ids(&system), ids);
    assert_eq!(entity_ids(&entities), held);
    assert_eq!(system.get_next_entity_id(), next);
}

#[test]
fn live_chunks_stay_inside_the_window() {
    let mut system = InfiniteWorldSystem::new(1000);
    let mut entities: Vec<GameEntity> = Vec::new();
    let mut player: i64 = 600;
    while player >= -3000 {
        system.update(player, &mut entities, &screen());
        let low = chunk_id_of(player - GENERATION_DISTANCE);
        let high = chunk_id_of(player + CLEANUP_DISTANCE) - 1;
        for id in system.live_chunk_ids() {
            assert!(low <= id && id <= high);
        }
        player -= 130;
    }
}

#[test]
fn identifiers_are_never_issued_twice() {
    let mut system = InfiniteWorldSystem::new(1000);
    let mut entities: Vec<GameEntity> = Vec::new();
    let mut issued: Vec<u32> = Vec::new();
    let mut last_next = system.get_next_entity_id();
    let mut player: i64 = 1500;
    while player >= -2000 {
        let known: Vec<u32> = entity_ids(&entities);
        system.update(player, &mut entities, &screen());
        for e in &entities {
            if !known.contains(&e.id) {
                assert!(!issued.contains(&e.id));
                assert!(e.id >= last_next);
                assert!(e.id < system.get_next_entity_id());
                issued.push(e.id);
            }
        }
        assert!(system.get_next_entity_id() >= last_next);
        last_next = system.get_next_entity_id();
        player -= 250;
    }
    let mut unique = issued.clone();
    unique.sort();
    unique.dedup();
    assert_eq!(unique.len(), issued.len());
    assert!(!issued.is_empty());
}

#[test]
fn spawned_entities_stand_on_the_ground_inside_their_chunk() {
    let mut round = 0;
    let mut spawned = 0;
    while round < 20 {
        let mut system = InfiniteWorldSystem::new(5);
        let mut entities: Vec<GameEntity> = Vec::new();
        system.update(1000, &mut entities, &screen());
        for id in system.live_chunk_ids() {
            let chunk = system.get_chunk(id).unwrap();
            for owned in &chunk.entities {
                let entity = entities.iter().find(|e| e.id == *owned).unwrap();
                assert!(chunk.end_y <= entity.position.y && entity.position.y < chunk.start_y);
                assert!(entity.position.y >= 640 && entity.position.y <= 1200);
                assert!(entity.position.x >= 50 && entity.position.x < 1230);
                assert!(matches!(
                    entity.entity_type,
                    EntityType::Shelter | EntityType::HostileInfected | EntityType::Animal
                ));
                spawned += 1;
            }
        }
        assert_eq!(
            entities.len(),
            system.live_chunk_ids().iter().map(|id| system.get_chunk(*id).unwrap().entities.len()).sum::<usize>()
        );
        round += 1;
    }
    assert!(spawned > 0);
}

#[test]
fn exhausted_identifiers_stop_spawning() {
    let mut system = InfiniteWorldSystem::new(u32::MAX);
    let mut entities: Vec<GameEntity> = Vec::new();
    system.update(1000, &mut entities, &screen());
    assert!(entities.is_empty());
    assert_eq!(system.get_next_entity_id(), u32::MAX);
    assert!(system.chunk_count() > 0);
}

#[test]
fn spawn_at_takes_an_identifier_and_checks_the_ground() {
    let mut system = InfiniteWorldSystem::new(7);
    let mut entities: Vec<GameEntity> = Vec::new();
    let mut chunk = WorldChunk::new(960);
    let issued = system.spawn_at(&mut chunk, &mut entities, EntityType::Animal, 300, 700);
    assert_eq!(issued, Some(7));
    assert_eq!(system.get_next_entity_id(), 8);
    assert_eq!(chunk.entities, vec![7]);
    assert_eq!(entities.len(), 1);
    assert_eq!(entities[0].id, 7);
    assert_eq!(entities[0].position.x, 300);
    assert_eq!(entities[0].position.y, 700);
    let skipped = system.spawn_at(&mut chunk, &mut entities, EntityType::Animal, 300, 100);
    assert_eq!(skipped, None);
    assert_eq!(system.get_next_entity_id(), 9);
    assert_eq!(chunk.entities, vec![7]);
    assert_eq!(entities.len(), 1);
}

#[test]
fn counter_never_moves_back() {
    let mut system = InfiniteWorldSystem::new(1000);
    system.update_next_entity_id(2000);
    assert_eq!(system.get_next_entity_id(), 2000);
    system.update_next_entity_id(1500);
    assert_eq!(system.get_next_entity_id(), 2000);
}

#[test]
fn window_is_clamped_into_the_world() {
    let mut system = InfiniteWorldSystem::new(1000);
    let mut entities: Vec<GameEntity> = Vec::new();
    system.update(WORLD_MAX_Y, &mut entities, &screen());
    let last = chunk_id_of(WORLD_MAX_Y);
    assert_eq!(sorted_ids(&system), vec![last - 3, last - 2, last - 1, last]);
    assert_eq!(system.get_last_player_y(), WORLD_MAX_Y);
    system.update(WORLD_MAX_Y + 480, &mut entities, &screen());
    assert_eq!(sorted_ids(&system), vec![last - 3, last - 2, last - 1, last]);
    system.update(i64::MAX, &mut entities, &screen());
    assert_eq!(system.chunk_count(), 4);
    assert_eq!(system.get_last_player_y(), i64::MAX);
    let mut fresh = InfiniteWorldSystem::new(1000);
    fresh.update(i64::MAX, &mut entities, &screen());
    assert_eq!(fresh.chunk_count(), 0);
}

#[test]
fn cleanup_threshold_follows_the_position_exactly() {
    let mut system = InfiniteWorldSystem::new(1000);
    let mut entities: Vec<GameEntity> = Vec::new();
    system.update(600, &mut entities, &screen());
    system.cleanup_chunks_behind(i64::MIN, &mut entities);
    assert_eq!(system.chunk_count(), 0);
    assert!(entities.is_empty());
    system.update(600, &mut entities, &screen());
    system.cleanup_chunks_behind(i64::MAX, &mut entities);
    assert_eq!(system.chunk_count(), 4);
    system.cleanup_chunks_behind(-480, &mut entities);
    assert_eq!(sorted_ids(&system), vec![-2, -1, 0]);
    system.cleanup_chunks_behind(-481, &mut entities);
    assert_eq!(sorted_ids(&system), vec![-2, -1]);
}

#[test]
fn band_tiles_cover_the_ground_part_of_the_band() {
    let tiles = generate_band_tiles(480, 960, 520, 1280);
    assert_eq!(tiles.len(), 22 * 6);
    assert_eq!(tiles[0], GroundTile { x: 0, y: 576, tile_type: TileType::Stone });
    assert_eq!(tiles[5], GroundTile { x: 0, y: 896, tile_type: TileType::Grass });
    assert_eq!(tiles[42], GroundTile { x: 448, y: 576, tile_type: TileType::Dirt });
    assert_eq!(tiles[6], GroundTile { x: 64, y: 576, tile_type: TileType::Grass });
    assert_eq!(tiles[131].x, 21 * 64);
    assert!(tiles.iter().all(|t| t.y >= 520 && t.y % 64 == 0 && t.x % 64 == 0));
    assert!(generate_band_tiles(0, 480, 520, 1280).is_empty());
}

#[test]
fn visible_tiles_are_those_of_the_chunks_in_view() {
    let mut system = InfiniteWorldSystem::new(1000);
    let mut entities: Vec<GameEntity> = Vec::new();
    system.update(600, &mut entities, &screen());
    let visible = system.get_visible_ground_tiles(600, 720);
    assert_eq!(visible.len(), 132);
    assert_eq!(visible, system.get_chunk(1).unwrap().ground_tiles);
    let narrow = system.get_visible_ground_tiles(600, 100);
    assert_eq!(narrow.len(), 22 * 3);
    assert!(narrow.iter().all(|t| t.y >= 550 - 64 && t.y <= 650 + 64));
    let far = system.get_visible_ground_tiles(-5000, 720);
    assert!(far.is_empty());
    let edge = system.get_visible_ground_tiles(i64::MAX, 720);
    assert!(edge.is_empty());
    assert_eq!(system.chunk_count(), 4);
}

#[test]
fn every_attempt_takes_one_identifier() {
    let mut round = 0;
    while round < 30 {
        let mut system = InfiniteWorldSystem::new(1000);
        let mut entities: Vec<GameEntity> = Vec::new();
        system.update(600, &mut entities, &screen());
        let taken = system.get_next_entity_id() - 1000;
        assert!(10 <= taken && taken <= 20);
        assert!(entities.len() <= 2);
        assert!(entities.iter().all(|e| matches!(e.entity_type, EntityType::Animal)));
        round += 1;
    }
}

#[test]
fn narrow_screen_leaves_no_room_to_spawn() {
    let mut system = InfiniteWorldSystem::new(1000);
    let mut entities: Vec<GameEntity> = Vec::new();
    let narrow = SpawnContext { screen_width: 100, screen_height: 720 };
    system.update(600, &mut entities, &narrow);
    assert_eq!(system.get_next_entity_id(), 1000);
    assert!(entities.is_empty());
    assert_eq!(system.chunk_count(), 4);
    assert_eq!(system.get_chunk(1).unwrap().ground_tiles.len(), 4 * 6);
}

#[test]
fn shelters_and_hostiles_wait_for_their_cadence() {
    let mut seen_shelter = false;
    let mut seen_hostile = false;
    let mut round = 0;
    while round < 20 {
        let mut system = InfiniteWorldSystem::new(1);
        let mut entities: Vec<GameEntity> = Vec::new();
        system.update(1300, &mut entities, &screen());
        let near = system.get_chunk(2).unwrap();
        for owned in &near.entities {
            let entity = entities.iter().find(|e| e.id == *owned).unwrap();
            assert!(matches!(entity.entity_type, EntityType::Animal));
        }
        let next = system.get_chunk(1).unwrap();
        for owned in &next.entities {
            let entity = entities.iter().find(|e| e.id == *owned).unwrap();
            assert!(entity.position.y >= 640 && entity.position.y < 960);
            if matches!(entity.entity_type, EntityType::HostileInfected) {
                seen_hostile = true;
            }
            if matches!(entity.entity_type, EntityType::Shelter) {
                seen_shelter = true;
            }
        }
        round += 1;
    }
    assert!(!seen_shelter);
    assert!(!seen_hostile);
}

#[test]
fn closer_spacing_lets_hostiles_spawn_near_the_start() {
    let mut seen_hostile = false;
    let mut round = 0;
    while round < 40 {
        let config = StreamingConfig { enemy_spacing: -100, ..StreamingConfig::standard() };
        let mut system = InfiniteWorldSystem::with_config(1, config).unwrap();
        let mut entities: Vec<GameEntity> = Vec::new();
        system.update(600, &mut entities, &screen());
        for entity in &entities {
            assert!(system.get_chunk(1).unwrap().entities.contains(&entity.id));
            if matches!(entity.entity_type, EntityType::HostileInfected) {
                seen_hostile = true;
            }
        }
        let owned = &system.get_chunk(1).unwrap().entities;
        let hostiles = entities
            .iter()
            .filter(|e| matches!(e.entity_type, EntityType::HostileInfected))
            .count();
        let animals =
            entities.iter().filter(|e| matches!(e.entity_type, EntityType::Animal)).count();
        assert!(hostiles <= 3 && animals <= 2);
        assert_eq!(hostiles + animals, owned.len());
        let first_animal = entities.iter().position(|e| matches!(e.entity_type, EntityType::Animal));
        let last_hostile =
            entities.iter().rposition(|e| matches!(e.entity_type, EntityType::HostileInfected));
        if let (Some(animal), Some(hostile)) = (first_animal, last_hostile) {
            assert!(hostile < animal);
        }
        round += 1;
    }
    assert!(seen_hostile);
}

#[test]
fn standard_configuration_is_the_shipped_one() {
    let config = StreamingConfig::standard();
    assert_eq!(config.generation_distance, 1440);
    assert_eq!(config.cleanup_distance, 960);
    assert_eq!(config.ground_height, 200);
    assert_eq!(config.shelter_spacing, 300);
    assert_eq!(config.enemy_spacing, 150);
    assert_eq!((config.min_enemies, config.max_enemies), (1, 3));
    assert_eq!((config.min_animals, config.max_animals), (1, 2));
    assert!(config.is_valid());
    assert_eq!(InfiniteWorldSystem::new(3).get_config(), config);
}

#[test]
fn configurations_out_of_range_are_refused() {
    let standard = StreamingConfig::standard();
    assert!(InfiniteWorldSystem::with_config(1, standard).is_some());
    for config in [
        StreamingConfig { generation_distance: -1, ..standard },
        StreamingConfig { generation_distance: 1_000_000_001, ..standard },
        StreamingConfig { cleanup_distance: -1, ..standard },
        StreamingConfig { ground_height: i64::MIN, ..standard },
        StreamingConfig { min_enemies: 4, ..standard },
        StreamingConfig { max_animals: 1_001, ..standard },
        StreamingConfig { min_animals: -1, ..standard },
    ] {
        assert!(!config.is_valid());
        assert!(InfiniteWorldSystem::with_config(1, config).is_none());
    }
    let edge = StreamingConfig {
        generation_distance: 1_000_000_000,
        cleanup_distance: 0,
        min_enemies: 0,
        max_enemies: 0,
        min_animals: 1_000,
        max_animals: 1_000,
        ..standard
    };
    assert!(edge.is_valid());
}

#[test]
fn distances_and_counts_follow_the_configuration() {
    let config = StreamingConfig {
        generation_distance: 480,
        cleanup_distance: 0,
        ground_height: 80,
        min_enemies: 0,
        max_enemies: 0,
        min_animals: 4,
        max_animals: 4,
        ..StreamingConfig::standard()
    };
    let mut system = InfiniteWorldSystem::with_config(10, config).unwrap();
    let mut entities: Vec<GameEntity> = Vec::new();
    system.update(1000, &mut entities, &screen());
    assert_eq!(sorted_ids(&system), vec![1]);
    assert_eq!(system.get_ground_y_base(), 640);
    assert_eq!(system.get_next_entity_id(), 10 + 2 * 4);
    assert!(entities.iter().all(|e| matches!(e.entity_type, EntityType::Animal)));
    assert!(system.get_chunk(1).unwrap().ground_tiles.iter().all(|t| t.y >= 640));
    system.update(400, &mut entities, &screen());
    assert_eq!(sorted_ids(&system), vec![-1]);
    assert!(entities.is_empty());
}

#[test]
fn spawns_are_owed_where_the_whole_band_has_ground() {
    let mut round = 0;
    while round < 30 {
        let mut system = InfiniteWorldSystem::new(40);
        let mut entities: Vec<GameEntity> = Vec::new();
        let mut chunk = WorldChunk::new(1200);
        let animal = system.spawn_animal(&mut chunk, &mut entities, &screen());
        assert_eq!(animal, Some(40));
        let hostile = system.spawn_enemy(&mut chunk, &mut entities, &screen());
        assert_eq!(hostile, Some(41));
        let shelter = system.spawn_shelter(&mut chunk, 900, &mut entities, &screen());
        assert_eq!(shelter, Some(42));
        assert_eq!(chunk.entities, vec![40, 41, 42]);
        assert_eq!(entities.len(), 3);
        assert_eq!(entities[2].position.y, 900);
        assert!(entities[2].position.x >= 100 && entities[2].position.x < 1180);
        assert!(entities.iter().all(|e| e.position.y >= 720 && e.position.y < 1200));
        assert!(matches!(entities[0].entity_type, EntityType::Animal));
        assert!(matches!(entities[1].entity_type, EntityType::HostileInfected));
        assert!(matches!(entities[2].entity_type, EntityType::Shelter));
        round += 1;
    }
}

#[test]
fn population_loses_no_identifier_where_the_whole_band_has_ground() {
    let mut round = 0;
    while round < 30 {
        let config = StreamingConfig { shelter_spacing: -200, ..StreamingConfig::standard() };
        let mut system = InfiniteWorldSystem::with_config(7, config).unwrap();
        let mut entities: Vec<GameEntity> = Vec::new();
        let mut chunk = WorldChunk::new(1200);
        system.spawn_chunk_entities(&mut chunk, &mut entities, &screen());
        let taken = (system.get_next_entity_id() - 7) as usize;
        assert_eq!(entities.len(), taken);
        assert_eq!(chunk.entities.len(), taken);
        assert!(taken >= 2 && taken <= 3);
        assert!(matches!(entities[0].entity_type, EntityType::Shelter));
        assert_eq!(entities[0].position.y, 960);
        assert!(entities[1..].iter().all(|e| matches!(e.entity_type, EntityType::Animal)));
        round += 1;
    }
}
