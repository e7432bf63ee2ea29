//! World rules shared by the systems that create entities.

use vstd::prelude::*;
use crate::components::entities::{GameEntity, Position};
use crate::components::game_data::EntityType;

verus! {

/// Width of the area that has ground.
pub const WORLD_WIDTH: i64 = 1600;

/// Lowest coordinate of the area that has ground.
pub const WORLD_HEIGHT: i64 = 1200;

/// Coordinate at which the ground starts.
pub const GROUND_LEVEL: i64 = 640;

/// Distance that random ground positions keep from the edges of the ground.
pub const GROUND_PADDING: i64 = 64;

/// How far above the ground a position may lie and still be moved onto it.
pub const RELOCATION_REACH: i64 = 100;

/// The largest upper limit for which a random draw is known to stay below
/// its limit.
pub const RANDOM_LIMIT: i64 = 1_048_576;

/// Whether a position lies on the ground: inside the world's width, at or
/// below the ground level and not below the world's lower edge.
pub open spec fn has_ground(x: int, y: int) -> bool {
    0 <= x <= WORLD_WIDTH as int && GROUND_LEVEL as int <= y <= WORLD_HEIGHT as int
}

/// The area in which entities of a type are first placed, as
/// `(min_x, max_x, min_y, max_y)`.
pub open spec fn spawn_bounds(entity_type: EntityType) -> (int, int, int, int) {
    match entity_type {
        EntityType::Player => (350, 450, 640, 740),
        EntityType::ClanLeader(_) => (200, 1200, 640, 750),
        EntityType::ClanMember(_) => (100, 1400, 640, 800),
        EntityType::HostileInfected => (50, 1350, 640, 850),
        EntityType::Animal => (50, 1200, 650, 1150),
        EntityType::Shelter => (0, 1600, 0, 800),
    }
}

/// Whether an entity lies closer than `min_distance` to a position.
pub open spec fn crowds(entity: GameEntity, x: int, y: int, min_distance: int) -> bool {
    let dx = x - entity.position.x;
    let dy = y - entity.position.y;
    min_distance > 0 && dx * dx + dy * dy < min_distance * min_distance
}

/// Whether a position keeps `min_distance` from every entity.
pub open spec fn keeps_distance(
    entities: Seq<GameEntity>,
    x: int,
    y: int,
    min_distance: int,
) -> bool {
    forall|i: int| 0 <= i < entities.len() ==> !crowds(#[trigger] entities[i], x, y, min_distance)
}

/// Whether a position lies inside the spawn area of an entity type, the
/// upper edges left out.
pub open spec fn in_spawn_bounds(entity_type: EntityType, x: int, y: int) -> bool {
    let bounds = spawn_bounds(entity_type);
    bounds.0 <= x < bounds.1 && bounds.2 <= y < bounds.3
}

/// Whether every position of the spawn area of an entity type keeps
/// `min_distance` from every entity, so that whichever position is drawn
/// there is safe.
pub open spec fn area_is_clear(
    entities: Seq<GameEntity>,
    entity_type: EntityType,
    min_distance: int,
) -> bool {
    forall|x: int, y: int| #[trigger]
        in_spawn_bounds(entity_type, x, y) ==> keeps_distance(entities, x, y, min_distance)
}

/// Entity creation and placement rules of the world.
pub struct WorldSystem;

/// Squares below this are computed without overflow.
const SQUARE_LIMIT: i128 = 0x4000_0000_0000_0000_0000_0000_0000_0000;

/// Whether one entity lies closer than `min_distance` to a position.
fn is_crowded_by(entity: &GameEntity, x: i64, y: i64, min_distance: i64) -> (close: bool)
    ensures
        close == crowds(*entity, x as int, y as int, min_distance as int),
{
    if min_distance <= 0 {
        return false;
    }
    let limit: i128 = min_distance as i128;
    let dx: i128 = x as i128 - entity.position.x as i128;
    let dy: i128 = y as i128 - entity.position.y as i128;
    if dx >= limit || dx <= -limit || dy >= limit || dy <= -limit {
        proof {
            assert(dx * dx + dy * dy >= limit * limit) by (nonlinear_arith)
                requires
                    limit > 0,
                    dx >= limit || dx <= -limit || dy >= limit || dy <= -limit,
            ;
        }
        return false;
    }
    proof {
        assert(0 <= dx * dx < limit * limit) by (nonlinear_arith)
            requires
                -limit < dx < limit,
        ;
        assert(0 <= dy * dy < limit * limit) by (nonlinear_arith)
            requires
                -limit < dy < limit,
        ;
        assert(limit * limit <= 0x7fff_ffff_ffff_ffff * limit) by (nonlinear_arith)
            requires
                0 < limit <= 0x7fff_ffff_ffff_ffff,
        ;
        assert(limit * limit < SQUARE_LIMIT);
    }
    dx * dx + dy * dy < limit * limit
}


impl WorldSystem {
    /// Checks whether a position lies on the ground.
    pub fn has_ground_at_position(x: i64, y: i64) -> (b: bool)
        ensures
            b == has_ground(x as int, y as int),
    {
        x >= 0 && x <= WORLD_WIDTH && y >= GROUND_LEVEL && y <= WORLD_HEIGHT
    }

    /// The area in which entities of a type are first placed.
    pub fn get_spawn_bounds(entity_type: &EntityType) -> (bounds: (i64, i64, i64, i64))
        ensures
            (bounds.0 as int, bounds.1 as int, bounds.2 as int, bounds.3 as int) == spawn_bounds(
                *entity_type,
            ),
    {
        match entity_type {
            EntityType::Player => (350, 450, 640, 740),
            EntityType::ClanLeader(_) => (200, 1200, 640, 750),
            EntityType::ClanMember(_) => (100, 1400, 640, 800),
            EntityType::HostileInfected => (50, 1350, 640, 850),
            EntityType::Animal => (50, 1200, 650, 1150),
            EntityType::Shelter => (0, 1600, 0, 800),
        }
    }

    /// Checks that a position keeps `min_distance` from every entity.
    pub fn is_valid_spawn_position(
        entities: &Vec<GameEntity>,
        x: i64,
        y: i64,
        min_distance: i64,
    ) -> (valid: bool)
        ensures
            valid == keeps_distance(entities@, x as int, y as int, min_distance as int),
    {
        let mut i: usize = 0;
        while i < entities.len()
            invariant
                i <= entities@.len(),
                forall|k: int|
                    0 <= k < i ==> !crowds(
                        #[trigger] entities@[k],
                        x as int,
                        y as int,
                        min_distance as int,
                    ),
            decreases entities@.len() - i,
        {
            if is_crowded_by(&entities[i], x, y, min_distance) {
                return false;
            }
            i = i + 1;
        }
        true
    }

    /// Looks for a position in the spawn area of an entity type that keeps
    /// `min_distance` from every entity, drawing at most `max_attempts`
    /// random positions and taking the first that is safe. A position that
    /// is returned lies in the area and keeps the distance; without attempts
    /// none is returned; and one is returned at the first attempt wherever
    /// the whole area is clear, whatever is drawn.
    pub fn find_safe_spawn_position(
        entities: &Vec<GameEntity>,
        entity_type: &EntityType,
        min_distance: i64,
        max_attempts: u32,
    ) -> (found: Option<(i64, i64)>)
        ensures
            max_attempts == 0 ==> found.is_none(),
            max_attempts > 0 && area_is_clear(entities@, *entity_type, min_distance as int)
                ==> found.is_some(),
            found.is_some() ==> in_spawn_bounds(
                *entity_type,
                found.unwrap().0 as int,
                found.unwrap().1 as int,
            ) && keeps_distance(
                entities@,
                found.unwrap().0 as int,
                found.unwrap().1 as int,
                min_distance as int,
            ),
    {
        let bounds = Self::get_spawn_bounds(entity_type);
        let mut attempt: u32 = 0;
        while attempt < max_attempts
            invariant
                attempt <= max_attempts,
                (bounds.0 as int, bounds.1 as int, bounds.2 as int, bounds.3 as int)
                    == spawn_bounds(*entity_type),
                attempt > 0 ==> !area_is_clear(entities@, *entity_type, min_distance as int),
            decreases max_attempts - attempt,
        {
            let x: i64 = random_in_range(bounds.0, bounds.1);
            let y: i64 = random_in_range(bounds.2, bounds.3);
            if Self::is_valid_spawn_position(entities, x, y, min_distance) {
                return Some((x, y));
            }
            proof {
                assert(in_spawn_bounds(*entity_type, x as int, y as int));
            }
            attempt = attempt + 1;
        }
        None
    }

    /// Draws a random position on the ground, one tile's width away from the
    /// edges of the ground area.
    pub fn generate_random_ground_position() -> (position: (i64, i64))
        ensures
            GROUND_PADDING <= position.0 < WORLD_WIDTH - GROUND_PADDING,
            GROUND_LEVEL + GROUND_PADDING <= position.1 < WORLD_HEIGHT - GROUND_PADDING,
            has_ground(position.0 as int, position.1 as int),
    {
        let x: i64 = random_in_range(GROUND_PADDING, WORLD_WIDTH - GROUND_PADDING);
        let y: i64 = random_in_range(GROUND_LEVEL + GROUND_PADDING, WORLD_HEIGHT - GROUND_PADDING);
        (x, y)
    }

    /// Checks whether a position lies above the ground but near enough to
    /// be moved onto it: inside the world's width and less than
    /// `RELOCATION_REACH` above the ground level.
    pub fn is_relocatable_to_ground(x: i64, y: i64) -> (b: bool)
        ensures
            b == (0 <= x <= WORLD_WIDTH && GROUND_LEVEL - RELOCATION_REACH <= y < GROUND_LEVEL),
    {
        x >= 0 && x <= WORLD_WIDTH && y >= GROUND_LEVEL - RELOCATION_REACH && y < GROUND_LEVEL
    }

    /// Creates an entity at a position, or nothing where the position has no
    /// ground to stand on.
    pub fn spawn_entity_at_position(
        entity_id: u32,
        entity_type: EntityType,
        x: i64,
        y: i64,
    ) -> (spawned: Option<GameEntity>)
        ensures
            spawned.is_some() <==> has_ground(x as int, y as int),
            spawned.is_some() ==> spawned.unwrap() == (GameEntity {
                id: entity_id,
                position: Position { x, y },
                entity_type,
            }),
    {
        if Self::has_ground_at_position(x, y) {
            Some(GameEntity { id: entity_id, position: Position { x, y }, entity_type })
        } else {
            None
        }
    }
}

/// Draws a pseudo-random integer from the process-wide generator of
/// `quad_rand`, by `quad_rand::gen_range`. That function scales a 32-bit draw
/// into `[low, high)` in double precision and truncates; for limits between 0
/// and 2^20 every step is exact, so the result is at least `low` and below
/// `high`. Nothing else is claimed: the value depends on the generator's
/// state.
#[verifier::external_body]
pub(crate) fn random_in_range(low: i64, high: i64) -> (r: i64)
    requires
        0 <= low < high <= RANDOM_LIMIT,
    ensures
        low <= r < high,
{
    quad_rand::gen_range(low, high)
}

} // verus!
