//! The state of the chunk manager as contracts see it, the configuration it
//! works with, and the windows it keeps around the player.

use vstd::prelude::*;
use crate::systems::chunk::{
    chunk_id, WorldChunk, CLEANUP_DISTANCE, GENERATION_DISTANCE, GROUND_HEIGHT, WORLD_MAX_Y,
    WORLD_MIN_Y,
};
use crate::systems::population::{MAX_ANIMALS_PER_CHUNK, MAX_ENEMIES_PER_CHUNK};
use crate::systems::spawn_cadence::{SpawnCadence, ENEMY_SPACING, SHELTER_SPACING};

verus! {

/// What the environment tells a generation step: the size of the screen.
#[derive(Debug, Clone, Copy, PartialEq, Eq, Structural)]
pub struct SpawnContext {
    pub screen_width: u16,
    pub screen_height: u16,
}

/// The largest distance a configuration may ask for.
pub const DISTANCE_LIMIT: i64 = 1_000_000_000;

/// The largest number of spawns of one category a configuration may ask for.
pub const COUNT_LIMIT: i64 = 1_000;

/// What a chunk manager can be told to do differently.
#[derive(Debug, Clone, Copy, PartialEq, Eq, Structural)]
pub struct StreamingConfig {
    /// How far ahead of the player chunks are generated.
    pub generation_distance: i64,
    /// How far behind the player a chunk may lie before it is discarded.
    pub cleanup_distance: i64,
    /// Height of the ground band, measured from the bottom of the screen.
    pub ground_height: i64,
    /// Minimum distance between two shelter spawns.
    pub shelter_spacing: i64,
    /// Minimum distance between two groups of hostiles.
    pub enemy_spacing: i64,
    /// Fewest hostiles attempted for a chunk in which they are due.
    pub min_enemies: i64,
    /// Most hostiles attempted for a chunk in which they are due.
    pub max_enemies: i64,
    /// Fewest animals attempted for a chunk.
    pub min_animals: i64,
    /// Most animals attempted for a chunk.
    pub max_animals: i64,
}

impl StreamingConfig {
    /// Whether the distances and counts are ones a manager can work with.
    pub open spec fn valid(self) -> bool {
        &&& 0 <= self.generation_distance <= DISTANCE_LIMIT
        &&& 0 <= self.cleanup_distance <= DISTANCE_LIMIT
        &&& -DISTANCE_LIMIT <= self.ground_height <= DISTANCE_LIMIT
        &&& 0 <= self.min_enemies <= self.max_enemies <= COUNT_LIMIT
        &&& 0 <= self.min_animals <= self.max_animals <= COUNT_LIMIT
    }

    /// The configuration of the game as it ships.
    pub open spec fn standard_spec() -> StreamingConfig {
        StreamingConfig {
            generation_distance: GENERATION_DISTANCE,
            cleanup_distance: CLEANUP_DISTANCE,
            ground_height: GROUND_HEIGHT,
            shelter_spacing: SHELTER_SPACING,
            enemy_spacing: ENEMY_SPACING,
            min_enemies: 1,
            max_enemies: MAX_ENEMIES_PER_CHUNK,
            min_animals: 1,
            max_animals: MAX_ANIMALS_PER_CHUNK,
        }
    }

    /// The configuration of the game as it ships.
    pub fn standard() -> (config: Self)
        ensures
            config == Self::standard_spec(),
            config.valid(),
    {
        StreamingConfig {
            generation_distance: GENERATION_DISTANCE,
            cleanup_distance: CLEANUP_DISTANCE,
            ground_height: GROUND_HEIGHT,
            shelter_spacing: SHELTER_SPACING,
            enemy_spacing: ENEMY_SPACING,
            min_enemies: 1,
            max_enemies: MAX_ENEMIES_PER_CHUNK,
            min_animals: 1,
            max_animals: MAX_ANIMALS_PER_CHUNK,
        }
    }

    /// Checks whether the distances and counts are ones a manager can work
    /// with.
    pub fn is_valid(&self) -> (valid: bool)
        ensures
            valid == self.valid(),
    {
        0 <= self.generation_distance && self.generation_distance <= DISTANCE_LIMIT && 0
            <= self.cleanup_distance && self.cleanup_distance <= DISTANCE_LIMIT && -DISTANCE_LIMIT
            <= self.ground_height && self.ground_height <= DISTANCE_LIMIT && 0 <= self.min_enemies
            && self.min_enemies <= self.max_enemies && self.max_enemies <= COUNT_LIMIT && 0
            <= self.min_animals && self.min_animals <= self.max_animals && self.max_animals
            <= COUNT_LIMIT
    }
}

/// The state of a chunk manager as contracts see it.
pub struct WorldView {
    pub config: StreamingConfig,
    /// The live chunks by identifier.
    pub chunks: Map<i64, WorldChunk>,
    pub last_player_y: int,
    /// The identifier the next spawn will get.
    pub next_entity_id: int,
    pub shelter_cadence: SpawnCadence,
    pub enemy_cadence: SpawnCadence,
    /// Where the ground band starts; tiles are generated at or beyond it.
    pub ground_y_base: int,
}

/// The lowest chunk identifier of the generation window of a player at `y`
/// who looks `generation_distance` ahead.
pub open spec fn window_low(y: int, generation_distance: int) -> int {
    chunk_id(y - generation_distance)
}

/// The highest chunk identifier of the generation window of a player at `y`:
/// the player's own chunk, or chunk 0 where the player is beyond it.
pub open spec fn window_high(y: int) -> int {
    if chunk_id(y) >= 0 {
        chunk_id(y)
    } else {
        0
    }
}

/// Whether chunk `id` lies in the generation window of a player at `y`, as
/// far as the window lies in the world.
pub open spec fn in_window(y: int, generation_distance: int, id: int) -> bool {
    first_generated(y, generation_distance) <= id <= last_generated(y)
}

/// Whether a chunk that starts at `start_y` has fallen behind the cleanup
/// threshold.
pub open spec fn is_stale(threshold: int, start_y: int) -> bool {
    start_y > threshold
}

/// The lowest identifier a chunk of the world can have.
pub open spec fn first_world_id() -> int {
    window_low(WORLD_MIN_Y as int, DISTANCE_LIMIT as int)
}

/// The highest identifier a chunk of the world can have.
pub open spec fn last_world_id() -> int {
    window_high(WORLD_MAX_Y as int)
}

/// The lowest identifier of the chunks generated for a player at `y`: the
/// low end of the generation window, clamped into the world.
pub open spec fn first_generated(y: int, generation_distance: int) -> int {
    if window_low(y, generation_distance) >= first_world_id() {
        window_low(y, generation_distance)
    } else {
        first_world_id()
    }
}

/// The highest identifier of the chunks generated for a player at `y`: the
/// high end of the generation window, clamped into the world.
pub open spec fn last_generated(y: int) -> int {
    if window_high(y) <= last_world_id() {
        window_high(y)
    } else {
        last_world_id()
    }
}

/// Whether an identifier can belong to a chunk of the world.
pub open spec fn id_in_world(id: int) -> bool {
    first_world_id() <= id <= last_world_id()
}

/// Whether a chunk record is a finished chunk `id` whose entities were all
/// issued before `next_entity_id`, in rising order.
pub open spec fn chunk_wf(chunk: WorldChunk, id: int, next_entity_id: int) -> bool {
    &&& chunk.spans(id)
    &&& chunk.generated
    &&& forall|k: int| 0 <= k < chunk.entities@.len() ==> #[trigger] chunk.entities@[k] < next_entity_id
    &&& forall|j: int, k: int|
        0 <= j < k < chunk.entities@.len() ==> chunk.entities@[j] < chunk.entities@[k]
}

impl WorldView {
    /// The invariant of a chunk manager: its configuration is one it can
    /// work with and the trackers keep the spacings it names; every record
    /// sits under its own identifier, inside the world, and owns only
    /// identifiers that were already issued.
    pub open spec fn wf(self) -> bool {
        &&& self.chunks.dom().finite()
        &&& self.config.valid()
        &&& self.shelter_cadence.spacing == self.config.shelter_spacing
        &&& self.enemy_cadence.spacing == self.config.enemy_spacing
        &&& 0 <= self.next_entity_id <= u32::MAX
        &&& forall|id: i64| #[trigger]
            self.chunks.contains_key(id) ==> id_in_world(id as int) && chunk_wf(
                self.chunks[id],
                id as int,
                self.next_entity_id,
            )
    }
}

} // verus!
