//! The chunk manager: generates chunks ahead of the player, discards chunks
//! behind, and keeps the shared entity collection in step with both.

pub use crate::systems::chunk::{
    WorldChunk, CHUNK_SIZE, CLEANUP_DISTANCE, GENERATION_DISTANCE, GROUND_HEIGHT, SKY_HEIGHT,
};

use std::collections::HashMap;
use vstd::prelude::*;
use crate::components::entities::{
    entity_ids, lemma_filter_agree, remove_entities_by_id, GameEntity, Position,
};
use crate::components::environment::{classify, tile_category, GroundTile, TileType};
use crate::components::game_data::EntityType;
use crate::systems::chunk::{
    band_tiles, chunk_end, chunk_id_of, chunk_start, generate_band_tiles, BAND_LIMIT, WORLD_MAX_Y,
    WORLD_MIN_Y,
};
use crate::systems::population::{
    attempts_counted, lemma_layout_step, lemma_population_step, lemma_shelter_created_stable,
    band_has_ground, no_identifier_lost, populated_in_order, population_layout,
    population_progress, shelter_created, spawn_outcome,
    spawned_for, trackers_follow, ROAMER_MARGIN, SHELTER_MARGIN,
};
use crate::systems::spawn_cadence::SpawnCadence;
use crate::systems::streaming::{
    chunk_filled, generated_ahead, generated_down, generated_range, lemma_additions_concat,
    lemma_chunks_extended_step, lemma_fresh_rising_concat, lemma_generated_down_extend,
    lemma_nearest_first_step, lemma_owned_step, lemma_progress_additions, lemma_recorded_step,
    lemma_wf_step, owned_by_stale, stale_in, surviving_chunks, surviving_entities, update_steps,
    updated, with_tiles,
};
use crate::systems::visible_tiles::{
    chunk_visible_tiles, collect_tiles_in_view, lemma_visible_tiles_trim_high,
    lemma_visible_tiles_trim_low, view_end, view_start, visible_tiles,
};
use crate::systems::world::{has_ground, random_in_range, WorldSystem};
use crate::systems::world_view::{
    first_generated, first_world_id, last_generated, last_world_id,
    SpawnContext, StreamingConfig, WorldView, DISTANCE_LIMIT,
};

verus! {

broadcast use {
    vstd::std_specs::hash::group_hash_axioms,
    vstd::seq_lib::lemma_seq_contains_after_push,
};

/// Manages generation and cleanup of the streamed world.
pub struct InfiniteWorldSystem {
    chunks: HashMap<i64, WorldChunk>,
    last_player_y: i64,
    next_entity_id: u32,
    shelter_cadence: SpawnCadence,
    enemy_cadence: SpawnCadence,
    ground_y_base: i64,
    config: StreamingConfig,
}

impl View for InfiniteWorldSystem {
    type V = WorldView;

    closed spec fn view(&self) -> WorldView {
        WorldView {
            chunks: self.chunks@,
            last_player_y: self.last_player_y as int,
            next_entity_id: self.next_entity_id as int,
            shelter_cadence: self.shelter_cadence,
            enemy_cadence: self.enemy_cadence,
            ground_y_base: self.ground_y_base as int,
            config: self.config,
        }
    }
}

impl Default for InfiniteWorldSystem {
    /// A manager whose identifiers start at 1000, clear of those that the
    /// rest of the game hands out first.
    fn default() -> (system: Self)
        ensures
            system@ == InfiniteWorldSystem::initial_view(1000, StreamingConfig::standard_spec()),
            system@.wf(),
    {
        InfiniteWorldSystem::new(1000)
    }
}

/// Clamps a coordinate to the range in which chunk bands lie.
fn clamp_to_band(y: i128) -> (clamped: i64)
    ensures
        -BAND_LIMIT <= clamped <= BAND_LIMIT,
        -BAND_LIMIT <= y <= BAND_LIMIT ==> clamped == y,
        y < -BAND_LIMIT ==> clamped == -BAND_LIMIT,
        y > BAND_LIMIT ==> clamped == BAND_LIMIT,
{
    if y < -(BAND_LIMIT as i128) {
        -BAND_LIMIT
    } else if y > BAND_LIMIT as i128 {
        BAND_LIMIT
    } else {
        y as i64
    }
}

impl InfiniteWorldSystem {
    /// A manager without chunks, configured as the game ships, whose first
    /// spawn gets `next_entity_id`.
    pub fn new(next_entity_id: u32) -> (system: Self)
        ensures
            system@ == Self::initial_view(next_entity_id, StreamingConfig::standard_spec()),
            system@.wf(),
    {
        let config = StreamingConfig::standard();
        InfiniteWorldSystem {
            chunks: HashMap::new(),
            last_player_y: 600,
            next_entity_id,
            shelter_cadence: SpawnCadence::new(800, config.shelter_spacing),
            enemy_cadence: SpawnCadence::new(700, config.enemy_spacing),
            ground_y_base: 720 - config.ground_height,
            config,
        }
    }

    /// The state of a manager that has not streamed anything yet: no chunk,
    /// the player at the bottom of the screen, and both trackers far enough
    /// behind for early spawns.
    pub open spec fn initial_view(next_entity_id: u32, config: StreamingConfig) -> WorldView {
        WorldView {
            config,
            chunks: Map::empty(),
            last_player_y: 600,
            next_entity_id: next_entity_id as int,
            shelter_cadence: SpawnCadence { last_spawn_y: 800, spacing: config.shelter_spacing },
            enemy_cadence: SpawnCadence { last_spawn_y: 700, spacing: config.enemy_spacing },
            ground_y_base: 720 - config.ground_height,
        }
    }

    /// A manager without chunks with a configuration of its own, or nothing
    /// where the configuration asks for distances or counts out of range.
    pub fn with_config(next_entity_id: u32, config: StreamingConfig) -> (system: Option<Self>)
        ensures
            system.is_some() == config.valid(),
            system.is_some() ==> system.unwrap()@ == Self::initial_view(next_entity_id, config)
                && system.unwrap()@.wf(),
    {
        if !config.is_valid() {
            return None;
        }
        Some(
            InfiniteWorldSystem {
                chunks: HashMap::new(),
                last_player_y: 600,
                next_entity_id,
                shelter_cadence: SpawnCadence::new(800, config.shelter_spacing),
                enemy_cadence: SpawnCadence::new(700, config.enemy_spacing),
                ground_y_base: 720 - config.ground_height,
                config,
            },
        )
    }

    /// The configuration the manager works with.
    pub fn get_config(&self) -> (config: StreamingConfig)
        ensures
            config == self@.config,
    {
        self.config
    }

    /// Raises the identifier counter to `next_id`. The counter never moves
    /// back, so an identifier that was issued is not issued again.
    pub fn update_next_entity_id(&mut self, next_id: u32)
        requires
            old(self)@.wf(),
        ensures
            final(self)@ == (WorldView {
                next_entity_id: if next_id as int > old(self)@.next_entity_id {
                    next_id as int
                } else {
                    old(self)@.next_entity_id
                },
                ..old(self)@
            }),
            final(self)@.wf(),
    {
        if next_id > self.next_entity_id {
            self.next_entity_id = next_id;
        }
    }

    /// The identifier the next spawn will get.
    pub fn get_next_entity_id(&self) -> (id: u32)
        ensures
            id == self@.next_entity_id,
    {
        self.next_entity_id
    }

    /// Where the ground band starts.
    pub fn get_ground_y_base(&self) -> (y: i64)
        ensures
            y == self@.ground_y_base,
    {
        self.ground_y_base
    }

    /// The player position seen by the last update.
    pub fn get_last_player_y(&self) -> (y: i64)
        ensures
            y == self@.last_player_y,
    {
        self.last_player_y
    }

    /// The number of live chunks.
    pub fn chunk_count(&self) -> (n: usize)
        ensures
            n == self@.chunks.len(),
    {
        self.chunks.len()
    }

    /// Whether chunk `id` is live.
    pub fn has_chunk(&self, id: i64) -> (live: bool)
        ensures
            live == self@.chunks.contains_key(id),
    {
        self.chunks.contains_key(&id)
    }

    /// The record of chunk `id`, if it is live.
    pub fn get_chunk(&self, id: i64) -> (chunk: Option<&WorldChunk>)
        ensures
            chunk.is_some() == self@.chunks.contains_key(id),
            chunk.is_some() ==> *chunk.unwrap() == self@.chunks[id],
    {
        self.chunks.get(&id)
    }

    /// Spawns one entity of the given type at a position on behalf of
    /// `chunk`. A fresh identifier is taken first; where the position has no
    /// ground the spawn is skipped and the identifier stays unused. Entity and
    /// ownership record are added together. Once the identifiers are used up
    /// nothing is spawned any more.
    pub fn spawn_at(
        &mut self,
        chunk: &mut WorldChunk,
        entities: &mut Vec<GameEntity>,
        entity_type: EntityType,
        x: i64,
        y: i64,
    ) -> (issued: Option<u32>)
        requires
            old(self)@.wf(),
        ensures
            final(self)@.wf(),
            final(self)@ == (WorldView {
                next_entity_id: if old(self)@.next_entity_id < u32::MAX {
                    old(self)@.next_entity_id + 1
                } else {
                    old(self)@.next_entity_id
                },
                ..old(self)@
            }),
            issued.is_some() <==> old(self)@.next_entity_id < u32::MAX && has_ground(
                x as int,
                y as int,
            ),
            issued.is_some() ==> {
                &&& issued.unwrap() == old(self)@.next_entity_id
                &&& final(entities)@ == old(entities)@.push(
                    GameEntity { id: issued.unwrap(), position: Position { x, y }, entity_type },
                )
                &&& final(chunk).entities@ == old(chunk).entities@.push(issued.unwrap())
                &&& final(chunk).same_band_as(*old(chunk))
            },
            issued.is_none() ==> final(entities)@ == old(entities)@ && *final(chunk) == *old(chunk),
    {
        if self.next_entity_id == u32::MAX {
            return None;
        }
        let entity_id: u32 = self.next_entity_id;
        self.next_entity_id = entity_id + 1;
        match WorldSystem::spawn_entity_at_position(entity_id, entity_type, x, y) {
            Some(entity) => {
                entities.push(entity);
                chunk.entities.push(entity_id);
                Some(entity_id)
            },
            None => None,
        }
    }

    /// Attempts one spawn of a hostile or an animal at a random position
    /// between the edges of `chunk`, the lower edge included and the upper
    /// left out. Nothing is attempted on a screen too narrow to leave
    /// room between the margins.
    fn spawn_roamer(
        &mut self,
        chunk: &mut WorldChunk,
        entities: &mut Vec<GameEntity>,
        ctx: &SpawnContext,
        entity_type: EntityType,
    ) -> (issued: Option<u32>)
        requires
            old(self)@.wf(),
            old(chunk).in_bounds(),
        ensures
            final(self)@.wf(),
            final(chunk).in_bounds(),
            spawn_outcome(
                old(self)@,
                *old(chunk),
                old(entities)@,
                final(self)@,
                *final(chunk),
                final(entities)@,
                issued,
                entity_type,
                ROAMER_MARGIN as int,
                ctx.screen_width as int,
                old(chunk).end_y as int,
                old(chunk).start_y as int,
            ),
            ctx.screen_width > 2 * ROAMER_MARGIN && old(self)@.next_entity_id < u32::MAX
                ==> final(self)@.next_entity_id == old(self)@.next_entity_id + 1,
            ctx.screen_width <= 2 * ROAMER_MARGIN ==> final(self)@.next_entity_id == old(
                self,
            )@.next_entity_id,
            ctx.screen_width > 2 * ROAMER_MARGIN && old(self)@.next_entity_id < u32::MAX
                && band_has_ground(
                ROAMER_MARGIN as int,
                ctx.screen_width as int,
                old(chunk).end_y as int,
                old(chunk).start_y as int,
            ) ==> issued.is_some(),
    {
        let high: i64 = ctx.screen_width as i64 - ROAMER_MARGIN;
        if high <= ROAMER_MARGIN {
            return None;
        }
        let x: i64 = random_in_range(ROAMER_MARGIN, high);
        let y: i64 = chunk.end_y + random_in_range(0, CHUNK_SIZE);
        let issued = self.spawn_at(chunk, entities, entity_type, x, y);
        proof {
            if issued.is_some() {
                assert(entities@.drop_last() =~= old(entities)@);
            }
        }
        issued
    }

    /// Attempts to spawn a shelter at coordinate `y` on behalf of `chunk`,
    /// at a random horizontal position between the shelter margins.
    pub fn spawn_shelter(
        &mut self,
        chunk: &mut WorldChunk,
        y: i64,
        entities: &mut Vec<GameEntity>,
        ctx: &SpawnContext,
    ) -> (issued: Option<u32>)
        requires
            old(self)@.wf(),
        ensures
            final(self)@.wf(),
            spawn_outcome(
                old(self)@,
                *old(chunk),
                old(entities)@,
                final(self)@,
                *final(chunk),
                final(entities)@,
                issued,
                EntityType::Shelter,
                SHELTER_MARGIN as int,
                ctx.screen_width as int,
                y as int,
                y + 1,
            ),
            ctx.screen_width > 2 * SHELTER_MARGIN && old(self)@.next_entity_id < u32::MAX
                ==> final(self)@.next_entity_id == old(self)@.next_entity_id + 1,
            ctx.screen_width <= 2 * SHELTER_MARGIN ==> final(self)@.next_entity_id == old(
                self,
            )@.next_entity_id,
            ctx.screen_width > 2 * SHELTER_MARGIN && old(self)@.next_entity_id < u32::MAX
                && band_has_ground(
                SHELTER_MARGIN as int,
                ctx.screen_width as int,
                y as int,
                y + 1,
            ) ==> issued.is_some(),
    {
        let high: i64 = ctx.screen_width as i64 - SHELTER_MARGIN;
        if high <= SHELTER_MARGIN {
            return None;
        }
        let x: i64 = random_in_range(SHELTER_MARGIN, high);
        let issued = self.spawn_at(chunk, entities, EntityType::Shelter, x, y);
        proof {
            if issued.is_some() {
                assert(entities@.drop_last() =~= old(entities)@);
            }
        }
        issued
    }

    /// Attempts to spawn a hostile at a random position between the edges of
    /// `chunk`, the lower edge included and the upper left out.
    pub fn spawn_enemy(
        &mut self,
        chunk: &mut WorldChunk,
        entities: &mut Vec<GameEntity>,
        ctx: &SpawnContext,
    ) -> (issued: Option<u32>)
        requires
            old(self)@.wf(),
            old(chunk).in_bounds(),
        ensures
            final(self)@.wf(),
            final(chunk).in_bounds(),
            spawn_outcome(
                old(self)@,
                *old(chunk),
                old(entities)@,
                final(self)@,
                *final(chunk),
                final(entities)@,
                issued,
                EntityType::HostileInfected,
                ROAMER_MARGIN as int,
                ctx.screen_width as int,
                old(chunk).end_y as int,
                old(chunk).start_y as int,
            ),
            ctx.screen_width > 2 * ROAMER_MARGIN && old(self)@.next_entity_id < u32::MAX
                ==> final(self)@.next_entity_id == old(self)@.next_entity_id + 1,
            ctx.screen_width <= 2 * ROAMER_MARGIN ==> final(self)@.next_entity_id == old(
                self,
            )@.next_entity_id,
            ctx.screen_width > 2 * ROAMER_MARGIN && old(self)@.next_entity_id < u32::MAX
                && band_has_ground(
                ROAMER_MARGIN as int,
                ctx.screen_width as int,
                old(chunk).end_y as int,
                old(chunk).start_y as int,
            ) ==> issued.is_some(),
    {
        self.spawn_roamer(chunk, entities, ctx, EntityType::HostileInfected)
    }

    /// Attempts to spawn an animal at a random position between the edges of
    /// `chunk`, the lower edge included and the upper left out.
    pub fn spawn_animal(
        &mut self,
        chunk: &mut WorldChunk,
        entities: &mut Vec<GameEntity>,
        ctx: &SpawnContext,
    ) -> (issued: Option<u32>)
        requires
            old(self)@.wf(),
            old(chunk).in_bounds(),
        ensures
            final(self)@.wf(),
            final(chunk).in_bounds(),
            spawn_outcome(
                old(self)@,
                *old(chunk),
                old(entities)@,
                final(self)@,
                *final(chunk),
                final(entities)@,
                issued,
                EntityType::Animal,
                ROAMER_MARGIN as int,
                ctx.screen_width as int,
                old(chunk).end_y as int,
                old(chunk).start_y as int,
            ),
            ctx.screen_width > 2 * ROAMER_MARGIN && old(self)@.next_entity_id < u32::MAX
                ==> final(self)@.next_entity_id == old(self)@.next_entity_id + 1,
            ctx.screen_width <= 2 * ROAMER_MARGIN ==> final(self)@.next_entity_id == old(
                self,
            )@.next_entity_id,
            ctx.screen_width > 2 * ROAMER_MARGIN && old(self)@.next_entity_id < u32::MAX
                && band_has_ground(
                ROAMER_MARGIN as int,
                ctx.screen_width as int,
                old(chunk).end_y as int,
                old(chunk).start_y as int,
            ) ==> issued.is_some(),
    {
        self.spawn_roamer(chunk, entities, ctx, EntityType::Animal)
    }

    /// Populates a chunk that is being generated. Against the chunk's centre
    /// a shelter is attempted once the shelter tracker says one is due, and
    /// the tracker moves only if the shelter was created; hostiles are
    /// attempted once the hostile tracker says they are due, as many as a
    /// random draw from the configured range says, and that tracker moves
    /// whatever came of them; animals are attempted for every chunk, as many
    /// as a draw from their range says.
    pub fn spawn_chunk_entities(
        &mut self,
        chunk: &mut WorldChunk,
        entities: &mut Vec<GameEntity>,
        ctx: &SpawnContext,
    )
        requires
            old(self)@.wf(),
            old(chunk).in_bounds(),
        ensures
            final(self)@.wf(),
            population_progress(
                old(self)@,
                *old(chunk),
                old(entities)@,
                final(self)@,
                *final(chunk),
                final(entities)@,
                ctx.screen_width as int,
            ),
            attempts_counted(
                old(self)@,
                old(chunk).center_y(),
                final(self)@,
                ctx.screen_width as int,
            ),
            trackers_follow(
                old(self)@,
                *old(chunk),
                old(entities)@,
                final(self)@,
                final(entities)@,
            ),
            populated_in_order(
                old(self)@,
                *old(chunk),
                final(entities)@.skip(old(entities)@.len() as int),
                ctx.screen_width as int,
            ),
            no_identifier_lost(
                old(self)@,
                *old(chunk),
                final(entities)@.skip(old(entities)@.len() as int),
                final(self)@,
                ctx.screen_width as int,
            ),
    {
        let center: i64 = chunk.start_y - CHUNK_SIZE / 2;
        let ghost pre = self@;
        let ghost pre_chunk = *chunk;
        let ghost pre_entities = entities@;
        let ghost width = ctx.screen_width as int;
        let ghost mut sheltered = false;
        let ghost n = pre_entities.len() as int;
        let ghost mut shelters: int = 0;
        let ghost grounded = band_has_ground(
            ROAMER_MARGIN as int,
            width,
            pre_chunk.end_y as int,
            pre_chunk.start_y as int,
        );
        proof {
            assert(entities@.skip(n) =~= Seq::<GameEntity>::empty());
            assert(entities@.subrange(0, pre_entities.len() as int) =~= pre_entities);
            assert(chunk.entities@ =~= pre_chunk.entities@ + entity_ids(
                entities@.skip(pre_entities.len() as int),
            ));
        }
        if self.shelter_cadence.is_due(center) {
            let ghost mid = self@;
            let issued = self.spawn_shelter(chunk, center, entities, ctx);
            proof {
                lemma_population_step(
                    pre,
                    pre_chunk,
                    pre_entities,
                    mid,
                    pre_chunk,
                    pre_entities,
                    self@,
                    *chunk,
                    entities@,
                    issued,
                    EntityType::Shelter,
                    SHELTER_MARGIN as int,
                    width,
                    center as int,
                    center + 1,
                );
            }
            if issued.is_some() {
                self.shelter_cadence = SpawnCadence::new(center, self.shelter_cadence.spacing);
                proof {
                    sheltered = true;
                    shelters = 1;
                    assert(entities@.skip(n) =~= seq![entities@.last()]);
                }
            }
        }
        proof {
            if grounded {
                assert(band_has_ground(SHELTER_MARGIN as int, width, center as int, center + 1));
            }
        }
        let ghost after_shelter = self@.next_entity_id;
        let ghost mut hostiles: int = 0;
        proof {
            assert(population_layout(
                pre.config,
                entities@.skip(n),
                shelters,
                0,
                center as int,
                width,
            ));
        }
        if self.enemy_cadence.is_due(center) {
            let enemy_count: i64 = random_in_range(
                self.config.min_enemies,
                self.config.max_enemies + 1,
            );
            let mut spawned: i64 = 0;
            while spawned < enemy_count
                invariant
                    0 <= spawned <= enemy_count <= pre.config.max_enemies,
                    pre.config.min_enemies <= enemy_count,
                    self@.wf(),
                    chunk.in_bounds(),
                    width == ctx.screen_width as int,
                    population_progress(
                        pre,
                        pre_chunk,
                        pre_entities,
                        self@,
                        *chunk,
                        entities@,
                        width,
                    ),
                    self@.next_entity_id <= after_shelter + spawned,
                    width > 2 * ROAMER_MARGIN ==> self@.next_entity_id == after_shelter + spawned
                        || self@.next_entity_id == u32::MAX,
                    width <= 2 * ROAMER_MARGIN ==> self@.next_entity_id == after_shelter,
                    n == pre_entities.len(),
                    grounded == band_has_ground(
                    ROAMER_MARGIN as int,
                    width,
                    pre_chunk.end_y as int,
                    pre_chunk.start_y as int,
                ),
                grounded ==> entities@.len() - n == self@.next_entity_id - pre.next_entity_id,
                    hostiles == entities@.len() - n - shelters,
                    hostiles <= spawned,
                    population_layout(
                        pre.config,
                        entities@.skip(n),
                        shelters,
                        hostiles,
                        center as int,
                        width,
                    ),
                    self@.enemy_cadence == pre.enemy_cadence,
                    self@.shelter_cadence == (if sheltered {
                        SpawnCadence {
                            last_spawn_y: center,
                            spacing: pre.shelter_cadence.spacing,
                        }
                    } else {
                        pre.shelter_cadence
                    }),
                    sheltered == shelter_created(pre, pre_chunk, pre_entities, entities@),
                decreases enemy_count - spawned,
            {
                let ghost mid = self@;
                let ghost mid_chunk = *chunk;
                let ghost mid_entities = entities@;
                let issued = self.spawn_enemy(chunk, entities, ctx);
                proof {
                    lemma_population_step(
                        pre,
                        pre_chunk,
                        pre_entities,
                        mid,
                        mid_chunk,
                        mid_entities,
                        self@,
                        *chunk,
                        entities@,
                        issued,
                        EntityType::HostileInfected,
                        ROAMER_MARGIN as int,
                        width,
                        pre_chunk.end_y as int,
                        pre_chunk.start_y as int,
                    );
                    lemma_shelter_created_stable(
                        pre,
                        pre_chunk,
                        pre_entities,
                        mid_entities,
                        entities@,
                        issued,
                        EntityType::HostileInfected,
                    );
                    lemma_layout_step(
                        pre.config,
                        n,
                        mid_entities,
                        entities@,
                        issued,
                        EntityType::HostileInfected,
                        shelters,
                        hostiles,
                        entities@.len() - n - shelters,
                        center as int,
                        width,
                    );
                    hostiles = entities@.len() - n - shelters;
                }
                spawned = spawned + 1;
            }
            self.enemy_cadence = SpawnCadence::new(center, self.enemy_cadence.spacing);
        }
        let ghost after_enemies = self@.next_entity_id;
        let ghost enemy_after = self@.enemy_cadence;
        let ghost before_animals = entities@.len() as int;
        let animal_count: i64 = random_in_range(
            self.config.min_animals,
            self.config.max_animals + 1,
        );
        let mut spawned: i64 = 0;
        while spawned < animal_count
            invariant
                0 <= spawned <= animal_count <= pre.config.max_animals,
                pre.config.min_animals <= animal_count,
                self@.wf(),
                chunk.in_bounds(),
                width == ctx.screen_width as int,
                population_progress(pre, pre_chunk, pre_entities, self@, *chunk, entities@, width),
                self@.next_entity_id <= after_enemies + spawned,
                width > 2 * ROAMER_MARGIN ==> self@.next_entity_id == after_enemies + spawned
                    || self@.next_entity_id == u32::MAX,
                width <= 2 * ROAMER_MARGIN ==> self@.next_entity_id == after_enemies,
                n == pre_entities.len(),
                grounded == band_has_ground(
                    ROAMER_MARGIN as int,
                    width,
                    pre_chunk.end_y as int,
                    pre_chunk.start_y as int,
                ),
                grounded ==> entities@.len() - n == self@.next_entity_id - pre.next_entity_id,
                before_animals == n + shelters + hostiles,
                entities@.len() <= before_animals + spawned,
                population_layout(
                    pre.config,
                    entities@.skip(n),
                    shelters,
                    hostiles,
                    center as int,
                    width,
                ),
                self@.enemy_cadence == enemy_after,
                self@.shelter_cadence == (if sheltered {
                    SpawnCadence { last_spawn_y: center, spacing: pre.shelter_cadence.spacing }
                } else {
                    pre.shelter_cadence
                }),
                sheltered == shelter_created(pre, pre_chunk, pre_entities, entities@),
            decreases animal_count - spawned,
        {
            let ghost mid = self@;
            let ghost mid_chunk = *chunk;
            let ghost mid_entities = entities@;
            let issued = self.spawn_animal(chunk, entities, ctx);
            proof {
                lemma_population_step(
                    pre,
                    pre_chunk,
                    pre_entities,
                    mid,
                    mid_chunk,
                    mid_entities,
                    self@,
                    *chunk,
                    entities@,
                    issued,
                    EntityType::Animal,
                    ROAMER_MARGIN as int,
                    width,
                    pre_chunk.end_y as int,
                    pre_chunk.start_y as int,
                );
                lemma_shelter_created_stable(
                    pre,
                    pre_chunk,
                    pre_entities,
                    mid_entities,
                    entities@,
                    issued,
                    EntityType::Animal,
                );
                lemma_layout_step(
                    pre.config,
                    n,
                    mid_entities,
                    entities@,
                    issued,
                    EntityType::Animal,
                    shelters,
                    hostiles,
                    hostiles,
                    center as int,
                    width,
                );
            }
            spawned = spawned + 1;
        }
        proof {
            assert(population_layout(
                pre.config,
                entities@.skip(n),
                shelters,
                hostiles,
                center as int,
                width,
            ));
        }
    }

    /// The identifiers of the live chunks, each once, in no particular order.
    pub fn live_chunk_ids(&self) -> (ids: Vec<i64>)
        ensures
            ids@.no_duplicates(),
            ids@.to_set() == self@.chunks.dom(),
    {
        let mut ids: Vec<i64> = Vec::new();
        for id in iter: self.chunks.keys()
            invariant
                ids@ == iter.seq().unref().take(iter.index() as int),
                iter.seq().unref().no_duplicates(),
                iter.seq().unref().to_set() == self@.chunks.dom(),
                iter.index() == iter.seq().len() ==> ids@ == iter.seq().unref(),
        {
            ids.push(*id);
            proof {
                let all = iter.seq().unref();
                let n = iter.index() as int;
                assert(all.take(n + 1) =~= all.take(n).push(all[n]));
                assert(all.take(all.len() as int) =~= all);
            }
        }
        ids
    }

    /// Discards every chunk that has fallen behind the cleanup threshold of a
    /// player at `player_y`, together with the entities those chunks own.
    /// Chunks that stay are not touched.
    pub fn cleanup_chunks_behind(&mut self, player_y: i64, entities: &mut Vec<GameEntity>)
        requires
            old(self)@.wf(),
        ensures
            final(self)@.wf(),
            final(self)@ == (WorldView {
                chunks: surviving_chunks(
                    old(self)@.chunks,
                    player_y + old(self)@.config.cleanup_distance,
                ),
                ..old(self)@
            }),
            final(entities)@ == surviving_entities(
                old(self)@.chunks,
                player_y + old(self)@.config.cleanup_distance,
                old(entities)@,
            ),
    {
        let threshold: i128 = player_y as i128 + self.config.cleanup_distance as i128;
        let ghost pre = self@;
        let ghost chunks = self@.chunks;
        let ghost p = player_y + self@.config.cleanup_distance;
        let ids = self.live_chunk_ids();
        let mut stale_chunks: Vec<i64> = Vec::new();
        let mut stale_entities: Vec<u32> = Vec::new();
        let mut i: usize = 0;
        while i < ids.len()
            invariant
                i <= ids@.len(),
                self@ == pre,
                chunks == pre.chunks,
                ids@.to_set() == chunks.dom(),
                threshold == p,
                forall|k: int|
                    0 <= k < stale_chunks@.len() ==> stale_in(chunks, p, #[trigger] stale_chunks@[k]),
                forall|j: int|
                    0 <= j < i && stale_in(chunks, p, #[trigger] ids@[j])
                        ==> stale_chunks@.contains(ids@[j]),
                forall|k: int|
                    0 <= k < stale_entities@.len() ==> owned_by_stale(
                        chunks,
                        p,
                        #[trigger] stale_entities@[k],
                    ),
                forall|j: int, m: int|
                    0 <= j < i && stale_in(chunks, p, ids@[j]) && 0 <= m
                        < chunks[ids@[j]].entities@.len() ==> stale_entities@.contains(
                        #[trigger] chunks[ids@[j]].entities@[m],
                    ),
            decreases ids@.len() - i,
        {
            let id: i64 = ids[i];
            proof {
                assert(ids@.to_set().contains(ids@[i as int]));
            }
            let found = self.chunks.get(&id);
            if let Some(chunk) = found {
                if chunk.start_y as i128 > threshold {
                    stale_chunks.push(id);
                    let mut m: usize = 0;
                    while m < chunk.entities.len()
                        invariant
                            m <= chunk.entities@.len(),
                            i < ids@.len(),
                            *chunk == chunks[id],
                            stale_in(chunks, p, id),
                            forall|k: int|
                                0 <= k < stale_entities@.len() ==> owned_by_stale(
                                    chunks,
                                    p,
                                    #[trigger] stale_entities@[k],
                                ),
                            forall|j: int, n: int|
                                0 <= j < i && stale_in(chunks, p, ids@[j]) && 0 <= n
                                    < chunks[ids@[j]].entities@.len() ==> stale_entities@.contains(
                                    #[trigger] chunks[ids@[j]].entities@[n],
                                ),
                            forall|n: int|
                                0 <= n < m ==> stale_entities@.contains(
                                    #[trigger] chunk.entities@[n],
                                ),
                        decreases chunk.entities@.len() - m,
                    {
                        proof {
                            assert(chunks[id].entities@.contains(chunk.entities@[m as int]));
                        }
                        stale_entities.push(chunk.entities[m]);
                        m = m + 1;
                    }
                }
            }
            i = i + 1;
        }
        remove_entities_by_id(entities, &stale_entities);
        proof {
            let gone = stale_entities@;
            let by_list = |e: GameEntity| !gone.contains(e.id);
            let by_owner = |e: GameEntity| !owned_by_stale(chunks, p, e.id);
            assert forall|n: int| 0 <= n < old(entities)@.len() implies by_list(
                #[trigger] old(entities)@[n],
            ) == by_owner(old(entities)@[n]) by {
                let e = old(entities)@[n];
                if owned_by_stale(chunks, p, e.id) {
                    let id = choose|id: i64| #[trigger]
                        stale_in(chunks, p, id) && chunks[id].entities@.contains(e.id);
                    assert(ids@.to_set().contains(id));
                    let j = choose|j: int| 0 <= j < ids@.len() && ids@[j] == id;
                    let m = choose|m: int|
                        0 <= m < chunks[id].entities@.len() && chunks[id].entities@[m] == e.id;
                    assert(gone.contains(chunks[ids@[j]].entities@[m]));
                }
                if gone.contains(e.id) {
                    let k = choose|k: int| 0 <= k < gone.len() && gone[k] == e.id;
                    assert(owned_by_stale(chunks, p, gone[k]));
                }
            }
            lemma_filter_agree(old(entities)@, by_list, by_owner);
        }
        let mut k: usize = 0;
        while k < stale_chunks.len()
            invariant
                k <= stale_chunks@.len(),
                self@ == (WorldView { chunks: self@.chunks, ..pre }),
                forall|id: i64| #[trigger]
                    self@.chunks.contains_key(id) ==> chunks.contains_key(id)
                        && !stale_chunks@.take(k as int).contains(id) && self@.chunks[id]
                        == chunks[id],
                forall|id: i64| #[trigger]
                    chunks.contains_key(id) && !stale_chunks@.take(k as int).contains(id)
                        ==> self@.chunks.contains_key(id),
            decreases stale_chunks@.len() - k,
        {
            let ghost before = self@.chunks;
            let ghost target = stale_chunks@[k as int];
            self.chunks.remove(&stale_chunks[k]);
            k = k + 1;
            proof {
                assert(stale_chunks@.take(k as int) =~= stale_chunks@.take(k - 1).push(target));
                assert(self@.chunks == before.remove(target));
                assert forall|id: i64|
                    stale_chunks@.take(k as int).contains(id) <==> stale_chunks@.take(
                        k - 1,
                    ).contains(id) || id == target by {
                    vstd::seq_lib::lemma_seq_contains_after_push(
                        stale_chunks@.take(k - 1),
                        target,
                        id,
                    );
                }
            }
        }
        proof {
            assert(stale_chunks@.take(k as int) =~= stale_chunks@);
            assert forall|id: i64| chunks.contains_key(id) implies (stale_chunks@.contains(id)
                <==> stale_in(chunks, p, id)) by {
                if stale_in(chunks, p, id) {
                    assert(ids@.to_set().contains(id));
                    let j = choose|j: int| 0 <= j < ids@.len() && ids@[j] == id;
                    assert(stale_chunks@.contains(ids@[j]));
                }
                if stale_chunks@.contains(id) {
                    let n = choose|n: int| 0 <= n < stale_chunks@.len() && stale_chunks@[n] == id;
                    assert(stale_in(chunks, p, stale_chunks@[n]));
                }
            }
            assert(self@.chunks =~= surviving_chunks(chunks, p));
        }
    }

    /// Generates the ground tiles of a chunk: every tile of the grid that
    /// touches the chunk's band and lies in the ground band, across the
    /// screen's width.
    pub fn generate_ground_tiles(&self, chunk: &mut WorldChunk, ctx: &SpawnContext)
        requires
            old(chunk).in_bounds(),
        ensures
            final(chunk).ground_tiles@ == old(chunk).ground_tiles@ + band_tiles(
                old(chunk).end_y as int,
                old(chunk).start_y as int,
                self@.ground_y_base,
                ctx.screen_width as int,
            ),
            final(chunk).start_y == old(chunk).start_y,
            final(chunk).end_y == old(chunk).end_y,
            final(chunk).entities == old(chunk).entities,
            final(chunk).generated == old(chunk).generated,
    {
        let mut tiles = generate_band_tiles(
            chunk.end_y,
            chunk.start_y,
            self.ground_y_base,
            ctx.screen_width,
        );
        chunk.ground_tiles.append(&mut tiles);
    }

    /// Generates the content of a chunk once: its tiles, then its entities.
    /// A chunk that is already generated is left as it is.
    pub fn generate_chunk_content(
        &mut self,
        chunk: &mut WorldChunk,
        entities: &mut Vec<GameEntity>,
        ctx: &SpawnContext,
    )
        requires
            old(self)@.wf(),
            old(chunk).in_bounds(),
        ensures
            final(self)@.wf(),
            old(chunk).generated ==> final(self)@ == old(self)@ && *final(chunk) == *old(chunk)
                && final(entities)@ == old(entities)@,
            !old(chunk).generated ==> {
                &&& final(chunk).generated
                &&& final(chunk).ground_tiles@ == old(chunk).ground_tiles@ + band_tiles(
                    old(chunk).end_y as int,
                    old(chunk).start_y as int,
                    old(self)@.ground_y_base,
                    ctx.screen_width as int,
                )
                &&& population_progress(
                    old(self)@,
                    with_tiles(*old(chunk), final(chunk).ground_tiles),
                    old(entities)@,
                    final(self)@,
                    *final(chunk),
                    final(entities)@,
                    ctx.screen_width as int,
                )
                &&& trackers_follow(
                    old(self)@,
                    *old(chunk),
                    old(entities)@,
                    final(self)@,
                    final(entities)@,
                )
                &&& populated_in_order(
                    old(self)@,
                    *old(chunk),
                    final(entities)@.skip(old(entities)@.len() as int),
                    ctx.screen_width as int,
                )
                &&& no_identifier_lost(
                    old(self)@,
                    *old(chunk),
                    final(entities)@.skip(old(entities)@.len() as int),
                    final(self)@,
                    ctx.screen_width as int,
                )
                &&& attempts_counted(
                    old(self)@,
                    old(chunk).center_y(),
                    final(self)@,
                    ctx.screen_width as int,
                )
            },
    {
        if chunk.generated {
            return ;
        }
        self.generate_ground_tiles(chunk, ctx);
        let ghost tiled = *chunk;
        self.spawn_chunk_entities(chunk, entities, ctx);
        chunk.generated = true;
        proof {
            let bare = with_tiles(*old(chunk), chunk.ground_tiles);
            assert(chunk.same_band_as(bare));
            assert forall|i: int| old(entities)@.len() <= i < entities@.len() implies spawned_for(
                #[trigger] entities@[i],
                bare,
                ctx.screen_width as int,
            ) by {
                assert(spawned_for(entities@[i], tiled, ctx.screen_width as int));
            }
        }
    }

    /// Generates every chunk of the window of a player at `player_y` that is
    /// not live yet, from the chunk nearest to the player outwards. Of a
    /// window that reaches beyond the world only the part inside it is
    /// generated.
    pub fn generate_chunks_ahead(
        &mut self,
        player_y: i64,
        entities: &mut Vec<GameEntity>,
        ctx: &SpawnContext,
    )
        requires
            old(self)@.wf(),
        ensures
            final(self)@.wf(),
            generated_ahead(
                old(self)@,
                old(entities)@,
                final(self)@,
                final(entities)@,
                player_y as int,
                ctx.screen_width as int,
            ),
            generated_down(
                old(self)@,
                old(entities)@,
                final(self)@,
                final(entities)@,
                last_generated(player_y as int),
                first_generated(player_y as int, old(self)@.config.generation_distance as int),
                ctx.screen_width as int,
            ),
    {
        let nearest: i64 = chunk_id_of(player_y);
        let first_id: i64 = chunk_id_of(WORLD_MIN_Y - DISTANCE_LIMIT);
        let last_id: i64 = chunk_id_of(WORLD_MAX_Y);
        let high_id: i64 = if nearest < 0 {
            0
        } else if nearest <= last_id {
            nearest
        } else {
            last_id
        };
        let farthest: i64 = chunk_id_of(
            clamp_to_band(player_y as i128 - self.config.generation_distance as i128),
        );
        let low_id: i64 = if farthest < first_id {
            first_id
        } else if farthest <= high_id {
            farthest
        } else {
            high_id + 1
        };
        let ghost pre = self@;
        let ghost low_spec = first_generated(
            player_y as int,
            self@.config.generation_distance as int,
        );
        let ghost pre_entities = entities@;
        let ghost width = ctx.screen_width as int;
        let mut id: i64 = high_id;
        proof {
            assert(entities@.skip(pre_entities.len() as int) =~= Seq::<GameEntity>::empty());
        }
        while id >= low_id
            invariant
                low_id - 1 <= id <= high_id,
                first_world_id() <= low_id,
                high_id <= last_world_id(),
                low_id == low_spec || (low_id == high_id + 1 && low_spec > high_id),
                high_id == last_generated(player_y as int),
                width == ctx.screen_width as int,
                pre.wf(),
                self@.wf(),
                generated_range(pre, pre_entities, self@, entities@, id + 1, high_id as int, width),
                generated_down(pre, pre_entities, self@, entities@, high_id as int, id + 1, width),
            decreases id - low_id + 1,
        {
            let ghost visit = self@;
            let ghost visit_entities = entities@;
            if !self.chunks.contains_key(&id) {
                let ghost mid = self@;
                let ghost mid_entities = entities@;
                let mut chunk = WorldChunk::new((id + 1) * CHUNK_SIZE);
                let ghost fresh = chunk;
                self.generate_chunk_content(&mut chunk, entities, ctx);
                let ghost grown = self@;
                let ghost bare = with_tiles(fresh, chunk.ground_tiles);
                proof {
                    let earlier = mid_entities.skip(pre_entities.len() as int);
                    let later = entities@.skip(mid_entities.len() as int);
                    lemma_progress_additions(
                        mid,
                        bare,
                        mid_entities,
                        grown,
                        chunk,
                        entities@,
                        width,
                    );
                    lemma_additions_concat(pre_entities, mid_entities, entities@);
                    lemma_fresh_rising_concat(
                        earlier,
                        later,
                        pre.next_entity_id,
                        mid.next_entity_id,
                        grown.next_entity_id,
                    );
                    assert(chunk.entities@ =~= entity_ids(later));
                    assert(chunk.ground_tiles@ =~= band_tiles(
                        chunk_end(id as int),
                        chunk_start(id as int),
                        pre.ground_y_base,
                        width,
                    ));
                    lemma_chunks_extended_step(
                        pre.chunks,
                        mid.chunks,
                        chunk,
                        id,
                        high_id as int,
                        pre.ground_y_base,
                        width,
                    );
                    lemma_recorded_step(
                        pre.chunks,
                        mid.chunks,
                        chunk,
                        id,
                        pre.next_entity_id,
                        mid.next_entity_id,
                        grown.next_entity_id,
                        earlier,
                        later,
                    );
                    lemma_owned_step(pre.chunks, mid.chunks, chunk, id, earlier, later, width);
                    lemma_nearest_first_step(
                        pre.chunks,
                        mid.chunks,
                        chunk,
                        id,
                        high_id as int,
                        pre.ground_y_base,
                        width,
                        pre.next_entity_id,
                        mid.next_entity_id,
                        grown.next_entity_id,
                        earlier,
                        later,
                    );
                }
                self.chunks.insert(id, chunk);
                proof {
                    let later = entities@.skip(mid_entities.len() as int);
                    assert(self@.chunks == mid.chunks.insert(id, chunk));
                    lemma_wf_step(mid, self@, chunk, id, later);
                    assert(self@.chunks.contains_key(id) && !pre.chunks.contains_key(id));
                    assert(self@.chunks[id] == chunk);
                    assert forall|i: int| 0 <= i < later.len() implies spawned_for(
                        #[trigger] later[i],
                        chunk,
                        width,
                    ) by {}
                    assert(populated_in_order(mid, chunk, later, width)) by {
                        assert(chunk.center_y() == fresh.center_y());
                        assert(populated_in_order(mid, fresh, later, width));
                    }
                    assert(trackers_follow(mid, chunk, mid_entities, self@, entities@)) by {
                        assert(chunk.center_y() == fresh.center_y());
                        assert(trackers_follow(mid, fresh, mid_entities, grown, entities@));
                    }
                    assert(chunk_filled(mid, mid_entities, self@, entities@, id, width));
                }
            }
            proof {
                lemma_generated_down_extend(
                    pre,
                    pre_entities,
                    visit,
                    visit_entities,
                    self@,
                    entities@,
                    high_id as int,
                    id as int,
                    width,
                );
            }
            id = id - 1;
        }
    }

    /// Advances streaming by one step for a player at `player_y`. The
    /// generation window is clamped into the world. The ground band follows the
    /// screen; the chunks of the player's window are generated; then the
    /// chunks that have fallen behind are discarded with their entities; and
    /// the position is recorded.
    pub fn update(&mut self, player_y: i64, entities: &mut Vec<GameEntity>, ctx: &SpawnContext)
        requires
            old(self)@.wf(),
        ensures
            final(self)@.wf(),
            updated(
                old(self)@,
                old(entities)@,
                final(self)@,
                final(entities)@,
                player_y as int,
                *ctx,
            ),
    {
        self.ground_y_base = ctx.screen_height as i64 - self.config.ground_height;
        self.generate_chunks_ahead(player_y, entities, ctx);
        let ghost mid = self@;
        let ghost mid_entities = entities@;
        self.cleanup_chunks_behind(player_y, entities);
        self.last_player_y = player_y;
        proof {
            assert(update_steps(
                old(self)@,
                old(entities)@,
                mid,
                mid_entities,
                self@,
                entities@,
                player_y as int,
                *ctx,
            ));
        }
    }

    /// The ground tiles a camera at `camera_y` sees on a screen of the given
    /// height: of every live chunk whose band meets the view, the tiles that
    /// lie in the view widened by one tile on either side, chunk by chunk in
    /// rising order of identifier. Nothing is changed.
    pub fn get_visible_ground_tiles(&self, camera_y: i64, screen_height: u16) -> (visible: Vec<
        GroundTile,
    >)
        requires
            self@.wf(),
        ensures
            visible@ == visible_tiles(
                self@.chunks,
                first_world_id(),
                last_world_id(),
                view_start(camera_y as int, screen_height as int),
                view_end(camera_y as int, screen_height as int),
            ),
    {
        let half: i128 = (screen_height / 2) as i128;
        let start: i128 = camera_y as i128 - half;
        let end: i128 = camera_y as i128 + half;
        let first_id: i64 = chunk_id_of(WORLD_MIN_Y - DISTANCE_LIMIT);
        let last_id: i64 = chunk_id_of(WORLD_MAX_Y);
        let low_seen: i64 = chunk_id_of(clamp_to_band(start)) - 1;
        let high_seen: i64 = chunk_id_of(clamp_to_band(end));
        let low_id: i64 = if low_seen > first_id {
            low_seen
        } else {
            first_id
        };
        let high_id: i64 = if high_seen < last_id {
            high_seen
        } else {
            last_id
        };
        let ghost chunks = self@.chunks;
        proof {
            assert forall|id: int| high_id < id <= last_id implies (#[trigger] chunk_visible_tiles(
                chunks,
                id,
                start as int,
                end as int,
            )).len() == 0 by {
                if chunks.contains_key(id as i64) {
                    assert(chunks[id as i64].spans(id));
                }
            }
            assert forall|id: int| first_id <= id < low_id implies (#[trigger] chunk_visible_tiles(
                chunks,
                id,
                start as int,
                end as int,
            )).len() == 0 by {
                if chunks.contains_key(id as i64) {
                    assert(chunks[id as i64].spans(id));
                }
            }
            let all = visible_tiles(chunks, first_id as int, last_id as int, start as int, end as int);
            let seen = visible_tiles(chunks, low_id as int, high_id as int, start as int, end as int);
            if high_id >= first_id - 1 {
                lemma_visible_tiles_trim_high(
                    chunks,
                    first_id as int,
                    high_id as int,
                    last_id as int,
                    start as int,
                    end as int,
                );
                lemma_visible_tiles_trim_low(
                    chunks,
                    first_id as int,
                    low_id as int,
                    high_id as int,
                    start as int,
                    end as int,
                );
            } else {
                lemma_visible_tiles_trim_high(
                    chunks,
                    first_id as int,
                    first_id - 1,
                    last_id as int,
                    start as int,
                    end as int,
                );
            }
            assert(all == seen);
        }
        let mut visible: Vec<GroundTile> = Vec::new();
        let mut id: i64 = low_id;
        while id <= high_id
            invariant
                low_id <= id,
                id <= high_id + 1 || (high_id < low_id && id == low_id),
                first_id <= low_id,
                high_id <= last_id,
                chunks == self@.chunks,
                high_id <= BAND_LIMIT,
                -i64::MAX * 2 <= start <= i64::MAX * 2,
                -i64::MAX * 2 <= end <= i64::MAX * 2,
                visible@ == visible_tiles(chunks, low_id as int, id - 1, start as int, end as int),
            decreases high_id - id + 1,
        {
            let ghost before = visible@;
            if let Some(chunk) = self.chunks.get(&id) {
                if chunk.start_y as i128 >= start && chunk.end_y as i128 <= end {
                    collect_tiles_in_view(&mut visible, &chunk.ground_tiles, start, end);
                }
            }
            proof {
                assert(visible@ =~= before + chunk_visible_tiles(
                    chunks,
                    id as int,
                    start as int,
                    end as int,
                ));
                assert(visible_tiles(chunks, low_id as int, id as int, start as int, end as int)
                    == visible_tiles(chunks, low_id as int, id - 1, start as int, end as int)
                    + chunk_visible_tiles(chunks, id as int, start as int, end as int));
            }
            id = id + 1;
        }
        proof {
            if high_id < low_id {
                assert(visible_tiles(
                    chunks,
                    low_id as int,
                    high_id as int,
                    start as int,
                    end as int,
                ) =~= visible_tiles(chunks, low_id as int, low_id - 1, start as int, end as int));
            }
        }
        visible
    }

    /// Classifies the tile at a position, by the position alone.
    pub fn determine_tile_type(&self, x: i64, y: i64) -> (category: TileType)
        ensures
            category == tile_category(x as int, y as int),
    {
        classify(x, y)
    }
}

} // verus!
