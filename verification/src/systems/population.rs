//! Population of a chunk: which entities generation spawns for it, in what
//! order, and how the spawn trackers follow.

use vstd::prelude::*;
use crate::components::entities::{entity_ids, GameEntity};
use crate::components::game_data::EntityType;
use crate::systems::chunk::WorldChunk;
use crate::systems::spawn_cadence::{spawn_due, SpawnCadence};
use crate::systems::world::has_ground;
use crate::systems::world_view::{StreamingConfig, WorldView};

verus! {

/// Whether an entity type is one that chunk population creates.
pub open spec fn is_spawn_type(entity_type: EntityType) -> bool {
    entity_type == EntityType::Shelter || entity_type == EntityType::HostileInfected
        || entity_type == EntityType::Animal
}

/// Distance that shelters keep from the edges of the screen.
pub const SHELTER_MARGIN: i64 = 100;

/// Distance that hostiles and animals keep from the edges of the screen.
pub const ROAMER_MARGIN: i64 = 50;

/// Most hostiles attempted for one chunk, as the game ships.
pub const MAX_ENEMIES_PER_CHUNK: i64 = 3;

/// Most animals attempted for one chunk, as the game ships.
pub const MAX_ANIMALS_PER_CHUNK: i64 = 2;

/// What one spawn attempt does, whatever position was drawn: at most one
/// identifier is taken; an issued identifier is the counter's old value, its
/// entity is appended to the collection with the asked type, on the ground,
/// between the horizontal margins and inside `[y_low, y_high)`, and the chunk
/// records the identifier; otherwise collection and chunk are unchanged.
pub open spec fn spawn_outcome(
    pre: WorldView,
    pre_chunk: WorldChunk,
    pre_entities: Seq<GameEntity>,
    post: WorldView,
    post_chunk: WorldChunk,
    post_entities: Seq<GameEntity>,
    issued: Option<u32>,
    entity_type: EntityType,
    margin: int,
    screen_width: int,
    y_low: int,
    y_high: int,
) -> bool {
    &&& post == (WorldView { next_entity_id: post.next_entity_id, ..pre })
    &&& pre.next_entity_id <= post.next_entity_id <= pre.next_entity_id + 1
    &&& match issued {
        Some(id) => {
            &&& id == pre.next_entity_id
            &&& post.next_entity_id == pre.next_entity_id + 1
            &&& post_entities.len() == pre_entities.len() + 1
            &&& post_entities.drop_last() == pre_entities
            &&& post_entities.last().id == id
            &&& post_entities.last().entity_type == entity_type
            &&& has_ground(
                post_entities.last().position.x as int,
                post_entities.last().position.y as int,
            )
            &&& margin <= post_entities.last().position.x < screen_width - margin
            &&& y_low <= post_entities.last().position.y < y_high
            &&& post_chunk.entities@ == pre_chunk.entities@.push(id)
            &&& post_chunk.same_band_as(pre_chunk)
        },
        None => post_entities == pre_entities && post_chunk == pre_chunk,
    }
}

/// Whether every position that a spawn can draw has ground: every position
/// between the horizontal margins of the screen and inside `[y_low, y_high)`.
/// A spawn that draws from such a band cannot be refused for its position.
pub open spec fn band_has_ground(margin: int, screen_width: int, y_low: int, y_high: int) -> bool {
    forall|x: int, y: int|
        margin <= x < screen_width - margin && y_low <= y < y_high ==> #[trigger] has_ground(x, y)
}

/// Whether no identifier was lost between `pre` and `post`: where every
/// position that population of `chunk` can draw has ground, `added` holds as
/// many entities as identifiers were taken.
pub open spec fn no_identifier_lost(
    pre: WorldView,
    chunk: WorldChunk,
    added: Seq<GameEntity>,
    post: WorldView,
    screen_width: int,
) -> bool {
    band_has_ground(ROAMER_MARGIN as int, screen_width, chunk.end_y as int, chunk.start_y as int)
        ==> added.len() == post.next_entity_id - pre.next_entity_id
}

/// Whether `entity` is one that population of `chunk` could have created.
pub open spec fn spawned_for(entity: GameEntity, chunk: WorldChunk, screen_width: int) -> bool {
    &&& is_spawn_type(entity.entity_type)
    &&& has_ground(entity.position.x as int, entity.position.y as int)
    &&& ROAMER_MARGIN <= entity.position.x < screen_width - ROAMER_MARGIN
    &&& chunk.end_y <= entity.position.y < chunk.start_y
}

/// What population of a chunk has done between two moments: the manager
/// changed in its counter and trackers only; the collection grew at its end;
/// the chunk records exactly the identifiers of the new entities, in order;
/// and each new entity lies in the chunk, with a fresh identifier larger than
/// those before it.
pub open spec fn population_progress(
    pre: WorldView,
    pre_chunk: WorldChunk,
    pre_entities: Seq<GameEntity>,
    post: WorldView,
    post_chunk: WorldChunk,
    post_entities: Seq<GameEntity>,
    screen_width: int,
) -> bool {
    &&& post == (WorldView {
        next_entity_id: post.next_entity_id,
        shelter_cadence: post.shelter_cadence,
        enemy_cadence: post.enemy_cadence,
        ..pre
    })
    &&& pre.next_entity_id <= post.next_entity_id
    &&& pre_entities.len() <= post_entities.len()
    &&& post_entities.subrange(0, pre_entities.len() as int) == pre_entities
    &&& post_chunk.same_band_as(pre_chunk)
    &&& post_chunk.entities@ == pre_chunk.entities@ + entity_ids(
        post_entities.skip(pre_entities.len() as int),
    )
    &&& forall|i: int|
        pre_entities.len() <= i < post_entities.len() ==> spawned_for(
            #[trigger] post_entities[i],
            pre_chunk,
            screen_width,
        ) && pre.next_entity_id <= post_entities[i].id < post.next_entity_id
    &&& forall|i: int, j: int|
        pre_entities.len() <= i < j < post_entities.len() ==> post_entities[i].id
            < post_entities[j].id
}

/// One more spawn attempt extends the progress of a population.
pub proof fn lemma_population_step(
    pre: WorldView,
    pre_chunk: WorldChunk,
    pre_entities: Seq<GameEntity>,
    mid: WorldView,
    mid_chunk: WorldChunk,
    mid_entities: Seq<GameEntity>,
    post: WorldView,
    post_chunk: WorldChunk,
    post_entities: Seq<GameEntity>,
    issued: Option<u32>,
    entity_type: EntityType,
    margin: int,
    screen_width: int,
    y_low: int,
    y_high: int,
)
    requires
        population_progress(
            pre,
            pre_chunk,
            pre_entities,
            mid,
            mid_chunk,
            mid_entities,
            screen_width,
        ),
        spawn_outcome(
            mid,
            mid_chunk,
            mid_entities,
            post,
            post_chunk,
            post_entities,
            issued,
            entity_type,
            margin,
            screen_width,
            y_low,
            y_high,
        ),
        is_spawn_type(entity_type),
        margin >= ROAMER_MARGIN,
        pre_chunk.end_y <= y_low,
        y_high <= pre_chunk.start_y,
    ensures
        population_progress(
            pre,
            pre_chunk,
            pre_entities,
            post,
            post_chunk,
            post_entities,
            screen_width,
        ),
{
    let n = pre_entities.len() as int;
    if issued.is_some() {
        let e = post_entities.last();
        assert(post_entities =~= mid_entities.push(e)) by {
            assert(post_entities.drop_last() == mid_entities);
        }
        assert(post_entities.subrange(0, n) =~= mid_entities.subrange(0, n));
        assert(post_entities.skip(n) =~= mid_entities.skip(n).push(e));
        assert(entity_ids(post_entities.skip(n)) =~= entity_ids(mid_entities.skip(n)).push(e.id));
        assert(post_chunk.entities@ =~= pre_chunk.entities@ + entity_ids(post_entities.skip(n)));
        assert forall|i: int| n <= i < post_entities.len() implies spawned_for(
            #[trigger] post_entities[i],
            pre_chunk,
            screen_width,
        ) && pre.next_entity_id <= post_entities[i].id < post.next_entity_id by {
            if i < mid_entities.len() {
                assert(post_entities[i] == mid_entities[i]);
            }
        }
        assert forall|i: int, j: int| n <= i < j < post_entities.len() implies post_entities[i].id
            < post_entities[j].id by {
            if j < mid_entities.len() {
                assert(post_entities[i] == mid_entities[i]);
                assert(post_entities[j] == mid_entities[j]);
            } else {
                assert(post_entities[i] == mid_entities[i]);
            }
        }
    }
}

/// Whether population of `chunk` created a shelter: one was due at the
/// chunk's centre, and the first entity added to the collection is a shelter.
pub open spec fn shelter_created(
    pre: WorldView,
    chunk: WorldChunk,
    pre_entities: Seq<GameEntity>,
    post_entities: Seq<GameEntity>,
) -> bool {
    &&& spawn_due(
        pre.shelter_cadence.last_spawn_y as int,
        pre.shelter_cadence.spacing as int,
        chunk.center_y(),
    )
    &&& post_entities.len() > pre_entities.len()
    &&& post_entities[pre_entities.len() as int].entity_type == EntityType::Shelter
}

/// An attempt at a hostile or an animal does not change whether a shelter
/// was created.
pub proof fn lemma_shelter_created_stable(
    pre: WorldView,
    chunk: WorldChunk,
    pre_entities: Seq<GameEntity>,
    mid_entities: Seq<GameEntity>,
    post_entities: Seq<GameEntity>,
    issued: Option<u32>,
    entity_type: EntityType,
)
    requires
        pre_entities.len() <= mid_entities.len(),
        entity_type != EntityType::Shelter,
        issued.is_none() ==> post_entities == mid_entities,
        issued.is_some() ==> post_entities.len() == mid_entities.len() + 1
            && post_entities.drop_last() == mid_entities && post_entities.last().entity_type
            == entity_type,
        mid_entities.len() == pre_entities.len() ==> !shelter_created(
            pre,
            chunk,
            pre_entities,
            mid_entities,
        ),
    ensures
        shelter_created(pre, chunk, pre_entities, post_entities) == shelter_created(
            pre,
            chunk,
            pre_entities,
            mid_entities,
        ),
{
    if issued.is_some() {
        let n = pre_entities.len() as int;
        if n < mid_entities.len() {
            assert(post_entities.drop_last()[n] == post_entities[n]);
        }
    }
}

/// The order of what population of a chunk appends: first the shelter, if
/// one was created, at the chunk's centre and between the shelter margins;
/// then the hostiles, no more than the configuration allows; then the
/// animals, no more than it allows.
pub open spec fn population_layout(
    config: StreamingConfig,
    added: Seq<GameEntity>,
    shelters: int,
    hostiles: int,
    center: int,
    screen_width: int,
) -> bool {
    &&& 0 <= shelters <= 1
    &&& 0 <= hostiles <= config.max_enemies
    &&& shelters + hostiles <= added.len() <= shelters + hostiles + config.max_animals
    &&& forall|i: int|
        0 <= i < shelters ==> (#[trigger] added[i]).entity_type == EntityType::Shelter
            && added[i].position.y == center && SHELTER_MARGIN <= added[i].position.x
            < screen_width - SHELTER_MARGIN
    &&& forall|i: int|
        shelters <= i < shelters + hostiles ==> (#[trigger] added[i]).entity_type
            == EntityType::HostileInfected
    &&& forall|i: int|
        shelters + hostiles <= i < added.len() ==> (#[trigger] added[i]).entity_type
            == EntityType::Animal
}

/// Whether `added` is laid out as population of `chunk` appends it, with no
/// shelter where none was due and no hostile where none were due.
pub open spec fn populated_in_order(
    pre: WorldView,
    chunk: WorldChunk,
    added: Seq<GameEntity>,
    screen_width: int,
) -> bool {
    exists|shelters: int, hostiles: int|
        {
            &&& #[trigger] population_layout(
                pre.config,
                added,
                shelters,
                hostiles,
                chunk.center_y(),
                screen_width,
            )
            &&& !spawn_due(
                pre.shelter_cadence.last_spawn_y as int,
                pre.shelter_cadence.spacing as int,
                chunk.center_y(),
            ) ==> shelters == 0
            &&& !spawn_due(
                pre.enemy_cadence.last_spawn_y as int,
                pre.enemy_cadence.spacing as int,
                chunk.center_y(),
            ) ==> hostiles == 0
        }
}

/// One more attempt at a hostile or an animal keeps the layout.
pub proof fn lemma_layout_step(
    config: StreamingConfig,
    n: int,
    mid_entities: Seq<GameEntity>,
    post_entities: Seq<GameEntity>,
    issued: Option<u32>,
    entity_type: EntityType,
    shelters: int,
    hostiles_before: int,
    hostiles_after: int,
    center: int,
    screen_width: int,
)
    requires
        0 <= n <= mid_entities.len(),
        population_layout(
            config,
            mid_entities.skip(n),
            shelters,
            hostiles_before,
            center,
            screen_width,
        ),
        issued.is_none() ==> post_entities == mid_entities,
        issued.is_some() ==> post_entities.len() == mid_entities.len() + 1
            && post_entities.drop_last() == mid_entities && post_entities.last().entity_type
            == entity_type,
        entity_type == EntityType::HostileInfected ==> hostiles_before == mid_entities.len() - n
            - shelters && hostiles_after == post_entities.len() - n - shelters && hostiles_after
            <= config.max_enemies,
        entity_type == EntityType::Animal ==> hostiles_after == hostiles_before
            && post_entities.len() - n <= shelters + hostiles_before + config.max_animals,
        entity_type == EntityType::HostileInfected || entity_type == EntityType::Animal,
    ensures
        population_layout(
            config,
            post_entities.skip(n),
            shelters,
            hostiles_after,
            center,
            screen_width,
        ),
{
    if issued.is_some() {
        let before = mid_entities.skip(n);
        let after = post_entities.skip(n);
        assert(after =~= before.push(post_entities.last())) by {
            assert forall|i: int| 0 <= i < before.len() implies after[i] == before[i] by {
                assert(post_entities.drop_last()[n + i] == post_entities[n + i]);
            }
        }
    }
}

/// The fewest identifiers that population of a chunk takes while
/// identifiers last: one for the shelter if one is due, the fewest hostiles
/// if hostiles are due, the fewest animals, each only where the screen leaves
/// room between the margins.
pub open spec fn fewest_attempts(pre: WorldView, center: int, screen_width: int) -> int {
    (if spawn_due(
        pre.shelter_cadence.last_spawn_y as int,
        pre.shelter_cadence.spacing as int,
        center,
    ) && screen_width > 2 * SHELTER_MARGIN {
        1int
    } else {
        0int
    }) + (if spawn_due(
        pre.enemy_cadence.last_spawn_y as int,
        pre.enemy_cadence.spacing as int,
        center,
    ) && screen_width > 2 * ROAMER_MARGIN {
        pre.config.min_enemies as int
    } else {
        0int
    }) + (if screen_width > 2 * ROAMER_MARGIN {
        pre.config.min_animals as int
    } else {
        0int
    })
}

/// The most identifiers that population of a chunk takes: one for the
/// shelter, the most hostiles, the most animals, under the same conditions.
pub open spec fn most_attempts(pre: WorldView, center: int, screen_width: int) -> int {
    (if spawn_due(
        pre.shelter_cadence.last_spawn_y as int,
        pre.shelter_cadence.spacing as int,
        center,
    ) && screen_width > 2 * SHELTER_MARGIN {
        1int
    } else {
        0int
    }) + (if spawn_due(
        pre.enemy_cadence.last_spawn_y as int,
        pre.enemy_cadence.spacing as int,
        center,
    ) && screen_width > 2 * ROAMER_MARGIN {
        pre.config.max_enemies as int
    } else {
        0int
    }) + (if screen_width > 2 * ROAMER_MARGIN {
        pre.config.max_animals as int
    } else {
        0int
    })
}

/// Whether the identifiers taken between `pre` and `post` are as many as
/// population of a chunk centred at `center` attempts spawns: every attempt
/// takes one, until they are used up.
pub open spec fn attempts_counted(
    pre: WorldView,
    center: int,
    post: WorldView,
    screen_width: int,
) -> bool {
    &&& post.next_entity_id <= pre.next_entity_id + most_attempts(pre, center, screen_width)
    &&& post.next_entity_id < u32::MAX ==> pre.next_entity_id + fewest_attempts(
        pre,
        center,
        screen_width,
    ) <= post.next_entity_id
}

/// How population of `chunk` moves the trackers. The hostile tracker moves
/// to the chunk's centre exactly when hostiles were due there. The shelter
/// tracker moves to the centre exactly when a shelter was created.
pub open spec fn trackers_follow(
    pre: WorldView,
    chunk: WorldChunk,
    pre_entities: Seq<GameEntity>,
    post: WorldView,
    post_entities: Seq<GameEntity>,
) -> bool {
    &&& post.enemy_cadence == (if spawn_due(
        pre.enemy_cadence.last_spawn_y as int,
        pre.enemy_cadence.spacing as int,
        chunk.center_y(),
    ) {
        SpawnCadence { last_spawn_y: chunk.center_y() as i64, spacing: pre.enemy_cadence.spacing }
    } else {
        pre.enemy_cadence
    })
    &&& post.shelter_cadence == (if shelter_created(pre, chunk, pre_entities, post_entities) {
        SpawnCadence {
            last_spawn_y: chunk.center_y() as i64,
            spacing: pre.shelter_cadence.spacing,
        }
    } else {
        pre.shelter_cadence
    })
}

} // verus!
