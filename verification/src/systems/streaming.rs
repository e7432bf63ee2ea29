//! What generation, cleanup and a whole update do to the chunk manager and
//! the shared entity collection.

use vstd::prelude::*;
use crate::components::entities::{entity_ids, GameEntity};
use crate::components::environment::GroundTile;
use crate::systems::chunk::{band_tiles, chunk_end, chunk_start, WorldChunk};
use crate::systems::population::{
    attempts_counted, no_identifier_lost, populated_in_order, population_progress, spawned_for,
    trackers_follow,
};
use crate::systems::world_view::{
    chunk_wf, first_generated, id_in_world, is_stale, last_generated, SpawnContext, WorldView,
};

verus! {

/// Whether chunk `id` is live in `chunks` and has fallen behind the cleanup
/// threshold.
pub open spec fn stale_in(chunks: Map<i64, WorldChunk>, threshold: int, id: i64) -> bool {
    chunks.contains_key(id) && is_stale(threshold, chunks[id].start_y as int)
}

/// Whether an entity identifier is owned by a chunk that has fallen behind.
pub open spec fn owned_by_stale(chunks: Map<i64, WorldChunk>, threshold: int, entity_id: u32) -> bool {
    exists|id: i64| #[trigger]
        stale_in(chunks, threshold, id) && chunks[id].entities@.contains(entity_id)
}

/// The chunks that cleanup keeps: those that have not fallen behind.
pub open spec fn surviving_chunks(chunks: Map<i64, WorldChunk>, threshold: int) -> Map<
    i64,
    WorldChunk,
> {
    Map::new(
        |id: i64| chunks.contains_key(id) && !stale_in(chunks, threshold, id),
        |id: i64| chunks[id],
    )
}

/// The entities that cleanup keeps, in their order: those that no chunk that
/// has fallen behind owns.
pub open spec fn surviving_entities(
    chunks: Map<i64, WorldChunk>,
    threshold: int,
    entities: Seq<GameEntity>,
) -> Seq<GameEntity> {
    entities.filter(|e: GameEntity| !owned_by_stale(chunks, threshold, e.id))
}

/// The record of chunk `id` as generation leaves it, before any entity is
/// recorded on it: its band, the tiles of the band, and the generated flag.
pub open spec fn bare_chunk_matches(chunk: WorldChunk, id: int, ground_y: int, screen_width: int) -> bool {
    &&& chunk.spans(id)
    &&& chunk.generated
    &&& chunk.ground_tiles@ == band_tiles(chunk_end(id), chunk_start(id), ground_y, screen_width)
}

/// Whether some entity of the sequence has the identifier.
pub open spec fn has_entity(entities: Seq<GameEntity>, entity_id: u32) -> bool {
    exists|i: int| 0 <= i < entities.len() && #[trigger] entities[i].id == entity_id
}

/// Whether `entity` was spawned for a chunk that is live in `post` and was
/// not in `pre`.
pub open spec fn owned_by_new_chunk(
    pre: Map<i64, WorldChunk>,
    post: Map<i64, WorldChunk>,
    entity: GameEntity,
    screen_width: int,
) -> bool {
    exists|id: i64| #[trigger]
        post.contains_key(id) && !pre.contains_key(id) && post[id].entities@.contains(entity.id)
            && spawned_for(entity, post[id], screen_width)
}

/// Whether the identifiers of `added` lie in `[first_id, end_id)` and rise.
pub open spec fn fresh_rising(added: Seq<GameEntity>, first_id: int, end_id: int) -> bool {
    &&& forall|i: int| 0 <= i < added.len() ==> first_id <= #[trigger] added[i].id < end_id
    &&& forall|i: int, j: int| 0 <= i < j < added.len() ==> added[i].id < added[j].id
}

/// Whether `post` holds the chunks of `pre`, untouched, and beside them
/// exactly the chunks of `low_id ..= high_id` that `pre` lacks, each with its
/// band, its tiles and the generated flag.
pub open spec fn chunks_extended(
    pre: Map<i64, WorldChunk>,
    post: Map<i64, WorldChunk>,
    low_id: int,
    high_id: int,
    ground_y: int,
    screen_width: int,
) -> bool {
    &&& forall|id: i64| #[trigger]
        post.contains_key(id) ==> pre.contains_key(id) || low_id <= id <= high_id
    &&& forall|id: i64| #[trigger]
        pre.contains_key(id) ==> post.contains_key(id) && post[id] == pre[id]
    &&& forall|id: i64| low_id <= id <= high_id ==> #[trigger] post.contains_key(id)
    &&& forall|id: i64| #[trigger]
        post.contains_key(id) && !pre.contains_key(id) ==> bare_chunk_matches(
            post[id],
            id as int,
            ground_y,
            screen_width,
        )
}

/// Whether every identifier owned by a chunk that is in `post` and not in
/// `pre` lies in `[first_id, end_id)` and has its entity among `added`.
pub open spec fn new_chunks_recorded(
    pre: Map<i64, WorldChunk>,
    post: Map<i64, WorldChunk>,
    first_id: int,
    end_id: int,
    added: Seq<GameEntity>,
) -> bool {
    forall|id: i64, k: int|
        post.contains_key(id) && !pre.contains_key(id) && 0 <= k < post[id].entities@.len()
            ==> first_id <= #[trigger] post[id].entities@[k] < end_id && has_entity(
            added,
            post[id].entities@[k],
        )
}

/// Whether the chunks that are in `post` and not in `pre` were filled from
/// the highest identifier down: whatever one of them owns was issued before
/// whatever a lower one owns.
pub open spec fn nearest_first(pre: Map<i64, WorldChunk>, post: Map<i64, WorldChunk>) -> bool {
    forall|near: i64, far: i64, j: int, k: int|
        post.contains_key(near) && !pre.contains_key(near) && post.contains_key(far)
            && !pre.contains_key(far) && far < near && 0 <= j < post[near].entities@.len() && 0
            <= k < post[far].entities@.len() ==> #[trigger] post[near].entities@[j]
            < #[trigger] post[far].entities@[k]
}

/// Whether every entity of `added` is owned by a chunk that is in `post` and
/// not in `pre`, and lies between its edges.
pub open spec fn additions_owned(
    pre: Map<i64, WorldChunk>,
    post: Map<i64, WorldChunk>,
    added: Seq<GameEntity>,
    screen_width: int,
) -> bool {
    forall|i: int|
        0 <= i < added.len() ==> owned_by_new_chunk(pre, post, #[trigger] added[i], screen_width)
}

/// What generation of the chunks `low_id ..= high_id` does.
///
/// Every chunk of the range is live afterwards, beside the chunks that were
/// live before, and those are untouched. A chunk that was missing has its
/// band, its tiles and the generated flag; the identifiers it owns were
/// issued by this generation, and an entity with each of them was appended to
/// the collection. The collection keeps what it held and grows at its end by
/// entities with fresh, rising identifiers, each owned by one of the new
/// chunks and lying between its edges. The missing chunks are filled from the highest
/// identifier, nearest to the player, down. Where no chunk was missing
/// nothing changes.
pub open spec fn generated_range(
    pre: WorldView,
    pre_entities: Seq<GameEntity>,
    post: WorldView,
    post_entities: Seq<GameEntity>,
    low_id: int,
    high_id: int,
    screen_width: int,
) -> bool {
    let added = post_entities.skip(pre_entities.len() as int);
    &&& post == (WorldView {
        chunks: post.chunks,
        next_entity_id: post.next_entity_id,
        shelter_cadence: post.shelter_cadence,
        enemy_cadence: post.enemy_cadence,
        ..pre
    })
    &&& pre.next_entity_id <= post.next_entity_id
    &&& post.shelter_cadence.spacing == pre.shelter_cadence.spacing
    &&& post.enemy_cadence.spacing == pre.enemy_cadence.spacing
    &&& chunks_extended(
        pre.chunks,
        post.chunks,
        low_id,
        high_id,
        pre.ground_y_base,
        screen_width,
    )
    &&& pre_entities.is_prefix_of(post_entities)
    &&& fresh_rising(added, pre.next_entity_id, post.next_entity_id)
    &&& new_chunks_recorded(
        pre.chunks,
        post.chunks,
        pre.next_entity_id,
        post.next_entity_id,
        added,
    )
    &&& additions_owned(pre.chunks, post.chunks, added, screen_width)
    &&& nearest_first(pre.chunks, post.chunks)
    &&& (forall|id: i64| low_id <= id <= high_id ==> #[trigger] pre.chunks.contains_key(id))
        ==> post == pre && post_entities == pre_entities
}

/// What generation ahead of a player at `player_y` does: generation of the
/// chunks of the player's window, as far as it lies in the world.
pub open spec fn generated_ahead(
    pre: WorldView,
    pre_entities: Seq<GameEntity>,
    post: WorldView,
    post_entities: Seq<GameEntity>,
    player_y: int,
    screen_width: int,
) -> bool {
    generated_range(
        pre,
        pre_entities,
        post,
        post_entities,
        first_generated(player_y, pre.config.generation_distance as int),
        last_generated(player_y),
        screen_width,
    )
}

/// What population appended: the entities past the old end of the
/// collection are those the chunk recorded, fresh and between the chunk's
/// edges.
pub proof fn lemma_progress_additions(
    pre: WorldView,
    pre_chunk: WorldChunk,
    pre_entities: Seq<GameEntity>,
    post: WorldView,
    post_chunk: WorldChunk,
    post_entities: Seq<GameEntity>,
    screen_width: int,
)
    requires
        population_progress(
            pre,
            pre_chunk,
            pre_entities,
            post,
            post_chunk,
            post_entities,
            screen_width,
        ),
    ensures
        pre_entities.is_prefix_of(post_entities),
        post_entities == pre_entities + post_entities.skip(pre_entities.len() as int),
        fresh_rising(
            post_entities.skip(pre_entities.len() as int),
            pre.next_entity_id,
            post.next_entity_id,
        ),
        forall|i: int|
            0 <= i < post_entities.len() - pre_entities.len() ==> spawned_for(
                #[trigger] post_entities.skip(pre_entities.len() as int)[i],
                post_chunk,
                screen_width,
            ),
{
    let n = pre_entities.len() as int;
    let added = post_entities.skip(n);
    assert(post_entities =~= pre_entities + added) by {
        assert forall|i: int| 0 <= i < n implies post_entities[i] == pre_entities[i] by {
            assert(post_entities.subrange(0, n)[i] == post_entities[i]);
        }
    }
    assert forall|i: int| 0 <= i < added.len() implies pre.next_entity_id <= #[trigger] added[i].id
        < post.next_entity_id && spawned_for(added[i], post_chunk, screen_width) by {
        assert(added[i] == post_entities[n + i]);
    }
    assert forall|i: int, j: int| 0 <= i < j < added.len() implies added[i].id < added[j].id by {
        assert(added[i] == post_entities[n + i]);
        assert(added[j] == post_entities[n + j]);
    }
}

/// Appending to a collection that had grown from `first` extends what was
/// added to it.
pub proof fn lemma_additions_concat(
    first: Seq<GameEntity>,
    second: Seq<GameEntity>,
    third: Seq<GameEntity>,
)
    requires
        first.is_prefix_of(second),
        second.is_prefix_of(third),
    ensures
        first.is_prefix_of(third),
        third.skip(first.len() as int) == second.skip(first.len() as int) + third.skip(
            second.len() as int,
        ),
{
    let n = first.len() as int;
    let m = second.len() as int;
    assert forall|i: int| 0 <= i < m implies third[i] == second[i] by {
        assert(third.subrange(0, m)[i] == third[i]);
    }
    assert forall|i: int| 0 <= i < n implies second[i] == first[i] by {
        assert(second.subrange(0, n)[i] == second[i]);
    }
    assert(third.subrange(0, n) =~= first);
    assert(third.skip(n) =~= second.skip(n) + third.skip(m));
}

/// Fresh, rising identifiers followed by later fresh, rising identifiers are
/// fresh and rising together.
pub proof fn lemma_fresh_rising_concat(
    earlier: Seq<GameEntity>,
    later: Seq<GameEntity>,
    first_id: int,
    mid_id: int,
    end_id: int,
)
    requires
        fresh_rising(earlier, first_id, mid_id),
        fresh_rising(later, mid_id, end_id),
        first_id <= mid_id <= end_id,
    ensures
        fresh_rising(earlier + later, first_id, end_id),
{
}

/// Inserting the chunk just below an extended range extends the range by it.
pub proof fn lemma_chunks_extended_step(
    pre: Map<i64, WorldChunk>,
    mid: Map<i64, WorldChunk>,
    chunk: WorldChunk,
    id: i64,
    high_id: int,
    ground_y: int,
    screen_width: int,
)
    requires
        chunks_extended(pre, mid, id + 1, high_id, ground_y, screen_width),
        id <= high_id,
        !mid.contains_key(id),
        bare_chunk_matches(chunk, id as int, ground_y, screen_width),
    ensures
        chunks_extended(pre, mid.insert(id, chunk), id as int, high_id, ground_y, screen_width),
        !pre.contains_key(id),
{
    let post = mid.insert(id, chunk);
    assert forall|other: i64| #[trigger] post.contains_key(other) implies pre.contains_key(other)
        || id <= other <= high_id by {
        if other != id {
            assert(mid.contains_key(other));
        }
    }
    assert forall|other: i64| id <= other <= high_id implies #[trigger] post.contains_key(
        other,
    ) by {
        if other != id {
            assert(mid.contains_key(other));
        }
    }
    assert forall|other: i64| #[trigger]
        post.contains_key(other) && !pre.contains_key(other) implies bare_chunk_matches(
        post[other],
        other as int,
        ground_y,
        screen_width,
    ) by {
        if other != id {
            assert(mid.contains_key(other));
        }
    }
}

/// An entity of either part of a collection is an entity of the whole.
pub proof fn lemma_has_entity_concat(earlier: Seq<GameEntity>, later: Seq<GameEntity>, entity_id: u32)
    ensures
        has_entity(earlier, entity_id) ==> has_entity(earlier + later, entity_id),
        has_entity(later, entity_id) ==> has_entity(earlier + later, entity_id),
{
    if has_entity(earlier, entity_id) {
        let i = choose|i: int| 0 <= i < earlier.len() && #[trigger] earlier[i].id == entity_id;
        assert((earlier + later)[i].id == entity_id);
    }
    if has_entity(later, entity_id) {
        let i = choose|i: int| 0 <= i < later.len() && #[trigger] later[i].id == entity_id;
        assert((earlier + later)[earlier.len() + i].id == entity_id);
    }
}

/// What new chunks own stays recorded when one more chunk and the entities it
/// owns are added.
pub proof fn lemma_recorded_step(
    pre: Map<i64, WorldChunk>,
    mid: Map<i64, WorldChunk>,
    chunk: WorldChunk,
    id: i64,
    first_id: int,
    mid_id: int,
    end_id: int,
    earlier: Seq<GameEntity>,
    later: Seq<GameEntity>,
)
    requires
        new_chunks_recorded(pre, mid, first_id, mid_id, earlier),
        !mid.contains_key(id),
        chunk.entities@ == entity_ids(later),
        fresh_rising(later, mid_id, end_id),
        first_id <= mid_id <= end_id,
    ensures
        new_chunks_recorded(pre, mid.insert(id, chunk), first_id, end_id, earlier + later),
{
    let post = mid.insert(id, chunk);
    assert forall|other: i64, k: int|
        post.contains_key(other) && !pre.contains_key(other) && 0 <= k
            < post[other].entities@.len() implies first_id <= #[trigger] post[other].entities@[k]
        < end_id && has_entity(earlier + later, post[other].entities@[k]) by {
        let eid = post[other].entities@[k];
        lemma_has_entity_concat(earlier, later, eid);
        if other == id {
            assert(eid == later[k].id);
        } else {
            assert(mid.contains_key(other));
            assert(eid == mid[other].entities@[k]);
        }
    }
}

/// A chunk filled after all higher new chunks owns later identifiers than
/// they do.
pub proof fn lemma_nearest_first_step(
    pre: Map<i64, WorldChunk>,
    mid: Map<i64, WorldChunk>,
    chunk: WorldChunk,
    id: i64,
    high_id: int,
    ground_y: int,
    screen_width: int,
    first_id: int,
    mid_id: int,
    end_id: int,
    earlier: Seq<GameEntity>,
    later: Seq<GameEntity>,
)
    requires
        nearest_first(pre, mid),
        chunks_extended(pre, mid, id + 1, high_id, ground_y, screen_width),
        new_chunks_recorded(pre, mid, first_id, mid_id, earlier),
        !mid.contains_key(id),
        chunk.entities@ == entity_ids(later),
        fresh_rising(later, mid_id, end_id),
    ensures
        nearest_first(pre, mid.insert(id, chunk)),
{
    let post = mid.insert(id, chunk);
    assert forall|near: i64, far: i64, j: int, k: int|
        post.contains_key(near) && !pre.contains_key(near) && post.contains_key(far)
            && !pre.contains_key(far) && far < near && 0 <= j < post[near].entities@.len() && 0
            <= k < post[far].entities@.len() implies #[trigger] post[near].entities@[j]
        < #[trigger] post[far].entities@[k] by {
        if near == id {
            assert(mid.contains_key(far));
        } else if far == id {
            assert(mid.contains_key(near));
            assert(post[near].entities@[j] == mid[near].entities@[j]);
            assert(chunk.entities@[k] == later[k].id);
        } else {
            assert(mid.contains_key(near) && mid.contains_key(far));
            assert(post[near].entities@[j] == mid[near].entities@[j]);
            assert(post[far].entities@[k] == mid[far].entities@[k]);
        }
    }
}

/// Added entities stay owned by new chunks when one more chunk and the
/// entities it owns are added.
pub proof fn lemma_owned_step(
    pre: Map<i64, WorldChunk>,
    mid: Map<i64, WorldChunk>,
    chunk: WorldChunk,
    id: i64,
    earlier: Seq<GameEntity>,
    later: Seq<GameEntity>,
    screen_width: int,
)
    requires
        additions_owned(pre, mid, earlier, screen_width),
        !mid.contains_key(id),
        !pre.contains_key(id),
        chunk.entities@ == entity_ids(later),
        forall|i: int| 0 <= i < later.len() ==> spawned_for(#[trigger] later[i], chunk, screen_width),
    ensures
        additions_owned(pre, mid.insert(id, chunk), earlier + later, screen_width),
{
    let post = mid.insert(id, chunk);
    let all = earlier + later;
    assert forall|i: int| 0 <= i < all.len() implies owned_by_new_chunk(
        pre,
        post,
        #[trigger] all[i],
        screen_width,
    ) by {
        if i < earlier.len() {
            let e = earlier[i];
            assert(all[i] == e);
            assert(owned_by_new_chunk(pre, mid, e, screen_width));
            let owner = choose|owner: i64| #[trigger]
                mid.contains_key(owner) && !pre.contains_key(owner)
                    && mid[owner].entities@.contains(e.id) && spawned_for(
                    e,
                    mid[owner],
                    screen_width,
                );
            assert(post.contains_key(owner) && post[owner] == mid[owner]);
        } else {
            let e = later[i - earlier.len()];
            assert(all[i] == e);
            assert(chunk.entities@[i - earlier.len()] == e.id);
            assert(post.contains_key(id) && post[id] == chunk);
        }
    }
}

/// Inserting a finished chunk that owns fresh, rising identifiers keeps the
/// invariant of the manager.
pub proof fn lemma_wf_step(mid: WorldView, post: WorldView, chunk: WorldChunk, id: i64, later: Seq<GameEntity>)
    requires
        mid.wf(),
        id_in_world(id as int),
        chunk.spans(id as int),
        chunk.generated,
        chunk.entities@ == entity_ids(later),
        fresh_rising(later, mid.next_entity_id, post.next_entity_id),
        mid.next_entity_id <= post.next_entity_id <= u32::MAX,
        post.chunks == mid.chunks.insert(id, chunk),
        post.config == mid.config,
        post.shelter_cadence.spacing == mid.shelter_cadence.spacing,
        post.enemy_cadence.spacing == mid.enemy_cadence.spacing,
    ensures
        post.wf(),
{
    assert forall|k: int| 0 <= k < chunk.entities@.len() implies #[trigger] chunk.entities@[k]
        < post.next_entity_id by {
        assert(chunk.entities@[k] == later[k].id);
    }
    assert forall|j: int, k: int| 0 <= j < k < chunk.entities@.len() implies chunk.entities@[j]
        < chunk.entities@[k] by {
        assert(chunk.entities@[j] == later[j].id);
        assert(chunk.entities@[k] == later[k].id);
    }
    assert forall|other: i64| #[trigger] post.chunks.contains_key(other) implies id_in_world(
        other as int,
    ) && chunk_wf(post.chunks[other], other as int, post.next_entity_id) by {
        if other != id {
            assert(mid.chunks.contains_key(other));
        }
    }
}

/// The record that generation starts from once the tiles of a chunk are
/// known: the chunk as it was, with those tiles and the generated flag.
pub open spec fn with_tiles(chunk: WorldChunk, tiles: Vec<GroundTile>) -> WorldChunk {
    WorldChunk { ground_tiles: tiles, generated: true, ..chunk }
}

/// What generation of the missing chunk `id` does. The manager changes in
/// its counter and trackers and gains the chunk. The chunk has its band, its
/// tiles and the generated flag, and owns exactly what was appended to the
/// collection: entities with fresh, rising identifiers, between its edges,
/// laid out as population appends them, one for every identifier taken where
/// no position of the chunk lacks ground. The trackers follow the population.
pub open spec fn chunk_filled(
    pre: WorldView,
    pre_entities: Seq<GameEntity>,
    post: WorldView,
    post_entities: Seq<GameEntity>,
    id: i64,
    screen_width: int,
) -> bool {
    let chunk = post.chunks[id];
    let added = post_entities.skip(pre_entities.len() as int);
    &&& !pre.chunks.contains_key(id)
    &&& post == (WorldView {
        chunks: pre.chunks.insert(id, chunk),
        next_entity_id: post.next_entity_id,
        shelter_cadence: post.shelter_cadence,
        enemy_cadence: post.enemy_cadence,
        ..pre
    })
    &&& bare_chunk_matches(chunk, id as int, pre.ground_y_base, screen_width)
    &&& pre_entities.is_prefix_of(post_entities)
    &&& chunk.entities@ == entity_ids(added)
    &&& fresh_rising(added, pre.next_entity_id, post.next_entity_id)
    &&& attempts_counted(pre, chunk.center_y(), post, screen_width)
    &&& forall|i: int| 0 <= i < added.len() ==> spawned_for(#[trigger] added[i], chunk, screen_width)
    &&& populated_in_order(pre, chunk, added, screen_width)
    &&& no_identifier_lost(pre, chunk, added, post, screen_width)
    &&& trackers_follow(pre, chunk, pre_entities, post, post_entities)
}

/// What generation does when it comes to chunk `id`: nothing where the chunk
/// is live, else it fills the chunk.
pub open spec fn chunk_visited(
    pre: WorldView,
    pre_entities: Seq<GameEntity>,
    post: WorldView,
    post_entities: Seq<GameEntity>,
    id: int,
    screen_width: int,
) -> bool {
    if pre.chunks.contains_key(id as i64) {
        post == pre && post_entities == pre_entities
    } else {
        chunk_filled(pre, pre_entities, post, post_entities, id as i64, screen_width)
    }
}

/// What generation of the chunks from `high_id` down to `low_id` does, chunk
/// by chunk: it visits `high_id`, then goes on below.
pub open spec fn generated_down(
    pre: WorldView,
    pre_entities: Seq<GameEntity>,
    post: WorldView,
    post_entities: Seq<GameEntity>,
    high_id: int,
    low_id: int,
    screen_width: int,
) -> bool
    decreases high_id - low_id + 1,
{
    if high_id < low_id {
        post == pre && post_entities == pre_entities
    } else {
        exists|mid: WorldView, mid_entities: Seq<GameEntity>|
            #[trigger] chunk_visited(pre, pre_entities, mid, mid_entities, high_id, screen_width)
                && generated_down(
                mid,
                mid_entities,
                post,
                post_entities,
                high_id - 1,
                low_id,
                screen_width,
            )
    }
}

/// Visiting one more chunk below a generated range extends the range.
pub proof fn lemma_generated_down_extend(
    pre: WorldView,
    pre_entities: Seq<GameEntity>,
    mid: WorldView,
    mid_entities: Seq<GameEntity>,
    post: WorldView,
    post_entities: Seq<GameEntity>,
    high_id: int,
    id: int,
    screen_width: int,
)
    requires
        id <= high_id,
        generated_down(pre, pre_entities, mid, mid_entities, high_id, id + 1, screen_width),
        chunk_visited(mid, mid_entities, post, post_entities, id, screen_width),
    ensures
        generated_down(pre, pre_entities, post, post_entities, high_id, id, screen_width),
    decreases high_id - id,
{
    if high_id == id {
        assert(mid == pre && mid_entities == pre_entities);
        assert(generated_down(post, post_entities, post, post_entities, id - 1, id, screen_width));
        assert(chunk_visited(pre, pre_entities, post, post_entities, high_id, screen_width));
    } else {
        let (next, next_entities) = choose|next: WorldView, next_entities: Seq<GameEntity>|
            #[trigger] chunk_visited(pre, pre_entities, next, next_entities, high_id, screen_width)
                && generated_down(
                next,
                next_entities,
                mid,
                mid_entities,
                high_id - 1,
                id + 1,
                screen_width,
            );
        lemma_generated_down_extend(
            next,
            next_entities,
            mid,
            mid_entities,
            post,
            post_entities,
            high_id - 1,
            id,
            screen_width,
        );
        assert(chunk_visited(pre, pre_entities, next, next_entities, high_id, screen_width));
    }
}

/// The steps of an update, with the state between generation and cleanup.
pub open spec fn update_steps(
    pre: WorldView,
    pre_entities: Seq<GameEntity>,
    mid: WorldView,
    mid_entities: Seq<GameEntity>,
    post: WorldView,
    post_entities: Seq<GameEntity>,
    player_y: int,
    ctx: SpawnContext,
) -> bool {
    let start = WorldView { ground_y_base: ctx.screen_height - pre.config.ground_height, ..pre };
    let threshold = player_y + pre.config.cleanup_distance;
    &&& generated_ahead(start, pre_entities, mid, mid_entities, player_y, ctx.screen_width as int)
    &&& generated_down(
        start,
        pre_entities,
        mid,
        mid_entities,
        last_generated(player_y),
        first_generated(player_y, pre.config.generation_distance as int),
        ctx.screen_width as int,
    )
    &&& post == (WorldView {
        chunks: surviving_chunks(mid.chunks, threshold),
        last_player_y: player_y,
        ..mid
    })
    &&& post_entities == surviving_entities(mid.chunks, threshold, mid_entities)
}

/// What an update does to a manager and the shared collection, for a player
/// at `player_y`: the ground band follows the screen, the
/// chunks of the player's window are generated, then the chunks that have
/// fallen behind are discarded with their entities, and the position is
/// recorded.
pub open spec fn updated(
    pre: WorldView,
    pre_entities: Seq<GameEntity>,
    post: WorldView,
    post_entities: Seq<GameEntity>,
    player_y: int,
    ctx: SpawnContext,
) -> bool {
    exists|mid: WorldView, mid_entities: Seq<GameEntity>| #[trigger]
        update_steps(pre, pre_entities, mid, mid_entities, post, post_entities, player_y, ctx)
}

} // verus!
