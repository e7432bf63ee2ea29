//! What streaming guarantees, proved from the contracts of the chunk manager.

use vstd::prelude::*;
use crate::components::entities::GameEntity;
use crate::systems::chunk::{
    chunk_id, chunk_start, holding_chunk, lemma_chunk_partition, WorldChunk,
};
use crate::components::game_data::EntityType;
use crate::systems::population::{populated_in_order, population_layout, trackers_follow};
use crate::systems::spawn_cadence::spawn_due;
use crate::systems::streaming::{
    fresh_rising, generated_ahead, generated_range, owned_by_stale, stale_in, surviving_chunks,
    surviving_entities, update_steps, updated,
};
use crate::systems::world_view::{
    in_window, is_stale, last_generated, window_low, SpawnContext, WorldView,
};

verus! {

/// Live chunks partition what they cover: a live chunk holds a coordinate
/// only if its identifier is that of the coordinate's holding chunk, so no
/// two live chunks hold the same coordinate.
pub proof fn lemma_live_chunks_apart(world: WorldView, first: i64, second: i64, y: int)
    requires
        world.wf(),
        world.chunks.contains_key(first),
        world.chunks.contains_key(second),
        world.chunks[first].end_y < y <= world.chunks[first].start_y,
        world.chunks[second].end_y < y <= world.chunks[second].start_y,
    ensures
        first == holding_chunk(y),
        first == second,
{
    assert(world.chunks[first].spans(first as int));
    assert(world.chunks[second].spans(second as int));
    lemma_chunk_partition(y, first as int);
    lemma_chunk_partition(y, second as int);
}

/// Which chunks are live after an update: those that were live or lie in the
/// player's window, unless they have fallen behind. A chunk that stays live
/// is untouched, and the identifier counter does not move back.
pub proof fn lemma_update_live_chunks(
    pre: WorldView,
    pre_entities: Seq<GameEntity>,
    post: WorldView,
    post_entities: Seq<GameEntity>,
    player_y: int,
    ctx: SpawnContext,
)
    requires
        pre.wf(),
        updated(pre, pre_entities, post, post_entities, player_y, ctx),
    ensures
        forall|id: i64| #[trigger]
            post.chunks.contains_key(id) <==> (pre.chunks.contains_key(id) || in_window(
                player_y,
                pre.config.generation_distance as int,
                id as int,
            )) && !is_stale(player_y + pre.config.cleanup_distance, chunk_start(id as int)),
        forall|id: i64|
            pre.chunks.contains_key(id) && #[trigger] post.chunks.contains_key(id)
                ==> post.chunks[id] == pre.chunks[id],
        forall|id: i64|
            !pre.chunks.contains_key(id) && #[trigger] post.chunks.contains_key(id)
                ==> post.chunks[id].spans(id as int) && post.chunks[id].generated,
        post.last_player_y == player_y,
        post.ground_y_base == ctx.screen_height - pre.config.ground_height,
        post.config == pre.config,
        pre.next_entity_id <= post.next_entity_id,
{
    let start = WorldView { ground_y_base: ctx.screen_height - pre.config.ground_height, ..pre };
    let (mid, mid_entities) = choose|mid: WorldView, mid_entities: Seq<GameEntity>| #[trigger]
        update_steps(pre, pre_entities, mid, mid_entities, post, post_entities, player_y, ctx);
    assert forall|id: i64| #[trigger] mid.chunks.contains_key(id) implies mid.chunks[id].spans(
        id as int,
    ) by {
        if pre.chunks.contains_key(id) {
            assert(start.chunks.contains_key(id));
        }
    }
    assert forall|id: i64| #[trigger]
        post.chunks.contains_key(id) <==> (pre.chunks.contains_key(id) || in_window(
            player_y,
            pre.config.generation_distance as int,
            id as int,
        )) && !is_stale(player_y + pre.config.cleanup_distance, chunk_start(id as int)) by {
        if pre.chunks.contains_key(id) {
            assert(start.chunks.contains_key(id));
            assert(mid.chunks.contains_key(id));
        }
        if in_window(player_y, pre.config.generation_distance as int, id as int) {
            assert(mid.chunks.contains_key(id));
        }
        if mid.chunks.contains_key(id) {
            assert(mid.chunks[id].spans(id as int));
        }
    }
    assert forall|id: i64|
        pre.chunks.contains_key(id) && #[trigger] post.chunks.contains_key(id)
            implies post.chunks[id] == pre.chunks[id] by {
        assert(start.chunks.contains_key(id));
    }
}

/// The chunk identifiers that are live after an update for a player at
/// `player_y`, given those that were live before and the distances the
/// manager generates ahead and keeps behind.
pub open spec fn live_after(
    ids: Set<int>,
    player_y: int,
    generation_distance: int,
    cleanup_distance: int,
) -> Set<int> {
    Set::new(
        |id: int|
            (ids.contains(id) || in_window(player_y, generation_distance, id)) && !is_stale(
                player_y + cleanup_distance,
                chunk_start(id),
            ),
    )
}

/// The chunk identifiers that are live after a run of updates, one for each
/// player position in order.
pub open spec fn live_after_run(
    ids: Set<int>,
    positions: Seq<int>,
    generation_distance: int,
    cleanup_distance: int,
) -> Set<int>
    decreases positions.len(),
{
    if positions.len() == 0 {
        ids
    } else {
        live_after(
            live_after_run(ids, positions.drop_last(), generation_distance, cleanup_distance),
            positions.last(),
            generation_distance,
            cleanup_distance,
        )
    }
}

/// The highest chunk identifier that has not fallen behind a player at
/// `player_y` who keeps chunks up to `cleanup_distance` behind.
pub open spec fn last_kept(player_y: int, cleanup_distance: int) -> int {
    chunk_id(player_y + cleanup_distance) - 1
}

/// Generation creates nothing beyond the far end of the window: where no
/// chunk lay below the player's window before, none does afterwards.
pub proof fn lemma_generation_window(
    pre: WorldView,
    pre_entities: Seq<GameEntity>,
    post: WorldView,
    post_entities: Seq<GameEntity>,
    player_y: int,
    screen_width: int,
)
    requires
        generated_ahead(pre, pre_entities, post, post_entities, player_y, screen_width),
        forall|id: i64| #[trigger]
            pre.chunks.contains_key(id) ==> window_low(
                player_y,
                pre.config.generation_distance as int,
            ) <= id,
    ensures
        forall|id: i64| #[trigger]
            post.chunks.contains_key(id) ==> window_low(
                player_y,
                pre.config.generation_distance as int,
            ) <= id,
{
}

/// The identifiers of the live chunks, as integers.
pub open spec fn live_ids(chunks: Map<i64, WorldChunk>) -> Set<int> {
    Set::new(|id: int| i64::MIN <= id <= i64::MAX && chunks.contains_key(id as i64))
}

/// After an update no live chunk lies behind the cleanup threshold, and a
/// live chunk was live before or lies in the player's window. So where no
/// chunk was live beyond the window, as in a new manager, every live chunk
/// lies between the far end of the window and the cleanup threshold.
pub proof fn lemma_update_window(
    pre: WorldView,
    pre_entities: Seq<GameEntity>,
    post: WorldView,
    post_entities: Seq<GameEntity>,
    player_y: int,
    ctx: SpawnContext,
)
    requires
        pre.wf(),
        updated(pre, pre_entities, post, post_entities, player_y, ctx),
    ensures
        forall|id: i64| #[trigger]
            post.chunks.contains_key(id) ==> post.chunks[id].start_y <= player_y
                + pre.config.cleanup_distance && id <= last_kept(
                player_y,
                pre.config.cleanup_distance as int,
            ),
        (forall|id: i64| #[trigger]
            pre.chunks.contains_key(id) ==> window_low(
                player_y,
                pre.config.generation_distance as int,
            ) <= id) ==> (forall|id: i64| #[trigger]
            post.chunks.contains_key(id) ==> window_low(
                player_y,
                pre.config.generation_distance as int,
            ) <= id <= last_kept(player_y, pre.config.cleanup_distance as int)),
        live_ids(post.chunks) == live_after(
            live_ids(pre.chunks),
            player_y,
            pre.config.generation_distance as int,
            pre.config.cleanup_distance as int,
        ),
{
    lemma_update_live_chunks(pre, pre_entities, post, post_entities, player_y, ctx);
    let g = pre.config.generation_distance as int;
    let c = pre.config.cleanup_distance as int;
    assert forall|id: int|
        live_ids(post.chunks).contains(id) <==> live_after(live_ids(pre.chunks), player_y, g, c).contains(
            id,
        ) by {
        if i64::MIN <= id <= i64::MAX {
            let key = id as i64;
            assert(post.chunks.contains_key(key) <==> (pre.chunks.contains_key(key) || in_window(
                player_y,
                g,
                key as int,
            )) && !is_stale(player_y + c, chunk_start(key as int)));
        }
    }
    assert(live_ids(post.chunks) =~= live_after(live_ids(pre.chunks), player_y, g, c));
}

/// Windowed population. Over a run of updates in which the player never
/// retreats, starting with no chunk live beyond the first window, every live
/// chunk lies between the far end of the player's window and the cleanup
/// threshold: none older survives, none beyond the window exists.
pub proof fn lemma_windowed_population(
    ids: Set<int>,
    positions: Seq<int>,
    generation_distance: int,
    cleanup_distance: int,
)
    requires
        positions.len() > 0,
        forall|i: int, j: int|
            0 <= i <= j < positions.len() ==> positions[j] <= positions[i],
        forall|id: int| ids.contains(id) ==> window_low(positions[0], generation_distance) <= id,
    ensures
        forall|id: int| #[trigger]
            live_after_run(ids, positions, generation_distance, cleanup_distance).contains(id)
                ==> window_low(positions.last(), generation_distance) <= id <= last_kept(
                positions.last(),
                cleanup_distance,
            ),
    decreases positions.len(),
{
    let earlier = positions.drop_last();
    if earlier.len() > 0 {
        assert forall|i: int, j: int| 0 <= i <= j < earlier.len() implies earlier[j]
            <= earlier[i] by {
            assert(earlier[i] == positions[i] && earlier[j] == positions[j]);
        }
        assert(earlier[0] == positions[0]);
        lemma_windowed_population(ids, earlier, generation_distance, cleanup_distance);
        assert(earlier.last() == positions[positions.len() - 2]);
        assert(positions.last() <= earlier.last());
    } else {
        assert(positions.last() == positions[0]);
        assert(live_after_run(ids, earlier, generation_distance, cleanup_distance) == ids);
    }
    let before = live_after_run(ids, earlier, generation_distance, cleanup_distance);
    let last = positions.last();
    assert(live_after_run(ids, positions, generation_distance, cleanup_distance) == live_after(
        before,
        last,
        generation_distance,
        cleanup_distance,
    ));
    assert forall|id: int| #[trigger]
        live_after_run(ids, positions, generation_distance, cleanup_distance).contains(
            id,
        ) implies window_low(last, generation_distance) <= id <= last_kept(
        last,
        cleanup_distance,
    ) by {
        assert(before.contains(id) || in_window(last, generation_distance, id));
        assert(!is_stale(last + cleanup_distance, chunk_start(id)));
        if before.contains(id) {
            if earlier.len() > 0 {
                assert(window_low(earlier.last(), generation_distance) <= id);
            }
        }
    }
}

/// Filtering by a predicate that holds of every element keeps the sequence.
proof fn lemma_filter_keeps_all<A>(s: Seq<A>, keep: spec_fn(A) -> bool)
    requires
        forall|i: int| 0 <= i < s.len() ==> keep(#[trigger] s[i]),
    ensures
        s.filter(keep) == s,
    decreases s.len(),
{
    reveal(Seq::filter);
    if s.len() > 0 {
        assert forall|i: int| 0 <= i < s.drop_last().len() implies keep(
            #[trigger] s.drop_last()[i],
        ) by {
            assert(s.drop_last()[i] == s[i]);
        }
        lemma_filter_keeps_all(s.drop_last(), keep);
        assert(s.drop_last().push(s.last()) =~= s);
    }
}

/// Idempotent generation. A second update for the same player position and
/// screen changes nothing: no chunk is created, no entity is added or
/// removed, and no identifier is taken. This holds wherever the nearest chunk
/// of the player's window has not itself fallen behind the cleanup threshold.
pub proof fn lemma_update_idempotent(
    first: WorldView,
    first_entities: Seq<GameEntity>,
    second: WorldView,
    second_entities: Seq<GameEntity>,
    third: WorldView,
    third_entities: Seq<GameEntity>,
    player_y: int,
    ctx: SpawnContext,
)
    requires
        first.wf(),
        updated(first, first_entities, second, second_entities, player_y, ctx),
        updated(second, second_entities, third, third_entities, player_y, ctx),
        !is_stale(
            player_y + first.config.cleanup_distance,
            chunk_start(last_generated(player_y)),
        ),
    ensures
        third == second,
        third_entities == second_entities,
{
    lemma_update_live_chunks(first, first_entities, second, second_entities, player_y, ctx);
    let start = WorldView {
        ground_y_base: ctx.screen_height - second.config.ground_height,
        ..second
    };
    assert(start == second);
    let threshold = player_y + second.config.cleanup_distance;
    let (mid, mid_entities) = choose|mid: WorldView, mid_entities: Seq<GameEntity>| #[trigger]
        update_steps(second, second_entities, mid, mid_entities, third, third_entities, player_y, ctx);
    assert forall|id: i64|
        in_window(
            player_y,
            second.config.generation_distance as int,
            id as int,
        ) implies #[trigger] second.chunks.contains_key(id) by {
        assert(in_window(player_y, first.config.generation_distance as int, id as int));
    }
    assert(mid == second && mid_entities == second_entities);
    assert forall|id: i64| #[trigger] second.chunks.contains_key(id) implies !stale_in(
        second.chunks,
        threshold,
        id,
    ) by {
        if first.chunks.contains_key(id) {
            assert(first.chunks[id].spans(id as int));
        }
    }
    assert(surviving_chunks(second.chunks, threshold) =~= second.chunks);
    let keep = |e: GameEntity| !owned_by_stale(second.chunks, threshold, e.id);
    assert forall|i: int| 0 <= i < second_entities.len() implies keep(
        #[trigger] second_entities[i],
    ) by {
        if owned_by_stale(second.chunks, threshold, second_entities[i].id) {
            let id = choose|id: i64| #[trigger]
                stale_in(second.chunks, threshold, id) && second.chunks[id].entities@.contains(
                    second_entities[i].id,
                );
            assert(second.chunks.contains_key(id));
        }
    }
    lemma_filter_keeps_all(second_entities, keep);
}

/// No orphaned entities. Cleanup leaves no entity in the collection whose
/// identifier is owned by a chunk that it discards.
pub proof fn lemma_no_orphans(
    chunks: Map<i64, WorldChunk>,
    threshold: int,
    entities: Seq<GameEntity>,
    id: i64,
    k: int,
    i: int,
)
    requires
        stale_in(chunks, threshold, id),
        0 <= k < chunks[id].entities@.len(),
        0 <= i < surviving_entities(chunks, threshold, entities).len(),
    ensures
        surviving_entities(chunks, threshold, entities)[i].id != chunks[id].entities@[k],
{
    let keep = |e: GameEntity| !owned_by_stale(chunks, threshold, e.id);
    entities.lemma_filter_pred(keep, i);
    assert(keep(entities.filter(keep)[i]));
    assert(chunks[id].entities@.contains(chunks[id].entities@[k]));
}

/// An update discards every chunk that has fallen behind: a chunk that was
/// live and starts beyond the cleanup threshold is live no more, and no
/// entity of the collection carries an identifier that it owned.
pub proof fn lemma_update_discards_stale(
    pre: WorldView,
    pre_entities: Seq<GameEntity>,
    post: WorldView,
    post_entities: Seq<GameEntity>,
    player_y: int,
    ctx: SpawnContext,
    id: i64,
)
    requires
        pre.wf(),
        updated(pre, pre_entities, post, post_entities, player_y, ctx),
        pre.chunks.contains_key(id),
        pre.chunks[id].start_y > player_y + pre.config.cleanup_distance,
    ensures
        !post.chunks.contains_key(id),
        forall|k: int, i: int|
            0 <= k < pre.chunks[id].entities@.len() && 0 <= i < post_entities.len()
                ==> (#[trigger] post_entities[i]).id != #[trigger] pre.chunks[id].entities@[k],
{
    lemma_update_live_chunks(pre, pre_entities, post, post_entities, player_y, ctx);
    assert(pre.chunks[id].spans(id as int));
    assert forall|k: int, i: int|
        0 <= k < pre.chunks[id].entities@.len() && 0 <= i < post_entities.len() implies (
    #[trigger] post_entities[i]).id != #[trigger] pre.chunks[id].entities@[k] by {
        lemma_update_no_orphans(pre, pre_entities, post, post_entities, player_y, ctx, id, k, i);
    }
}

/// No orphaned entities, across an update: once a chunk that was live is
/// gone, no entity of the collection carries an identifier that it owned.
pub proof fn lemma_update_no_orphans(
    pre: WorldView,
    pre_entities: Seq<GameEntity>,
    post: WorldView,
    post_entities: Seq<GameEntity>,
    player_y: int,
    ctx: SpawnContext,
    id: i64,
    k: int,
    i: int,
)
    requires
        pre.wf(),
        updated(pre, pre_entities, post, post_entities, player_y, ctx),
        pre.chunks.contains_key(id),
        !post.chunks.contains_key(id),
        0 <= k < pre.chunks[id].entities@.len(),
        0 <= i < post_entities.len(),
    ensures
        post_entities[i].id != pre.chunks[id].entities@[k],
{
    let start = WorldView { ground_y_base: ctx.screen_height - pre.config.ground_height, ..pre };
    let (mid, mid_entities) = choose|mid: WorldView, mid_entities: Seq<GameEntity>| #[trigger]
        update_steps(pre, pre_entities, mid, mid_entities, post, post_entities, player_y, ctx);
    assert(start.chunks.contains_key(id));
    assert(mid.chunks.contains_key(id) && mid.chunks[id] == pre.chunks[id]);
    lemma_no_orphans(
        mid.chunks,
        player_y + pre.config.cleanup_distance,
        mid_entities,
        id,
        k,
        i,
    );
}

/// No duplicate identifiers, within one generation: the entities it appends
/// carry pairwise different identifiers, none below the counter's old value,
/// so none that a live chunk already owned; and the counter ends above all
/// of them.
pub proof fn lemma_identifiers_fresh(
    pre: WorldView,
    pre_entities: Seq<GameEntity>,
    post: WorldView,
    post_entities: Seq<GameEntity>,
    low_id: int,
    high_id: int,
    screen_width: int,
)
    requires
        pre.wf(),
        generated_range(pre, pre_entities, post, post_entities, low_id, high_id, screen_width),
    ensures
        pre.next_entity_id <= post.next_entity_id,
        forall|i: int, j: int|
            pre_entities.len() <= i < post_entities.len() && pre_entities.len() <= j
                < post_entities.len() && i != j ==> post_entities[i].id != post_entities[j].id,
        forall|i: int|
            pre_entities.len() <= i < post_entities.len() ==> pre.next_entity_id
                <= #[trigger] post_entities[i].id < post.next_entity_id,
        forall|id: i64, k: int, i: int|
            pre.chunks.contains_key(id) && 0 <= k < pre.chunks[id].entities@.len()
                && pre_entities.len() <= i < post_entities.len()
                ==> #[trigger] pre.chunks[id].entities@[k] != #[trigger] post_entities[i].id,
{
    let n = pre_entities.len() as int;
    let added = post_entities.skip(n);
    assert forall|i: int| n <= i < post_entities.len() implies pre.next_entity_id
        <= #[trigger] post_entities[i].id < post.next_entity_id by {
        assert(added[i - n] == post_entities[i]);
    }
    assert forall|i: int, j: int|
        n <= i < post_entities.len() && n <= j < post_entities.len() && i != j
            implies post_entities[i].id != post_entities[j].id by {
        assert(added[i - n] == post_entities[i]);
        assert(added[j - n] == post_entities[j]);
        if i < j {
            assert(added[i - n].id < added[j - n].id);
        } else {
            assert(added[j - n].id < added[i - n].id);
        }
    }
}

/// No duplicate identifiers, across generations: whatever happens in
/// between, as long as the counter does not move back, the entities two
/// generations append carry different identifiers.
pub proof fn lemma_identifiers_never_repeat(
    earlier_pre: WorldView,
    earlier_before: Seq<GameEntity>,
    earlier_post: WorldView,
    earlier_after: Seq<GameEntity>,
    later_pre: WorldView,
    later_before: Seq<GameEntity>,
    later_post: WorldView,
    later_after: Seq<GameEntity>,
    earlier_player_y: int,
    later_player_y: int,
    screen_width: int,
    i: int,
    j: int,
)
    requires
        generated_ahead(
            earlier_pre,
            earlier_before,
            earlier_post,
            earlier_after,
            earlier_player_y,
            screen_width,
        ),
        generated_ahead(
            later_pre,
            later_before,
            later_post,
            later_after,
            later_player_y,
            screen_width,
        ),
        earlier_post.next_entity_id <= later_pre.next_entity_id,
        earlier_before.len() <= i < earlier_after.len(),
        later_before.len() <= j < later_after.len(),
    ensures
        earlier_after[i].id != later_after[j].id,
{
    let first = earlier_after.skip(earlier_before.len() as int);
    let second = later_after.skip(later_before.len() as int);
    assert(first[i - earlier_before.len()] == earlier_after[i]);
    assert(second[j - later_before.len()] == later_after[j]);
    assert(fresh_rising(first, earlier_pre.next_entity_id, earlier_post.next_entity_id));
    assert(fresh_rising(second, later_pre.next_entity_id, later_post.next_entity_id));
}

/// One call of the population of a chunk within a run of calls: call `k`
/// takes the manager from `states[k]` to `states[k + 1]` and the collection
/// from `collections[k]` to `collections[k + 1]`, on behalf of `chunks[k]`,
/// and leaves them as the population of a chunk is specified to.
pub open spec fn population_step(
    states: Seq<WorldView>,
    collections: Seq<Seq<GameEntity>>,
    chunks: Seq<WorldChunk>,
    screen_width: int,
    k: int,
) -> bool {
    &&& chunks[k].in_bounds()
    &&& collections[k].len() <= collections[k + 1].len()
    &&& trackers_follow(states[k], chunks[k], collections[k], states[k + 1], collections[k + 1])
    &&& populated_in_order(
        states[k],
        chunks[k],
        collections[k + 1].skip(collections[k].len() as int),
        screen_width,
    )
}

/// A run of calls of the population of a chunk, one for each chunk in order.
pub open spec fn population_run(
    states: Seq<WorldView>,
    collections: Seq<Seq<GameEntity>>,
    chunks: Seq<WorldChunk>,
    screen_width: int,
) -> bool {
    &&& states.len() == chunks.len() + 1
    &&& collections.len() == states.len()
    &&& forall|k: int|
        0 <= k < chunks.len() ==> #[trigger] population_step(
            states,
            collections,
            chunks,
            screen_width,
            k,
        )
}

/// The entity that call `k` of a run appended at place `m`.
pub open spec fn appended(collections: Seq<Seq<GameEntity>>, k: int, m: int) -> GameEntity {
    collections[k + 1].skip(collections[k].len() as int)[m]
}

/// Whether call `k` of a run appended an entity at place `m`.
pub open spec fn appended_at(collections: Seq<Seq<GameEntity>>, k: int, m: int) -> bool {
    0 <= m < collections[k + 1].len() - collections[k].len()
}

/// Over a run the trackers keep their spacings, and once a tracker has moved
/// it rests on the centre of one of the chunks populated since.
proof fn lemma_trackers_rest_on_centers(
    states: Seq<WorldView>,
    collections: Seq<Seq<GameEntity>>,
    chunks: Seq<WorldChunk>,
    screen_width: int,
    from: int,
    to: int,
)
    requires
        population_run(states, collections, chunks, screen_width),
        0 <= from <= to <= chunks.len(),
    ensures
        states[to].shelter_cadence.spacing == states[from].shelter_cadence.spacing,
        states[to].enemy_cadence.spacing == states[from].enemy_cadence.spacing,
        states[to].shelter_cadence == states[from].shelter_cadence || exists|k: int|
            from <= k < to && states[to].shelter_cadence.last_spawn_y
                == (#[trigger] chunks[k]).center_y(),
        states[to].enemy_cadence == states[from].enemy_cadence || exists|k: int|
            from <= k < to && states[to].enemy_cadence.last_spawn_y
                == (#[trigger] chunks[k]).center_y(),
    decreases to - from,
{
    if from < to {
        lemma_trackers_rest_on_centers(states, collections, chunks, screen_width, from, to - 1);
        assert(population_step(states, collections, chunks, screen_width, to - 1));
        let before = states[to - 1];
        let after = states[to];
        if after.shelter_cadence != before.shelter_cadence {
            assert(after.shelter_cadence.last_spawn_y == chunks[to - 1].center_y());
        } else if before.shelter_cadence != states[from].shelter_cadence {
            let k = choose|k: int|
                from <= k < to - 1 && before.shelter_cadence.last_spawn_y
                    == (#[trigger] chunks[k]).center_y();
            assert(after.shelter_cadence.last_spawn_y == chunks[k].center_y());
        }
        if after.enemy_cadence != before.enemy_cadence {
            assert(after.enemy_cadence.last_spawn_y == chunks[to - 1].center_y());
        } else if before.enemy_cadence != states[from].enemy_cadence {
            let k = choose|k: int|
                from <= k < to - 1 && before.enemy_cadence.last_spawn_y
                    == (#[trigger] chunks[k]).center_y();
            assert(after.enemy_cadence.last_spawn_y == chunks[k].center_y());
        }
    }
}

/// Cadence respected, for shelters. Over a run of calls of the population of
/// a chunk, on chunks whose centres lie less than the shelter spacing from
/// one another, at most one shelter is appended: two shelters that the run
/// appended are the same entity.
pub proof fn lemma_one_shelter_per_run(
    states: Seq<WorldView>,
    collections: Seq<Seq<GameEntity>>,
    chunks: Seq<WorldChunk>,
    screen_width: int,
    i: int,
    m: int,
    j: int,
    n: int,
)
    requires
        population_run(states, collections, chunks, screen_width),
        forall|a: int, b: int|
            0 <= a < chunks.len() && 0 <= b < chunks.len() ==> (#[trigger] chunks[a]).center_y()
                - (#[trigger] chunks[b]).center_y() < states[0].shelter_cadence.spacing,
        0 <= i <= j < chunks.len(),
        appended_at(collections, i, m),
        appended_at(collections, j, n),
        appended(collections, i, m).entity_type == EntityType::Shelter,
        appended(collections, j, n).entity_type == EntityType::Shelter,
    ensures
        i == j,
        m == n,
{
    assert(population_step(states, collections, chunks, screen_width, i));
    assert(population_step(states, collections, chunks, screen_width, j));
    let added_i = collections[i + 1].skip(collections[i].len() as int);
    let added_j = collections[j + 1].skip(collections[j].len() as int);
    let (si, hi) = choose|shelters: int, hostiles: int|
        {
            &&& #[trigger] population_layout(
                states[i].config,
                added_i,
                shelters,
                hostiles,
                chunks[i].center_y(),
                screen_width,
            )
            &&& !spawn_due(
                states[i].shelter_cadence.last_spawn_y as int,
                states[i].shelter_cadence.spacing as int,
                chunks[i].center_y(),
            ) ==> shelters == 0
            &&& !spawn_due(
                states[i].enemy_cadence.last_spawn_y as int,
                states[i].enemy_cadence.spacing as int,
                chunks[i].center_y(),
            ) ==> hostiles == 0
        };
    let (sj, hj) = choose|shelters: int, hostiles: int|
        {
            &&& #[trigger] population_layout(
                states[j].config,
                added_j,
                shelters,
                hostiles,
                chunks[j].center_y(),
                screen_width,
            )
            &&& !spawn_due(
                states[j].shelter_cadence.last_spawn_y as int,
                states[j].shelter_cadence.spacing as int,
                chunks[j].center_y(),
            ) ==> shelters == 0
            &&& !spawn_due(
                states[j].enemy_cadence.last_spawn_y as int,
                states[j].enemy_cadence.spacing as int,
                chunks[j].center_y(),
            ) ==> hostiles == 0
        };
    assert(added_i[m].entity_type == EntityType::Shelter);
    assert(added_j[n].entity_type == EntityType::Shelter);
    assert(m < si && n < sj);
    if i < j {
        assert(added_i[0] == collections[i + 1][collections[i].len() as int]);
        assert(states[i + 1].shelter_cadence.last_spawn_y == chunks[i].center_y());
        lemma_trackers_rest_on_centers(states, collections, chunks, screen_width, 0, j);
        lemma_trackers_rest_on_centers(states, collections, chunks, screen_width, i + 1, j);
        assert(exists|k: int|
            0 <= k < chunks.len() && states[j].shelter_cadence.last_spawn_y
                == (#[trigger] chunks[k]).center_y());
        assert(false);
    }
}

/// Cadence respected, for hostiles. Over a run of calls of the population of
/// a chunk, on chunks whose centres lie less than the hostile spacing from
/// one another, hostiles are spawned at most once: two hostiles that the run
/// appended were appended by the same call, for the same chunk.
pub proof fn lemma_one_hostile_group_per_run(
    states: Seq<WorldView>,
    collections: Seq<Seq<GameEntity>>,
    chunks: Seq<WorldChunk>,
    screen_width: int,
    i: int,
    m: int,
    j: int,
    n: int,
)
    requires
        population_run(states, collections, chunks, screen_width),
        forall|a: int, b: int|
            0 <= a < chunks.len() && 0 <= b < chunks.len() ==> (#[trigger] chunks[a]).center_y()
                - (#[trigger] chunks[b]).center_y() < states[0].enemy_cadence.spacing,
        0 <= i <= j < chunks.len(),
        appended_at(collections, i, m),
        appended_at(collections, j, n),
        appended(collections, i, m).entity_type == EntityType::HostileInfected,
        appended(collections, j, n).entity_type == EntityType::HostileInfected,
    ensures
        i == j,
{
    assert(population_step(states, collections, chunks, screen_width, i));
    assert(population_step(states, collections, chunks, screen_width, j));
    let added_i = collections[i + 1].skip(collections[i].len() as int);
    let added_j = collections[j + 1].skip(collections[j].len() as int);
    let (si, hi) = choose|shelters: int, hostiles: int|
        {
            &&& #[trigger] population_layout(
                states[i].config,
                added_i,
                shelters,
                hostiles,
                chunks[i].center_y(),
                screen_width,
            )
            &&& !spawn_due(
                states[i].shelter_cadence.last_spawn_y as int,
                states[i].shelter_cadence.spacing as int,
                chunks[i].center_y(),
            ) ==> shelters == 0
            &&& !spawn_due(
                states[i].enemy_cadence.last_spawn_y as int,
                states[i].enemy_cadence.spacing as int,
                chunks[i].center_y(),
            ) ==> hostiles == 0
        };
    let (sj, hj) = choose|shelters: int, hostiles: int|
        {
            &&& #[trigger] population_layout(
                states[j].config,
                added_j,
                shelters,
                hostiles,
                chunks[j].center_y(),
                screen_width,
            )
            &&& !spawn_due(
                states[j].shelter_cadence.last_spawn_y as int,
                states[j].shelter_cadence.spacing as int,
                chunks[j].center_y(),
            ) ==> shelters == 0
            &&& !spawn_due(
                states[j].enemy_cadence.last_spawn_y as int,
                states[j].enemy_cadence.spacing as int,
                chunks[j].center_y(),
            ) ==> hostiles == 0
        };
    assert(added_i[m].entity_type == EntityType::HostileInfected);
    assert(added_j[n].entity_type == EntityType::HostileInfected);
    assert(si <= m < si + hi && sj <= n < sj + hj);
    if i < j {
        assert(states[i + 1].enemy_cadence.last_spawn_y == chunks[i].center_y());
        lemma_trackers_rest_on_centers(states, collections, chunks, screen_width, 0, j);
        lemma_trackers_rest_on_centers(states, collections, chunks, screen_width, i + 1, j);
        assert(exists|k: int|
            0 <= k < chunks.len() && states[j].enemy_cadence.last_spawn_y
                == (#[trigger] chunks[k]).center_y());
        assert(false);
    }
}

/// Whether no identifier is owned by two chunks.
pub open spec fn distinct_owners(chunks: Map<i64, WorldChunk>) -> bool {
    forall|a: i64, b: i64, k: int, l: int|
        chunks.contains_key(a) && chunks.contains_key(b) && a != b && 0 <= k
            < chunks[a].entities@.len() && 0 <= l < chunks[b].entities@.len()
            ==> #[trigger] chunks[a].entities@[k] != #[trigger] chunks[b].entities@[l]
}

/// An update keeps owners distinct, and whatever a chunk that it created
/// owns was issued by it: it is no lower than the counter was and lower than
/// the counter is.
pub proof fn lemma_update_owners(
    pre: WorldView,
    pre_entities: Seq<GameEntity>,
    post: WorldView,
    post_entities: Seq<GameEntity>,
    player_y: int,
    ctx: SpawnContext,
)
    requires
        pre.wf(),
        distinct_owners(pre.chunks),
        updated(pre, pre_entities, post, post_entities, player_y, ctx),
    ensures
        distinct_owners(post.chunks),
        pre.next_entity_id <= post.next_entity_id,
        forall|b: i64, l: int|
            post.chunks.contains_key(b) && !pre.chunks.contains_key(b) && 0 <= l
                < post.chunks[b].entities@.len() ==> pre.next_entity_id
                <= #[trigger] post.chunks[b].entities@[l] < post.next_entity_id,
        forall|b: i64|
            pre.chunks.contains_key(b) && #[trigger] post.chunks.contains_key(b)
                ==> post.chunks[b] == pre.chunks[b],
{
    let start = WorldView { ground_y_base: ctx.screen_height - pre.config.ground_height, ..pre };
    let (mid, mid_entities) = choose|mid: WorldView, mid_entities: Seq<GameEntity>| #[trigger]
        update_steps(pre, pre_entities, mid, mid_entities, post, post_entities, player_y, ctx);
    assert forall|a: i64, b: i64, k: int, l: int|
        mid.chunks.contains_key(a) && mid.chunks.contains_key(b) && a != b && 0 <= k
            < mid.chunks[a].entities@.len() && 0 <= l
            < mid.chunks[b].entities@.len() implies #[trigger] mid.chunks[a].entities@[k]
        != #[trigger] mid.chunks[b].entities@[l] by {
        let old_a = pre.chunks.contains_key(a);
        let old_b = pre.chunks.contains_key(b);
        if old_a {
            assert(start.chunks.contains_key(a));
            assert(mid.chunks[a] == pre.chunks[a]);
            assert(pre.chunks[a].entities@[k] < pre.next_entity_id);
        }
        if old_b {
            assert(start.chunks.contains_key(b));
            assert(mid.chunks[b] == pre.chunks[b]);
            assert(pre.chunks[b].entities@[l] < pre.next_entity_id);
        }
        if !old_a {
            assert(pre.next_entity_id <= mid.chunks[a].entities@[k]);
        }
        if !old_b {
            assert(pre.next_entity_id <= mid.chunks[b].entities@[l]);
        }
        if !old_a && !old_b {
            if a < b {
                assert(mid.chunks[b].entities@[l] < mid.chunks[a].entities@[k]);
            } else {
                assert(mid.chunks[a].entities@[k] < mid.chunks[b].entities@[l]);
            }
        }
    }
    assert forall|b: i64, l: int|
        post.chunks.contains_key(b) && !pre.chunks.contains_key(b) && 0 <= l
            < post.chunks[b].entities@.len() implies pre.next_entity_id
        <= #[trigger] post.chunks[b].entities@[l] < post.next_entity_id by {
        assert(mid.chunks.contains_key(b));
        assert(pre.next_entity_id <= mid.chunks[b].entities@[l] < mid.next_entity_id);
    }
    assert forall|b: i64|
        pre.chunks.contains_key(b) && #[trigger] post.chunks.contains_key(b)
            implies post.chunks[b] == pre.chunks[b] by {
        assert(start.chunks.contains_key(b));
    }
}

/// One update within a run: update `k` takes the manager from `states[k]`
/// to `states[k + 1]` and the collection from `collections[k]` to
/// `collections[k + 1]`, for a player at `positions[k]` on `screens[k]`.
pub open spec fn update_step(
    states: Seq<WorldView>,
    collections: Seq<Seq<GameEntity>>,
    positions: Seq<int>,
    screens: Seq<SpawnContext>,
    k: int,
) -> bool {
    updated(
        states[k],
        collections[k],
        states[k + 1],
        collections[k + 1],
        positions[k],
        screens[k],
    )
}

/// A run of updates, one for each position in order, on managers that keep
/// their invariant.
pub open spec fn update_run(
    states: Seq<WorldView>,
    collections: Seq<Seq<GameEntity>>,
    positions: Seq<int>,
    screens: Seq<SpawnContext>,
) -> bool {
    &&& states.len() == positions.len() + 1
    &&& collections.len() == states.len()
    &&& screens.len() == positions.len()
    &&& forall|k: int| 0 <= k < states.len() ==> (#[trigger] states[k]).wf()
    &&& forall|k: int|
        0 <= k < positions.len() ==> #[trigger] update_step(
            states,
            collections,
            positions,
            screens,
            k,
        )
}

/// Over a run of updates the counter never moves back and owners stay
/// distinct; and what a chunk owns at some moment of the run either was
/// owned by the same record under the same identifier at an earlier moment,
/// or was issued since.
pub proof fn lemma_run_owners(
    states: Seq<WorldView>,
    collections: Seq<Seq<GameEntity>>,
    positions: Seq<int>,
    screens: Seq<SpawnContext>,
    i: int,
    j: int,
)
    requires
        update_run(states, collections, positions, screens),
        distinct_owners(states[0].chunks),
        0 <= i <= j < states.len(),
    ensures
        states[i].next_entity_id <= states[j].next_entity_id,
        distinct_owners(states[j].chunks),
        forall|b: i64, l: int|
            states[j].chunks.contains_key(b) && 0 <= l < states[j].chunks[b].entities@.len() ==> (
            states[i].chunks.contains_key(b) && states[i].chunks[b] == states[j].chunks[b])
                || states[i].next_entity_id <= #[trigger] states[j].chunks[b].entities@[l],
    decreases j,
{
    if j > 0 {
        lemma_run_owners(states, collections, positions, screens, 0, j - 1);
        assert(update_step(states, collections, positions, screens, j - 1));
        assert(states[j - 1].wf());
        lemma_update_owners(
            states[j - 1],
            collections[j - 1],
            states[j],
            collections[j],
            positions[j - 1],
            screens[j - 1],
        );
        if i < j {
            lemma_run_owners(states, collections, positions, screens, i, j - 1);
            assert forall|b: i64, l: int|
                states[j].chunks.contains_key(b) && 0 <= l
                    < states[j].chunks[b].entities@.len() implies (states[i].chunks.contains_key(b)
                && states[i].chunks[b] == states[j].chunks[b]) || states[i].next_entity_id
                <= #[trigger] states[j].chunks[b].entities@[l] by {
                if states[j - 1].chunks.contains_key(b) {
                    assert(states[j].chunks[b] == states[j - 1].chunks[b]);
                    assert((states[i].chunks.contains_key(b) && states[i].chunks[b] == states[j
                        - 1].chunks[b]) || states[i].next_entity_id
                        <= states[j - 1].chunks[b].entities@[l]);
                }
            }
        }
    }
}

/// No duplicate identifiers, over any run of updates. The counter never
/// moves back. An identifier that a chunk owns at one moment of the run and
/// a chunk owns at a later moment is owned by the same record, under the
/// same chunk identifier and at the same place: no identifier is issued
/// twice, whether its chunk is still live or was discarded in between.
pub proof fn lemma_identifiers_unique_over_run(
    states: Seq<WorldView>,
    collections: Seq<Seq<GameEntity>>,
    positions: Seq<int>,
    screens: Seq<SpawnContext>,
    i: int,
    a: i64,
    k: int,
    j: int,
    b: i64,
    l: int,
)
    requires
        update_run(states, collections, positions, screens),
        distinct_owners(states[0].chunks),
        0 <= i <= j < states.len(),
        states[i].chunks.contains_key(a),
        0 <= k < states[i].chunks[a].entities@.len(),
        states[j].chunks.contains_key(b),
        0 <= l < states[j].chunks[b].entities@.len(),
        states[i].chunks[a].entities@[k] == states[j].chunks[b].entities@[l],
    ensures
        states[i].next_entity_id <= states[j].next_entity_id,
        a == b,
        k == l,
        states[i].chunks[a] == states[j].chunks[b],
{
    lemma_run_owners(states, collections, positions, screens, i, j);
    lemma_run_owners(states, collections, positions, screens, 0, i);
    assert(states[i].wf());
    let id = states[j].chunks[b].entities@[l];
    assert(states[i].chunks[a].entities@[k] < states[i].next_entity_id);
    assert(states[i].chunks.contains_key(b) && states[i].chunks[b] == states[j].chunks[b]);
    if a != b {
        assert(states[i].chunks[a].entities@[k] != states[i].chunks[b].entities@[l]);
    }
    if k < l {
        assert(states[i].chunks[a].entities@[k] < states[i].chunks[a].entities@[l]);
    } else if l < k {
        assert(states[i].chunks[a].entities@[l] < states[i].chunks[a].entities@[k]);
    }
}

/// Every identifier that a manager issues over a run of updates is at least
/// the counter it started with, where it started without chunks.
pub proof fn lemma_identifiers_start_at_counter(
    states: Seq<WorldView>,
    collections: Seq<Seq<GameEntity>>,
    positions: Seq<int>,
    screens: Seq<SpawnContext>,
    j: int,
    b: i64,
    l: int,
)
    requires
        update_run(states, collections, positions, screens),
        states[0].chunks == Map::<i64, WorldChunk>::empty(),
        0 <= j < states.len(),
        states[j].chunks.contains_key(b),
        0 <= l < states[j].chunks[b].entities@.len(),
    ensures
        states[0].next_entity_id <= states[j].chunks[b].entities@[l] < states[j].next_entity_id,
{
    lemma_run_owners(states, collections, positions, screens, 0, j);
    assert(states[j].wf());
}

} // verus!
