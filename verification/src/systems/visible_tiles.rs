//! The viewport query: which generated tiles a camera sees.

use vstd::prelude::*;
use crate::components::environment::{GroundTile, TILE_SIZE};
use crate::systems::chunk::WorldChunk;

verus! {

/// The lower edge of the view of a camera at `camera_y` on a screen of the
/// given height.
pub open spec fn view_start(camera_y: int, screen_height: int) -> int {
    camera_y - screen_height / 2
}

/// The upper edge of the view.
pub open spec fn view_end(camera_y: int, screen_height: int) -> int {
    camera_y + screen_height / 2
}

/// Whether a tile lies in the view, widened by one tile on either side.
pub open spec fn tile_in_view(tile: GroundTile, start: int, end: int) -> bool {
    start - TILE_SIZE <= tile.y <= end + TILE_SIZE
}

/// Whether the band of a chunk meets the view.
pub open spec fn chunk_in_view(chunk: WorldChunk, start: int, end: int) -> bool {
    chunk.start_y >= start && chunk.end_y <= end
}

/// The tiles of `tiles` that lie in the widened view, in their order.
pub open spec fn tiles_in_view(tiles: Seq<GroundTile>, start: int, end: int) -> Seq<GroundTile> {
    tiles.filter(|tile: GroundTile| tile_in_view(tile, start, end))
}

/// What chunk `id` shows of itself: its tiles in the widened view if it is
/// live and meets the view, nothing otherwise.
pub open spec fn chunk_visible_tiles(
    chunks: Map<i64, WorldChunk>,
    id: int,
    start: int,
    end: int,
) -> Seq<GroundTile> {
    if i64::MIN <= id <= i64::MAX && chunks.contains_key(id as i64) && chunk_in_view(
        chunks[id as i64],
        start,
        end,
    ) {
        tiles_in_view(chunks[id as i64].ground_tiles@, start, end)
    } else {
        Seq::empty()
    }
}

/// The visible tiles of the chunks `low_id ..= high_id`, chunk by chunk in
/// rising order of identifier.
pub open spec fn visible_tiles(
    chunks: Map<i64, WorldChunk>,
    low_id: int,
    high_id: int,
    start: int,
    end: int,
) -> Seq<GroundTile>
    decreases high_id - low_id + 1,
{
    if high_id < low_id {
        Seq::empty()
    } else {
        visible_tiles(chunks, low_id, high_id - 1, start, end) + chunk_visible_tiles(
            chunks,
            high_id,
            start,
            end,
        )
    }
}

/// Chunks above `cut` that show nothing can be left out of the range.
pub proof fn lemma_visible_tiles_trim_high(
    chunks: Map<i64, WorldChunk>,
    low_id: int,
    cut: int,
    high_id: int,
    start: int,
    end: int,
)
    requires
        cut <= high_id,
        forall|id: int|
            cut < id <= high_id ==> (#[trigger] chunk_visible_tiles(chunks, id, start, end)).len()
                == 0,
    ensures
        visible_tiles(chunks, low_id, high_id, start, end) == visible_tiles(
            chunks,
            low_id,
            cut,
            start,
            end,
        ),
    decreases high_id - cut,
{
    if cut < high_id {
        lemma_visible_tiles_trim_high(chunks, low_id, cut, high_id - 1, start, end);
        if high_id >= low_id {
            assert(chunk_visible_tiles(chunks, high_id, start, end).len() == 0);
            assert(visible_tiles(chunks, low_id, high_id - 1, start, end) + chunk_visible_tiles(
                chunks,
                high_id,
                start,
                end,
            ) =~= visible_tiles(chunks, low_id, high_id - 1, start, end));
        } else {
            assert(visible_tiles(chunks, low_id, cut, start, end) =~= Seq::empty()) by {
                reveal_with_fuel(visible_tiles, 1);
            }
        }
    }
}

/// Chunks below `cut` that show nothing can be left out of the range.
pub proof fn lemma_visible_tiles_trim_low(
    chunks: Map<i64, WorldChunk>,
    low_id: int,
    cut: int,
    high_id: int,
    start: int,
    end: int,
)
    requires
        low_id <= cut,
        forall|id: int|
            low_id <= id < cut ==> (#[trigger] chunk_visible_tiles(chunks, id, start, end)).len()
                == 0,
    ensures
        visible_tiles(chunks, low_id, high_id, start, end) == visible_tiles(
            chunks,
            cut,
            high_id,
            start,
            end,
        ),
    decreases high_id - low_id + 1,
{
    if high_id < low_id {
    } else if high_id < cut {
        lemma_visible_tiles_trim_low(chunks, low_id, cut, high_id - 1, start, end);
        assert(chunk_visible_tiles(chunks, high_id, start, end).len() == 0);
        assert(visible_tiles(chunks, low_id, high_id - 1, start, end) + chunk_visible_tiles(
            chunks,
            high_id,
            start,
            end,
        ) =~= visible_tiles(chunks, low_id, high_id - 1, start, end));
    } else {
        lemma_visible_tiles_trim_low(chunks, low_id, cut, high_id - 1, start, end);
    }
}

/// Appends to `visible` the tiles of `tiles` that lie in the widened view.
pub fn collect_tiles_in_view(
    visible: &mut Vec<GroundTile>,
    tiles: &Vec<GroundTile>,
    start: i128,
    end: i128,
)
    requires
        -i64::MAX * 2 <= start <= i64::MAX * 2,
        -i64::MAX * 2 <= end <= i64::MAX * 2,
    ensures
        final(visible)@ == old(visible)@ + tiles_in_view(tiles@, start as int, end as int),
{
    let ghost base = visible@;
    let ghost seen = |tile: GroundTile| tile_in_view(tile, start as int, end as int);
    let mut k: usize = 0;
    proof {
        reveal(Seq::filter);
        assert(tiles@.take(0).filter(seen) =~= Seq::<GroundTile>::empty());
        assert(visible@ =~= base + tiles@.take(0).filter(seen));
    }
    while k < tiles.len()
        invariant
            k <= tiles@.len(),
            -i64::MAX * 2 <= start <= i64::MAX * 2,
            -i64::MAX * 2 <= end <= i64::MAX * 2,
            seen == (|tile: GroundTile| tile_in_view(tile, start as int, end as int)),
            visible@ == base + tiles@.take(k as int).filter(seen),
        decreases tiles@.len() - k,
    {
        let tile = tiles[k];
        proof {
            assert(tiles@.take(k + 1) =~= tiles@.take(k as int).push(tiles@[k as int]));
            tiles@.take(k as int).lemma_filter_push(tiles@[k as int], seen);
        }
        let y: i128 = tile.y as i128;
        if y >= start - (TILE_SIZE as i128) && y <= end + (TILE_SIZE as i128) {
            visible.push(tile);
            proof {
                assert(visible@ =~= base + tiles@.take(k + 1).filter(seen));
            }
        }
        k = k + 1;
    }
    proof {
        assert(tiles@.take(k as int) =~= tiles@);
    }
}

} // verus!
