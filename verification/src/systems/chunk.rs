//! Chunks: fixed-length bands along the travel axis.

use vstd::prelude::*;
use crate::components::environment::{classify, tile_category, GroundTile, TILE_SIZE};

verus! {

/// Length of a chunk along the travel axis, in world units.
pub const CHUNK_SIZE: i64 = 480;

/// How far ahead of the player chunks are generated.
pub const GENERATION_DISTANCE: i64 = 1440;

/// How far behind the player a chunk may lie before it is discarded.
pub const CLEANUP_DISTANCE: i64 = 960;

/// Height of the ground band, measured from the bottom of the screen.
pub const GROUND_HEIGHT: i64 = 200;

/// Height of the sky band, measured from the top of the screen.
pub const SKY_HEIGHT: i64 = 150;

/// Lowest coordinate of the world: no chunk is generated for a player's own
/// chunk beyond it.
pub const WORLD_MIN_Y: i64 = -1_000_000_000_000;

/// Highest coordinate of the world: no chunk is generated beyond the chunk of
/// this coordinate.
pub const WORLD_MAX_Y: i64 = 1_000_000_000_000;

/// The chunk identifier of coordinate `y`: `y / CHUNK_SIZE` rounded towards
/// negative infinity.
pub open spec fn chunk_id(y: int) -> int {
    y / (CHUNK_SIZE as int)
}

/// The lower edge of chunk `id`. The chunk does not hold it: it is the upper
/// edge of the chunk below.
pub open spec fn chunk_end(id: int) -> int {
    id * (CHUNK_SIZE as int)
}

/// The upper edge of chunk `id`; the chunk holds it.
pub open spec fn chunk_start(id: int) -> int {
    (id + 1) * (CHUNK_SIZE as int)
}

/// Whether chunk `id` holds coordinate `y`.
pub open spec fn chunk_holds(id: int, y: int) -> bool {
    chunk_end(id) < y <= chunk_start(id)
}

/// The identifier of the chunk whose band holds coordinate `y`: the chunk
/// identifier of `y`, but for a coordinate on an edge between two chunks,
/// which the lower chunk holds.
pub open spec fn holding_chunk(y: int) -> int {
    if y % (CHUNK_SIZE as int) == 0 {
        chunk_id(y) - 1
    } else {
        chunk_id(y)
    }
}

/// Computes the chunk identifier of `y`. The chunk of that identifier holds
/// `y` unless `y` lies on an edge between two chunks; then the chunk below
/// holds it.
pub fn chunk_id_of(y: i64) -> (id: i64)
    ensures
        id == chunk_id(y as int),
        y % CHUNK_SIZE != 0 ==> chunk_holds(id as int, y as int),
        y % CHUNK_SIZE == 0 ==> chunk_holds(id - 1, y as int) && y == chunk_end(id as int),
{
    if y >= 0 {
        y / CHUNK_SIZE
    } else {
        let n: i64 = -(y + 1);
        -(n / CHUNK_SIZE) - 1
    }
}

/// Every coordinate lies in exactly one chunk. Off the edges between chunks
/// that is the chunk whose identifier is the coordinate divided by the chunk
/// length, rounded down; an edge belongs to the chunk below it.
pub proof fn lemma_chunk_partition(y: int, id: int)
    ensures
        chunk_holds(id, y) <==> id == holding_chunk(y),
        y % (CHUNK_SIZE as int) != 0 ==> holding_chunk(y) == chunk_id(y),
{
}

/// Adjacent bands leave no gap and do not overlap: the lower edge of a chunk
/// is the upper edge of the chunk below, which holds it.
pub proof fn lemma_adjacent_bands(id: int)
    ensures
        chunk_end(id) == chunk_start(id - 1),
        chunk_holds(id - 1, chunk_end(id)),
        !chunk_holds(id, chunk_end(id)),
        chunk_holds(id, chunk_start(id)),
{
}

/// The unit of streaming: a band of the travel axis with the tiles generated
/// for it and the identifiers of the entities it spawned.
#[derive(Debug, Clone)]
pub struct WorldChunk {
    /// The higher-coordinate edge; the chunk holds it.
    pub start_y: i64,
    /// The lower-coordinate edge; the chunk does not hold it.
    pub end_y: i64,
    /// Identifiers of the entities this chunk spawned.
    pub entities: Vec<u32>,
    pub ground_tiles: Vec<GroundTile>,
    pub generated: bool,
}

impl WorldChunk {
    /// An empty, not yet generated chunk below `start_y`.
    pub fn new(start_y: i64) -> (chunk: Self)
        requires
            start_y - CHUNK_SIZE >= i64::MIN,
        ensures
            chunk.start_y == start_y,
            chunk.end_y == start_y - CHUNK_SIZE,
            chunk.entities@ == Seq::<u32>::empty(),
            chunk.ground_tiles@ == Seq::<GroundTile>::empty(),
            !chunk.generated,
    {
        WorldChunk {
            start_y,
            end_y: start_y - CHUNK_SIZE,
            entities: Vec::new(),
            ground_tiles: Vec::new(),
            generated: false,
        }
    }

    /// Whether the chunk holds coordinate `y`.
    pub fn contains_y(&self, y: i64) -> (held: bool)
        ensures
            held == (self.end_y < y <= self.start_y),
    {
        self.end_y < y && y <= self.start_y
    }

    /// Whether the record's band has the length of a chunk and lies where
    /// tiles and spawn positions can be computed.
    pub open spec fn in_bounds(&self) -> bool {
        &&& self.start_y == self.end_y + CHUNK_SIZE
        &&& -BAND_LIMIT <= self.end_y
        &&& self.start_y <= BAND_LIMIT
    }

    /// The coordinate half-way along the band.
    pub open spec fn center_y(&self) -> int {
        self.start_y - (CHUNK_SIZE as int) / 2
    }

    /// Whether two records agree in everything but the entities they own.
    pub open spec fn same_band_as(&self, other: WorldChunk) -> bool {
        &&& self.start_y == other.start_y
        &&& self.end_y == other.end_y
        &&& self.ground_tiles == other.ground_tiles
        &&& self.generated == other.generated
    }

    /// Whether this is the band of chunk `id`.
    pub open spec fn spans(&self, id: int) -> bool {
        self.start_y == chunk_start(id) && self.end_y == chunk_end(id)
    }
}

/// The row of the tile grid that holds coordinate `y`.
pub open spec fn tile_row(y: int) -> int {
    y / (TILE_SIZE as int)
}

/// The first row of the tile grid that lies wholly at or above `y`.
pub open spec fn tile_row_above(y: int) -> int {
    (y + (TILE_SIZE as int) - 1) / (TILE_SIZE as int)
}

/// The number of tile columns that cover a screen of the given width, with
/// one spare column on each side.
pub open spec fn tile_columns(screen_width: int) -> int {
    tile_row_above(screen_width) + 2
}

/// The tile at a grid position.
pub open spec fn tile_at(column: int, row: int) -> GroundTile {
    GroundTile {
        x: (column * (TILE_SIZE as int)) as i64,
        y: (row * (TILE_SIZE as int)) as i64,
        tile_type: tile_category(column * (TILE_SIZE as int), row * (TILE_SIZE as int)),
    }
}

/// The tiles of one column over the rows `[first_row, end_row)`, by rising
/// row: a row has a tile only where it lies in the ground band, at or beyond
/// `ground_y`.
pub open spec fn column_tiles(column: int, first_row: int, end_row: int, ground_y: int) -> Seq<
    GroundTile,
>
    decreases end_row - first_row,
{
    if end_row <= first_row {
        Seq::empty()
    } else {
        let below = column_tiles(column, first_row, end_row - 1, ground_y);
        if (end_row - 1) * (TILE_SIZE as int) >= ground_y {
            below.push(tile_at(column, end_row - 1))
        } else {
            below
        }
    }
}

/// The tiles of the first `columns` columns, column by column.
pub open spec fn grid_tiles(columns: int, first_row: int, end_row: int, ground_y: int) -> Seq<
    GroundTile,
>
    decreases columns,
{
    if columns <= 0 {
        Seq::empty()
    } else {
        grid_tiles(columns - 1, first_row, end_row, ground_y) + column_tiles(
            columns - 1,
            first_row,
            end_row,
            ground_y,
        )
    }
}

/// The tiles of the band between `end_y` and `start_y` for a screen of the
/// given width: every grid row that touches the band, in every column.
pub open spec fn band_tiles(end_y: int, start_y: int, ground_y: int, screen_width: int) -> Seq<
    GroundTile,
> {
    grid_tiles(tile_columns(screen_width), tile_row(end_y), tile_row_above(start_y), ground_y)
}

/// The largest magnitude of a band edge for which tiles are generated.
pub const BAND_LIMIT: i64 = 2_000_000_000_000;

/// Computes the row of the tile grid that holds `y`.
fn tile_row_of(y: i64) -> (row: i64)
    ensures
        row == tile_row(y as int),
{
    if y >= 0 {
        y / TILE_SIZE
    } else {
        let n: i64 = -(y + 1);
        -(n / TILE_SIZE) - 1
    }
}

/// Generates the ground tiles of the band between `end_y` and `start_y`.
pub fn generate_band_tiles(end_y: i64, start_y: i64, ground_y: i64, screen_width: u16) -> (tiles:
    Vec<GroundTile>)
    requires
        -BAND_LIMIT <= end_y <= BAND_LIMIT,
        -BAND_LIMIT <= start_y <= BAND_LIMIT,
    ensures
        tiles@ == band_tiles(end_y as int, start_y as int, ground_y as int, screen_width as int),
{
    let mut tiles: Vec<GroundTile> = Vec::new();
    let columns: i64 = tile_row_of(screen_width as i64 + TILE_SIZE - 1) + 2;
    let first_row: i64 = tile_row_of(end_y);
    let end_row: i64 = tile_row_of(start_y + TILE_SIZE - 1);
    let mut column: i64 = 0;
    while column < columns
        invariant
            0 <= column <= columns,
            columns == tile_columns(screen_width as int),
            first_row == tile_row(end_y as int),
            end_row == tile_row_above(start_y as int),
            -BAND_LIMIT <= end_y <= BAND_LIMIT,
            -BAND_LIMIT <= start_y <= BAND_LIMIT,
            tiles@ == grid_tiles(column as int, first_row as int, end_row as int, ground_y as int),
        decreases columns - column,
    {
        let x: i64 = column * TILE_SIZE;
        let mut row: i64 = first_row;
        let ghost before = tiles@;
        while row < end_row
            invariant
                first_row <= row || end_row <= first_row,
                row <= end_row || end_row <= first_row,
                row == first_row || first_row < end_row,
                0 <= column < columns <= 1028,
                x == column * TILE_SIZE,
                first_row == tile_row(end_y as int),
                end_row == tile_row_above(start_y as int),
                -BAND_LIMIT <= end_y <= BAND_LIMIT,
                -BAND_LIMIT <= start_y <= BAND_LIMIT,
                tiles@ == before + column_tiles(
                    column as int,
                    first_row as int,
                    row as int,
                    ground_y as int,
                ),
            decreases end_row - row,
        {
            let y: i64 = row * TILE_SIZE;
            if y >= ground_y {
                tiles.push(GroundTile::new(x, y, classify(x, y)));
            }
            row = row + 1;
        }
        assert(row == end_row || end_row <= first_row);
        column = column + 1;
    }
    tiles
}

} // verus!
