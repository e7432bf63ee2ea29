//! Terrain tiles.

use vstd::prelude::*;

verus! {

/// Edge length of a square ground tile, in world units.
pub const TILE_SIZE: i64 = 64;

/// Terrain categories of a ground tile.
#[derive(Debug, Clone, Copy, PartialEq, Eq, Structural)]
pub enum TileType {
    Grass,
    Dirt,
    Stone,
    DeadGrass,
}

/// A ground tile: the world position of its corner and its terrain category.
#[derive(Debug, Clone, Copy, PartialEq, Eq, Structural)]
pub struct GroundTile {
    pub x: i64,
    pub y: i64,
    pub tile_type: TileType,
}

impl GroundTile {
    pub fn new(x: i64, y: i64, tile_type: TileType) -> (tile: Self)
        ensures
            tile == (GroundTile { x, y, tile_type }),
    {
        GroundTile { x, y, tile_type }
    }
}

/// The seed of a tile: the sum of the magnitudes of its two grid indices,
/// each coordinate divided by the tile's edge and truncated.
pub open spec fn tile_seed(x: int, y: int) -> int {
    magnitude(x) / (TILE_SIZE as int) + magnitude(y) / (TILE_SIZE as int)
}

/// The distance of a coordinate from zero.
pub open spec fn magnitude(coord: int) -> int {
    if coord >= 0 {
        coord
    } else {
        -coord
    }
}

/// The terrain category of the tile at a position: out of every ten
/// consecutive seeds six are grass, two dirt, one dead grass and one stone.
pub open spec fn tile_category(x: int, y: int) -> TileType {
    let r = tile_seed(x, y) % 10;
    if r <= 5 {
        TileType::Grass
    } else if r <= 7 {
        TileType::Dirt
    } else if r == 8 {
        TileType::DeadGrass
    } else {
        TileType::Stone
    }
}

/// The magnitude of a coordinate's grid index.
fn grid_magnitude(coord: i64) -> (m: i64)
    ensures
        m == magnitude(coord as int) / (TILE_SIZE as int),
{
    if coord >= 0 {
        coord / TILE_SIZE
    } else {
        let n: i64 = -(coord + 1);
        if n % TILE_SIZE == TILE_SIZE - 1 {
            n / TILE_SIZE + 1
        } else {
            n / TILE_SIZE
        }
    }
}

/// Classifies the tile at a position. The category depends on the position
/// alone, so a tile classifies identically whenever it is generated.
pub fn classify(x: i64, y: i64) -> (category: TileType)
    ensures
        category == tile_category(x as int, y as int),
{
    let seed: i64 = grid_magnitude(x) + grid_magnitude(y);
    let r: i64 = seed % 10;
    if r <= 5 {
        TileType::Grass
    } else if r <= 7 {
        TileType::Dirt
    } else if r == 8 {
        TileType::DeadGrass
    } else {
        TileType::Stone
    }
}

} // verus!
