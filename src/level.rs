//! The fixed level layout and the players' spawn points, as integer world
//! coordinates. The physics engine's host builds its bodies from these.

use vstd::prelude::*;

verus! {

pub const WINDOW_WIDTH: i32 = 600;
pub const WINDOW_HEIGHT: i32 = 800;

/// Edge length of a square level tile.
pub const TILE_SIZE: i32 = 32;

/// Tiles along the top row, each side column and the bottom row.
pub const TOP_TILES: usize = 25;
pub const SIDE_TILES: usize = 17;
pub const BOTTOM_TILES: usize = 23;

/// Number of tiles in the level; the tiles take the first body and collider indices.
pub const NUM_TILES: usize = 82;

/// Centre of the `k`-th tile: the top row left to right, the left column and
/// the right column top to bottom, then the bottom row between the columns.
pub open spec fn tile_position(k: int) -> (i32, i32) {
    if k < 25 {
        ((16 + 32 * k) as i32, 16)
    } else if k < 42 {
        (16, (48 + 32 * (k - 25)) as i32)
    } else if k < 59 {
        (784, (48 + 32 * (k - 42)) as i32)
    } else {
        ((48 + 32 * (k - 59)) as i32, 560)
    }
}

/// Centres of all level tiles, in the order their bodies are created.
pub fn level_tiles() -> (r: Vec<(i32, i32)>)
    ensures
        r@.len() == NUM_TILES,
        forall|k: int| 0 <= k < NUM_TILES ==> r@[k] == tile_position(k),
{
    let mut tiles: Vec<(i32, i32)> = Vec::new();
    let mut x: i32 = 0;
    while x <= 768
        invariant
            0 <= x <= 800,
            x % 32 == 0,
            tiles@.len() == x / 32,
            forall|k: int| 0 <= k < tiles@.len() ==> tiles@[k] == tile_position(k),
        decreases 800 - x,
    {
        tiles.push((16 + x, 16));
        x = x + TILE_SIZE;
    }
    let mut y: i32 = 32;
    while y <= 544
        invariant
            32 <= y <= 576,
            y % 32 == 0,
            tiles@.len() == 25 + (y - 32) / 32,
            forall|k: int| 0 <= k < tiles@.len() ==> tiles@[k] == tile_position(k),
        decreases 576 - y,
    {
        tiles.push((16, 16 + y));
        y = y + TILE_SIZE;
    }
    let mut y: i32 = 32;
    while y <= 544
        invariant
            32 <= y <= 576,
            y % 32 == 0,
            tiles@.len() == 42 + (y - 32) / 32,
            forall|k: int| 0 <= k < tiles@.len() ==> tiles@[k] == tile_position(k),
        decreases 576 - y,
    {
        tiles.push((768 + 16, 16 + y));
        y = y + TILE_SIZE;
    }
    let mut x: i32 = 32;
    while x <= 736
        invariant
            32 <= x <= 768,
            x % 32 == 0,
            tiles@.len() == 59 + (x - 32) / 32,
            forall|k: int| 0 <= k < tiles@.len() ==> tiles@[k] == tile_position(k),
        decreases 768 - x,
    {
        tiles.push((16 + x, 544 + 16));
        x = x + TILE_SIZE;
    }
    tiles
}

/// Spawn point of player `i`: mirrored around the window's centre column,
/// half way down the window.
pub open spec fn spawn_position(i: int) -> (i32, i32) {
    ((WINDOW_WIDTH / 2 + (2 * i - 1) * (WINDOW_WIDTH / 4)) as i32, (WINDOW_HEIGHT / 2) as i32)
}

pub fn player_spawn(i: usize) -> (r: (i32, i32))
    requires
        i < 2,
    ensures
        r == spawn_position(i as int),
        r.0 + spawn_position(1 - i).0 == WINDOW_WIDTH,
{
    let i = i as i32;
    (WINDOW_WIDTH / 2 + (2 * i - 1) * (WINDOW_WIDTH / 4), WINDOW_HEIGHT / 2)
}

} // verus!
