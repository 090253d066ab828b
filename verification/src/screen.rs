//! Where a grid cell lies on the screen.

use vstd::prelude::*;
use crate::world::Tile;

verus! {

/// The side of one cell, in pixels.
pub const CELL_SIZE: i32 = 32;

/// Half the side of one cell, in pixels.
pub const HALF_CELL: i32 = 16;

/// The top-left pixel of the cell `(x, y)`.
pub fn tile_to_screen_pos(x: u8, y: u8) -> (pixel: (i32, i32))
    ensures
        pixel.0 == x * CELL_SIZE,
        pixel.1 == y * CELL_SIZE,
{
    (x as i32 * CELL_SIZE, y as i32 * CELL_SIZE)
}

/// The pixel at the middle of the cell `(x, y)`.
pub fn tile_to_screen_pos_centered(x: u8, y: u8) -> (pixel: (i32, i32))
    ensures
        pixel.0 == x * CELL_SIZE + HALF_CELL,
        pixel.1 == y * CELL_SIZE + HALF_CELL,
{
    let screen_pos = tile_to_screen_pos(x, y);
    (screen_pos.0 + HALF_CELL, screen_pos.1 + HALF_CELL)
}

/// The name of the texture that `tile` is drawn with.
pub open spec fn texture_of(tile: Tile) -> Seq<char> {
    match tile {
        Tile::Ground => "ground"@,
        Tile::Exit => "exit"@,
        Tile::Wall => "wall"@,
    }
}

/// The name under which the texture of `tile` is kept.
pub fn texture_name(tile: Tile) -> (name: &'static str)
    ensures
        name@ == texture_of(tile),
{
    match tile {
        Tile::Ground => "ground",
        Tile::Exit => "exit",
        Tile::Wall => "wall",
    }
}

} // verus!
