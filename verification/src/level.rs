//! The level a new game starts in.

use vstd::prelude::*;
use crate::robot::{Direction, Robot};
use crate::world::{Grid, Tile, World};

verus! {

/// The side of the starting level, walls included.
pub const LEVEL_SIZE: u8 = 11;

/// The grid of the starting level: eleven cells a side, walled all round,
/// with the exit in the middle of the right wall.
pub open spec fn starting_grid() -> Grid {
    Grid::blank(11, 11, (10, 5)).with_border(Tile::Wall)
}

/// The robot of the starting level: just inside the left wall, level with
/// the exit and facing it.
pub open spec fn starting_robot() -> Robot {
    Robot { x: 1, y: 5, scanning: false, facing: Direction::Right }
}

/// Builds the starting level and its robot.
pub fn starting_level() -> (level: (World, Robot))
    ensures
        level.0.wf(),
        level.0@ == starting_grid(),
        level.1 == starting_robot(),
        level.1.placed_in(level.0@),
{
    let mut world = World::open_grid((LEVEL_SIZE, LEVEL_SIZE), (LEVEL_SIZE - 1, 5));
    world.add_border(Tile::Wall);
    let robot = Robot::new(1, 5, Direction::Right);
    (world, robot)
}

} // verus!
