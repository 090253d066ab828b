//! The robot: a position and a facing, moved one cell at a time against a
//! world, and the vocabulary a script and the simulation exchange about it.

use vstd::prelude::*;
use crate::world::{Grid, World};

verus! {

/// One instruction for the robot.
#[derive(Debug, Copy, Clone, PartialEq, Eq, Structural)]
pub enum RobotCommand {
    /// Sent on behalf of a script that has finished; it ends the simulation.
    End,
    Forward,
    Left,
    Right,
    Scan,
}

/// The simulation's answer to one command.
#[derive(Debug, Copy, Clone, PartialEq, Eq, Structural)]
pub enum RobotResponse {
    /// The command was carried out.
    Done,
    Error,
    /// The answer to a scan: `true` when the cell ahead cannot be entered.
    Scan(bool),
}

#[derive(Debug, Clone, Copy, PartialEq, Eq, Structural)]
pub enum Direction {
    Left,
    Right,
    Up,
    Down,
}

#[derive(Debug, Clone, Copy, PartialEq, Eq, Structural)]
pub enum RobotError {
    /// The cell ahead could not be entered; its coordinate is carried. It may
    /// lie one step outside the grid.
    InvalidMove(i16, i16),
}

impl Direction {
    /// The facing after a quarter turn counter-clockwise.
    pub open spec fn turned_left(self) -> Direction {
        match self {
            Direction::Left => Direction::Down,
            Direction::Down => Direction::Right,
            Direction::Right => Direction::Up,
            Direction::Up => Direction::Left,
        }
    }

    /// The facing after a quarter turn clockwise.
    pub open spec fn turned_right(self) -> Direction {
        match self {
            Direction::Left => Direction::Up,
            Direction::Up => Direction::Right,
            Direction::Right => Direction::Down,
            Direction::Down => Direction::Left,
        }
    }

    /// The change in `(x, y)` of one step in this direction; `y` grows
    /// downwards.
    pub open spec fn offset(self) -> (int, int) {
        match self {
            Direction::Left => (-1, 0),
            Direction::Right => (1, 0),
            Direction::Up => (0, -1),
            Direction::Down => (0, 1),
        }
    }

    /// The clockwise angle, in degrees, by which a sprite drawn facing right
    /// is rotated to face this way.
    pub open spec fn degrees(self) -> int {
        match self {
            Direction::Right => 0,
            Direction::Down => 90,
            Direction::Left => 180,
            Direction::Up => 270,
        }
    }

    /// Four quarter turns to the left restore the facing, and so do four to
    /// the right.
    pub proof fn lemma_four_turns_restore(self)
        ensures
            self.turned_left().turned_left().turned_left().turned_left() == self,
            self.turned_right().turned_right().turned_right().turned_right() == self,
    {
    }

    /// A left turn undoes a right turn, and a right turn undoes a left turn.
    pub proof fn lemma_turns_are_inverse(self)
        ensures
            self.turned_left().turned_right() == self,
            self.turned_right().turned_left() == self,
    {
    }
}

#[derive(Clone, Copy, Debug, PartialEq, Eq, Structural)]
pub struct Robot {
    pub x: u8,
    pub y: u8,
    /// Set while a replay shows the robot scanning; movement never reads it.
    pub scanning: bool,
    pub facing: Direction,
}

impl Robot {
    /// The cell one step ahead. It is not held to any grid: next to an edge
    /// it may lie outside.
    pub open spec fn forward_target(self) -> (int, int) {
        (self.x + self.facing.offset().0, self.y + self.facing.offset().1)
    }

    /// The cell ahead can be entered.
    pub open spec fn can_advance(self, grid: Grid) -> bool {
        !grid.blocked(self.forward_target().0, self.forward_target().1)
    }

    /// The robot after an attempt to move forward: one cell ahead where that
    /// cell can be entered, unchanged otherwise.
    pub open spec fn advanced(self, grid: Grid) -> Robot {
        if self.can_advance(grid) {
            Robot { x: self.forward_target().0 as u8, y: self.forward_target().1 as u8, ..self }
        } else {
            self
        }
    }

    pub open spec fn turned_left(self) -> Robot {
        Robot { facing: self.facing.turned_left(), ..self }
    }

    pub open spec fn turned_right(self) -> Robot {
        Robot { facing: self.facing.turned_right(), ..self }
    }

    /// The robot stands on a cell of the grid that can be entered.
    pub open spec fn placed_in(self, grid: Grid) -> bool {
        !grid.blocked(self.x as int, self.y as int)
    }

    /// Same cell and same facing.
    pub open spec fn same_pose(self, other: Robot) -> bool {
        self.x == other.x && self.y == other.y && self.facing == other.facing
    }

    pub fn new(x: u8, y: u8, orientation: Direction) -> (robot: Self)
        ensures
            robot == (Robot { x, y, scanning: false, facing: orientation }),
    {
        Self { x, y, scanning: false, facing: orientation }
    }

    /// Moves one cell ahead if that cell lies in the world and can be
    /// entered; otherwise reports the cell and leaves the robot as it was.
    pub fn forward(&mut self, world: &World) -> (moved: Result<(), RobotError>)
        requires
            world.wf(),
        ensures
            *final(self) == old(self).advanced(world@),
            match moved {
                Ok(()) => {
                    &&& old(self).can_advance(world@)
                    &&& (final(self).x as int, final(self).y as int) == old(
                        self,
                    ).forward_target()
                    &&& final(self).facing == old(self).facing
                    &&& final(self).scanning == old(self).scanning
                    &&& final(self).placed_in(world@)
                },
                Err(RobotError::InvalidMove(x, y)) => {
                    &&& !old(self).can_advance(world@)
                    &&& (x as int, y as int) == old(self).forward_target()
                    &&& *final(self) == *old(self)
                },
            },
    {
        let forward_position = self.get_forward_position();
        if world.is_blocked(forward_position) {
            return Err(RobotError::InvalidMove(forward_position.0, forward_position.1));
        }
        self.x = forward_position.0 as u8;
        self.y = forward_position.1 as u8;
        Ok(())
    }

    /// Turns a quarter turn counter-clockwise.
    pub fn left(&mut self)
        ensures
            *final(self) == old(self).turned_left(),
    {
        self.facing = match self.facing {
            Direction::Left => Direction::Down,
            Direction::Right => Direction::Up,
            Direction::Up => Direction::Left,
            Direction::Down => Direction::Right,
        }
    }

    /// Turns a quarter turn clockwise.
    pub fn right(&mut self)
        ensures
            *final(self) == old(self).turned_right(),
    {
        self.facing = match self.facing {
            Direction::Left => Direction::Up,
            Direction::Right => Direction::Down,
            Direction::Up => Direction::Right,
            Direction::Down => Direction::Left,
        }
    }

    /// The cell one step ahead, whether or not any grid holds it.
    pub fn get_forward_position(&self) -> (position: (i16, i16))
        ensures
            (position.0 as int, position.1 as int) == self.forward_target(),
    {
        let x: i16 = self.x as i16;
        let y: i16 = self.y as i16;
        match self.facing {
            Direction::Left => (x - 1, y),
            Direction::Right => (x + 1, y),
            Direction::Up => (x, y - 1),
            Direction::Down => (x, y + 1),
        }
    }

    /// Whether the cell ahead cannot be entered. The robot is left as it was.
    pub fn scan(&mut self, world: &World) -> (obstacle: bool)
        requires
            world.wf(),
        ensures
            obstacle == !old(self).can_advance(world@),
            *final(self) == *old(self),
    {
        world.is_blocked(self.get_forward_position())
    }

    /// Whether the robot stands on the world's exit.
    pub fn is_on_end_tile(&self, world: &World) -> (at_exit: bool)
        ensures
            at_exit == world@.is_exit(self.x as int, self.y as int),
    {
        let exit = world.exit_position();
        self.x == exit.0 && self.y == exit.1
    }

    /// The rotation, in whole degrees, at which the robot is drawn.
    pub fn get_draw_rotation(&self) -> (degrees: u16)
        ensures
            degrees == self.facing.degrees(),
    {
        match self.facing {
            Direction::Left => 180,
            Direction::Right => 0,
            Direction::Up => 270,
            Direction::Down => 90,
        }
    }

    /// Four quarter turns either way bring the robot back to what it was,
    /// and opposite turns cancel.
    pub proof fn lemma_turns_cycle(self)
        ensures
            self.turned_left().turned_left().turned_left().turned_left() == self,
            self.turned_right().turned_right().turned_right().turned_right() == self,
            self.turned_left().turned_right() == self,
            self.turned_right().turned_left() == self,
    {
        self.facing.lemma_four_turns_restore();
        self.facing.lemma_turns_are_inverse();
    }

    /// An attempt to move forward has two outcomes and no third: the robot
    /// stands on the cell that was ahead, with that cell enterable, or it is
    /// exactly what it was.
    pub proof fn lemma_forward_moves_or_stays(self, grid: Grid)
        requires
            grid.wf(),
        ensures
            self.can_advance(grid) ==> {
                &&& (self.advanced(grid).x as int, self.advanced(grid).y as int)
                    == self.forward_target()
                &&& (self.advanced(grid).x, self.advanced(grid).y) != (self.x, self.y)
                &&& self.advanced(grid).facing == self.facing
                &&& self.advanced(grid).scanning == self.scanning
                &&& self.advanced(grid).placed_in(grid)
            },
            !self.can_advance(grid) ==> self.advanced(grid) == self,
    {
    }

    /// What a scan answers: `true` ahead of the grid's edge and ahead of a
    /// wall, `false` ahead of any other cell of the grid.
    pub proof fn lemma_scan_answers(self, grid: Grid)
        ensures
            !grid.in_bounds(self.forward_target().0, self.forward_target().1)
                ==> !self.can_advance(grid),
            grid.in_bounds(self.forward_target().0, self.forward_target().1) ==> (
            !self.can_advance(grid) <==> grid.tile_at(
                self.forward_target().0,
                self.forward_target().1,
            ) == crate::world::Tile::Wall),
    {
    }
}

} // verus!
