//! The tile grid: its bounds, its tiles and its protected exit cell.

use vstd::prelude::*;

verus! {

/// How a kind of terrain behaves when something tries to enter it.
pub trait WorldTile {
    /// Whether this terrain refuses entry.
    spec fn blocks(&self) -> bool;

    fn collision(&self) -> (blocked: bool)
        ensures
            blocked == self.blocks(),
    ;
}

/// The terrain of one grid cell.
#[derive(Clone, Copy, Debug, PartialEq, Eq, Structural)]
pub enum Tile {
    Ground,
    Exit,
    Wall,
}

impl WorldTile for Tile {
    open spec fn blocks(&self) -> bool {
        *self == Tile::Wall
    }

    fn collision(&self) -> (blocked: bool) {
        match self {
            Tile::Ground => false,
            Tile::Exit => false,
            Tile::Wall => true,
        }
    }
}

/// Why a world could not be built.
#[derive(Clone, Copy, Debug, PartialEq, Eq, Structural)]
pub enum WorldError {
    /// The width or the height is zero.
    EmptyGrid,
    /// The exit lies outside the grid; the rejected coordinate is carried.
    ExitOutOfBounds(u8, u8),
}

/// The mathematical content of a [`World`]: its extent, its exit and the tile
/// of every cell, keyed by `(x, y)`.
pub struct Grid {
    pub width: nat,
    pub height: nat,
    pub exit: (int, int),
    pub tiles: Map<(int, int), Tile>,
}

impl Grid {
    /// `(x, y)` addresses a cell of the grid.
    pub open spec fn in_bounds(self, x: int, y: int) -> bool {
        0 <= x < self.width && 0 <= y < self.height
    }

    pub open spec fn tile_at(self, x: int, y: int) -> Tile {
        self.tiles[(x, y)]
    }

    /// A cell cannot be entered when it lies outside the grid or its tile
    /// refuses entry.
    pub open spec fn blocked(self, x: int, y: int) -> bool {
        !self.in_bounds(x, y) || self.tile_at(x, y).blocks()
    }

    pub open spec fn is_exit(self, x: int, y: int) -> bool {
        self.exit == (x, y)
    }

    /// Both extents fit a `u8` and are positive, the tiles cover exactly the
    /// cells in bounds, and the exit is a cell of the grid that holds
    /// [`Tile::Exit`].
    pub open spec fn wf(self) -> bool {
        &&& 0 < self.width <= u8::MAX
        &&& 0 < self.height <= u8::MAX
        &&& self.in_bounds(self.exit.0, self.exit.1)
        &&& forall|x: int, y: int| #[trigger]
            self.tiles.dom().contains((x, y)) <==> self.in_bounds(x, y)
        &&& self.tile_at(self.exit.0, self.exit.1) == Tile::Exit
    }

    /// The grid of the given extent that is open everywhere but for its exit.
    pub open spec fn blank(width: nat, height: nat, exit: (int, int)) -> Grid {
        Grid {
            width,
            height,
            exit,
            tiles: Map::new(
                |p: (int, int)| 0 <= p.0 < width && 0 <= p.1 < height,
                |p: (int, int)|
                    if p == exit {
                        Tile::Exit
                    } else {
                        Tile::Ground
                    },
            ),
        }
    }

    /// The grid after a write of `tile` to `(x, y)`: the exit cell keeps its
    /// tile, any other cell takes the new one.
    pub open spec fn with_tile(self, x: int, y: int, tile: Tile) -> Grid {
        if self.is_exit(x, y) {
            self
        } else {
            Grid { tiles: self.tiles.insert((x, y), tile), ..self }
        }
    }

    /// No write moves or paves over the exit: the grid stays well formed,
    /// keeps its extent and its exit, and the exit cell keeps its tile.
    pub proof fn lemma_exit_is_kept(self, x: int, y: int, tile: Tile)
        requires
            self.wf(),
            self.in_bounds(x, y),
        ensures
            self.with_tile(x, y, tile).wf(),
            self.with_tile(x, y, tile).width == self.width,
            self.with_tile(x, y, tile).height == self.height,
            self.with_tile(x, y, tile).exit == self.exit,
            self.with_tile(x, y, tile).tile_at(self.exit.0, self.exit.1) == Tile::Exit,
    {
    }

    /// `(x, y)` lies on the outermost ring of the grid.
    pub open spec fn on_border(self, x: int, y: int) -> bool {
        self.in_bounds(x, y) && (x == 0 || y == 0 || x == self.width - 1 || y == self.height
            - 1)
    }

    /// The grid after every border cell but the exit has been given `tile`.
    pub open spec fn with_border(self, tile: Tile) -> Grid {
        Grid {
            tiles: Map::new(
                |p: (int, int)| self.tiles.dom().contains(p),
                |p: (int, int)|
                    if self.on_border(p.0, p.1) && p != self.exit {
                        tile
                    } else {
                        self.tiles[p]
                    },
            ),
            ..self
        }
    }
}

/// A rectangular grid of tiles with one exit cell whose tile can never be
/// overwritten.
pub struct World {
    width: u8,
    height: u8,
    exit_position: (u8, u8),
    tiles: Vec<Tile>,
}

impl Clone for World {
    fn clone(&self) -> (copy: Self)
        ensures
            copy@ == self@,
            self.wf() ==> copy.wf(),
    {
        let tiles = self.tiles.clone();
        assert(tiles@ =~= self.tiles@);
        World {
            width: self.width,
            height: self.height,
            exit_position: self.exit_position,
            tiles,
        }
    }
}

/// Row-major position of `(x, y)` in a grid `width` cells wide.
spec fn cell_index(width: int, x: int, y: int) -> int {
    y * width + x
}

/// Distinct cells of one grid have distinct indices, all below the cell count.
proof fn lemma_cell_index(width: int, height: int, x: int, y: int)
    requires
        0 <= x < width,
        0 <= y < height,
    ensures
        0 <= cell_index(width, x, y) < width * height,
        forall|x2: int, y2: int|
            0 <= x2 < width && 0 <= y2 && #[trigger] cell_index(width, x2, y2) == cell_index(
                width,
                x,
                y,
            ) ==> x2 == x && y2 == y,
{
    assert(0 <= y * width + x < width * height) by (nonlinear_arith)
        requires
            0 <= x < width,
            0 <= y < height,
    ;
    assert forall|x2: int, y2: int|
        0 <= x2 < width && 0 <= y2 && #[trigger] cell_index(width, x2, y2) == cell_index(
            width,
            x,
            y,
        ) implies x2 == x && y2 == y by {
        assert(y2 == y) by (nonlinear_arith)
            requires
                0 <= x < width,
                0 <= x2 < width,
                y2 * width + x2 == y * width + x,
        ;
    }
}

impl View for World {
    type V = Grid;

    closed spec fn view(&self) -> Grid {
        Grid {
            width: self.width as nat,
            height: self.height as nat,
            exit: (self.exit_position.0 as int, self.exit_position.1 as int),
            tiles: Map::new(
                |p: (int, int)| 0 <= p.0 < self.width && 0 <= p.1 < self.height,
                |p: (int, int)| self.tiles@[cell_index(self.width as int, p.0, p.1)],
            ),
        }
    }
}

impl World {
    /// The representation holds one tile per cell.
    pub closed spec fn inv(&self) -> bool {
        self.tiles@.len() == self.width * self.height
    }

    /// The grid is well formed and the representation fits it.
    pub open spec fn wf(&self) -> bool {
        &&& self.inv()
        &&& self@.wf()
    }

    /// The all-open grid of extent `resolution` with its exit at
    /// `exit_position`, for an extent and an exit known to fit.
    pub(crate) fn open_grid(resolution: (u8, u8), exit_position: (u8, u8)) -> (world: Self)
        requires
            0 < resolution.0,
            0 < resolution.1,
            exit_position.0 < resolution.0,
            exit_position.1 < resolution.1,
        ensures
            world.wf(),
            world@ == Grid::blank(
                resolution.0 as nat,
                resolution.1 as nat,
                (exit_position.0 as int, exit_position.1 as int),
            ),
    {
        let width: usize = resolution.0 as usize;
        let height: usize = resolution.1 as usize;
        assert(width * height <= 255 * 255) by (nonlinear_arith)
            requires
                width <= 255,
                height <= 255,
        ;
        let count: usize = width * height;
        let mut tiles: Vec<Tile> = Vec::new();
        while tiles.len() < count
            invariant
                tiles@.len() <= count,
                forall|i: int| 0 <= i < tiles@.len() ==> tiles@[i] == Tile::Ground,
            decreases count - tiles@.len(),
        {
            tiles.push(Tile::Ground);
        }
        proof {
            lemma_cell_index(
                width as int,
                height as int,
                exit_position.0 as int,
                exit_position.1 as int,
            );
        }
        let exit_index: usize = exit_position.1 as usize * width + exit_position.0 as usize;
        tiles.set(exit_index, Tile::Exit);
        let world = World { width: resolution.0, height: resolution.1, exit_position, tiles };
        proof {
            let blank = Grid::blank(
                resolution.0 as nat,
                resolution.1 as nat,
                (exit_position.0 as int, exit_position.1 as int),
            );
            assert forall|p: (int, int)| world@.tiles.dom().contains(p) implies world@.tiles[p]
                == blank.tiles[p] by {
                lemma_cell_index(width as int, height as int, p.0, p.1);
            }
            assert(world@.tiles =~= blank.tiles);
        }
        world
    }

    /// Builds the all-open grid of extent `resolution` and marks
    /// `exit_position` as its exit. An extent without cells is refused, and
    /// so is an exit that is not a cell of the grid.
    pub fn new(resolution: (u8, u8), exit_position: (u8, u8)) -> (built: Result<Self, WorldError>)
        ensures
            match built {
                Ok(world) => {
                    &&& 0 < resolution.0
                    &&& 0 < resolution.1
                    &&& exit_position.0 < resolution.0
                    &&& exit_position.1 < resolution.1
                    &&& world.wf()
                    &&& world@ == Grid::blank(
                        resolution.0 as nat,
                        resolution.1 as nat,
                        (exit_position.0 as int, exit_position.1 as int),
                    )
                },
                Err(WorldError::EmptyGrid) => resolution.0 == 0 || resolution.1 == 0,
                Err(WorldError::ExitOutOfBounds(x, y)) => {
                    &&& 0 < resolution.0
                    &&& 0 < resolution.1
                    &&& (exit_position.0 >= resolution.0 || exit_position.1 >= resolution.1)
                    &&& (x, y) == exit_position
                },
            },
    {
        if resolution.0 == 0 || resolution.1 == 0 {
            Err(WorldError::EmptyGrid)
        } else if exit_position.0 >= resolution.0 || exit_position.1 >= resolution.1 {
            Err(WorldError::ExitOutOfBounds(exit_position.0, exit_position.1))
        } else {
            Ok(World::open_grid(resolution, exit_position))
        }
    }

    pub fn width(&self) -> (width: u8)
        ensures
            width == self@.width,
    {
        self.width
    }

    pub fn height(&self) -> (height: u8)
        ensures
            height == self@.height,
    {
        self.height
    }

    pub fn exit_position(&self) -> (exit: (u8, u8))
        ensures
            self@.exit == (exit.0 as int, exit.1 as int),
    {
        self.exit_position
    }

    /// Whether `position` addresses a cell of the grid.
    pub fn in_bounds(&self, position: (i16, i16)) -> (inside: bool)
        ensures
            inside == self@.in_bounds(position.0 as int, position.1 as int),
    {
        0 <= position.0 && position.0 < self.width as i16 && 0 <= position.1 && position.1
            < self.height as i16
    }

    fn get_tile_index(&self, position: (u8, u8)) -> (index: usize)
        requires
            self.wf(),
            self@.in_bounds(position.0 as int, position.1 as int),
        ensures
            index == cell_index(self.width as int, position.0 as int, position.1 as int),
            index < self.tiles@.len(),
    {
        proof {
            lemma_cell_index(
                self.width as int,
                self.height as int,
                position.0 as int,
                position.1 as int,
            );
        }
        let width: usize = self.width as usize;
        assert(position.1 * width <= 255 * 255) by (nonlinear_arith)
            requires
                position.1 <= 255,
                width <= 255,
        ;
        position.1 as usize * width + position.0 as usize
    }

    /// Writes `tile` to `position`, unless `position` is the exit, whose tile
    /// is kept.
    pub fn set_tile(&mut self, position: (u8, u8), tile: Tile)
        requires
            old(self).wf(),
            old(self)@.in_bounds(position.0 as int, position.1 as int),
        ensures
            final(self).wf(),
            final(self)@ == old(self)@.with_tile(position.0 as int, position.1 as int, tile),
    {
        if position.0 == self.exit_position.0 && position.1 == self.exit_position.1 {
            return ;
        }
        let index = self.get_tile_index(position);
        self.tiles.set(index, tile);
        proof {
            let before = old(self)@;
            let after = before.with_tile(position.0 as int, position.1 as int, tile);
            lemma_cell_index(
                self.width as int,
                self.height as int,
                position.0 as int,
                position.1 as int,
            );
            assert forall|p: (int, int)| self@.tiles.dom().contains(p) implies self@.tiles[p]
                == after.tiles[p] by {
                lemma_cell_index(self.width as int, self.height as int, p.0, p.1);
            }
            assert(self@.tiles =~= after.tiles);
        }
    }

    /// The tile at `position`.
    pub fn get_tile(&self, position: (u8, u8)) -> (tile: Tile)
        requires
            self.wf(),
            self@.in_bounds(position.0 as int, position.1 as int),
        ensures
            tile == self@.tile_at(position.0 as int, position.1 as int),
    {
        let index = self.get_tile_index(position);
        self.tiles[index]
    }

    /// Gives `tile` to every cell of the outermost ring, but for the exit if
    /// it lies there.
    pub fn add_border(&mut self, tile: Tile)
        requires
            old(self).wf(),
        ensures
            final(self).wf(),
            final(self)@ == old(self)@.with_border(tile),
    {
        let ghost before = self@;
        let width = self.width;
        let height = self.height;
        let mut x: u8 = 0;
        while x < width
            invariant
                x <= width,
                width == before.width,
                height == before.height,
                before.wf(),
                self.wf(),
                self@.width == before.width,
                self@.height == before.height,
                self@.exit == before.exit,
                forall|i: int, j: int|
                    before.in_bounds(i, j) ==> #[trigger] self@.tiles[(i, j)] == (if (i, j)
                        != before.exit && i < x && (j == 0 || j == height - 1) {
                        tile
                    } else {
                        before.tiles[(i, j)]
                    }),
            decreases width - x,
        {
            self.set_tile((x, 0), tile);
            self.set_tile((x, height - 1), tile);
            x += 1;
        }
        let mut y: u8 = 0;
        while y < height
            invariant
                y <= height,
                width == before.width,
                height == before.height,
                before.wf(),
                self.wf(),
                self@.width == before.width,
                self@.height == before.height,
                self@.exit == before.exit,
                forall|i: int, j: int|
                    before.in_bounds(i, j) ==> #[trigger] self@.tiles[(i, j)] == (if (i, j)
                        != before.exit && (j == 0 || j == height - 1 || (j < y && (i == 0 || i
                        == width - 1))) {
                        tile
                    } else {
                        before.tiles[(i, j)]
                    }),
            decreases height - y,
        {
            self.set_tile((0, y), tile);
            self.set_tile((width - 1, y), tile);
            y += 1;
        }
        proof {
            let after = before.with_border(tile);
            assert forall|p: (int, int)| self@.tiles.dom().contains(p) implies self@.tiles[p]
                == after.tiles[p] by {
                assert(before.in_bounds(p.0, p.1));
                assert(p == (p.0, p.1));
            }
            assert forall|p: (int, int)|
                self@.tiles.dom().contains(p) <==> after.tiles.dom().contains(p) by {
                assert(p == (p.0, p.1));
            }
            assert(self@.tiles =~= after.tiles);
        }
    }

    /// Whether `position` cannot be entered: it lies outside the grid, or its
    /// tile refuses entry.
    pub fn is_blocked(&self, position: (i16, i16)) -> (blocked: bool)
        requires
            self.wf(),
        ensures
            blocked == self@.blocked(position.0 as int, position.1 as int),
    {
        if !self.in_bounds(position) {
            return true;
        }
        self.get_tile((position.0 as u8, position.1 as u8)).collision()
    }
}

} // verus!
