//! Cell types and the single cell: what a cell is, how it is drawn, and how
//! it is moved on the grid.

use crate::game::World;
use crate::grid::Grid;
use crate::utils::{enccol, spec_enccol};
use vek::Vec2;
use vstd::prelude::*;

verus! {

/// What occupies a grid cell.
#[derive(Copy, Clone, Debug, PartialEq, Eq, Structural)]
pub enum CellType {
    Empty,
    Stone,
    Wood,
    Fire,
    Water,
    Sand,
}

impl CellType {
    /// Only wood burns.
    pub open spec fn spec_can_burn(self) -> bool {
        self is Wood
    }

    /// Stone, wood and sand are solid; empty space, fire and water are not.
    pub open spec fn spec_solid_tile(self) -> bool {
        self is Stone || self is Wood || self is Sand
    }

    /// The packed colour in which a cell of this type is drawn. Water has no
    /// colour of its own yet and is drawn black, like empty space.
    pub open spec fn spec_color(self) -> u32 {
        match self {
            CellType::Stone => spec_enccol(136, 140, 141),
            CellType::Wood => spec_enccol(92, 64, 51),
            CellType::Sand => spec_enccol(194, 178, 128),
            CellType::Fire => spec_enccol(255, 154, 0),
            CellType::Water => spec_enccol(0, 0, 0),
            CellType::Empty => spec_enccol(0, 0, 0),
        }
    }

    /// Whether a cell of this type can catch fire.
    pub fn can_burn(&self) -> (b: bool)
        ensures
            b == self.spec_can_burn(),
    {
        match self {
            CellType::Wood => true,
            _ => false,
        }
    }

    /// Whether a cell of this type blocks a sliding neighbour.
    pub fn solid_tile(&self) -> (b: bool)
        ensures
            b == self.spec_solid_tile(),
    {
        match self {
            CellType::Empty => false,
            CellType::Fire => false,
            CellType::Water => false,
            _ => true,
        }
    }
}

/// One occupant of the grid: its type, the pixel position of its top-left
/// corner, and the velocity that the last physics step gave it.
#[derive(Clone, Copy, Debug, PartialEq, Eq)]
pub struct Cell {
    pub cell_type: CellType,
    pub pos: Vec2<u32>,
    pub vel: Vec2<i32>,
}

/// `v` reduced into the range of a `u32` coordinate, modulo 2^32.
pub open spec fn wrap_coord(v: int) -> u32 {
    (v % 0x1_0000_0000) as u32
}

/// A coordinate moved by a signed delta, wrapping at the ends of the range.
fn offset_coord(v: u32, delta: i32) -> (r: u32)
    ensures
        r == wrap_coord(v + delta),
        0 <= v + delta <= u32::MAX ==> r == v + delta,
{
    let moved: i64 = v as i64 + delta as i64;
    if moved < 0 {
        (moved + 0x1_0000_0000) as u32
    } else if moved > 0xffff_ffff {
        (moved - 0x1_0000_0000) as u32
    } else {
        moved as u32
    }
}

/// One byte from `rand::random::<u8>()`, the thread-local generator of
/// `rand`. Nothing is claimed of the value: every byte may come back, and two
/// calls may differ. The generator panics if the operating system cannot seed
/// it.
#[verifier::external_body]
pub(crate) fn random_byte() -> (byte: u8) {
    rand::random::<u8>()
}

impl Cell {
    /// Whether a neighbour scan from this cell finds fire `i` cells to the
    /// right and `j` cells down, for one of the eight neighbours.
    pub open spec fn fire_toward(self, grid: Grid, i: int, j: int) -> bool {
        &&& -1 <= i <= 1
        &&& -1 <= j <= 1
        &&& !(i == 0 && j == 0)
        &&& grid.burning(self.pos.x + i * grid.cell_size, self.pos.y + j * grid.cell_size)
    }

    /// Whether one of the eight neighbours of this cell, at grid spacing, is
    /// on fire.
    pub open spec fn fire_near(self, grid: Grid) -> bool {
        exists|i: int, j: int| #[trigger] self.fire_toward(grid, i, j)
    }

    /// The cell after a random tick on `grid`. A cell that was fire burns
    /// out; a cell that can burn and has fire next to it catches fire. Both
    /// tests read the type that the cell had before the tick, so a cell that
    /// has just caught fire is still fire afterwards.
    pub open spec fn after_random_tick(self, grid: Grid) -> Cell {
        Cell {
            cell_type: if self.cell_type is Fire {
                CellType::Empty
            } else if self.cell_type.spec_can_burn() && self.fire_near(grid) {
                CellType::Fire
            } else {
                self.cell_type
            },
            pos: self.pos,
            vel: self.vel,
        }
    }

    /// Sand falls where nothing is below it.
    pub open spec fn can_fall(self, grid: Grid) -> bool {
        !grid.blocked(self.pos.x as int, self.pos.y + grid.cell_size)
    }

    /// Sand can slide down to the left where it is not at the left edge (a
    /// column lies to its left: its x is at least one cell size) and neither
    /// its left nor its lower left neighbour is solid.
    pub open spec fn can_slide_left(self, grid: Grid) -> bool {
        &&& self.pos.x >= grid.cell_size
        &&& !grid.blocked_solid(
            self.pos.x - grid.cell_size,
            self.pos.y + grid.cell_size,
        )
        &&& !grid.blocked_solid(self.pos.x - grid.cell_size, self.pos.y as int)
    }

    /// Sand can slide down to the right where it is not at the right edge
    /// (the pixel right of its x is inside the world's width) and neither its
    /// right nor its lower right neighbour is solid.
    pub open spec fn can_slide_right(self, grid: Grid) -> bool {
        &&& self.pos.x + 1 < grid.width
        &&& !grid.blocked_solid(
            self.pos.x + grid.cell_size,
            self.pos.y + grid.cell_size,
        )
        &&& !grid.blocked_solid(self.pos.x + grid.cell_size, self.pos.y as int)
    }

    /// The velocity that the sand rule gives this cell, in pixels per tick:
    /// straight down if it can fall, else down to the left if it can slide
    /// there, else down to the right if it can slide there, else none. Left is
    /// always tried before right.
    pub open spec fn sand_velocity(self, grid: Grid) -> (int, int) {
        if self.can_fall(grid) {
            (0, grid.cell_size as int)
        } else if self.can_slide_left(grid) {
            (-grid.cell_size, grid.cell_size as int)
        } else if self.can_slide_right(grid) {
            (grid.cell_size as int, grid.cell_size as int)
        } else {
            (0, 0)
        }
    }

    /// The cell after the physics step on `grid`: sand gets its velocity
    /// from the sand rule and moves by it at once; every other type stays as
    /// it is.
    pub open spec fn after_physics(self, grid: Grid) -> Cell {
        if self.cell_type is Sand {
            let (dx, dy) = self.sand_velocity(grid);
            Cell {
                cell_type: self.cell_type,
                pos: Vec2 { x: (self.pos.x + dx) as u32, y: (self.pos.y + dy) as u32 },
                vel: Vec2 { x: dx as i32, y: dy as i32 },
            }
        } else {
            self
        }
    }

    /// The cell after one update on `grid` with the random byte `draw`: a
    /// random tick if the byte is zero, then the physics step.
    pub open spec fn after_update(self, grid: Grid, draw: u8) -> Cell {
        if draw == 0 {
            self.after_random_tick(grid).after_physics(grid)
        } else {
            self.after_physics(grid)
        }
    }

    /// A cell of the given type at `pos`, at rest. The position is taken as
    /// it is; snapping it to the grid is the caller's business.
    pub fn new(cell_type: CellType, pos: Vec2<u32>) -> (cell: Cell)
        ensures
            cell.cell_type == cell_type,
            cell.pos == pos,
            cell.vel.x == 0,
            cell.vel.y == 0,
    {
        let vel = Vec2::new(0, 0);
        Cell { cell_type, pos, vel }
    }

    /// The packed colour of this cell.
    pub fn get_color(&self) -> (c: u32)
        ensures
            c == self.cell_type.spec_color(),
    {
        match &self.cell_type {
            CellType::Stone => enccol(136, 140, 141),
            CellType::Wood => enccol(92, 64, 51),
            CellType::Water => enccol(0, 0, 0),
            CellType::Sand => enccol(194, 178, 128),
            CellType::Fire => enccol(255, 154, 0),
            _ => enccol(0, 0, 0),
        }
    }

    /// Moves the cell by `(x, y)` pixels. Nothing is clamped: where the
    /// destination leaves the coordinate range, the coordinate wraps modulo
    /// 2^32.
    pub fn shift(&mut self, x: i32, y: i32)
        ensures
            final(self).pos.x == wrap_coord(old(self).pos.x + x),
            final(self).pos.y == wrap_coord(old(self).pos.y + y),
            0 <= old(self).pos.x + x <= u32::MAX ==> final(self).pos.x == old(self).pos.x + x,
            0 <= old(self).pos.y + y <= u32::MAX ==> final(self).pos.y == old(self).pos.y + y,
            final(self).cell_type == old(self).cell_type,
            final(self).vel == old(self).vel,
    {
        self.pos.x = offset_coord(self.pos.x, x);
        self.pos.y = offset_coord(self.pos.y, y);
    }

    /// The random tick: fire spreads to this cell if it can burn and one of
    /// its eight neighbours in `world` is on fire, and a cell that was fire
    /// when the tick began burns out.
    pub fn random_tick(&mut self, world: &World)
        requires
            world.cell_size > 0,
        ensures
            *final(self) == old(self).after_random_tick(world@),
    {
        let me = *self;
        if me.cell_type.can_burn() {
            let size = world.cell_size as i64;
            let x = me.pos.x as i64;
            let y = me.pos.y as i64;
            let mut lit = false;
            let mut i: i64 = -1;
            while i <= 1
                invariant
                    -1 <= i <= 2,
                    world.cell_size > 0,
                    size == world.cell_size,
                    x == me.pos.x,
                    y == me.pos.y,
                    lit <==> exists|a: int, b: int| a < i && #[trigger] me.fire_toward(world@, a, b),
                decreases 2 - i,
            {
                let mut j: i64 = -1;
                while j <= 1
                    invariant
                        -1 <= i <= 1,
                        -1 <= j <= 2,
                        world.cell_size > 0,
                        size == world.cell_size,
                        x == me.pos.x,
                        y == me.pos.y,
                        lit <==> exists|a: int, b: int|
                            (a < i || (a == i && b < j)) && #[trigger] me.fire_toward(world@, a, b),
                    decreases 2 - j,
                {
                    if !(i == 0 && j == 0) {
                        assert(-size <= i * size <= size && -size <= j * size <= size)
                            by (nonlinear_arith)
                            requires
                                -1 <= i <= 1,
                                -1 <= j <= 1,
                                size > 0,
                        ;
                        if world.burning(x + i * size, y + j * size) {
                            assert(me.fire_toward(world@, i as int, j as int));
                            lit = true;
                        }
                    }
                    j += 1;
                }
                i += 1;
            }
            if lit {
                self.cell_type = CellType::Fire;
            }
        }
        match me.cell_type {
            CellType::Fire => {
                self.cell_type = CellType::Empty;
            },
            _ => (),
        }
    }

    /// One update of this cell against the snapshot `world`, with the random
    /// byte given: a random tick if `draw` is zero, then the physics step,
    /// which moves sand and nothing else.
    pub fn update_with(&mut self, world: &World, draw: u8)
        requires
            0 < world.cell_size <= i32::MAX,
        ensures
            *final(self) == old(self).after_update(world@, draw),
    {
        if draw == 0 {
            self.random_tick(world);
        }
        let size = world.cell_size as i64;
        let x = self.pos.x as i64;
        let y = self.pos.y as i64;
        match &self.cell_type {
            CellType::Stone => {},
            CellType::Sand => {
                if !world.blocked(x, y + size) {
                    self.vel = Vec2::new(0, size as i32);
                } else if x >= size && !world.blocked_solid(x - size, y + size)
                    && !world.blocked_solid(x - size, y) {
                    self.vel = Vec2::new(-(size as i32), size as i32);
                } else if (x as u64) + 1 < world.width as u64 && !world.blocked_solid(
                    x + size,
                    y + size,
                ) && !world.blocked_solid(x + size, y) {
                    self.vel = Vec2::new(size as i32, size as i32);
                } else {
                    self.vel = Vec2::new(0, 0);
                }
                self.shift(self.vel.x, self.vel.y)
            },
            CellType::Wood => {},
            _ => {},
        }
    }

    /// One update of this cell against the snapshot `world`. The random byte
    /// is drawn here, and the random tick runs when it is zero: one draw in
    /// 256. All that is known of the outcome is that it is the update for
    /// some byte.
    pub fn update(&mut self, world: &World)
        requires
            0 < world.cell_size <= i32::MAX,
        ensures
            exists|draw: u8| *final(self) == #[trigger] old(self).after_update(world@, draw),
    {
        let draw = random_byte();
        self.update_with(world, draw);
    }
}

} // verus!
