//! The grid: the world as a mathematical value. Every contract of the world's
//! functions is stated over it.

use crate::cell_types::{Cell, CellType};
use crate::geometry::{on_grid, snap};
use vek::Vec2;
use vstd::prelude::*;

verus! {

/// What a world is: its settings, and its live cells as a sequence in
/// storage order. `width` and `height` are the extents in pixels and
/// `cell_size` is the side of one grid cell in pixels.
pub struct Grid {
    pub tick_rate: u32,
    pub tick_speed: u32,
    pub gravity: u32,
    pub width: usize,
    pub height: usize,
    pub cells: Seq<Cell>,
    pub cell_size: u32,
}

/// Whether the pixel `(x, y)` can be written as a position.
pub open spec fn representable(x: int, y: int) -> bool {
    0 <= x <= u32::MAX && 0 <= y <= u32::MAX
}

impl Grid {
    /// This grid with other live cells.
    pub open spec fn with_cells(self, cells: Seq<Cell>) -> Grid {
        Grid { cells, ..self }
    }

    /// `pos` with both coordinates snapped down to the grid.
    pub open spec fn snap_pos(self, pos: Vec2<u32>) -> Vec2<u32> {
        Vec2 {
            x: snap(pos.x as int, self.cell_size as int) as u32,
            y: snap(pos.y as int, self.cell_size as int) as u32,
        }
    }

    /// Whether both coordinates of `pos` are multiples of the cell size.
    pub open spec fn on_grid(self, pos: Vec2<u32>) -> bool {
        on_grid(pos.x as int, self.cell_size as int) && on_grid(pos.y as int, self.cell_size as int)
    }

    /// Whether the grid cell of `pos` lies outside the extents.
    pub open spec fn out_of_bounds(self, pos: Vec2<u32>) -> bool {
        let snapped = self.snap_pos(pos);
        snapped.y >= self.height || snapped.x >= self.width
    }

    /// Whether live cell `i` sits on the grid cell of `pos`.
    pub open spec fn covers(self, i: int, pos: Vec2<u32>) -> bool {
        self.snap_pos(self.cells[i].pos) == self.snap_pos(pos)
    }

    /// Whether `i` is the first live cell, in storage order, on the grid cell
    /// of `pos`.
    pub open spec fn first_covering(self, i: int, pos: Vec2<u32>) -> bool {
        &&& 0 <= i < self.cells.len()
        &&& self.covers(i, pos)
        &&& forall|j: int| 0 <= j < i ==> !#[trigger] self.covers(j, pos)
    }

    /// Whether some live cell sits on the grid cell of `pos`.
    pub open spec fn occupied(self, pos: Vec2<u32>) -> bool {
        exists|i: int| 0 <= i < self.cells.len() && #[trigger] self.covers(i, pos)
    }

    /// Whether some solid live cell sits on the grid cell of `pos`.
    pub open spec fn occupied_solid(self, pos: Vec2<u32>) -> bool {
        exists|i: int|
            0 <= i < self.cells.len() && #[trigger] self.covers(i, pos)
                && self.cells[i].cell_type.spec_solid_tile()
    }

    /// A tile is present where a live cell sits and everywhere outside the
    /// extents: the boundary blocks like a wall.
    pub open spec fn has_tile(self, pos: Vec2<u32>) -> bool {
        self.occupied(pos) || self.out_of_bounds(pos)
    }

    /// A solid tile is present where a solid live cell sits and everywhere
    /// outside the extents.
    pub open spec fn has_tile_solid(self, pos: Vec2<u32>) -> bool {
        self.occupied_solid(pos) || self.out_of_bounds(pos)
    }

    /// The type found at `pos`: that of the first live cell on its grid cell,
    /// `Empty` where there is none.
    pub open spec fn cell_type(self, pos: Vec2<u32>) -> CellType {
        if exists|i: int| self.first_covering(i, pos) {
            self.cells[choose|i: int| self.first_covering(i, pos)].cell_type
        } else {
            CellType::Empty
        }
    }

    /// Whether the pixel `(x, y)`, which may lie off the coordinate range,
    /// blocks a falling cell: it does where it cannot be written as a position
    /// and where a tile is present.
    pub open spec fn blocked(self, x: int, y: int) -> bool {
        !representable(x, y) || self.has_tile(Vec2 { x: x as u32, y: y as u32 })
    }

    /// Whether the pixel `(x, y)` blocks a sliding cell: as `blocked`, for
    /// solid tiles.
    pub open spec fn blocked_solid(self, x: int, y: int) -> bool {
        !representable(x, y) || self.has_tile_solid(Vec2 { x: x as u32, y: y as u32 })
    }

    /// Whether a neighbour scan finds fire at the pixel `(x, y)`. A pixel that
    /// cannot be written as a position, or whose coordinate exceeds the
    /// extent, is skipped; a coordinate equal to the extent is still looked
    /// up.
    pub open spec fn burning(self, x: int, y: int) -> bool {
        &&& representable(x, y)
        &&& x <= self.width
        &&& y <= self.height
        &&& self.cell_type(Vec2 { x: x as u32, y: y as u32 }) == CellType::Fire
    }

    /// Whether `i` is the first live cell stored at exactly `pos`.
    pub open spec fn first_at(self, i: int, pos: Vec2<u32>) -> bool {
        &&& 0 <= i < self.cells.len()
        &&& self.cells[i].pos == pos
        &&& forall|j: int| 0 <= j < i ==> (#[trigger] self.cells[j]).pos != pos
    }

    /// Whether some live cell is stored at exactly `pos`.
    pub open spec fn stored(self, pos: Vec2<u32>) -> bool {
        exists|i: int| 0 <= i < self.cells.len() && (#[trigger] self.cells[i]).pos == pos
    }

    /// The grid without the first live cell stored at exactly `pos`; the grid
    /// itself where no cell is stored there.
    pub open spec fn destroy_cell(self, pos: Vec2<u32>) -> Grid {
        if exists|i: int| self.first_at(i, pos) {
            self.with_cells(self.cells.remove(choose|i: int| self.first_at(i, pos)))
        } else {
            self
        }
    }

    /// The grid with `cell` put on it: the position of the cell is snapped,
    /// the first cell stored at the snapped position (if any) is removed, and
    /// the cell is appended at the snapped position.
    pub open spec fn add_cell(self, cell: Cell) -> Grid {
        let snapped = self.snap_pos(cell.pos);
        let rest = self.destroy_cell(snapped);
        rest.with_cells(
            rest.cells.push(Cell { cell_type: cell.cell_type, pos: snapped, vel: cell.vel }),
        )
    }

    /// The grid after a cell of the given type, at rest, has been placed on
    /// the grid cell of the pixel `pos`; the grid itself where `pos` is outside
    /// the extents.
    pub open spec fn place(self, cell_type: CellType, pos: Vec2<u32>) -> Grid {
        if self.out_of_bounds(pos) {
            self
        } else {
            self.add_cell(Cell { cell_type, pos, vel: Vec2 { x: 0i32, y: 0i32 } })
        }
    }

    /// The grid after the cell on the grid cell of the pixel `pos` has been
    /// erased; the grid itself where `pos` is outside the extents.
    pub open spec fn erase(self, pos: Vec2<u32>) -> Grid {
        if self.out_of_bounds(pos) {
            self
        } else {
            self.destroy_cell(self.snap_pos(pos))
        }
    }

    /// Every live cell is stored at a grid-snapped position.
    pub open spec fn aligned(self) -> bool {
        forall|i: int| 0 <= i < self.cells.len() ==> self.on_grid((#[trigger] self.cells[i]).pos)
    }

    /// No two live cells sit on the same grid cell.
    pub open spec fn one_per_cell(self) -> bool {
        forall|i: int, j: int|
            0 <= i < j < self.cells.len() ==> self.snap_pos((#[trigger] self.cells[i]).pos)
                != self.snap_pos((#[trigger] self.cells[j]).pos)
    }

    /// Every live cell lies within the extents.
    pub open spec fn contained(self) -> bool {
        forall|i: int|
            0 <= i < self.cells.len() ==> !self.out_of_bounds((#[trigger] self.cells[i]).pos)
    }

    /// The first live cell on a grid cell is the only index that
    /// `first_covering` holds of, and its type is the type found there.
    pub proof fn lemma_first_covering_unique(self, i: int, pos: Vec2<u32>)
        requires
            self.first_covering(i, pos),
        ensures
            forall|j: int| self.first_covering(j, pos) ==> j == i,
            self.occupied(pos),
            self.cell_type(pos) == self.cells[i].cell_type,
    {
        assert forall|j: int| self.first_covering(j, pos) implies j == i by {
            if j < i {
                assert(!self.covers(j, pos));
            } else if i < j {
                assert(!self.covers(i, pos));
            }
        }
    }

    /// The first live cell stored at a position is the only index that
    /// `first_at` holds of, and the cell that `destroy_cell` removes.
    pub proof fn lemma_first_at_unique(self, i: int, pos: Vec2<u32>)
        requires
            self.first_at(i, pos),
        ensures
            forall|j: int| self.first_at(j, pos) ==> j == i,
            self.destroy_cell(pos) == self.with_cells(self.cells.remove(i)),
    {
        assert forall|j: int| self.first_at(j, pos) implies j == i by {
            if j < i {
                assert(self.cells[j].pos != pos);
            } else if i < j {
                assert(self.cells[i].pos != pos);
            }
        }
    }
}

} // verus!
