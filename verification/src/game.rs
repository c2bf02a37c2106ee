//! The world: the grid's geometry, the live cells, and the queries and edits
//! on them. The tick that advances the world is in `tick`, the drawing in
//! `render`.

use crate::cell_types::{Cell, CellType};
use crate::geometry::{lemma_snap_bounds, lemma_snap_idempotent};
use crate::grid::Grid;
use crate::laws::{
    lemma_add_keeps_aligned, lemma_add_keeps_contained, lemma_add_keeps_one_per_cell,
    lemma_destroy_keeps, lemma_snap_pos_idempotent,
};
use vek::Vec2;
use vstd::prelude::*;

verus! {

/// The simulated world. `width` and `height` are its extents in pixels,
/// `cell_size` is the side of one grid cell in pixels, and `cells` holds the
/// live cells in storage order. `tick_rate` paces the driver; `tick_speed` and
/// `gravity` are carried, but no rule reads them yet.
///
/// Three conditions on the live cells are tracked through every edit:
/// `aligned` (each is stored at a snapped position), `one_per_cell` (no two
/// share a grid cell) and `contained` (each lies inside the extents).
#[derive(Debug)]
pub struct World {
    pub tick_rate: u32,
    pub tick_speed: u32,
    pub gravity: u32,
    pub width: usize,
    pub height: usize,
    pub cells: Vec<Cell>,
    pub cell_size: u32,
}

impl View for World {
    type V = Grid;

    /// The world as a grid: the same settings, and the live cells as a
    /// sequence.
    open spec fn view(&self) -> Grid {
        Grid {
            tick_rate: self.tick_rate,
            tick_speed: self.tick_speed,
            gravity: self.gravity,
            width: self.width,
            height: self.height,
            cells: self.cells@,
            cell_size: self.cell_size,
        }
    }
}

impl Clone for World {
    /// A snapshot of the world: a copy with the same settings and the same
    /// live cells, which later edits of the world do not touch.
    fn clone(&self) -> (copy: World)
        ensures
            copy@ == self@,
    {
        let mut cells: Vec<Cell> = Vec::new();
        let mut i: usize = 0;
        while i < self.cells.len()
            invariant
                i <= self.cells.len(),
                cells@ == self.cells@.take(i as int),
            decreases self.cells.len() - i,
        {
            cells.push(self.cells[i]);
            assert(self.cells@.take(i + 1) =~= self.cells@.take(i as int).push(self.cells@[i as int]));
            i += 1;
        }
        assert(self.cells@.take(i as int) =~= self.cells@);
        World {
            tick_rate: self.tick_rate,
            tick_speed: self.tick_speed,
            gravity: self.gravity,
            width: self.width,
            height: self.height,
            cells,
            cell_size: self.cell_size,
        }
    }
}

impl World {
    /// An empty world of `width` by `height` pixels.
    pub fn new(
        width: usize,
        height: usize,
        cell_size: u32,
        tick_rate: u32,
        tick_speed: u32,
        gravity: u32,
    ) -> (world: World)
        requires
            cell_size > 0,
        ensures
            world@ == (Grid {
                tick_rate,
                tick_speed,
                gravity,
                width,
                height,
                cells: Seq::<Cell>::empty(),
                cell_size,
            }),
            world@.aligned(),
            world@.one_per_cell(),
            world@.contained(),
    {
        World { width, height, cells: Vec::new(), cell_size, tick_rate, tick_speed, gravity }
    }

    /// Counts one more rendered frame. `frames` is the number of frames seen
    /// since the last tick; a tick is due once `tick_rate` frames have
    /// passed, and the count then starts again at zero.
    pub fn count_frame(&self, frames: u32) -> (next: (u32, bool))
        ensures
            next.1 == (frames + 1 >= self@.tick_rate),
            next.0 == (if next.1 {
                0
            } else {
                frames + 1
            }),
    {
        if frames == u32::MAX || frames + 1 >= self.tick_rate {
            (0, true)
        } else {
            (frames + 1, false)
        }
    }

    /// The time that one rendered frame is given, in microseconds: 16600 for
    /// each tick of `tick_rate`.
    pub fn frame_period_micros(&self) -> (micros: u64)
        ensures
            micros == 16600 * self@.tick_rate,
    {
        16600u64 * (self.tick_rate as u64)
    }

    /// Snaps `pos` down to the top-left pixel of its grid cell.
    pub fn snap_pos(&self, pos: Vec2<u32>) -> (snapped: Vec2<u32>)
        requires
            self@.cell_size > 0,
        ensures
            snapped == self@.snap_pos(pos),
            self@.on_grid(snapped),
            self@.snap_pos(snapped) == snapped,
            snapped.x <= pos.x < snapped.x + self@.cell_size,
            snapped.y <= pos.y < snapped.y + self@.cell_size,
    {
        proof {
            lemma_snap_bounds(pos.x as int, self.cell_size as int);
            lemma_snap_bounds(pos.y as int, self.cell_size as int);
            lemma_snap_idempotent(pos.x as int, self.cell_size as int);
            lemma_snap_idempotent(pos.y as int, self.cell_size as int);
        }
        let x = pos.x / self.cell_size * self.cell_size;
        let y = pos.y / self.cell_size * self.cell_size;
        Vec2::new(x, y)
    }

    /// Whether the grid cell of `pos` lies outside the world's extents.
    pub fn out_of_bounds(&self, pos: Vec2<u32>) -> (out: bool)
        requires
            self@.cell_size > 0,
        ensures
            out == self@.out_of_bounds(pos),
    {
        let snapped = self.snap_pos(pos);
        snapped.y as usize >= self.height || snapped.x as usize >= self.width
    }

    /// The index of the first live cell on the grid cell of `pos`.
    pub fn find_covering(&self, pos: Vec2<u32>) -> (found: Option<usize>)
        requires
            self@.cell_size > 0,
        ensures
            match found {
                Some(i) => self@.first_covering(i as int, pos),
                None => !self@.occupied(pos),
            },
    {
        let target = self.snap_pos(pos);
        let mut i: usize = 0;
        while i < self.cells.len()
            invariant
                self@.cell_size > 0,
                i <= self.cells.len(),
                target == self@.snap_pos(pos),
                forall|j: int| 0 <= j < i ==> !#[trigger] self@.covers(j, pos),
            decreases self.cells.len() - i,
        {
            let here = self.snap_pos(self.cells[i].pos);
            if here.x == target.x && here.y == target.y {
                return Some(i);
            }
            i += 1;
        }
        None
    }

    /// Whether a tile is present at `pos`: a live cell on its grid cell, or
    /// the world's boundary.
    pub fn has_tile(&self, pos: Vec2<u32>) -> (present: bool)
        requires
            self@.cell_size > 0,
        ensures
            present == self@.has_tile(pos),
            self@.out_of_bounds(pos) ==> present,
    {
        self.find_covering(pos).is_some() || self.out_of_bounds(pos)
    }

    /// Whether a solid tile is present at `pos`: a solid live cell on its
    /// grid cell, or the world's boundary.
    pub fn has_tile_solid(&self, pos: Vec2<u32>) -> (present: bool)
        requires
            self@.cell_size > 0,
        ensures
            present == self@.has_tile_solid(pos),
            self@.out_of_bounds(pos) ==> present,
    {
        let target = self.snap_pos(pos);
        let mut i: usize = 0;
        while i < self.cells.len()
            invariant
                self@.cell_size > 0,
                i <= self.cells.len(),
                target == self@.snap_pos(pos),
                forall|j: int|
                    0 <= j < i ==> !(#[trigger] self@.covers(j, pos)
                        && self@.cells[j].cell_type.spec_solid_tile()),
            decreases self.cells.len() - i,
        {
            let here = self.snap_pos(self.cells[i].pos);
            if here.x == target.x && here.y == target.y && self.cells[i].cell_type.solid_tile() {
                assert(self@.covers(i as int, pos));
                return true;
            }
            i += 1;
        }
        self.out_of_bounds(pos)
    }

    /// The type of the first live cell on the grid cell of `pos`, `Empty`
    /// where that grid cell holds none.
    pub fn cell_type(&self, pos: Vec2<u32>) -> (found: CellType)
        requires
            self@.cell_size > 0,
        ensures
            found == self@.cell_type(pos),
            !self@.occupied(pos) ==> found == CellType::Empty,
            forall|i: int| self@.first_covering(i, pos) ==> found == self@.cells[i].cell_type,
    {
        match self.find_covering(pos) {
            Some(i) => {
                proof {
                    self@.lemma_first_covering_unique(i as int, pos);
                }
                self.cells[i].cell_type
            },
            None => CellType::Empty,
        }
    }

    /// Whether the pixel `(x, y)` blocks a falling cell.
    pub fn blocked(&self, x: i64, y: i64) -> (b: bool)
        requires
            self@.cell_size > 0,
        ensures
            b == self@.blocked(x as int, y as int),
    {
        if x < 0 || x > 0xffff_ffff || y < 0 || y > 0xffff_ffff {
            true
        } else {
            self.has_tile(Vec2::new(x as u32, y as u32))
        }
    }

    /// Whether the pixel `(x, y)` blocks a sliding cell.
    pub fn blocked_solid(&self, x: i64, y: i64) -> (b: bool)
        requires
            self@.cell_size > 0,
        ensures
            b == self@.blocked_solid(x as int, y as int),
    {
        if x < 0 || x > 0xffff_ffff || y < 0 || y > 0xffff_ffff {
            true
        } else {
            self.has_tile_solid(Vec2::new(x as u32, y as u32))
        }
    }

    /// Whether a neighbour scan finds fire at the pixel `(x, y)`.
    pub fn burning(&self, x: i64, y: i64) -> (b: bool)
        requires
            self@.cell_size > 0,
        ensures
            b == self@.burning(x as int, y as int),
    {
        if x < 0 || x > 0xffff_ffff || y < 0 || y > 0xffff_ffff {
            return false;
        }
        if x as u64 > self.width as u64 || y as u64 > self.height as u64 {
            return false;
        }
        self.cell_type(Vec2::new(x as u32, y as u32)) == CellType::Fire
    }

    /// The index of the first live cell stored at exactly `pos`.
    pub fn find_at(&self, pos: Vec2<u32>) -> (found: Option<usize>)
        ensures
            match found {
                Some(i) => self@.first_at(i as int, pos),
                None => !self@.stored(pos),
            },
    {
        let mut i: usize = 0;
        while i < self.cells.len()
            invariant
                i <= self.cells.len(),
                forall|j: int| 0 <= j < i ==> (#[trigger] self@.cells[j]).pos != pos,
            decreases self.cells.len() - i,
        {
            if self.cells[i].pos.x == pos.x && self.cells[i].pos.y == pos.y {
                return Some(i);
            }
            i += 1;
        }
        None
    }

    /// Removes the first live cell stored at exactly `pos`; does nothing
    /// where there is none. The position is compared as given: pass a snapped
    /// one.
    pub fn destroy_cell(&mut self, pos: Vec2<u32>)
        ensures
            final(self)@ == old(self)@.destroy_cell(pos),
            forall|i: int|
                old(self)@.first_at(i, pos) ==> final(self)@.cells == old(self)@.cells.remove(i),
            !old(self)@.stored(pos) ==> final(self)@ == old(self)@,
            old(self)@.aligned() ==> final(self)@.aligned(),
            old(self)@.one_per_cell() ==> final(self)@.one_per_cell(),
            old(self)@.contained() ==> final(self)@.contained(),
    {
        proof {
            lemma_destroy_keeps(self@, pos);
        }
        match self.find_at(pos) {
            Some(i) => {
                proof {
                    self@.lemma_first_at_unique(i as int, pos);
                }
                self.cells.remove(i);
            },
            None => {
                assert(!exists|i: int| self@.first_at(i, pos));
            },
        }
    }

    /// Puts `cell` on the grid: its position is snapped, the cell stored at
    /// the snapped position (if any) is removed, and the new cell is appended.
    /// Nothing is rejected, not even a position outside the world: the result
    /// is always `true`.
    pub fn add_cell(&mut self, cell: Cell) -> (added: bool)
        requires
            old(self)@.cell_size > 0,
        ensures
            added,
            final(self)@ == old(self)@.add_cell(cell),
            old(self)@.aligned() ==> final(self)@.aligned(),
            old(self)@.aligned() && old(self)@.one_per_cell() ==> final(self)@.one_per_cell(),
            old(self)@.contained() && !old(self)@.out_of_bounds(cell.pos)
                ==> final(self)@.contained(),
    {
        proof {
            if self@.aligned() {
                lemma_add_keeps_aligned(self@, cell);
                if self@.one_per_cell() {
                    lemma_add_keeps_one_per_cell(self@, cell);
                }
            }
            if self@.contained() && !self@.out_of_bounds(cell.pos) {
                lemma_add_keeps_contained(self@, cell);
            }
        }
        let mut cell = cell;
        let snapped = self.snap_pos(cell.pos);
        self.destroy_cell(snapped);
        cell.pos = snapped;
        self.cells.push(cell);
        true
    }

    /// Mutable access to the first live cell stored at the snapped `pos`.
    /// What the caller writes through the reference is what the world then
    /// holds in that place.
    pub fn get_cell(&mut self, pos: Vec2<u32>) -> (found: Option<&mut Cell>)
        requires
            old(self)@.cell_size > 0,
        ensures
            match found {
                Some(cell) => exists|i: int|
                    {
                        &&& #[trigger] old(self)@.first_at(i, old(self)@.snap_pos(pos))
                        &&& *cell == old(self)@.cells[i]
                        &&& final(self)@ == old(self)@.with_cells(
                            old(self)@.cells.update(i, *final(cell)),
                        )
                    },
                None => {
                    &&& final(self)@ == old(self)@
                    &&& !old(self)@.stored(old(self)@.snap_pos(pos))
                },
            },
    {
        let snapped = self.snap_pos(pos);
        match self.find_at(snapped) {
            Some(i) => Some(&mut self.cells[i]),
            None => None,
        }
    }

    /// Places a cell of the given type on the grid cell of the pixel `pos`,
    /// replacing what was there. A position outside the world is ignored:
    /// nothing changes and the result is `false`.
    pub fn place(&mut self, cell_type: CellType, pos: Vec2<u32>) -> (placed: bool)
        requires
            old(self)@.cell_size > 0,
        ensures
            placed == !old(self)@.out_of_bounds(pos),
            final(self)@ == old(self)@.place(cell_type, pos),
            old(self)@.aligned() ==> final(self)@.aligned(),
            old(self)@.aligned() && old(self)@.one_per_cell() ==> final(self)@.one_per_cell(),
            old(self)@.contained() ==> final(self)@.contained(),
    {
        if self.out_of_bounds(pos) {
            return false;
        }
        proof {
            lemma_snap_pos_idempotent(self@, pos);
        }
        let snapped = self.snap_pos(pos);
        let cell = Cell::new(cell_type, snapped);
        self.add_cell(cell)
    }

    /// Removes the live cell on the grid cell of the pixel `pos`, if there is
    /// one. A position outside the world is ignored.
    pub fn erase(&mut self, pos: Vec2<u32>)
        requires
            old(self)@.cell_size > 0,
        ensures
            final(self)@ == old(self)@.erase(pos),
            old(self)@.aligned() ==> final(self)@.aligned(),
            old(self)@.one_per_cell() ==> final(self)@.one_per_cell(),
            old(self)@.contained() ==> final(self)@.contained(),
    {
        if self.out_of_bounds(pos) {
            return ;
        }
        let snapped = self.snap_pos(pos);
        self.destroy_cell(snapped);
    }

    /// Removes every live cell.
    pub fn clear(&mut self)
        ensures
            final(self)@ == old(self)@.with_cells(Seq::<Cell>::empty()),
    {
        self.cells.clear();
    }
}

} // verus!
