//! The tick: every live cell is updated against the world as it was when the
//! tick began, then the cells that ended up empty are removed.

use crate::cell_types::{random_byte, Cell, CellType};
use crate::game::World;
use crate::grid::Grid;
use crate::laws::{
    lemma_tick_keeps_aligned, lemma_tick_keeps_contained, lemma_tick_keeps_one_per_cell,
    lemma_tick_purges,
};
use vek::Vec2;
use vstd::prelude::*;

verus! {

/// The random byte of live cell `i` in a tick that is given `draws`: the byte
/// at index `i`, and a non-zero byte (no random tick) past the end.
pub open spec fn draw_for(draws: Seq<u8>, i: int) -> u8 {
    if 0 <= i < draws.len() {
        draws[i]
    } else {
        1
    }
}

/// The cells that a tick keeps: those whose type is not `Empty`.
pub open spec fn alive() -> spec_fn(Cell) -> bool {
    |cell: Cell| cell.cell_type != CellType::Empty
}

impl Grid {
    /// The live cells after each has been updated against this grid, cell `i`
    /// with the random byte `draw_for(draws, i)`, before any is removed.
    pub open spec fn stepped(self, draws: Seq<u8>) -> Seq<Cell> {
        Seq::new(self.cells.len(), |i: int| self.cells[i].after_update(self, draw_for(draws, i)))
    }

    /// The grid after one tick with the random bytes `draws`: every cell is
    /// updated against the grid as it was before the tick, then the cells that
    /// ended up empty are dropped. The others keep their order.
    pub open spec fn tick(self, draws: Seq<u8>) -> Grid {
        self.with_cells(self.stepped(draws).filter(alive()))
    }

    /// Whether live cell `i` is still there after a tick with `draws`.
    pub open spec fn survives(self, draws: Seq<u8>, i: int) -> bool {
        self.stepped(draws)[i].cell_type != CellType::Empty
    }

    /// The grid cell on which live cell `i` stands after its update in a
    /// tick with `draws`.
    pub open spec fn target(self, draws: Seq<u8>, i: int) -> Vec2<u32> {
        self.snap_pos(self.stepped(draws)[i].pos)
    }

    /// Whether a tick with `draws` sends no two cells that survive it to the
    /// same grid cell.
    pub open spec fn collision_free(self, draws: Seq<u8>) -> bool {
        forall|i: int, j: int|
            0 <= i < j < self.cells.len() && self.survives(draws, i) && self.survives(draws, j)
                ==> #[trigger] self.target(draws, i) != #[trigger] self.target(draws, j)
    }

    /// No live cell is empty.
    pub open spec fn purged(self) -> bool {
        forall|i: int|
            0 <= i < self.cells.len() ==> (#[trigger] self.cells[i]).cell_type != CellType::Empty
    }
}

impl World {
    /// One tick with the random bytes given: live cell `i`, in storage order,
    /// is updated with `draws[i]`, and a cell past the end of `draws` gets no
    /// random tick. Every cell reads the world as it was before the tick;
    /// afterwards the cells that ended up empty are removed. The cell size
    /// must fit a velocity.
    pub fn update_with(&mut self, draws: &Vec<u8>)
        requires
            0 < old(self)@.cell_size <= i32::MAX,
        ensures
            final(self)@ == old(self)@.tick(draws@),
            final(self)@.purged(),
            old(self)@.aligned() ==> final(self)@.aligned(),
            old(self)@.contained() ==> final(self)@.contained(),
            old(self)@.collision_free(draws@) ==> final(self)@.one_per_cell(),
    {
        let ghost before = self@;
        proof {
            lemma_tick_purges(before, draws@);
            if before.aligned() {
                lemma_tick_keeps_aligned(before, draws@);
            }
            if before.contained() {
                lemma_tick_keeps_contained(before, draws@);
            }
            if before.collision_free(draws@) {
                lemma_tick_keeps_one_per_cell(before, draws@);
            }
            reveal(Seq::filter);
            assert(before.stepped(draws@).take(0) =~= Seq::<Cell>::empty());
        }
        let mut next: Vec<Cell> = Vec::new();
        let mut i: usize = 0;
        while i < self.cells.len()
            invariant
                self@ == before,
                0 < before.cell_size <= i32::MAX,
                i <= self.cells.len(),
                next@ == before.stepped(draws@).take(i as int).filter(alive()),
            decreases self.cells.len() - i,
        {
            let draw = if i < draws.len() {
                draws[i]
            } else {
                1
            };
            let mut cell = self.cells[i];
            cell.update_with(&*self, draw);
            proof {
                let all = before.stepped(draws@);
                assert(cell == all[i as int]);
                assert(all.take(i + 1).drop_last() =~= all.take(i as int));
                assert(all.take(i + 1).last() == cell);
                reveal(Seq::filter);
            }
            if cell.cell_type != CellType::Empty {
                next.push(cell);
            }
            i += 1;
        }
        proof {
            let all = before.stepped(draws@);
            assert(all.take(i as int) =~= all);
        }
        self.cells = next;
    }

    /// One tick. The random bytes are drawn here, one for each live cell, so
    /// all that is known of the outcome is that it is the tick for some bytes.
    pub fn update(&mut self)
        requires
            0 < old(self)@.cell_size <= i32::MAX,
        ensures
            exists|draws: Seq<u8>|
                draws.len() == old(self)@.cells.len()
                    && final(self)@ == #[trigger] old(self)@.tick(draws),
            final(self)@.purged(),
            old(self)@.aligned() ==> final(self)@.aligned(),
            old(self)@.contained() ==> final(self)@.contained(),
    {
        let mut draws: Vec<u8> = Vec::new();
        while draws.len() < self.cells.len()
            invariant
                draws.len() <= self.cells.len(),
            decreases self.cells.len() - draws.len(),
        {
            draws.push(random_byte());
        }
        self.update_with(&draws);
    }
}

} // verus!
