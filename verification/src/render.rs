//! Rendering: the world as a row-major buffer of packed colours.

use crate::game::World;
use crate::grid::Grid;
use vstd::arithmetic::div_mod::{
    lemma_fundamental_div_mod, lemma_fundamental_div_mod_converse, lemma_mod_bound,
};
use vstd::arithmetic::mul::lemma_mul_is_commutative;
use vstd::prelude::*;

verus! {

/// A pixel of a buffer `width` wide and `height` high has an index inside the
/// buffer, and the index gives the pixel back.
pub proof fn lemma_index_of_pixel(px: int, py: int, width: int, height: int)
    requires
        0 <= px < width,
        0 <= py < height,
    ensures
        0 <= py * width + px < width * height,
        (py * width + px) % width == px,
        (py * width + px) / width == py,
{
    lemma_fundamental_div_mod_converse(py * width + px, width, py, px);
    assert(py * width + px < width * height) by (nonlinear_arith)
        requires
            0 <= px < width,
            0 <= py < height,
    ;
    assert(0 <= py * width) by (nonlinear_arith)
        requires
            0 <= py,
            0 < width,
    ;
}

/// An index inside a buffer `width` wide and `height` high is the index of
/// the pixel in column `index % width` of row `index / width`.
pub proof fn lemma_pixel_of_index(index: int, width: int, height: int)
    requires
        0 <= width,
        0 <= height,
        0 <= index < width * height,
    ensures
        0 <= index % width < width,
        0 <= index / width < height,
        index == (index / width) * width + index % width,
{
    assert(width > 0) by (nonlinear_arith)
        requires
            0 <= width,
            0 <= height,
            0 < width * height,
    ;
    lemma_fundamental_div_mod(index, width);
    lemma_mod_bound(index, width);
    lemma_mul_is_commutative(width, index / width);
    let row = index / width;
    assert(0 <= row < height) by (nonlinear_arith)
        requires
            0 < width,
            0 <= height,
            0 <= index < width * height,
            0 <= index - row * width < width,
    ;
}

/// Whether the pixel `(px, py)` lies in columns `x0..x1` of rows `y0..y1`.
pub open spec fn in_block(px: int, py: int, x0: int, x1: int, y0: int, y1: int) -> bool {
    x0 <= px < x1 && y0 <= py < y1
}

impl Grid {
    /// Whether live cell `i` paints the pixel `(px, py)`: the pixel lies in
    /// the square of `cell_size` pixels whose top-left corner is the cell's
    /// position.
    pub open spec fn paints(self, i: int, px: int, py: int) -> bool {
        in_block(
            px,
            py,
            self.cells[i].pos.x as int,
            self.cells[i].pos.x + self.cell_size,
            self.cells[i].pos.y as int,
            self.cells[i].pos.y + self.cell_size,
        )
    }

    /// The colour of the pixel `(px, py)` once the first `count` live cells
    /// have been painted, in storage order, onto a black canvas: a later cell
    /// paints over an earlier one.
    pub open spec fn painted(self, count: nat, px: int, py: int) -> u32
        decreases count,
    {
        if count == 0 {
            0
        } else if self.paints(count - 1, px, py) {
            self.cells[count - 1].cell_type.spec_color()
        } else {
            self.painted((count - 1) as nat, px, py)
        }
    }

    /// The colour in which the pixel `(px, py)` is drawn.
    pub open spec fn pixel(self, px: int, py: int) -> u32 {
        self.painted(self.cells.len(), px, py)
    }

    /// The colour that the buffer holds at `index` once the first `count`
    /// live cells have been painted.
    pub open spec fn painted_at(self, count: nat, index: int) -> u32 {
        self.painted(count, index % (self.width as int), index / (self.width as int))
    }

    /// The drawn scene: `width * height` colours, row by row.
    pub open spec fn scene(self) -> Seq<u32> {
        Seq::new(
            (self.width * self.height) as nat,
            |index: int| self.painted_at(self.cells.len(), index),
        )
    }

    /// After `count` cells, a pixel shows the last of them that paints it.
    proof fn lemma_painted_shows_last(self, count: nat, i: int, px: int, py: int)
        requires
            0 <= i < count <= self.cells.len(),
            self.paints(i, px, py),
            forall|j: int| i < j < count ==> !#[trigger] self.paints(j, px, py),
        ensures
            self.painted(count, px, py) == self.cells[i].cell_type.spec_color(),
        decreases count,
    {
        if i < count - 1 {
            assert(!self.paints(count - 1, px, py));
            self.lemma_painted_shows_last((count - 1) as nat, i, px, py);
        }
    }

    /// After `count` cells, a pixel that none of them paints is black.
    proof fn lemma_painted_black(self, count: nat, px: int, py: int)
        requires
            count <= self.cells.len(),
            forall|j: int| 0 <= j < count ==> !#[trigger] self.paints(j, px, py),
        ensures
            self.painted(count, px, py) == 0,
        decreases count,
    {
        if count > 0 {
            assert(!self.paints(count - 1, px, py));
            self.lemma_painted_black((count - 1) as nat, px, py);
        }
    }

    /// Later cells paint over earlier ones: a pixel shows the colour of the
    /// last live cell, in storage order, that paints it.
    pub proof fn lemma_pixel_shows_last(self, i: int, px: int, py: int)
        requires
            0 <= i < self.cells.len(),
            self.paints(i, px, py),
            forall|j: int| i < j < self.cells.len() ==> !#[trigger] self.paints(j, px, py),
        ensures
            self.pixel(px, py) == self.cells[i].cell_type.spec_color(),
    {
        self.lemma_painted_shows_last(self.cells.len(), i, px, py);
    }

    /// A pixel that no live cell paints is black.
    pub proof fn lemma_pixel_black(self, px: int, py: int)
        requires
            forall|j: int| 0 <= j < self.cells.len() ==> !#[trigger] self.paints(j, px, py),
        ensures
            self.pixel(px, py) == 0,
    {
        self.lemma_painted_black(self.cells.len(), px, py);
    }
}

impl World {
    /// Draws the world: a buffer of `width * height` packed colours, row by
    /// row, black where no cell is. Each live cell paints a square of
    /// `cell_size` pixels at its position, clipped to the buffer, and a cell
    /// later in storage order paints over an earlier one.
    pub fn draw_scene(&self) -> (buffer: Vec<u32>)
        requires
            self@.width * self@.height <= usize::MAX,
        ensures
            buffer@ == self@.scene(),
            buffer@.len() == self@.width * self@.height,
            forall|px: int, py: int|
                0 <= px < self@.width && 0 <= py < self@.height ==> buffer@[py * self@.width + px]
                    == #[trigger] self@.pixel(px, py),
    {
        let width = self.width;
        let height = self.height;
        let mut buffer: Vec<u32> = vec![0u32; width * height];
        let mut k: usize = 0;
        while k < self.cells.len()
            invariant
                width == self.width,
                height == self.height,
                width * height <= usize::MAX,
                k <= self.cells.len(),
                buffer@.len() == width * height,
                forall|index: int|
                    0 <= index < width * height ==> #[trigger] buffer@[index] == self@.painted_at(
                        k as nat,
                        index,
                    ),
            decreases self.cells.len() - k,
        {
            let color = self.cells[k].get_color();
            let x0 = self.cells[k].pos.x as usize;
            let y0 = self.cells[k].pos.y as usize;
            let side = self.cell_size as usize;
            let x1 = if x0 < width && side < width - x0 {
                x0 + side
            } else {
                width
            };
            let y1 = if y0 < height && side < height - y0 {
                y0 + side
            } else {
                height
            };
            let mut py = y0;
            while py < y1
                invariant
                    width == self.width,
                    height == self.height,
                    width * height <= usize::MAX,
                    buffer@.len() == width * height,
                    x1 <= width,
                    y1 <= height,
                    y0 <= py,
                    py <= y1 || py == y0,
                    forall|index: int|
                        0 <= index < width * height ==> #[trigger] buffer@[index] == (if in_block(
                            index % (width as int),
                            index / (width as int),
                            x0 as int,
                            x1 as int,
                            y0 as int,
                            py as int,
                        ) {
                            color
                        } else {
                            self@.painted_at(k as nat, index)
                        }),
                decreases y1 - py,
            {
                let mut px = x0;
                while px < x1
                    invariant
                        width == self.width,
                        height == self.height,
                        width * height <= usize::MAX,
                        buffer@.len() == width * height,
                        x1 <= width,
                        py < y1 <= height,
                        x0 <= px,
                        px <= x1 || px == x0,
                        forall|index: int|
                            0 <= index < width * height ==> #[trigger] buffer@[index]
                                == (if in_block(
                                index % (width as int),
                                index / (width as int),
                                x0 as int,
                                x1 as int,
                                y0 as int,
                                py as int,
                            ) || in_block(
                                index % (width as int),
                                index / (width as int),
                                x0 as int,
                                px as int,
                                py as int,
                                py + 1,
                            ) {
                                color
                            } else {
                                self@.painted_at(k as nat, index)
                            }),
                    decreases x1 - px,
                {
                    proof {
                        lemma_index_of_pixel(px as int, py as int, width as int, height as int);
                    }
                    let at = py * width + px;
                    let ghost before = buffer@;
                    buffer[at] = color;
                    proof {
                        assert forall|index: int| 0 <= index < width * height implies #[trigger] buffer@[index]
                            == (if in_block(
                            index % (width as int),
                            index / (width as int),
                            x0 as int,
                            x1 as int,
                            y0 as int,
                            py as int,
                        ) || in_block(
                            index % (width as int),
                            index / (width as int),
                            x0 as int,
                            px + 1,
                            py as int,
                            py + 1,
                        ) {
                            color
                        } else {
                            self@.painted_at(k as nat, index)
                        }) by {
                            lemma_pixel_of_index(index, width as int, height as int);
                            if index != at {
                                assert(buffer@[index] == before[index]);
                            }
                        }
                    }
                    px += 1;
                }
                py += 1;
            }
            proof {
                assert forall|index: int| 0 <= index < width * height implies #[trigger] buffer@[index]
                    == self@.painted_at((k + 1) as nat, index) by {
                    lemma_pixel_of_index(index, width as int, height as int);
                }
            }
            k += 1;
        }
        proof {
            assert forall|px: int, py: int| 0 <= px < self.width && 0 <= py < self.height implies buffer@[py
                * self.width + px] == #[trigger] self@.pixel(px, py) by {
                lemma_index_of_pixel(px, py, width as int, height as int);
                assert(buffer@[py * width + px] == self@.painted_at(
                    self@.cells.len(),
                    py * width + px,
                ));
            }
        }
        buffer
    }
}

} // verus!
