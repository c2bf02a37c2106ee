//! What holds of the simulation as a whole: the laws that relate the rules
//! of one cell, the queries and edits on the grid, and the tick.

use crate::cell_types::{Cell, CellType};
use crate::geometry::{lemma_snap_bounds, lemma_snap_fixed, lemma_snap_idempotent, lemma_snap_shift};
use crate::grid::{representable, Grid};
use crate::tick::{alive, draw_for};
use vek::Vec2;
use vstd::prelude::*;

verus! {

/// Snapping a position twice is snapping it once.
pub proof fn lemma_snap_pos_idempotent(grid: Grid, pos: Vec2<u32>)
    requires
        grid.cell_size > 0,
    ensures
        grid.snap_pos(grid.snap_pos(pos)) == grid.snap_pos(pos),
        grid.on_grid(grid.snap_pos(pos)),
{
    let size = grid.cell_size as int;
    lemma_snap_bounds(pos.x as int, size);
    lemma_snap_bounds(pos.y as int, size);
    lemma_snap_idempotent(pos.x as int, size);
    lemma_snap_idempotent(pos.y as int, size);
}

/// A position on the grid is its own snap.
pub proof fn lemma_snap_pos_fixed(grid: Grid, pos: Vec2<u32>)
    requires
        grid.cell_size > 0,
        grid.on_grid(pos),
    ensures
        grid.snap_pos(pos) == pos,
{
    lemma_snap_fixed(pos.x as int, grid.cell_size as int);
    lemma_snap_fixed(pos.y as int, grid.cell_size as int);
}

/// The boundary is a wall: every position outside the extents holds a tile,
/// and a solid one.
pub proof fn lemma_boundary_is_tile(grid: Grid, pos: Vec2<u32>)
    requires
        grid.out_of_bounds(pos),
    ensures
        grid.has_tile(pos),
        grid.has_tile_solid(pos),
{
}

/// Gravity: sand with nothing below it moves straight down by exactly one
/// cell in one update, whatever its diagonals hold and whatever byte is
/// drawn.
pub proof fn lemma_gravity(cell: Cell, grid: Grid, draw: u8)
    requires
        cell.cell_type is Sand,
        cell.can_fall(grid),
    ensures
        cell.after_update(grid, draw).pos.x == cell.pos.x,
        cell.after_update(grid, draw).pos.y == cell.pos.y + grid.cell_size,
        cell.after_update(grid, draw).cell_type is Sand,
        grid.cell_size <= i32::MAX ==> {
            &&& cell.after_update(grid, draw).vel.x == 0
            &&& cell.after_update(grid, draw).vel.y == grid.cell_size
        },
{
}

/// Left before right: sand that cannot fall but can slide down to the left
/// does so in one update, also where it could slide down to the right.
pub proof fn lemma_left_before_right(cell: Cell, grid: Grid, draw: u8)
    requires
        cell.cell_type is Sand,
        !cell.can_fall(grid),
        cell.can_slide_left(grid),
    ensures
        cell.after_update(grid, draw).pos.x == cell.pos.x - grid.cell_size,
        cell.after_update(grid, draw).pos.y == cell.pos.y + grid.cell_size,
        cell.after_update(grid, draw).cell_type is Sand,
        grid.cell_size <= i32::MAX ==> {
            &&& cell.after_update(grid, draw).vel.x == -grid.cell_size
            &&& cell.after_update(grid, draw).vel.y == grid.cell_size
        },
{
}

/// The left tie-break told by the tiles around the grain: sand that has a
/// column to its left, a tile below it, and no solid tile on its left and on
/// its lower left slides down to the left, whatever lies to its right.
pub proof fn lemma_open_left_diagonal_slides_left(cell: Cell, grid: Grid, draw: u8)
    requires
        cell.cell_type is Sand,
        cell.pos.x >= grid.cell_size,
        cell.pos.y + grid.cell_size <= u32::MAX,
        grid.has_tile(Vec2 { x: cell.pos.x, y: (cell.pos.y + grid.cell_size) as u32 }),
        !grid.has_tile_solid(Vec2 { x: (cell.pos.x - grid.cell_size) as u32, y: cell.pos.y }),
        !grid.has_tile_solid(
            Vec2 {
                x: (cell.pos.x - grid.cell_size) as u32,
                y: (cell.pos.y + grid.cell_size) as u32,
            },
        ),
    ensures
        cell.after_update(grid, draw).pos.x == cell.pos.x - grid.cell_size,
        cell.after_update(grid, draw).pos.y == cell.pos.y + grid.cell_size,
{
    lemma_left_before_right(cell, grid, draw);
}

/// Sand rests exactly where it can neither fall nor slide, and its velocity
/// is then zero.
pub proof fn lemma_sand_rests_iff(cell: Cell, grid: Grid, draw: u8)
    requires
        grid.cell_size > 0,
        cell.cell_type is Sand,
    ensures
        cell.after_update(grid, draw).pos == cell.pos <==> !cell.can_fall(grid)
            && !cell.can_slide_left(grid) && !cell.can_slide_right(grid),
        cell.after_update(grid, draw).pos == cell.pos ==> cell.after_update(grid, draw).vel.x == 0
            && cell.after_update(grid, draw).vel.y == 0,
{
}

/// Sand that can neither fall nor slide left slides down to the right where
/// it can, and rests where it cannot.
pub proof fn lemma_right_or_rest(cell: Cell, grid: Grid, draw: u8)
    requires
        cell.cell_type is Sand,
        !cell.can_fall(grid),
        !cell.can_slide_left(grid),
    ensures
        cell.can_slide_right(grid) ==> {
            &&& cell.after_update(grid, draw).pos.x == cell.pos.x + grid.cell_size
            &&& cell.after_update(grid, draw).pos.y == cell.pos.y + grid.cell_size
        },
        !cell.can_slide_right(grid) ==> cell.after_update(grid, draw).pos == cell.pos,
{
}

/// Only sand moves: a cell of any other type keeps its position and its
/// velocity through an update.
pub proof fn lemma_only_sand_moves(cell: Cell, grid: Grid, draw: u8)
    requires
        !(cell.cell_type is Sand),
    ensures
        cell.after_update(grid, draw).pos == cell.pos,
        cell.after_update(grid, draw).vel == cell.vel,
{
}

/// The random byte matters only through being zero or not, and not at all
/// for where a cell goes.
pub proof fn lemma_draw_gates_only(cell: Cell, grid: Grid, draw: u8, other: u8)
    ensures
        (draw == 0) == (other == 0) ==> cell.after_update(grid, draw) == cell.after_update(
            grid,
            other,
        ),
        cell.after_update(grid, draw).pos == cell.after_update(grid, other).pos,
        cell.after_update(grid, draw).vel == cell.after_update(grid, other).vel,
{
}

/// Without a random tick nothing changes its type; with one, only wood and
/// fire can.
pub proof fn lemma_type_changes(cell: Cell, grid: Grid, draw: u8)
    ensures
        draw != 0 ==> cell.after_update(grid, draw).cell_type == cell.cell_type,
        !(cell.cell_type is Wood || cell.cell_type is Fire) ==> cell.after_update(
            grid,
            draw,
        ).cell_type == cell.cell_type,
{
}

/// Containment: a cell inside the extents is still inside them after an
/// update. Sand only ever moves to a place where no tile is, and outside the
/// extents a tile is everywhere.
pub proof fn lemma_update_stays_inside(cell: Cell, grid: Grid, draw: u8)
    requires
        !grid.out_of_bounds(cell.pos),
    ensures
        !grid.out_of_bounds(cell.after_update(grid, draw).pos),
{
}

/// The bottom row holds: sand inside the extents whose place below is outside
/// them does not move.
pub proof fn lemma_bottom_row_rests(cell: Cell, grid: Grid, draw: u8)
    requires
        grid.cell_size > 0,
        cell.cell_type is Sand,
        !grid.out_of_bounds(cell.pos),
        !representable(cell.pos.x as int, cell.pos.y + grid.cell_size) || grid.out_of_bounds(
            Vec2 { x: cell.pos.x, y: (cell.pos.y + grid.cell_size) as u32 },
        ),
    ensures
        cell.after_update(grid, draw).pos == cell.pos,
        cell.after_update(grid, draw).vel.x == 0,
        cell.after_update(grid, draw).vel.y == 0,
{
}

/// An update keeps a cell on the grid.
pub proof fn lemma_update_stays_on_grid(cell: Cell, grid: Grid, draw: u8)
    requires
        grid.cell_size > 0,
        grid.on_grid(cell.pos),
    ensures
        grid.on_grid(cell.after_update(grid, draw).pos),
{
    let size = grid.cell_size as int;
    lemma_snap_shift(cell.pos.x as int, size, 1);
    lemma_snap_shift(cell.pos.x as int, size, -1);
    lemma_snap_shift(cell.pos.y as int, size, 1);
}

/// Ignition: wood catches fire in a random tick if the grid holds fire on
/// one of its eight neighbours. Here the neighbour is live cell `k`, the first
/// on its grid cell, `i` cells to the right of the wood and `j` cells below
/// it.
pub proof fn lemma_wood_ignites(cell: Cell, grid: Grid, k: int, i: int, j: int)
    requires
        grid.cell_size > 0,
        cell.cell_type is Wood,
        -1 <= i <= 1,
        -1 <= j <= 1,
        !(i == 0 && j == 0),
        grid.first_covering(k, grid.cells[k].pos),
        grid.cells[k].cell_type is Fire,
        grid.cells[k].pos.x == cell.pos.x + i * grid.cell_size,
        grid.cells[k].pos.y == cell.pos.y + j * grid.cell_size,
        grid.cells[k].pos.x <= grid.width,
        grid.cells[k].pos.y <= grid.height,
    ensures
        cell.fire_near(grid),
        cell.after_random_tick(grid).cell_type is Fire,
        cell.after_update(grid, 0).cell_type is Fire,
        cell.after_update(grid, 0).pos == cell.pos,
{
    grid.lemma_first_covering_unique(k, grid.cells[k].pos);
    assert(cell.fire_toward(grid, i, j));
}

/// Burning out: a cell that is fire when a random tick begins is empty
/// after it, and so is removed by the tick that updated it.
pub proof fn lemma_fire_burns_out(cell: Cell, grid: Grid)
    requires
        cell.cell_type is Fire,
    ensures
        cell.after_random_tick(grid).cell_type is Empty,
        cell.after_update(grid, 0).cell_type is Empty,
        !alive()(cell.after_update(grid, 0)),
{
}

/// Removing a cell keeps the grid aligned, one to a cell, and contained, and
/// in a grid with one cell to a grid cell nothing is stored at the position
/// afterwards.
pub proof fn lemma_destroy_keeps(grid: Grid, pos: Vec2<u32>)
    ensures
        grid.aligned() ==> grid.destroy_cell(pos).aligned(),
        grid.one_per_cell() ==> grid.destroy_cell(pos).one_per_cell(),
        grid.contained() ==> grid.destroy_cell(pos).contained(),
        grid.one_per_cell() ==> !grid.destroy_cell(pos).stored(pos),
{
    if exists|i: int| grid.first_at(i, pos) {
        let i = choose|i: int| grid.first_at(i, pos);
        let rest = grid.destroy_cell(pos);
        assert forall|k: int| 0 <= k < rest.cells.len() implies #[trigger] rest.cells[k]
            == grid.cells[if k < i {
            k
        } else {
            k + 1
        }] by {}
        if grid.one_per_cell() {
            assert forall|k: int| 0 <= k < rest.cells.len() implies (#[trigger] rest.cells[k]).pos
                != pos by {
                let from = if k < i {
                    k
                } else {
                    k + 1
                };
                assert(rest.cells[k] == grid.cells[from]);
                if from < i {
                    assert(grid.cells[from].pos != pos);
                } else {
                    assert(grid.snap_pos(grid.cells[i].pos) != grid.snap_pos(grid.cells[from].pos));
                }
            }
        }
    } else {
        if grid.stored(pos) {
            let k = choose|k: int| 0 <= k < grid.cells.len() && (#[trigger] grid.cells[k]).pos == pos;
            lemma_first_exists(grid, pos, k);
        }
    }
}

/// If a cell is stored at `pos`, a first such cell is.
proof fn lemma_first_exists(grid: Grid, pos: Vec2<u32>, k: int)
    requires
        0 <= k < grid.cells.len(),
        grid.cells[k].pos == pos,
    ensures
        exists|i: int| grid.first_at(i, pos),
    decreases k,
{
    if exists|j: int| 0 <= j < k && (#[trigger] grid.cells[j]).pos == pos {
        let j = choose|j: int| 0 <= j < k && (#[trigger] grid.cells[j]).pos == pos;
        lemma_first_exists(grid, pos, j);
    } else {
        assert(grid.first_at(k, pos));
    }
}

/// Adding a cell keeps an aligned grid aligned.
pub proof fn lemma_add_keeps_aligned(grid: Grid, cell: Cell)
    requires
        grid.cell_size > 0,
        grid.aligned(),
    ensures
        grid.add_cell(cell).aligned(),
{
    let snapped = grid.snap_pos(cell.pos);
    lemma_destroy_keeps(grid, snapped);
    lemma_snap_pos_idempotent(grid, cell.pos);
    let rest = grid.destroy_cell(snapped);
    let after = grid.add_cell(cell);
    assert forall|i: int| 0 <= i < after.cells.len() implies after.on_grid(
        (#[trigger] after.cells[i]).pos,
    ) by {
        if i < rest.cells.len() {
            assert(after.cells[i] == rest.cells[i]);
        }
    }
}

/// At most one per cell: adding a cell to an aligned grid that holds at most
/// one cell on each grid cell leaves at most one on each, since the cell that
/// was there is removed first.
pub proof fn lemma_add_keeps_one_per_cell(grid: Grid, cell: Cell)
    requires
        grid.cell_size > 0,
        grid.aligned(),
        grid.one_per_cell(),
    ensures
        grid.add_cell(cell).one_per_cell(),
{
    let snapped = grid.snap_pos(cell.pos);
    lemma_destroy_keeps(grid, snapped);
    lemma_snap_pos_idempotent(grid, cell.pos);
    let rest = grid.destroy_cell(snapped);
    let after = grid.add_cell(cell);
    assert forall|i: int, j: int| 0 <= i < j < after.cells.len() implies after.snap_pos(
        (#[trigger] after.cells[i]).pos,
    ) != after.snap_pos((#[trigger] after.cells[j]).pos) by {
        assert(after.cells[i] == rest.cells[i]);
        if j == rest.cells.len() {
            assert(rest.cells[i].pos != snapped);
            lemma_snap_pos_fixed(grid, rest.cells[i].pos);
        } else {
            assert(after.cells[j] == rest.cells[j]);
        }
    }
}

/// Adding a cell at a position inside the extents keeps a contained grid
/// contained.
pub proof fn lemma_add_keeps_contained(grid: Grid, cell: Cell)
    requires
        grid.cell_size > 0,
        grid.contained(),
        !grid.out_of_bounds(cell.pos),
    ensures
        grid.add_cell(cell).contained(),
{
    let snapped = grid.snap_pos(cell.pos);
    lemma_destroy_keeps(grid, snapped);
    lemma_snap_pos_idempotent(grid, cell.pos);
    let rest = grid.destroy_cell(snapped);
    let after = grid.add_cell(cell);
    assert forall|i: int| 0 <= i < after.cells.len() implies !after.out_of_bounds(
        (#[trigger] after.cells[i]).pos,
    ) by {
        if i < rest.cells.len() {
            assert(after.cells[i] == rest.cells[i]);
        }
    }
}

/// At most one per cell, on the grid, inside the extents: placing and erasing
/// keep all three.
pub proof fn lemma_place_and_erase_keep(grid: Grid, cell_type: CellType, pos: Vec2<u32>)
    requires
        grid.cell_size > 0,
    ensures
        grid.aligned() ==> grid.place(cell_type, pos).aligned() && grid.erase(pos).aligned(),
        grid.aligned() && grid.one_per_cell() ==> grid.place(cell_type, pos).one_per_cell(),
        grid.one_per_cell() ==> grid.erase(pos).one_per_cell(),
        grid.contained() ==> grid.place(cell_type, pos).contained() && grid.erase(pos).contained(),
{
    let cell = Cell { cell_type, pos, vel: Vec2 { x: 0i32, y: 0i32 } };
    lemma_destroy_keeps(grid, grid.snap_pos(pos));
    if grid.aligned() {
        lemma_add_keeps_aligned(grid, cell);
        if grid.one_per_cell() {
            lemma_add_keeps_one_per_cell(grid, cell);
        }
    }
    if grid.contained() && !grid.out_of_bounds(pos) {
        lemma_add_keeps_contained(grid, cell);
    }
}

/// Two entries of a filtered sequence come from two entries of the sequence
/// itself, in the same order.
pub proof fn lemma_filter_keeps_order<A>(s: Seq<A>, pred: spec_fn(A) -> bool, a: int, b: int)
    requires
        0 <= a < b < s.filter(pred).len(),
    ensures
        exists|i: int, j: int|
            0 <= i < j < s.len() && #[trigger] s[i] == s.filter(pred)[a] && #[trigger] s[j]
                == s.filter(pred)[b],
    decreases s.len(),
{
    reveal(Seq::filter);
    let rest = s.drop_last();
    let sub = rest.filter(pred);
    if pred(s.last()) && b == sub.len() {
        assert(sub.contains(sub[a]));
        rest.lemma_filter_contains_rev(pred, sub[a]);
        let i = choose|i: int| 0 <= i < rest.len() && rest[i] == sub[a];
        assert(s[i] == s.filter(pred)[a] && s[s.len() - 1] == s.filter(pred)[b]);
    } else {
        lemma_filter_keeps_order(rest, pred, a, b);
        let (i, j) = choose|i: int, j: int|
            0 <= i < j < rest.len() && #[trigger] rest[i] == sub[a] && #[trigger] rest[j] == sub[b];
        assert(s[i] == s.filter(pred)[a] && s[j] == s.filter(pred)[b]);
    }
}

/// Decay purge: after a tick no live cell is empty.
pub proof fn lemma_tick_purges(grid: Grid, draws: Seq<u8>)
    ensures
        grid.tick(draws).purged(),
{
    let after = grid.tick(draws);
    assert forall|k: int| 0 <= k < after.cells.len() implies (#[trigger] after.cells[k]).cell_type
        != CellType::Empty by {
        grid.stepped(draws).lemma_filter_pred(alive(), k);
    }
}

/// Every cell that a tick leaves is the update of a cell that was there
/// before it.
pub proof fn lemma_tick_sources(grid: Grid, draws: Seq<u8>, k: int)
    requires
        0 <= k < grid.tick(draws).cells.len(),
    ensures
        exists|i: int|
            0 <= i < grid.cells.len() && grid.tick(draws).cells[k]
                == #[trigger] grid.cells[i].after_update(grid, draw_for(draws, i)),
{
    let all = grid.stepped(draws);
    let kept = grid.tick(draws).cells[k];
    assert(all.filter(alive()).contains(kept));
    all.lemma_filter_contains_rev(alive(), kept);
    let i = choose|i: int| 0 <= i < all.len() && all[i] == kept;
    assert(kept == grid.cells[i].after_update(grid, draw_for(draws, i)));
}

/// A tick changes nothing but the live cells.
pub proof fn lemma_tick_keeps_settings(grid: Grid, draws: Seq<u8>)
    ensures
        grid.tick(draws).with_cells(grid.cells) == grid,
{
}

/// A tick keeps the live cells on the grid.
pub proof fn lemma_tick_keeps_aligned(grid: Grid, draws: Seq<u8>)
    requires
        grid.cell_size > 0,
        grid.aligned(),
    ensures
        grid.tick(draws).aligned(),
{
    let after = grid.tick(draws);
    assert forall|k: int| 0 <= k < after.cells.len() implies after.on_grid(
        (#[trigger] after.cells[k]).pos,
    ) by {
        lemma_tick_sources(grid, draws, k);
        let i = choose|i: int|
            0 <= i < grid.cells.len() && after.cells[k] == #[trigger] grid.cells[i].after_update(
                grid,
                draw_for(draws, i),
            );
        lemma_update_stays_on_grid(grid.cells[i], grid, draw_for(draws, i));
    }
}

/// Containment: a tick keeps the live cells inside the extents.
pub proof fn lemma_tick_keeps_contained(grid: Grid, draws: Seq<u8>)
    requires
        grid.contained(),
    ensures
        grid.tick(draws).contained(),
{
    let after = grid.tick(draws);
    assert forall|k: int| 0 <= k < after.cells.len() implies !after.out_of_bounds(
        (#[trigger] after.cells[k]).pos,
    ) by {
        lemma_tick_sources(grid, draws, k);
        let i = choose|i: int|
            0 <= i < grid.cells.len() && after.cells[k] == #[trigger] grid.cells[i].after_update(
                grid,
                draw_for(draws, i),
            );
        lemma_update_stays_inside(grid.cells[i], grid, draw_for(draws, i));
        assert(after.snap_pos(after.cells[k].pos) == grid.snap_pos(after.cells[k].pos));
    }
}

/// At most one per cell: a tick leaves at most one live cell on each grid
/// cell, provided that it sends no two surviving cells to the same one.
pub proof fn lemma_tick_keeps_one_per_cell(grid: Grid, draws: Seq<u8>)
    requires
        grid.collision_free(draws),
    ensures
        grid.tick(draws).one_per_cell(),
{
    let all = grid.stepped(draws);
    let after = grid.tick(draws);
    assert forall|a: int, b: int| 0 <= a < b < after.cells.len() implies after.snap_pos(
        (#[trigger] after.cells[a]).pos,
    ) != after.snap_pos((#[trigger] after.cells[b]).pos) by {
        lemma_filter_keeps_order(all, alive(), a, b);
        let (i, j) = choose|i: int, j: int|
            0 <= i < j < all.len() && #[trigger] all[i] == all.filter(alive())[a] && #[trigger] all[j]
                == all.filter(alive())[b];
        all.lemma_filter_pred(alive(), a);
        all.lemma_filter_pred(alive(), b);
        assert(grid.survives(draws, i) && grid.survives(draws, j));
        assert(grid.target(draws, i) != grid.target(draws, j));
    }
}

/// Falling never collides: on an aligned grid with at most one cell on each
/// grid cell, a tick in which no sand slides sideways sends no two cells to
/// the same grid cell. Only a diagonal slide can bring two cells together.
pub proof fn lemma_falls_never_collide(grid: Grid, draws: Seq<u8>)
    requires
        grid.cell_size > 0,
        grid.aligned(),
        grid.one_per_cell(),
        forall|i: int|
            0 <= i < grid.cells.len() && (#[trigger] grid.cells[i]).cell_type is Sand
                && !grid.cells[i].can_fall(grid) ==> !grid.cells[i].can_slide_left(grid)
                && !grid.cells[i].can_slide_right(grid),
    ensures
        grid.collision_free(draws),
        grid.tick(draws).one_per_cell(),
{
    let all = grid.stepped(draws);
    assert forall|i: int, j: int|
        0 <= i < j < grid.cells.len() && grid.survives(draws, i) && grid.survives(
            draws,
            j,
        ) implies #[trigger] grid.target(draws, i) != #[trigger] grid.target(draws, j) by {
        let (a, b) = (grid.cells[i], grid.cells[j]);
        lemma_update_stays_on_grid(a, grid, draw_for(draws, i));
        lemma_update_stays_on_grid(b, grid, draw_for(draws, j));
        lemma_snap_pos_fixed(grid, all[i].pos);
        lemma_snap_pos_fixed(grid, all[j].pos);
        lemma_snap_pos_fixed(grid, a.pos);
        lemma_snap_pos_fixed(grid, b.pos);
        assert(a.pos != b.pos);
        if all[i].pos == all[j].pos {
            if all[i].pos != a.pos {
                // `a` fell onto the place where `b` stayed
                assert(a.can_fall(grid));
                assert(grid.covers(j, all[i].pos));
            } else {
                assert(b.can_fall(grid));
                assert(grid.covers(i, all[j].pos));
            }
        }
    }
    lemma_tick_keeps_one_per_cell(grid, draws);
}

/// Fire spreads in a tick: wood whose random byte is zero, with fire on one
/// of its eight neighbours when the tick begins, is fire when the tick ends,
/// where it was. The burning neighbour is live cell `k`, the first on its
/// grid cell, `i` cells to the right of the wood and `j` cells below it.
pub proof fn lemma_tick_spreads_fire(grid: Grid, draws: Seq<u8>, w: int, k: int, i: int, j: int)
    requires
        grid.cell_size > 0,
        0 <= w < grid.cells.len(),
        grid.cells[w].cell_type is Wood,
        draw_for(draws, w) == 0,
        -1 <= i <= 1,
        -1 <= j <= 1,
        !(i == 0 && j == 0),
        grid.first_covering(k, grid.cells[k].pos),
        grid.cells[k].cell_type is Fire,
        grid.cells[k].pos.x == grid.cells[w].pos.x + i * grid.cell_size,
        grid.cells[k].pos.y == grid.cells[w].pos.y + j * grid.cell_size,
        grid.cells[k].pos.x <= grid.width,
        grid.cells[k].pos.y <= grid.height,
    ensures
        grid.survives(draws, w),
        grid.tick(draws).cells.contains(
            Cell { cell_type: CellType::Fire, pos: grid.cells[w].pos, vel: grid.cells[w].vel },
        ),
{
    lemma_wood_ignites(grid.cells[w], grid, k, i, j);
    let all = grid.stepped(draws);
    assert(all[w] == Cell {
        cell_type: CellType::Fire,
        pos: grid.cells[w].pos,
        vel: grid.cells[w].vel,
    });
    all.lemma_filter_contains(alive(), w);
}

/// Fire burns out in a tick: a fire whose random byte is zero does not
/// survive the tick.
pub proof fn lemma_tick_burns_out(grid: Grid, draws: Seq<u8>, f: int)
    requires
        0 <= f < grid.cells.len(),
        grid.cells[f].cell_type is Fire,
        draw_for(draws, f) == 0,
    ensures
        !grid.survives(draws, f),
{
}

} // verus!
