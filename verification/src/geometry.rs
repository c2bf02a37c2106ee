//! Arithmetic of the pixel grid: snapping a coordinate down to a multiple of
//! the cell size, and the facts about it that the rest of the library uses.

use vstd::arithmetic::div_mod::{
    lemma_fundamental_div_mod, lemma_fundamental_div_mod_converse, lemma_mod_bound,
    lemma_mod_multiples_basic,
};
use vstd::arithmetic::mul::{lemma_mul_is_commutative, lemma_mul_is_distributive_add};
use vstd::prelude::*;

verus! {

/// The largest multiple of `size` that is not above `v`: the coordinate of
/// the left (or top) pixel of the grid cell that holds `v`.
pub open spec fn snap(v: int, size: int) -> int {
    (v / size) * size
}

/// Whether `v` is a multiple of `size`, that is, lies on a grid line.
pub open spec fn on_grid(v: int, size: int) -> bool {
    v % size == 0
}

/// Snapping moves a coordinate down by less than one cell, onto a grid line.
pub proof fn lemma_snap_bounds(v: int, size: int)
    requires
        size > 0,
    ensures
        snap(v, size) <= v < snap(v, size) + size,
        on_grid(snap(v, size), size),
        v >= 0 ==> snap(v, size) >= 0,
{
    lemma_fundamental_div_mod(v, size);
    lemma_mod_bound(v, size);
    lemma_mul_is_commutative(size, v / size);
    lemma_mod_multiples_basic(v / size, size);
    if v >= 0 && snap(v, size) < 0 {
        // a negative multiple of `size` lies at least `size` below zero
        assert((v / size) * size <= -size) by (nonlinear_arith)
            requires
                (v / size) * size < 0,
                size > 0,
        ;
    }
}

/// A coordinate on a grid line is its own snap, and only such a coordinate.
pub proof fn lemma_snap_fixed(v: int, size: int)
    requires
        size > 0,
    ensures
        on_grid(v, size) <==> snap(v, size) == v,
{
    lemma_fundamental_div_mod(v, size);
    lemma_mul_is_commutative(size, v / size);
    lemma_snap_bounds(v, size);
}

/// Snapping twice is snapping once.
pub proof fn lemma_snap_idempotent(v: int, size: int)
    requires
        size > 0,
    ensures
        snap(snap(v, size), size) == snap(v, size),
{
    lemma_snap_bounds(v, size);
    lemma_snap_fixed(snap(v, size), size);
}

/// Moving a coordinate by whole cells moves its snap by as many cells.
pub proof fn lemma_snap_shift(v: int, size: int, cells: int)
    requires
        size > 0,
    ensures
        snap(v + cells * size, size) == snap(v, size) + cells * size,
        on_grid(v, size) ==> on_grid(v + cells * size, size),
{
    lemma_fundamental_div_mod(v, size);
    lemma_mod_bound(v, size);
    lemma_mul_is_commutative(size, v / size);
    lemma_mul_is_distributive_add(size, v / size, cells);
    lemma_mul_is_commutative(size, cells);
    lemma_mul_is_commutative(size, v / size + cells);
    lemma_fundamental_div_mod_converse(v + cells * size, size, v / size + cells, v % size);
}

} // verus!
