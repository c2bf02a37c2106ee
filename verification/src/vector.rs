//! Pixel coordinates and velocities are `vek::Vec2` values; this module tells
//! the verifier what such a value is and how one is built.

use vek::Vec2;
use vstd::prelude::*;

verus! {

/// `vek::Vec2<T>` is a plain pair of public fields, `x` and `y`. The
/// declaration is transparent: the verifier reads the two fields from the
/// type itself, so nothing about its shape is taken on trust.
#[verifier::external_type_specification]
#[verifier::reject_recursive_types(T)]
pub struct ExVec2<T>(Vec2<T>);

/// `Vec2::new(x, y)` stores its arguments in the fields of the same names,
/// unchanged. Trusted: it is the constructor's one-line body in `vek`.
pub assume_specification<T>[ Vec2::<T>::new ](x: T, y: T) -> (v: Vec2<T>)
    ensures
        v.x == x,
        v.y == y,
;

} // verus!
