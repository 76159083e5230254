//! Per-shape tolerance for approximate equality.
use crate::vector::{iabs, LIM_SUM, MAX_COORD};
use vstd::prelude::*;

verus! {

/// Default tolerance of points, rays and spheres: a fixed small distance, which
/// is below one unit of the integer grid.
pub const FIXED_VICINITY: i64 = 0;

/// Default tolerance of planes, boxes, lines and prisms: the rounding step of
/// the scalar, which exact integers do not have.
pub const SCALAR_EPSILON: i64 = 0;

/// `b` lies within `eps` of `a`.
pub open spec fn within(a: int, b: int, eps: int) -> bool {
    a - eps <= b <= a + eps
}

/// A tolerance that a shape can hold.
pub open spec fn vicinity_ok(v: int) -> bool {
    0 <= v <= MAX_COORD
}

pub trait Vicinity: Sized {
    spec fn vicinity(&self) -> int;

    /// `self` with its tolerance replaced by `e`.
    spec fn with_vicinity(&self, e: int) -> Self;

    /// Stores `|epsilon|` as the tolerance and changes nothing else.
    fn set_vicinity(&mut self, epsilon: i64)
        requires
            -MAX_COORD <= epsilon <= MAX_COORD,
        ensures
            *final(self) == old(self).with_vicinity(iabs(epsilon as int)),
    ;

    /// `a - eps <= b <= a + eps`, for the stored tolerance `eps`.
    fn within_vicinity(&self, a: i128, b: i128) -> (r: bool)
        requires
            vicinity_ok(self.vicinity()),
            -LIM_SUM <= a <= LIM_SUM,
            -LIM_SUM <= b <= LIM_SUM,
        ensures
            r == within(a as int, b as int, self.vicinity()),
    ;
}

} // verus!
