//! Bounding volumes used as the broad phase of every intersection query.
use crate::vector::{Vec3, V3};
use vstd::prelude::*;

verus! {

/// The kinds of bounding volume.
#[derive(Clone, Copy, Debug, PartialEq, Eq, Structural)]
pub enum BoundType {
    AxisAlignBox,
    Sphere,
}

/// Stands for an unbounded extent: larger than any coordinate a shape holds.
pub const UNBOUNDED: i128 = 1267650600228229401496703205376;

/// The closed boxes `[l1, u1]` and `[l2, u2]` share a point: no axis separates them.
pub open spec fn boxes_overlap(l1: V3, u1: V3, l2: V3, u2: V3) -> bool {
    &&& !(l1.0 > u2.0 || u1.0 < l2.0)
    &&& !(l1.1 > u2.1 || u1.1 < l2.1)
    &&& !(l1.2 > u2.2 || u1.2 < l2.2)
}

pub open spec fn min_int(a: int, b: int) -> int {
    if a <= b {
        a
    } else {
        b
    }
}

pub open spec fn max_int(a: int, b: int) -> int {
    if a >= b {
        a
    } else {
        b
    }
}

pub open spec fn v_min(a: V3, b: V3) -> V3 {
    (min_int(a.0, b.0), min_int(a.1, b.1), min_int(a.2, b.2))
}

pub open spec fn v_max(a: V3, b: V3) -> V3 {
    (max_int(a.0, b.0), max_int(a.1, b.1), max_int(a.2, b.2))
}

/// Per-axis minimum of the lower corners of `s`, folded from the empty bound.
pub open spec fn union_lower(s: Seq<(V3, V3)>) -> V3
    decreases s.len(),
{
    if s.len() == 0 {
        (UNBOUNDED as int, UNBOUNDED as int, UNBOUNDED as int)
    } else {
        v_min(union_lower(s.drop_last()), s.last().0)
    }
}

/// Per-axis maximum of the upper corners of `s`, folded from the empty bound.
pub open spec fn union_upper(s: Seq<(V3, V3)>) -> V3
    decreases s.len(),
{
    if s.len() == 0 {
        (-UNBOUNDED as int, -UNBOUNDED as int, -UNBOUNDED as int)
    } else {
        v_max(union_upper(s.drop_last()), s.last().1)
    }
}

/// The midpoint of `l` and `u`, rounded toward negative infinity.
pub open spec fn midpoint(l: V3, u: V3) -> V3 {
    ((l.0 + u.0) / 2, (l.1 + u.1) / 2, (l.2 + u.2) / 2)
}

/// A bounding volume, seen as the box from `lower()` to `upper()`.
pub trait Bound: Sized {
    spec fn kind(&self) -> BoundType;

    spec fn lower(&self) -> V3;

    spec fn upper(&self) -> V3;

    /// Corners within the range that sums of two of them can hold.
    spec fn well_formed(&self) -> bool;

    fn get_type(&self) -> (r: BoundType)
        ensures
            r == self.kind(),
    ;

    /// Separating-axis test: false exactly when some axis separates the two boxes.
    fn intersect(&self, other: &Self) -> (r: bool)
        requires
            self.kind() == BoundType::AxisAlignBox,
            other.kind() == BoundType::AxisAlignBox,
        ensures
            r == boxes_overlap(self.lower(), self.upper(), other.lower(), other.upper()),
    ;

    /// Replaces `self` by the per-axis union of `bounds`, starting from the
    /// empty bound.
    fn get_union(&mut self, bounds: &[Self])
        requires
            forall|i: int|
                0 <= i < bounds@.len() ==> (#[trigger] bounds@[i]).well_formed()
                    && bounds@[i].kind() == BoundType::AxisAlignBox,
        ensures
            final(self).kind() == BoundType::AxisAlignBox,
            final(self).well_formed(),
            final(self).lower() == union_lower(
                bounds@.map_values(|b: Self| (b.lower(), b.upper())),
            ),
            final(self).upper() == union_upper(
                bounds@.map_values(|b: Self| (b.lower(), b.upper())),
            ),
    ;

    fn get_centroid(&self) -> (r: Vec3)
        requires
            self.well_formed(),
            self.kind() == BoundType::AxisAlignBox,
        ensures
            r@ == midpoint(self.lower(), self.upper()),
    ;
}

} // verus!
