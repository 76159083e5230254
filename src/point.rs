//! A single point.
use crate::bound_aabb::AxisAlignedBBox;
use crate::shape::{AnyBase, AnyShape, Hit, Shape, ShapeType, hit_view};
use crate::vector::{coord_ok, coords_ok, Vec3};
use crate::vicinity::{vicinity_ok, within, Vicinity, FIXED_VICINITY};
use vstd::prelude::*;

verus! {

#[derive(Clone, Copy, Debug, PartialEq, Eq, Structural)]
pub struct Point {
    pub _ori: Vec3,
    pub _bound: AxisAlignedBBox,
    pub _vicinity: i128,
}

/// Two points meet when every coordinate of `b` lies within the tolerance of
/// `a`; the location is `a`.
pub open spec fn point_point(a: Point, b: Point) -> Hit {
    let e = a._vicinity as int;
    if within(a._ori.x as int, b._ori.x as int, e) && within(a._ori.y as int, b._ori.y as int, e)
        && within(a._ori.z as int, b._ori.z as int, e) {
        (true, Some(a._ori@))
    } else {
        (false, None)
    }
}

impl Point {
    pub open spec fn wf(&self) -> bool {
        &&& coord_ok(self._ori@)
        &&& self._bound.bound_lower == self._ori
        &&& self._bound.bound_upper == self._ori
        &&& vicinity_ok(self._vicinity as int)
    }

    pub fn init(origin: &[i64]) -> (r: Point)
        requires
            origin@.len() == 3,
            coords_ok(origin@),
        ensures
            r.wf(),
            r._ori@ == (origin@[0] as int, origin@[1] as int, origin@[2] as int),
            r._vicinity == FIXED_VICINITY,
    {
        Point {
            _ori: Vec3::from_slice(origin),
            _bound: AxisAlignedBBox::new(ShapeType::Point, origin),
            _vicinity: FIXED_VICINITY as i128,
        }
    }

    pub(crate) fn intersect_point(&self, other: &Point) -> (r: (bool, Option<Vec3>))
        requires
            self.wf(),
            other.wf(),
        ensures
            hit_view(r) == point_point(*self, *other),
    {
        let a = self._ori;
        let b = other._ori;
        if self.within_vicinity(a.x, b.x) && self.within_vicinity(a.y, b.y)
            && self.within_vicinity(a.z, b.z) {
            (true, Some(a))
        } else {
            (false, None)
        }
    }
}

impl Vicinity for Point {
    open spec fn vicinity(&self) -> int {
        self._vicinity as int
    }

    open spec fn with_vicinity(&self, e: int) -> Self {
        Point { _vicinity: e as i128, ..*self }
    }

    fn set_vicinity(&mut self, epsilon: i64) {
        self._vicinity = if epsilon < 0 {
            -(epsilon as i128)
        } else {
            epsilon as i128
        };
    }

    fn within_vicinity(&self, a: i128, b: i128) -> (r: bool) {
        a + self._vicinity >= b && a - self._vicinity <= b
    }
}

impl AnyBase for Point {
    open spec fn to_any(&self) -> AnyShape {
        AnyShape::Point(*self)
    }

    fn as_any(&self) -> (r: AnyShape) {
        AnyShape::Point(*self)
    }
}

impl Shape for Point {
    fn get_type(&self) -> (r: ShapeType) {
        ShapeType::Point
    }

    fn get_bound(&self) -> (r: &AxisAlignedBBox) {
        &self._bound
    }

    fn get_intersect<S: AnyBase>(&self, other: &S) -> (r: (bool, Option<Vec3>)) {
        self.as_any().get_intersect(&other.as_any())
    }

    fn get_support(&self, v: &Vec3) -> (r: Option<Vec3>) {
        self.as_any().get_support(v)
    }
}

} // verus!
