//! Infinite planes.
use crate::bound::UNBOUNDED;
use crate::bound_aabb::AxisAlignedBBox;
use crate::point::Point;
use crate::shape::{AnyBase, AnyShape, Hit, Shape, ShapeType, hit_view};
use crate::vector::{
    coord_ok, coords_ok, lemma_dot_bound, lemma_mul_bound, lemma_norm2_bound, v_dot, v_is_zero,
    v_norm2, v_sub, vdot, vsub, Vec3, };
use crate::vicinity::{vicinity_ok, Vicinity, SCALAR_EPSILON};
use vstd::prelude::*;

verus! {

/// A plane through `_offset` with normal `_normal`. The normal is kept as
/// given; every test divides by its length exactly.
#[derive(Clone, Copy, Debug, PartialEq, Eq, Structural)]
pub struct Plane {
    pub _offset: Vec3,
    pub _normal: Vec3,
    pub _bound: AxisAlignedBBox,
    pub _vicinity: i128,
}

/// A point meets a plane when its distance to the plane,
/// `|n . (offset - p)| / |n|`, is within the plane's tolerance; the location
/// is the point.
pub open spec fn plane_point(pl: Plane, p: Point) -> Hit {
    let k = v_dot(pl._normal@, v_sub(pl._offset@, p._ori@));
    let e = pl._vicinity as int;
    if k * k <= e * e * v_norm2(pl._normal@) {
        (true, Some(p._ori@))
    } else {
        (false, None)
    }
}

impl Plane {
    pub open spec fn wf(&self) -> bool {
        &&& coord_ok(self._offset@)
        &&& coord_ok(self._normal@)
        &&& !v_is_zero(self._normal@)
        &&& self._bound.bound_lower@ == (
            -UNBOUNDED as int,
            -UNBOUNDED as int,
            -UNBOUNDED as int,
        )
        &&& self._bound.bound_upper@ == (UNBOUNDED as int, UNBOUNDED as int, UNBOUNDED as int)
        &&& vicinity_ok(self._vicinity as int)
    }

    pub fn init(offset: &[i64], normal: &[i64]) -> (r: Plane)
        requires
            offset@.len() == 3,
            normal@.len() == 3,
            coords_ok(offset@),
            coords_ok(normal@),
            !(normal@[0] == 0 && normal@[1] == 0 && normal@[2] == 0),
        ensures
            r.wf(),
            r._offset@ == (offset@[0] as int, offset@[1] as int, offset@[2] as int),
            r._normal@ == (normal@[0] as int, normal@[1] as int, normal@[2] as int),
            r._vicinity == SCALAR_EPSILON,
    {
        let vals = vec![offset[0], offset[1], offset[2], normal[0], normal[1], normal[2]];
        Plane {
            _offset: Vec3::from_slice(offset),
            _normal: Vec3::from_slice(normal),
            _bound: AxisAlignedBBox::new(ShapeType::Plane, vals.as_slice()),
            _vicinity: SCALAR_EPSILON as i128,
        }
    }

    pub(crate) fn intersect_point(&self, other: &Point) -> (r: (bool, Option<Vec3>))
        requires
            self.wf(),
            other.wf(),
        ensures
            hit_view(r) == plane_point(*self, *other),
    {
        let b_off = other._ori;
        let d = vsub(self._offset, b_off);
        let k = vdot(self._normal, d);
        let n2 = vdot(self._normal, self._normal);
        let e = self._vicinity;
        proof {
            let m: int = 1048576;
            lemma_dot_bound(self._normal@, d@, m, 2 * m);
            assert(-6597069766656 <= k <= 6597069766656);
            lemma_mul_bound(k as int, k as int, 6597069766656, 6597069766656);
            assert(k * k <= 6597069766656 * 6597069766656);
            lemma_norm2_bound(self._normal@, m);
            lemma_mul_bound(e as int, e as int, m, m);
            lemma_mul_bound((e * e) as int, n2 as int, m * m, 3 * m * m);
        }
        if k * k <= e * e * n2 {
            (true, Some(b_off))
        } else {
            (false, None)
        }
    }
}

impl Vicinity for Plane {
    open spec fn vicinity(&self) -> int {
        self._vicinity as int
    }

    open spec fn with_vicinity(&self, e: int) -> Self {
        Plane { _vicinity: e as i128, ..*self }
    }

    fn set_vicinity(&mut self, epsilon: i64) {
        self._vicinity = if epsilon < 0 {
            -(epsilon as i128)
        } else {
            epsilon as i128
        };
    }

    fn within_vicinity(&self, a: i128, b: i128) -> (r: bool) {
        a + self._vicinity >= b && a - self._vicinity <= b
    }
}

impl AnyBase for Plane {
    open spec fn to_any(&self) -> AnyShape {
        AnyShape::Plane(*self)
    }

    fn as_any(&self) -> (r: AnyShape) {
        AnyShape::Plane(*self)
    }
}

impl Shape for Plane {
    fn get_type(&self) -> (r: ShapeType) {
        ShapeType::Plane
    }

    fn get_bound(&self) -> (r: &AxisAlignedBBox) {
        &self._bound
    }

    fn get_intersect<S: AnyBase>(&self, other: &S) -> (r: (bool, Option<Vec3>)) {
        self.as_any().get_intersect(&other.as_any())
    }

    fn get_support(&self, v: &Vec3) -> (r: Option<Vec3>) {
        self.as_any().get_support(v)
    }
}

} // verus!
