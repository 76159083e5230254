//! Axis-aligned cubes.
use crate::bound_aabb::AxisAlignedBBox;
use crate::point::Point;
use crate::shape::{AnyBase, AnyShape, Hit, Shape, ShapeType, hit_view};
use crate::vector::{
    coord_ok, coords_ok, farthest, farthest_point, opt_view, v_add, v_bounded, v_is_zero, v_sub,
    vadd, Vec3, LIM_DIR, MAX_COORD, V3,
};
use crate::vicinity::{vicinity_ok, Vicinity, SCALAR_EPSILON};
use vstd::prelude::*;

verus! {

/// A cube centered at `_ori` with half edge length `_size`.
#[derive(Clone, Copy, Debug, PartialEq, Eq, Structural)]
pub struct RectBox {
    pub _ori: Vec3,
    pub _size: i128,
    pub _bound: AxisAlignedBBox,
    pub _vicinity: i128,
}

/// The cube is axis-aligned and equals its bound, so a point that passed the
/// bound test lies in it; the location is the point.
pub open spec fn box_point(b: RectBox, p: Point) -> Hit {
    (true, Some(p._ori@))
}

/// The corners of a cube of half edge `s` about the origin, in the order in
/// which the support mapping visits them.
pub open spec fn box_corners(s: int) -> Seq<V3> {
    seq![
        (s, s, s),
        (-s, s, s),
        (s, -s, s),
        (-s, -s, s),
        (s, s, -s),
        (-s, s, -s),
        (s, -s, -s),
        (-s, -s, -s),
    ]
}

/// The corner of the cube farthest along `v` (the last of equally far ones);
/// none for a zero `v`.
pub open spec fn box_support(b: RectBox, v: V3) -> Option<V3> {
    if v_is_zero(v) {
        None
    } else {
        Some(v_add(b._ori@, farthest_point(box_corners(b._size as int), v)))
    }
}

impl RectBox {
    pub(crate) fn support(&self, v: Vec3) -> (r: Option<Vec3>)
        requires
            self.wf(),
            v_bounded(v@, LIM_DIR as int),
        ensures
            opt_view(r) == box_support(*self, v@),
            r matches Some(p) ==> v_bounded(p@, 2097152),
    {
        if v.is_zero() {
            return None;
        }
        let s = self._size;
        let m = -s;
        let points = vec![
            Vec3::new(s, s, s),
            Vec3::new(m, s, s),
            Vec3::new(s, m, s),
            Vec3::new(m, m, s),
            Vec3::new(s, s, m),
            Vec3::new(m, s, m),
            Vec3::new(s, m, m),
            Vec3::new(m, m, m),
        ];
        assert(forall|i: int| 0 <= i < 8 ==> v_bounded((#[trigger] points@[i])@, 1048576));
        let k = farthest(&points, v);
        assert(points@.map_values(|p: Vec3| p@) =~= box_corners(s as int));
        Some(vadd(self._ori, points[k]))
    }

    pub open spec fn wf(&self) -> bool {
        &&& coord_ok(self._ori@)
        &&& -MAX_COORD <= self._size <= MAX_COORD
        &&& self._bound.bound_lower@ == v_sub(
            self._ori@,
            (self._size as int, self._size as int, self._size as int),
        )
        &&& self._bound.bound_upper@ == v_add(
            self._ori@,
            (self._size as int, self._size as int, self._size as int),
        )
        &&& vicinity_ok(self._vicinity as int)
    }

    /// A cube of half edge length `size` centered at `origin`.
    pub fn init(origin: &[i64], size: i64) -> (r: RectBox)
        requires
            origin@.len() == 3,
            coords_ok(origin@),
            -MAX_COORD <= size <= MAX_COORD,
        ensures
            r.wf(),
            r._ori@ == (origin@[0] as int, origin@[1] as int, origin@[2] as int),
            r._size == size,
            r._vicinity == SCALAR_EPSILON,
    {
        let vals = vec![origin[0], origin[1], origin[2], size];
        RectBox {
            _ori: Vec3::from_slice(origin),
            _size: size as i128,
            _bound: AxisAlignedBBox::new(ShapeType::Box, vals.as_slice()),
            _vicinity: SCALAR_EPSILON as i128,
        }
    }

    pub(crate) fn intersect_point(&self, other: &Point) -> (r: (bool, Option<Vec3>))
        requires
            self.wf(),
            other.wf(),
        ensures
            hit_view(r) == box_point(*self, *other),
    {
        (true, Some(other._ori))
    }
}

impl Vicinity for RectBox {
    open spec fn vicinity(&self) -> int {
        self._vicinity as int
    }

    open spec fn with_vicinity(&self, e: int) -> Self {
        RectBox { _vicinity: e as i128, ..*self }
    }

    fn set_vicinity(&mut self, epsilon: i64) {
        self._vicinity = if epsilon < 0 {
            -(epsilon as i128)
        } else {
            epsilon as i128
        };
    }

    fn within_vicinity(&self, a: i128, b: i128) -> (r: bool) {
        a + self._vicinity >= b && a - self._vicinity <= b
    }
}

impl AnyBase for RectBox {
    open spec fn to_any(&self) -> AnyShape {
        AnyShape::Box(*self)
    }

    fn as_any(&self) -> (r: AnyShape) {
        AnyShape::Box(*self)
    }
}

impl Shape for RectBox {
    fn get_type(&self) -> (r: ShapeType) {
        ShapeType::Box
    }

    fn get_bound(&self) -> (r: &AxisAlignedBBox) {
        &self._bound
    }

    fn get_intersect<S: AnyBase>(&self, other: &S) -> (r: (bool, Option<Vec3>)) {
        self.as_any().get_intersect(&other.as_any())
    }

    fn get_support(&self, v: &Vec3) -> (r: Option<Vec3>) {
        self.as_any().get_support(v)
    }
}

} // verus!
