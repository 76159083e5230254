//! Line segments.
use crate::bound::{v_max, v_min};
use crate::bound_aabb::AxisAlignedBBox;
use crate::vector::{
    coord_ok, coords_ok, farthest, farthest_point, opt_view, v_bounded, v_is_zero, Vec3, LIM_DIR,
    V3,
};
use crate::vicinity::{vicinity_ok, Vicinity, SCALAR_EPSILON};
use crate::shape::{AnyBase, AnyShape, Shape, ShapeType};
use vstd::prelude::*;

verus! {

/// The segment from `_a` to `_b`.
#[derive(Clone, Copy, Debug, PartialEq, Eq, Structural)]
pub struct Line {
    pub _a: Vec3,
    pub _b: Vec3,
    pub _bound: AxisAlignedBBox,
    pub _vicinity: i128,
}

fn min_i64(a: i64, b: i64) -> (r: i64)
    ensures
        r == if a <= b {
            a
        } else {
            b
        },
{
    if a <= b {
        a
    } else {
        b
    }
}

fn max_i64(a: i64, b: i64) -> (r: i64)
    ensures
        r == if a >= b {
            a
        } else {
            b
        },
{
    if a >= b {
        a
    } else {
        b
    }
}

/// The endpoint farthest along `v` (the second when both are equally far);
/// none for a zero `v`.
pub open spec fn line_support(l: Line, v: V3) -> Option<V3> {
    if v_is_zero(v) {
        None
    } else {
        Some(farthest_point(seq![l._a@, l._b@], v))
    }
}

impl Line {
    pub(crate) fn support(&self, v: Vec3) -> (r: Option<Vec3>)
        requires
            self.wf(),
            v_bounded(v@, LIM_DIR as int),
        ensures
            opt_view(r) == line_support(*self, v@),
            r matches Some(p) ==> v_bounded(p@, 2097152),
    {
        if v.is_zero() {
            return None;
        }
        let points = vec![self._a, self._b];
        assert(forall|i: int| 0 <= i < 2 ==> v_bounded((#[trigger] points@[i])@, 1048576));
        let k = farthest(&points, v);
        assert(points@.map_values(|p: Vec3| p@) =~= seq![self._a@, self._b@]);
        Some(points[k])
    }

    pub open spec fn wf(&self) -> bool {
        &&& coord_ok(self._a@)
        &&& coord_ok(self._b@)
        &&& self._bound.bound_lower@ == v_min(self._a@, self._b@)
        &&& self._bound.bound_upper@ == v_max(self._a@, self._b@)
        &&& vicinity_ok(self._vicinity as int)
    }

    pub fn init(a: &[i64], b: &[i64]) -> (r: Line)
        requires
            a@.len() == 3,
            b@.len() == 3,
            coords_ok(a@),
            coords_ok(b@),
        ensures
            r.wf(),
            r._a@ == (a@[0] as int, a@[1] as int, a@[2] as int),
            r._b@ == (b@[0] as int, b@[1] as int, b@[2] as int),
            r._vicinity == SCALAR_EPSILON,
    {
        let x_min = min_i64(a[0], b[0]);
        let x_max = max_i64(a[0], b[0]);
        let y_min = min_i64(a[1], b[1]);
        let y_max = max_i64(a[1], b[1]);
        let z_min = min_i64(a[2], b[2]);
        let z_max = max_i64(a[2], b[2]);
        let vals = vec![x_min, y_min, z_min, x_max, y_max, z_max];
        Line {
            _a: Vec3::from_slice(a),
            _b: Vec3::from_slice(b),
            _bound: AxisAlignedBBox::new(ShapeType::Rect, vals.as_slice()),
            _vicinity: SCALAR_EPSILON as i128,
        }
    }
}

impl Vicinity for Line {
    open spec fn vicinity(&self) -> int {
        self._vicinity as int
    }

    open spec fn with_vicinity(&self, e: int) -> Self {
        Line { _vicinity: e as i128, ..*self }
    }

    fn set_vicinity(&mut self, epsilon: i64) {
        self._vicinity = if epsilon < 0 {
            -(epsilon as i128)
        } else {
            epsilon as i128
        };
    }

    fn within_vicinity(&self, a: i128, b: i128) -> (r: bool) {
        a + self._vicinity >= b && a - self._vicinity <= b
    }
}

impl AnyBase for Line {
    open spec fn to_any(&self) -> AnyShape {
        AnyShape::Line(*self)
    }

    fn as_any(&self) -> (r: AnyShape) {
        AnyShape::Line(*self)
    }
}

impl Shape for Line {
    fn get_type(&self) -> (r: ShapeType) {
        ShapeType::Line
    }

    fn get_bound(&self) -> (r: &AxisAlignedBBox) {
        &self._bound
    }

    fn get_intersect<S: AnyBase>(&self, other: &S) -> (r: (bool, Option<Vec3>)) {
        self.as_any().get_intersect(&other.as_any())
    }

    fn get_support(&self, v: &Vec3) -> (r: Option<Vec3>) {
        self.as_any().get_support(v)
    }
}

} // verus!
