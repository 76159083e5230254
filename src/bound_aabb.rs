//! Axis-aligned bounding boxes.
use crate::bound::{
    max_int, min_int, union_lower, union_upper, Bound, BoundType,
    UNBOUNDED,
};
use crate::shape::ShapeType;
use crate::vector::{div_floor, v_bounded, Vec3, MAX_COORD, V3};
use vstd::prelude::*;

verus! {

/// A box given by its lower and upper corners. Unbounded extents hold
/// `UNBOUNDED` or its negation.
#[derive(Clone, Copy, Debug, PartialEq, Eq, Structural)]
pub struct AxisAlignedBBox {
    pub bound_lower: Vec3,
    pub bound_upper: Vec3,
}

#[derive(Clone, Copy, Debug, PartialEq, Eq, Structural)]
pub enum Axis {
    X,
    Y,
    Z,
}

/// The number of raw values that `AxisAlignedBBox::new` reads for a shape type,
/// or `None` where it builds no bound for that type.
pub open spec fn bound_arity(t: ShapeType) -> Option<nat> {
    match t {
        ShapeType::Ray => Some(6),
        ShapeType::Point => Some(3),
        ShapeType::Sphere => Some(4),
        ShapeType::Plane => Some(6),
        ShapeType::Box => Some(4),
        ShapeType::Rect => Some(6),
        _ => None,
    }
}

/// Extent along one axis of a ray starting at `o` with direction component `d`.
pub open spec fn ray_extent(o: int, d: int) -> (int, int) {
    if d > 0 {
        (o, UNBOUNDED as int)
    } else if d < 0 {
        (-UNBOUNDED as int, o)
    } else {
        (o, o)
    }
}

/// The corners (lower, upper) built from the raw values `v` of a shape of type `t`:
/// a ray `[ox, oy, oz, dx, dy, dz]`, a point `[x, y, z]`, a sphere or a cube
/// `[cx, cy, cz, r]`, a plane `[ox, oy, oz, nx, ny, nz]` (all of space), or
/// explicit corners `[lx, ly, lz, ux, uy, uz]`.
pub open spec fn bound_corners(t: ShapeType, v: Seq<i64>) -> (V3, V3) {
    match t {
        ShapeType::Ray => {
            let ex = ray_extent(v[0] as int, v[3] as int);
            let ey = ray_extent(v[1] as int, v[4] as int);
            let ez = ray_extent(v[2] as int, v[5] as int);
            ((ex.0, ey.0, ez.0), (ex.1, ey.1, ez.1))
        },
        ShapeType::Point => ((v[0] as int, v[1] as int, v[2] as int), (v[0] as int, v[1] as int, v[2] as int)),
        ShapeType::Sphere | ShapeType::Box => (
            (v[0] - v[3], v[1] - v[3], v[2] - v[3]),
            (v[0] + v[3], v[1] + v[3], v[2] + v[3]),
        ),
        ShapeType::Plane => (
            (-UNBOUNDED as int, -UNBOUNDED as int, -UNBOUNDED as int),
            (UNBOUNDED as int, UNBOUNDED as int, UNBOUNDED as int),
        ),
        _ => ((v[0] as int, v[1] as int, v[2] as int), (v[3] as int, v[4] as int, v[5] as int)),
    }
}

pub open spec fn extent(b: AxisAlignedBBox, i: int) -> int {
    if i == 0 {
        b.bound_upper.x - b.bound_lower.x
    } else if i == 1 {
        b.bound_upper.y - b.bound_lower.y
    } else {
        b.bound_upper.z - b.bound_lower.z
    }
}

fn min_i128(a: i128, b: i128) -> (r: i128)
    ensures
        r == min_int(a as int, b as int),
{
    if a <= b {
        a
    } else {
        b
    }
}

fn max_i128(a: i128, b: i128) -> (r: i128)
    ensures
        r == max_int(a as int, b as int),
{
    if a >= b {
        a
    } else {
        b
    }
}

fn ray_extent_exec(o: i64, d: i64) -> (r: (i128, i128))
    ensures
        (r.0 as int, r.1 as int) == ray_extent(o as int, d as int),
{
    if d > 0 {
        (o as i128, UNBOUNDED)
    } else if d < 0 {
        (-UNBOUNDED, o as i128)
    } else {
        (o as i128, o as i128)
    }
}

impl AxisAlignedBBox {
    pub open spec fn wf(&self) -> bool {
        v_bounded(self.bound_lower@, UNBOUNDED as int) && v_bounded(
            self.bound_upper@,
            UNBOUNDED as int,
        )
    }

    /// Builds the bound of a shape of type `shape_type` from its raw values
    /// (see `bound_corners`).
    pub fn new(shape_type: ShapeType, vals: &[i64]) -> (r: AxisAlignedBBox)
        requires
            bound_arity(shape_type) == Some(vals@.len()),
            forall|i: int| 0 <= i < vals@.len() ==> -MAX_COORD <= #[trigger] vals@[i] <= MAX_COORD,
        ensures
            r.wf(),
            (r.bound_lower@, r.bound_upper@) == bound_corners(shape_type, vals@),
    {
        match shape_type {
            ShapeType::Ray => {
                let ex = ray_extent_exec(vals[0], vals[3]);
                let ey = ray_extent_exec(vals[1], vals[4]);
                let ez = ray_extent_exec(vals[2], vals[5]);
                AxisAlignedBBox {
                    bound_lower: Vec3::new(ex.0, ey.0, ez.0),
                    bound_upper: Vec3::new(ex.1, ey.1, ez.1),
                }
            },
            ShapeType::Point => {
                let p = Vec3::from_slice(vals);
                AxisAlignedBBox { bound_lower: p, bound_upper: p }
            },
            ShapeType::Sphere | ShapeType::Box => {
                let c = Vec3::from_slice(vals);
                let r = vals[3] as i128;
                AxisAlignedBBox {
                    bound_lower: Vec3::new(c.x - r, c.y - r, c.z - r),
                    bound_upper: Vec3::new(c.x + r, c.y + r, c.z + r),
                }
            },
            ShapeType::Plane => AxisAlignedBBox {
                bound_lower: Vec3::new(-UNBOUNDED, -UNBOUNDED, -UNBOUNDED),
                bound_upper: Vec3::new(UNBOUNDED, UNBOUNDED, UNBOUNDED),
            },
            _ => AxisAlignedBBox {
                bound_lower: Vec3::new(vals[0] as i128, vals[1] as i128, vals[2] as i128),
                bound_upper: Vec3::new(vals[3] as i128, vals[4] as i128, vals[5] as i128),
            },
        }
    }

    /// The axis along which the box is longest, with its length; of equally
    /// long axes the last one.
    pub fn get_longest_axis(&self) -> (r: (Axis, i128))
        requires
            self.wf(),
        ensures
            ({
                let i = match r.0 {
                    Axis::X => 0int,
                    Axis::Y => 1int,
                    Axis::Z => 2int,
                };
                &&& r.1 == extent(*self, i)
                &&& forall|j: int| 0 <= j < 3 ==> extent(*self, j) <= r.1
                &&& forall|j: int| i < j < 3 ==> extent(*self, j) < r.1
            }),
    {
        let dx = self.bound_upper.x - self.bound_lower.x;
        let dy = self.bound_upper.y - self.bound_lower.y;
        let dz = self.bound_upper.z - self.bound_lower.z;
        let mut best = (Axis::X, dx);
        if dy >= best.1 {
            best = (Axis::Y, dy);
        }
        if dz >= best.1 {
            best = (Axis::Z, dz);
        }
        best
    }
}

impl Bound for AxisAlignedBBox {
    open spec fn kind(&self) -> BoundType {
        BoundType::AxisAlignBox
    }

    open spec fn lower(&self) -> V3 {
        self.bound_lower@
    }

    open spec fn upper(&self) -> V3 {
        self.bound_upper@
    }

    open spec fn well_formed(&self) -> bool {
        self.wf()
    }

    fn get_type(&self) -> (r: BoundType) {
        BoundType::AxisAlignBox
    }

    fn intersect(&self, other: &Self) -> (r: bool) {
        let a_lower = self.bound_lower;
        let a_upper = self.bound_upper;
        let b_lower = other.bound_lower;
        let b_upper = other.bound_upper;
        !(a_lower.x > b_upper.x || a_upper.x < b_lower.x || a_lower.y > b_upper.y || a_upper.y
            < b_lower.y || a_lower.z > b_upper.z || a_upper.z < b_lower.z)
    }

    fn get_union(&mut self, bounds: &[Self]) {
        let ghost corners = bounds@.map_values(|b: Self| (b.lower(), b.upper()));
        self.bound_lower = Vec3::new(UNBOUNDED, UNBOUNDED, UNBOUNDED);
        self.bound_upper = Vec3::new(-UNBOUNDED, -UNBOUNDED, -UNBOUNDED);
        let mut i: usize = 0;
        assert(corners.subrange(0, 0) =~= Seq::<(V3, V3)>::empty());
        while i < bounds.len()
            invariant
                0 <= i <= bounds@.len(),
                corners == bounds@.map_values(|b: Self| (b.lower(), b.upper())),
                forall|k: int|
                    0 <= k < bounds@.len() ==> (#[trigger] bounds@[k]).well_formed()
                        && bounds@[k].kind() == BoundType::AxisAlignBox,
                self.wf(),
                self.bound_lower@ == union_lower(corners.subrange(0, i as int)),
                self.bound_upper@ == union_upper(corners.subrange(0, i as int)),
            decreases bounds@.len() - i,
        {
            let b = bounds[i];
            self.bound_lower = Vec3::new(
                min_i128(self.bound_lower.x, b.bound_lower.x),
                min_i128(self.bound_lower.y, b.bound_lower.y),
                min_i128(self.bound_lower.z, b.bound_lower.z),
            );
            self.bound_upper = Vec3::new(
                max_i128(self.bound_upper.x, b.bound_upper.x),
                max_i128(self.bound_upper.y, b.bound_upper.y),
                max_i128(self.bound_upper.z, b.bound_upper.z),
            );
            assert(corners.subrange(0, i + 1).drop_last() =~= corners.subrange(0, i as int));
            i = i + 1;
        }
        assert(corners.subrange(0, i as int) =~= corners);
    }

    fn get_centroid(&self) -> (r: Vec3) {
        let b_lower = self.bound_lower;
        let b_upper = self.bound_upper;
        Vec3::new(
            div_floor(b_lower.x + b_upper.x, 2),
            div_floor(b_lower.y + b_upper.y, 2),
            div_floor(b_lower.z + b_upper.z, 2),
        )
    }
}

impl Default for AxisAlignedBBox {
    /// The bound of all of space.
    fn default() -> (r: AxisAlignedBBox)
        ensures
            r.bound_lower@ == (-UNBOUNDED as int, -UNBOUNDED as int, -UNBOUNDED as int),
            r.bound_upper@ == (UNBOUNDED as int, UNBOUNDED as int, UNBOUNDED as int),
    {
        AxisAlignedBBox {
            bound_lower: Vec3::new(-UNBOUNDED, -UNBOUNDED, -UNBOUNDED),
            bound_upper: Vec3::new(UNBOUNDED, UNBOUNDED, UNBOUNDED),
        }
    }
}

} // verus!
