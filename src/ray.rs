//! Rays: an origin and a direction, unbounded forward.
use crate::bound_aabb::{ray_extent, AxisAlignedBBox};
use crate::plane::Plane;
use crate::shape::{AnyBase, AnyShape, Hit, Shape, ShapeType, hit_view};
use crate::sphere::{lemma_quotient_bound, Sphere};
use crate::vector::{
    coord_ok, coords_ok, div_floor, isqrt, isqrt_exec, lemma_dot_bound, lemma_mul_bound,
    lemma_norm2_bound, lemma_norm2_zero, v_add, v_bounded, v_dot, v_is_zero, v_norm2, v_sub,
    vadd, vdot, vsub, Vec3, V3,
};
use crate::vicinity::{vicinity_ok, Vicinity, FIXED_VICINITY};
use vstd::prelude::*;

verus! {

/// The ray from `_ori` along `_dir`. The direction is kept as given (it is
/// never zero); every test divides by its length exactly.
#[derive(Clone, Copy, Debug, PartialEq, Eq, Structural)]
pub struct Ray {
    pub _ori: Vec3,
    pub _dir: Vec3,
    pub _bound: AxisAlignedBBox,
    pub _vicinity: i128,
}

/// `o + d * num / den` per axis, rounded down, for `den > 0`.
pub open spec fn along(o: V3, d: V3, num: int, den: int) -> V3 {
    v_add(o, (d.0 * num / den, d.1 * num / den, d.2 * num / den))
}

/// Where the ray from `o` along `d` meets the plane through `off` with
/// normal `n`. A ray parallel to the plane meets it, at `o`, only when the
/// distance `|n . (off - o)| / |n|` of `o` from the plane is within `e`. A ray
/// whose direction does not face against the normal misses; so does a plane
/// behind the origin.
pub open spec fn ray_plane_hit(o: V3, d: V3, off: V3, n: V3, e: int) -> Hit {
    let num = v_dot(n, v_sub(off, o));
    let den = v_dot(n, d);
    if den == 0 {
        if num * num <= e * e * v_norm2(n) {
            (true, Some(o))
        } else {
            (false, None)
        }
    } else if den > 0 || num > 0 {
        (false, None)
    } else {
        (true, Some(along(o, d, -num, -den)))
    }
}

pub open spec fn ray_plane(r: Ray, pl: Plane) -> Hit {
    ray_plane_hit(r._ori@, r._dir@, pl._offset@, pl._normal@, r._vicinity as int)
}

/// The ray meets the sphere where `|o + d t - c| = radius` has a root
/// `t >= 0`. With `b = (o - c) . d`, `a = d . d`, `k = |o - c|^2 - radius^2`,
/// the roots are `t = (-b -+ sqrt(b^2 - a k)) / a`. An origin outside the
/// sphere with the ray pointing away misses; otherwise the location is at the
/// nearer root when it is not behind the origin, else at the farther one.
pub open spec fn ray_sphere(r: Ray, s: Sphere) -> Hit {
    let rel = v_sub(r._ori@, s._ori@);
    let d = r._dir@;
    let b = v_dot(rel, d);
    let a = v_norm2(d);
    let k = v_norm2(rel) - s._radius * s._radius;
    let disc = b * b - a * k;
    if b > 0 && k > 0 {
        (false, None)
    } else if disc < 0 {
        (false, None)
    } else {
        let t = if b <= 0 && b * b >= disc {
            -b - isqrt(disc)
        } else {
            -b + isqrt(disc)
        };
        (true, Some(along(r._ori@, d, t, a)))
    }
}

/// `along` computed for a positive `den`.
pub(crate) fn along_exec(o: Vec3, d: Vec3, num: i128, den: i128) -> (r: Vec3)
    requires
        den > 0,
        v_bounded(o@, 16777216),
        v_bounded(d@, 16777216),
        -1180591620717411303424 <= num <= 1180591620717411303424,
    ensures
        r@ == along(o@, d@, num as int, den as int),
        v_bounded(r@, 39614081257132168796771975168),
{
    let m: i128 = 19807040628566084398385987584;
    proof {
        lemma_mul_bound(d.x as int, num as int, 16777216, 1180591620717411303424);
        lemma_mul_bound(d.y as int, num as int, 16777216, 1180591620717411303424);
        lemma_mul_bound(d.z as int, num as int, 16777216, 1180591620717411303424);
    }
    let g = Vec3::new(div_floor(d.x * num, den), div_floor(d.y * num, den), div_floor(d.z * num, den));
    proof {
        lemma_quotient_bound(d.x * num, den as int, m as int);
        lemma_quotient_bound(d.y * num, den as int, m as int);
        lemma_quotient_bound(d.z * num, den as int, m as int);
        assert(m * den >= m) by (nonlinear_arith)
            requires
                den >= 1,
                m >= 0,
        ;
    }
    vadd(o, g)
}

/// `ray_plane_hit` for a ray and a plane.
fn ray_plane_hit_exec(o: Vec3, d: Vec3, off: Vec3, n: Vec3, e: i128) -> (r: (bool, Option<Vec3>))
    requires
        coord_ok(o@),
        coord_ok(d@),
        coord_ok(off@),
        coord_ok(n@),
        vicinity_ok(e as int),
    ensures
        hit_view(r) == ray_plane_hit(o@, d@, off@, n@, e as int),
{
    let rel = vsub(off, o);
    let num = vdot(n, rel);
    let den = vdot(n, d);
    proof {
        lemma_dot_bound(n@, rel@, 1048576, 2097152);
        lemma_dot_bound(n@, d@, 1048576, 1048576);
    }
    if den == 0 {
        let n2 = vdot(n, n);
        proof {
            lemma_mul_bound(num as int, num as int, 8796093022208, 8796093022208);
            lemma_norm2_bound(n@, 1048576);
            lemma_mul_bound(e as int, e as int, 1048576, 1048576);
            lemma_mul_bound((e * e) as int, n2 as int, 1099511627776, 3298534883328);
        }
        if num * num <= e * e * n2 {
            (true, Some(o))
        } else {
            (false, None)
        }
    } else if den > 0 || num > 0 {
        (false, None)
    } else {
        (true, Some(along_exec(o, d, -num, -den)))
    }
}

impl Ray {
    pub open spec fn wf(&self) -> bool {
        &&& coord_ok(self._ori@)
        &&& coord_ok(self._dir@)
        &&& !v_is_zero(self._dir@)
        &&& (self._bound.bound_lower.x as int, self._bound.bound_upper.x as int) == ray_extent(
            self._ori.x as int,
            self._dir.x as int,
        )
        &&& (self._bound.bound_lower.y as int, self._bound.bound_upper.y as int) == ray_extent(
            self._ori.y as int,
            self._dir.y as int,
        )
        &&& (self._bound.bound_lower.z as int, self._bound.bound_upper.z as int) == ray_extent(
            self._ori.z as int,
            self._dir.z as int,
        )
        &&& vicinity_ok(self._vicinity as int)
    }

    pub fn init(origin: &[i64], dir: &[i64]) -> (r: Ray)
        requires
            origin@.len() == 3,
            dir@.len() == 3,
            coords_ok(origin@),
            coords_ok(dir@),
            !(dir@[0] == 0 && dir@[1] == 0 && dir@[2] == 0),
        ensures
            r.wf(),
            r._ori@ == (origin@[0] as int, origin@[1] as int, origin@[2] as int),
            r._dir@ == (dir@[0] as int, dir@[1] as int, dir@[2] as int),
            r._vicinity == FIXED_VICINITY,
    {
        let vals = vec![origin[0], origin[1], origin[2], dir[0], dir[1], dir[2]];
        Ray {
            _ori: Vec3::from_slice(origin),
            _dir: Vec3::from_slice(dir),
            _bound: AxisAlignedBBox::new(ShapeType::Ray, vals.as_slice()),
            _vicinity: FIXED_VICINITY as i128,
        }
    }

    pub(crate) fn intersect_plane(&self, other: &Plane) -> (r: (bool, Option<Vec3>))
        requires
            self.wf(),
            other.wf(),
        ensures
            hit_view(r) == ray_plane(*self, *other),
    {
        ray_plane_hit_exec(self._ori, self._dir, other._offset, other._normal, self._vicinity)
    }

    pub(crate) fn intersect_sphere(&self, other: &Sphere) -> (r: (bool, Option<Vec3>))
        requires
            self.wf(),
            other.wf(),
        ensures
            hit_view(r) == ray_sphere(*self, *other),
    {
        let a_dir = self._dir;
        let a_off = self._ori;
        let b_r = other._radius;
        let relative_offset = vsub(a_off, other._ori);
        let b = vdot(relative_offset, a_dir);
        let a = vdot(a_dir, a_dir);
        let rel2 = vdot(relative_offset, relative_offset);
        proof {
            lemma_dot_bound(relative_offset@, a_dir@, 0x20_0000, 0x10_0000);
            lemma_norm2_bound(a_dir@, 0x10_0000);
            lemma_norm2_zero(a_dir@);
            lemma_norm2_bound(relative_offset@, 0x20_0000);
            lemma_mul_bound(b_r as int, b_r as int, 0x10_0000, 0x10_0000);
        }
        let c = rel2 - b_r * b_r;
        if b > 0 && c > 0 {
            return (false, None);
        }
        proof {
            lemma_mul_bound(b as int, b as int, 0x800_0000_0000, 0x800_0000_0000);
            lemma_mul_bound(a as int, c as int, 0x400_0000_0000, 0x1000_0000_0000);
        }
        let d = b * b - a * c;
        if d < 0 {
            return (false, None);
        }
        let s = isqrt_exec(d);
        proof {
            assert(s < 0x10_0000_0000_0000) by (nonlinear_arith)
                requires
                    s * s <= d,
                    d < 0x100_0000_0000_0000_0000_0000,
                    s >= 0,
            ;
        }
        let t = if b <= 0 && b * b >= d {
            -b - s
        } else {
            -b + s
        };
        (true, Some(along_exec(a_off, a_dir, t, a)))
    }
}

impl Vicinity for Ray {
    open spec fn vicinity(&self) -> int {
        self._vicinity as int
    }

    open spec fn with_vicinity(&self, e: int) -> Self {
        Ray { _vicinity: e as i128, ..*self }
    }

    fn set_vicinity(&mut self, epsilon: i64) {
        self._vicinity = if epsilon < 0 {
            -(epsilon as i128)
        } else {
            epsilon as i128
        };
    }

    fn within_vicinity(&self, a: i128, b: i128) -> (r: bool) {
        a + self._vicinity >= b && a - self._vicinity <= b
    }
}

impl AnyBase for Ray {
    open spec fn to_any(&self) -> AnyShape {
        AnyShape::Ray(*self)
    }

    fn as_any(&self) -> (r: AnyShape) {
        AnyShape::Ray(*self)
    }
}

impl Shape for Ray {
    fn get_type(&self) -> (r: ShapeType) {
        ShapeType::Ray
    }

    fn get_bound(&self) -> (r: &AxisAlignedBBox) {
        &self._bound
    }

    fn get_intersect<S: AnyBase>(&self, other: &S) -> (r: (bool, Option<Vec3>)) {
        self.as_any().get_intersect(&other.as_any())
    }

    fn get_support(&self, v: &Vec3) -> (r: Option<Vec3>) {
        self.as_any().get_support(v)
    }
}

} // verus!
