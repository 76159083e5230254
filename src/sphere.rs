//! Spheres.
use crate::bound_aabb::AxisAlignedBBox;
use crate::point::Point;
use crate::shape::{AnyBase, AnyShape, Hit, Shape, ShapeType, hit_view};
use crate::vector::{
    coord_ok, coords_ok, div_floor, lemma_div_le, lemma_mul_bound, lemma_norm2_zero, opt_view, scale_sqrt, scale_sqrt_exec, v_add, v_bounded, v_is_zero,
    v_norm2, v_sub, vadd, vdot, vsub, Vec3, LIM_DIR, MAX_COORD, V3,
};
use crate::vicinity::{vicinity_ok, Vicinity, FIXED_VICINITY};
use vstd::prelude::*;

verus! {

#[derive(Clone, Copy, Debug, PartialEq, Eq, Structural)]
pub struct Sphere {
    pub _ori: Vec3,
    pub _radius: i128,
    pub _bound: AxisAlignedBBox,
    pub _vicinity: i128,
}

/// The point that divides the way from `a` to `a + c` in the ratio `ra : rb`,
/// rounded down; `a` itself when both radii are zero.
pub open spec fn weighted_point(a: V3, c: V3, ra: int, rb: int) -> V3 {
    let s = ra + rb;
    if s == 0 {
        a
    } else {
        v_add(a, (c.0 * ra / s, c.1 * ra / s, c.2 * ra / s))
    }
}

/// Two spheres meet when the distance between their centers is at most the sum
/// of their radii; the location divides the line between the centers in the
/// ratio of the radii.
pub open spec fn sphere_sphere(a: Sphere, b: Sphere) -> Hit {
    let c = v_sub(b._ori@, a._ori@);
    let s = a._radius + b._radius;
    if v_norm2(c) > s * s {
        (false, None)
    } else {
        (true, Some(weighted_point(a._ori@, c, a._radius as int, b._radius as int)))
    }
}

/// A point meets a sphere when no coordinate of the point exceeds the
/// center's by more than the radius (a per-axis test, not a distance test);
/// the location is the point.
pub open spec fn sphere_point(s: Sphere, p: Point) -> Hit {
    let d = v_sub(p._ori@, s._ori@);
    if d.0 > s._radius || d.1 > s._radius || d.2 > s._radius {
        (false, None)
    } else {
        (true, Some(p._ori@))
    }
}

/// The point of the sphere farthest along `v`: the center moved by the
/// radius along `v`, each offset rounded toward zero; none for a zero `v`.
pub open spec fn sphere_support(s: Sphere, v: V3) -> Option<V3> {
    if v_is_zero(v) {
        None
    } else {
        let r2 = s._radius * s._radius;
        let n = v_norm2(v);
        Some(
            v_add(s._ori@, (scale_sqrt(v.0, r2, n), scale_sqrt(v.1, r2, n), scale_sqrt(v.2, r2, n))),
        )
    }
}

/// An offset `q` with `q^2 <= x^2 r^2 / n` and `x^2 <= n` is at most `r` long.
proof fn lemma_support_offset(x: int, n: int, r: int, q: int)
    requires
        0 <= x * x <= n,
        0 < n,
        0 <= r,
        q * q <= (x * x * (r * r)) / n,
    ensures
        -r <= q <= r,
{
    assert(0 <= x * x * (r * r) <= n * (r * r)) by (nonlinear_arith)
        requires
            0 <= x * x <= n,
    ;
    lemma_div_le(x * x * (r * r), n, r * r);
    assert(-r <= q <= r) by (nonlinear_arith)
        requires
            q * q <= r * r,
            0 <= r,
    ;
}

impl Sphere {
    pub(crate) fn support(&self, v: Vec3) -> (r: Option<Vec3>)
        requires
            self.wf(),
            v_bounded(v@, LIM_DIR as int),
        ensures
            opt_view(r) == sphere_support(*self, v@),
            r matches Some(p) ==> v_bounded(p@, 2097152),
    {
        if v.is_zero() {
            return None;
        }
        let n = vdot(v, v);
        proof {
            lemma_mul_bound(self._radius as int, self._radius as int, 1048576, 1048576);
        }
        let r2 = self._radius * self._radius;
        proof {
            lemma_norm2_zero(v@);
            lemma_mul_bound(v.x as int, v.x as int, 16777216, 16777216);
            lemma_mul_bound(v.y as int, v.y as int, 16777216, 16777216);
            lemma_mul_bound(v.z as int, v.z as int, 16777216, 16777216);
            lemma_mul_bound((v.x * v.x) as int, r2 as int, 281474976710656, 1099511627776);
            lemma_mul_bound((v.y * v.y) as int, r2 as int, 281474976710656, 1099511627776);
            lemma_mul_bound((v.z * v.z) as int, r2 as int, 281474976710656, 1099511627776);
            assert(v.x * v.x >= 0 && v.y * v.y >= 0 && v.z * v.z >= 0) by (nonlinear_arith);
        }
        let g = Vec3::new(
            scale_sqrt_exec(v.x, r2, n),
            scale_sqrt_exec(v.y, r2, n),
            scale_sqrt_exec(v.z, r2, n),
        );
        proof {
            lemma_support_offset(v.x as int, n as int, self._radius as int, g.x as int);
            lemma_support_offset(v.y as int, n as int, self._radius as int, g.y as int);
            lemma_support_offset(v.z as int, n as int, self._radius as int, g.z as int);
        }
        Some(vadd(self._ori, g))
    }

    pub open spec fn wf(&self) -> bool {
        &&& coord_ok(self._ori@)
        &&& 0 <= self._radius <= MAX_COORD
        &&& self._bound.bound_lower@ == v_sub(
            self._ori@,
            (self._radius as int, self._radius as int, self._radius as int),
        )
        &&& self._bound.bound_upper@ == v_add(
            self._ori@,
            (self._radius as int, self._radius as int, self._radius as int),
        )
        &&& vicinity_ok(self._vicinity as int)
    }

    pub fn init(origin: &[i64], r: i64) -> (s: Sphere)
        requires
            origin@.len() == 3,
            coords_ok(origin@),
            0 <= r <= MAX_COORD,
        ensures
            s.wf(),
            s._ori@ == (origin@[0] as int, origin@[1] as int, origin@[2] as int),
            s._radius == r,
            s._vicinity == FIXED_VICINITY,
    {
        let vals = vec![origin[0], origin[1], origin[2], r];
        Sphere {
            _ori: Vec3::from_slice(origin),
            _radius: r as i128,
            _bound: AxisAlignedBBox::new(ShapeType::Sphere, vals.as_slice()),
            _vicinity: FIXED_VICINITY as i128,
        }
    }

    pub(crate) fn intersect_sphere(&self, other: &Sphere) -> (r: (bool, Option<Vec3>))
        requires
            self.wf(),
            other.wf(),
        ensures
            hit_view(r) == sphere_sphere(*self, *other),
    {
        let a_off = self._ori;
        let a_r = self._radius;
        let b_r = other._radius;
        let c = vsub(other._ori, a_off);
        let d = vdot(c, c);
        let s = a_r + b_r;
        proof {
            lemma_mul_bound(s as int, s as int, 2 * MAX_COORD as int, 2 * MAX_COORD as int);
        }
        if d > s * s {
            (false, None)
        } else if s == 0 {
            (true, Some(a_off))
        } else {
            proof {
                let m = 2 * MAX_COORD as int;
                lemma_mul_bound(c.x as int, a_r as int, m, s as int);
                lemma_mul_bound(c.y as int, a_r as int, m, s as int);
                lemma_mul_bound(c.z as int, a_r as int, m, s as int);
            }
            let g = Vec3::new(
                div_floor(c.x * a_r, s),
                div_floor(c.y * a_r, s),
                div_floor(c.z * a_r, s),
            );
            proof {
                lemma_quotient_bound(c.x * a_r, s as int, 2 * MAX_COORD as int);
                lemma_quotient_bound(c.y * a_r, s as int, 2 * MAX_COORD as int);
                lemma_quotient_bound(c.z * a_r, s as int, 2 * MAX_COORD as int);
            }
            (true, Some(vadd(a_off, g)))
        }
    }

    pub(crate) fn intersect_point(&self, other: &Point) -> (r: (bool, Option<Vec3>))
        requires
            self.wf(),
            other.wf(),
        ensures
            hit_view(r) == sphere_point(*self, *other),
    {
        let b_off = other._ori;
        let d = vsub(b_off, self._ori);
        if d.x > self._radius || d.y > self._radius || d.z > self._radius {
            (false, None)
        } else {
            (true, Some(b_off))
        }
    }
}

impl Vicinity for Sphere {
    open spec fn vicinity(&self) -> int {
        self._vicinity as int
    }

    open spec fn with_vicinity(&self, e: int) -> Self {
        Sphere { _vicinity: e as i128, ..*self }
    }

    fn set_vicinity(&mut self, epsilon: i64) {
        self._vicinity = if epsilon < 0 {
            -(epsilon as i128)
        } else {
            epsilon as i128
        };
    }

    fn within_vicinity(&self, a: i128, b: i128) -> (r: bool) {
        a + self._vicinity >= b && a - self._vicinity <= b
    }
}

/// `|a| <= m * s` and `s > 0` bound the floor quotient `a / s` by `m`.
pub proof fn lemma_quotient_bound(a: int, s: int, m: int)
    requires
        s > 0,
        0 <= m,
        -(m * s) <= a <= m * s,
    ensures
        -m <= a / s <= m,
{
    vstd::arithmetic::div_mod::lemma_fundamental_div_mod(a, s);
    vstd::arithmetic::div_mod::lemma_mod_bound(a, s);
    let q = a / s;
    let r = a % s;
    assert(-m <= q <= m) by (nonlinear_arith)
        requires
            a == s * q + r,
            0 <= r < s,
            -(m * s) <= a <= m * s,
            s > 0,
    ;
}

impl AnyBase for Sphere {
    open spec fn to_any(&self) -> AnyShape {
        AnyShape::Sphere(*self)
    }

    fn as_any(&self) -> (r: AnyShape) {
        AnyShape::Sphere(*self)
    }
}

impl Shape for Sphere {
    fn get_type(&self) -> (r: ShapeType) {
        ShapeType::Sphere
    }

    fn get_bound(&self) -> (r: &AxisAlignedBBox) {
        &self._bound
    }

    fn get_intersect<S: AnyBase>(&self, other: &S) -> (r: (bool, Option<Vec3>)) {
        self.as_any().get_intersect(&other.as_any())
    }

    fn get_support(&self, v: &Vec3) -> (r: Option<Vec3>) {
        self.as_any().get_support(v)
    }
}

} // verus!
