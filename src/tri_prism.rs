//! Triangular prisms: a triangle swept along its normal.
use crate::bound::{v_max, v_min};
use crate::bound_aabb::AxisAlignedBBox;
use crate::line::Line;
use crate::point::Point;
use crate::ray::{along, along_exec};
use crate::shape::{AnyBase, AnyShape, Hit, Shape, ShapeType, hit_view};
use crate::sphere::lemma_quotient_bound;
use crate::vector::{
    lemma_dot_bound,
    coord_ok, coords_ok, div_floor, isqrt, isqrt_exec, lemma_cross_bound, lemma_mul_bound,
    lemma_norm2_bound, lemma_norm2_zero, v_add, v_bounded, v_cross, v_dot,
    v_is_zero, v_neg, v_norm2, v_sub, vadd, vcross, vdot, vneg, vsub, Vec3, MAX_COORD, V3,
    farthest, farthest_point, opt_view, LIM_DIR,
};
use crate::vicinity::{vicinity_ok, Vicinity, SCALAR_EPSILON};
use vstd::prelude::*;

verus! {

/// The base triangle `_tri_base` (counter-clockwise), the same triangle moved
/// by `_normal_height` as `_tri_base2`, `_normal_height`: the base's normal
/// scaled to the signed height and rounded, and `_base_normal`: the base's
/// exact normal, turned toward the top (zero for a zero height).
#[derive(Clone, Copy, Debug)]
pub struct TriPrism {
    pub _tri_base: [Vec3; 3],
    pub _tri_base2: [Vec3; 3],
    pub _normal_height: Vec3,
    pub _base_normal: Vec3,
    pub _bound: AxisAlignedBBox,
    pub _vicinity: i128,
}

/// The normal `n` scaled to length `h`, each component rounded down:
/// `n * h / isqrt(|n|^2)`.
pub open spec fn scaled_normal(n: V3, h: int) -> V3 {
    let s = isqrt(v_norm2(n));
    (n.0 * h / s, n.1 * h / s, n.2 * h / s)
}

/// `n` turned to the sign of `h`: zero for a zero `h`.
pub open spec fn oriented(n: V3, h: int) -> V3 {
    if h > 0 {
        n
    } else if h < 0 {
        v_neg(n)
    } else {
        (0, 0, 0)
    }
}

/// The base normal of the triangle `p0, p1, p2`.
pub open spec fn base_normal(p0: V3, p1: V3, p2: V3) -> V3 {
    v_cross(v_sub(p1, p0), v_sub(p2, p0))
}

pub open spec fn base(t: TriPrism, i: int) -> V3 {
    t._tri_base@[i]@
}

pub open spec fn top(t: TriPrism, i: int) -> V3 {
    t._tri_base2@[i]@
}

/// Facet `i` of the five, as a point on it and its normal: the base and the
/// top, both normal to the base triangle, then the three sides, each normal
/// an edge crossed with the sweep. For a positive height the normals point
/// outward; a negative height turns the side normals inward.
pub open spec fn facet(t: TriPrism, i: int) -> (V3, V3) {
    let n = t._normal_height@;
    let m = t._base_normal@;
    if i == 0 {
        (base(t, 0), v_neg(m))
    } else if i == 1 {
        (top(t, 0), m)
    } else if i == 2 {
        (base(t, 0), v_cross(v_sub(base(t, 1), base(t, 0)), n))
    } else if i == 3 {
        (base(t, 1), v_cross(v_sub(base(t, 2), base(t, 1)), n))
    } else {
        (base(t, 2), v_cross(v_sub(base(t, 0), base(t, 2)), n))
    }
}

/// `p` is not beyond facet `i`: in the closed half-space behind it.
pub open spec fn behind_facet(t: TriPrism, i: int, p: V3) -> bool {
    v_dot(v_sub(p, facet(t, i).0), facet(t, i).1) <= 0
}

/// `p` lies in all five half-spaces of the prism's facets.
pub open spec fn prism_contains(t: TriPrism, p: V3) -> bool {
    &&& behind_facet(t, 0, p)
    &&& behind_facet(t, 1, p)
    &&& behind_facet(t, 2, p)
    &&& behind_facet(t, 3, p)
    &&& behind_facet(t, 4, p)
}

pub open spec fn prism_point(t: TriPrism, p: Point) -> Hit {
    if prism_contains(t, p._ori@) {
        (true, Some(p._ori@))
    } else {
        (false, None)
    }
}

/// The point `a + v * p / q` (`q > 0`) is behind facet `i`, tested without
/// division: `q ((a - f) . n) + p (v . n) <= 0`.
pub open spec fn behind_at(t: TriPrism, i: int, a: V3, v: V3, p: int, q: int) -> bool {
    q * v_dot(v_sub(a, facet(t, i).0), facet(t, i).1) + p * v_dot(v, facet(t, i).1) <= 0
}

/// The point at parameter `p / q` in `[0, 1]` of the segment from `a` to
/// `a + v` lies in all five half-spaces of the prism.
pub open spec fn meets_at(t: TriPrism, a: V3, v: V3, p: int, q: int) -> bool {
    &&& 0 < q
    &&& 0 <= p <= q
    &&& behind_at(t, 0, a, v, p, q)
    &&& behind_at(t, 1, a, v, p, q)
    &&& behind_at(t, 2, a, v, p, q)
    &&& behind_at(t, 3, a, v, p, q)
    &&& behind_at(t, 4, a, v, p, q)
}

/// Some point of the segment from `a` to `b` lies in all five half-spaces.
pub open spec fn segment_meets(t: TriPrism, a: V3, b: V3) -> bool {
    exists|p: int, q: int| #[trigger] meets_at(t, a, v_sub(b, a), p, q)
}

/// The parameter `p / q` at which the segment from `a` along `v` crosses
/// the plane of facet `i`: `p = (a - f) . n` and `q = -(v . n)`.
pub open spec fn crossing(t: TriPrism, i: int, a: V3, v: V3) -> (int, int) {
    (v_dot(v_sub(a, facet(t, i).0), facet(t, i).1), -v_dot(v, facet(t, i).1))
}

/// The first facet from `i` on whose plane the segment from `a` to `b`
/// enters the prism; the location is the crossing, rounded down.
pub open spec fn cast_facets(t: TriPrism, a: V3, b: V3, i: int) -> Hit
    decreases 5 - i,
{
    if i >= 5 {
        (false, None)
    } else {
        let v = v_sub(b, a);
        let c = crossing(t, i, a, v);
        if meets_at(t, a, v, c.0, c.1) {
            (true, Some(along(a, v, c.0, c.1)))
        } else {
            cast_facets(t, a, b, i + 1)
        }
    }
}

/// A segment meets the prism at its first endpoint when that is inside, else
/// at its second when that is inside, else where it enters the prism through
/// a facet: the nearest point of the segment inside the prism.
pub open spec fn prism_line(t: TriPrism, l: Line) -> Hit {
    let a = l._a@;
    let b = l._b@;
    if prism_contains(t, a) {
        (true, Some(a))
    } else if prism_contains(t, b) {
        (true, Some(b))
    } else {
        cast_facets(t, a, b, 0)
    }
}

pub open spec fn span_lower(t: TriPrism) -> V3 {
    v_min(
        v_min(v_min(v_min(v_min(base(t, 0), base(t, 1)), base(t, 2)), top(t, 0)), top(t, 1)),
        top(t, 2),
    )
}

pub open spec fn span_upper(t: TriPrism) -> V3 {
    v_max(
        v_max(v_max(v_max(v_max(base(t, 0), base(t, 1)), base(t, 2)), top(t, 0)), top(t, 1)),
        top(t, 2),
    )
}

fn vmin(a: Vec3, b: Vec3) -> (r: Vec3)
    ensures
        r@ == v_min(a@, b@),
{
    Vec3::new(
        if a.x <= b.x { a.x } else { b.x },
        if a.y <= b.y { a.y } else { b.y },
        if a.z <= b.z { a.z } else { b.z },
    )
}

fn vmax(a: Vec3, b: Vec3) -> (r: Vec3)
    ensures
        r@ == v_max(a@, b@),
{
    Vec3::new(
        if a.x >= b.x { a.x } else { b.x },
        if a.y >= b.y { a.y } else { b.y },
        if a.z >= b.z { a.z } else { b.z },
    )
}

/// The six vertices: the base, then the top.
pub open spec fn prism_vertices(t: TriPrism) -> Seq<V3> {
    seq![base(t, 0), base(t, 1), base(t, 2), top(t, 0), top(t, 1), top(t, 2)]
}

/// The vertex farthest along `v` (the last of equally far ones); none for a
/// zero `v`.
pub open spec fn prism_support(t: TriPrism, v: V3) -> Option<V3> {
    if v_is_zero(v) {
        None
    } else {
        Some(farthest_point(prism_vertices(t), v))
    }
}

impl TriPrism {
    pub(crate) fn support(&self, v: Vec3) -> (r: Option<Vec3>)
        requires
            self.wf(),
            v_bounded(v@, LIM_DIR as int),
        ensures
            opt_view(r) == prism_support(*self, v@),
            r matches Some(p) ==> v_bounded(p@, 2097152),
    {
        if v.is_zero() {
            return None;
        }
        let b = self._tri_base;
        let t = self._tri_base2;
        let points = vec![b[0], b[1], b[2], t[0], t[1], t[2]];
        assert(forall|i: int| 0 <= i < 6 ==> v_bounded((#[trigger] points@[i])@, 2097152));
        let k = farthest(&points, v);
        assert(points@.map_values(|p: Vec3| p@) =~= prism_vertices(*self));
        Some(points[k])
    }

    pub open spec fn wf(&self) -> bool {
        &&& coord_ok(base(*self, 0))
        &&& coord_ok(base(*self, 1))
        &&& coord_ok(base(*self, 2))
        &&& coord_ok(self._normal_height@)
        &&& v_bounded(self._base_normal@, 549755813888)
        &&& top(*self, 0) == v_add(base(*self, 0), self._normal_height@)
        &&& top(*self, 1) == v_add(base(*self, 1), self._normal_height@)
        &&& top(*self, 2) == v_add(base(*self, 2), self._normal_height@)
        &&& self._bound.bound_lower@ == span_lower(*self)
        &&& self._bound.bound_upper@ == span_upper(*self)
        &&& vicinity_ok(self._vicinity as int)
    }

    /// The prism over the triangle `tri_base` (three points, counter-clockwise)
    /// with signed height `height` along the triangle's normal.
    pub fn init(tri_base: &[i64], height: i64) -> (r: TriPrism)
        requires
            tri_base@.len() == 9,
            coords_ok(tri_base@),
            -MAX_COORD <= height <= MAX_COORD,
            !v_is_zero(
                base_normal(
                    (tri_base@[0] as int, tri_base@[1] as int, tri_base@[2] as int),
                    (tri_base@[3] as int, tri_base@[4] as int, tri_base@[5] as int),
                    (tri_base@[6] as int, tri_base@[7] as int, tri_base@[8] as int),
                ),
            ),
        ensures
            r.wf(),
            base(r, 0) == (tri_base@[0] as int, tri_base@[1] as int, tri_base@[2] as int),
            base(r, 1) == (tri_base@[3] as int, tri_base@[4] as int, tri_base@[5] as int),
            base(r, 2) == (tri_base@[6] as int, tri_base@[7] as int, tri_base@[8] as int),
            r._normal_height@ == scaled_normal(
                base_normal(base(r, 0), base(r, 1), base(r, 2)),
                height as int,
            ),
            r._base_normal@ == oriented(base_normal(base(r, 0), base(r, 1), base(r, 2)), height as int),
            r._vicinity == SCALAR_EPSILON,
    {
        let v0 = Vec3::new(tri_base[0] as i128, tri_base[1] as i128, tri_base[2] as i128);
        let v1 = Vec3::new(tri_base[3] as i128, tri_base[4] as i128, tri_base[5] as i128);
        let v2 = Vec3::new(tri_base[6] as i128, tri_base[7] as i128, tri_base[8] as i128);
        let d1 = vsub(v1, v0);
        let d2 = vsub(v2, v0);
        let normal = vcross(d1, d2);
        proof {
            lemma_cross_bound(d1@, d2@, 2097152, 2097152);
            lemma_cross_bound(d1@, d2@, 524288, 524288);
            lemma_norm2_bound(normal@, 8796093022208);
            lemma_norm2_zero(normal@);
        }
        let n2 = vdot(normal, normal);
        let s = isqrt_exec(n2);
        let h = height as i128;
        proof {
            let m: int = if h < 0 { -(h as int) } else { h as int };
            assert(s > 0) by (nonlinear_arith)
                requires
                    n2 < (s + 1) * (s + 1),
                    n2 > 0,
                    s >= 0,
            ;
            lemma_component_le_norm(normal@, s as int);
            lemma_mul_bound(normal.x as int, h as int, s as int, m as int);
            lemma_mul_bound(normal.y as int, h as int, s as int, m as int);
            lemma_mul_bound(normal.z as int, h as int, s as int, m as int);
            lemma_mul_bound(normal.x as int, h as int, 8796093022208, 1048576);
            lemma_mul_bound(normal.y as int, h as int, 8796093022208, 1048576);
            lemma_mul_bound(normal.z as int, h as int, 8796093022208, 1048576);
            assert(m * s == s * m) by (nonlinear_arith);
        }
        let h_offset = Vec3::new(
            div_floor(normal.x * h, s),
            div_floor(normal.y * h, s),
            div_floor(normal.z * h, s),
        );
        proof {
            let m: int = if h < 0 { -(h as int) } else { h as int };
            lemma_quotient_bound(normal.x * h, s as int, m as int);
            lemma_quotient_bound(normal.y * h, s as int, m as int);
            lemma_quotient_bound(normal.z * h, s as int, m as int);
        }
        let m = if h > 0 {
            normal
        } else if h < 0 {
            vneg(normal)
        } else {
            Vec3::new(0, 0, 0)
        };
        let v00 = vadd(v0, h_offset);
        let v11 = vadd(v1, h_offset);
        let v22 = vadd(v2, h_offset);
        let lower = vmin(vmin(vmin(vmin(vmin(v0, v1), v2), v00), v11), v22);
        let upper = vmax(vmax(vmax(vmax(vmax(v0, v1), v2), v00), v11), v22);
        let r = TriPrism {
            _tri_base: [v0, v1, v2],
            _tri_base2: [v00, v11, v22],
            _normal_height: h_offset,
            _base_normal: m,
            _bound: AxisAlignedBBox { bound_lower: lower, bound_upper: upper },
            _vicinity: SCALAR_EPSILON as i128,
        };
        assert(base(r, 0) == v0@ && base(r, 1) == v1@ && base(r, 2) == v2@);
        assert(top(r, 0) == v00@ && top(r, 1) == v11@ && top(r, 2) == v22@);
        r
    }

    /// Facet `i` (see `facet`).
    fn facet_exec(&self, i: usize) -> (r: (Vec3, Vec3))
        requires
            self.wf(),
            i < 5,
        ensures
            (r.0@, r.1@) == facet(*self, i as int),
            v_bounded(r.0@, 524288),
            v_bounded(r.1@, 549755813888),
    {
        let n = self._normal_height;
        let b = self._tri_base;
        proof {
            lemma_cross_bound(v_sub(base(*self, 1), base(*self, 0)), n@, 524288, 262144);
            lemma_cross_bound(v_sub(base(*self, 2), base(*self, 1)), n@, 524288, 262144);
            lemma_cross_bound(v_sub(base(*self, 0), base(*self, 2)), n@, 524288, 262144);
        }
        if i == 0 {
            (b[0], vneg(self._base_normal))
        } else if i == 1 {
            (self._tri_base2[0], self._base_normal)
        } else if i == 2 {
            (b[0], vcross(vsub(b[1], b[0]), n))
        } else if i == 3 {
            (b[1], vcross(vsub(b[2], b[1]), n))
        } else {
            (b[2], vcross(vsub(b[0], b[2]), n))
        }
    }

    /// `behind_at` for all five facets, for a point of a segment of the line.
    fn meets_exec(&self, a: Vec3, v: Vec3, p: i128, q: i128) -> (r: bool)
        requires
            self.wf(),
            coord_ok(a@),
            v_bounded(v@, 524288),
            0 <= p <= 2305843009213693952,
            0 < q <= 2305843009213693952,
        ensures
            r == (behind_at(*self, 0, a@, v@, p as int, q as int) && behind_at(
                *self,
                1,
                a@,
                v@,
                p as int,
                q as int,
            ) && behind_at(*self, 2, a@, v@, p as int, q as int) && behind_at(
                *self,
                3,
                a@,
                v@,
                p as int,
                q as int,
            ) && behind_at(*self, 4, a@, v@, p as int, q as int)),
    {
        let mut i: usize = 0;
        while i < 5
            invariant
                self.wf(),
                coord_ok(a@),
                v_bounded(v@, 524288),
                0 <= p <= 2305843009213693952,
                0 < q <= 2305843009213693952,
                0 <= i <= 5,
                forall|j: int| 0 <= j < i ==> behind_at(*self, j, a@, v@, p as int, q as int),
            decreases 5 - i,
        {
            let f = self.facet_exec(i);
            let w = vsub(a, f.0);
            let d1 = vdot(w, f.1);
            let d2 = vdot(v, f.1);
            proof {
                lemma_dot_bound(w@, f.1@, 1048576, 549755813888);
                lemma_dot_bound(v@, f.1@, 524288, 549755813888);
                lemma_mul_bound(q as int, d1 as int, 2305843009213693952, 2305843009213693952);
                lemma_mul_bound(p as int, d2 as int, 2305843009213693952, 2305843009213693952);
            }
            if q * d1 + p * d2 > 0 {
                return false;
            }
            i = i + 1;
        }
        true
    }

    /// `prism_contains` for a point near the prism.
    fn contains_exec(&self, p: Vec3) -> (r: bool)
        requires
            self.wf(),
            v_bounded(p@, 16777216),
        ensures
            r == prism_contains(*self, p@),
    {
        let mut i: usize = 0;
        while i < 5
            invariant
                self.wf(),
                v_bounded(p@, 16777216),
                0 <= i <= 5,
                forall|j: int| 0 <= j < i ==> behind_facet(*self, j, p@),
            decreases 5 - i,
        {
            let f = self.facet_exec(i);
            if vdot(vsub(p, f.0), f.1) > 0 {
                return false;
            }
            i = i + 1;
        }
        assert(behind_facet(*self, 0, p@) && behind_facet(*self, 1, p@) && behind_facet(
            *self,
            2,
            p@,
        ) && behind_facet(*self, 3, p@) && behind_facet(*self, 4, p@));
        true
    }

    pub(crate) fn intersect_point(&self, other: &Point) -> (r: (bool, Option<Vec3>))
        requires
            self.wf(),
            other.wf(),
        ensures
            hit_view(r) == prism_point(*self, *other),
    {
        let other_point = other._ori;
        if self.contains_exec(other_point) {
            (true, Some(other_point))
        } else {
            (false, None)
        }
    }

    pub(crate) fn intersect_line(&self, other: &Line) -> (r: (bool, Option<Vec3>))
        requires
            self.wf(),
            other.wf(),
        ensures
            hit_view(r) == prism_line(*self, *other),
    {
        let a = other._a;
        let b = other._b;
        if self.contains_exec(a) {
            return (true, Some(a));
        } else if self.contains_exec(b) {
            return (true, Some(b));
        }
        //where the segment from a to b crosses each facet's plane
        let v = vsub(b, a);
        let mut i: usize = 0;
        while i < 5
            invariant
                self.wf(),
                other.wf(),
                a == other._a,
                b == other._b,
                v@ == v_sub(b@, a@),
                0 <= i <= 5,
                prism_line(*self, *other) == cast_facets(*self, a@, b@, i as int),
            decreases 5 - i,
        {
            let f = self.facet_exec(i);
            let w = vsub(a, f.0);
            let p = vdot(w, f.1);
            proof {
                lemma_dot_bound(w@, f.1@, 1048576, 549755813888);
                lemma_dot_bound(v@, f.1@, 524288, 549755813888);
            }
            let q = -vdot(v, f.1);
            if 0 < q && 0 <= p && p <= q && self.meets_exec(a, v, p, q) {
                return (true, Some(along_exec(a, v, p, q)));
            }
            i = i + 1;
        }
        (false, None)
    }
}

impl Vicinity for TriPrism {
    open spec fn vicinity(&self) -> int {
        self._vicinity as int
    }

    open spec fn with_vicinity(&self, e: int) -> Self {
        TriPrism { _vicinity: e as i128, ..*self }
    }

    fn set_vicinity(&mut self, epsilon: i64) {
        self._vicinity = if epsilon < 0 {
            -(epsilon as i128)
        } else {
            epsilon as i128
        };
    }

    fn within_vicinity(&self, a: i128, b: i128) -> (r: bool) {
        a + self._vicinity >= b && a - self._vicinity <= b
    }
}

/// Outside `[-m, m]`, the square exceeds `m * m`.
proof fn lemma_big_square(x: int, m: int)
    requires
        0 <= m,
    ensures
        (x < -m || x > m) ==> x * x > m * m,
        x * x >= 0,
{
    assert((x < -m || x > m) ==> x * x > m * m) by (nonlinear_arith)
        requires
            0 <= m,
    ;
    assert(x * x >= 0) by (nonlinear_arith);
}

/// Each component of `n` is at most the integer square root of `|n|^2`.
proof fn lemma_component_le_norm(n: V3, s: int)
    requires
        s >= 0,
        v_norm2(n) < (s + 1) * (s + 1),
    ensures
        v_bounded(n, s),
{
    lemma_big_square(n.0, s);
    lemma_big_square(n.1, s);
    lemma_big_square(n.2, s);
    assert((s + 1) * (s + 1) == s * s + 2 * s + 1) by (nonlinear_arith);
    assert(n.0 < -s || n.0 > s ==> n.0 * n.0 >= (s + 1) * (s + 1)) by (nonlinear_arith)
        requires
            s >= 0,
    ;
    assert(n.1 < -s || n.1 > s ==> n.1 * n.1 >= (s + 1) * (s + 1)) by (nonlinear_arith)
        requires
            s >= 0,
    ;
    assert(n.2 < -s || n.2 > s ==> n.2 * n.2 >= (s + 1) * (s + 1)) by (nonlinear_arith)
        requires
            s >= 0,
    ;
}
/// Whether a segment meets the prism does not depend on which endpoint is
/// tested first.
pub proof fn lemma_prism_line_endpoint_order(t: TriPrism, l: Line, m: Line)
    requires
        m._a == l._b,
        m._b == l._a,
    ensures
        prism_line(t, l).0 == prism_line(t, m).0,
{
    lemma_prism_line_meets(t, l);
    lemma_prism_line_meets(t, m);
    let a = l._a@;
    let b = l._b@;
    if segment_meets(t, a, b) {
        let (p, q) = choose|p: int, q: int| #[trigger] meets_at(t, a, v_sub(b, a), p, q);
        lemma_meets_reverse(t, a, v_sub(b, a), p, q);
        assert(v_add(a, v_sub(b, a)) == b && v_neg(v_sub(b, a)) == v_sub(a, b));
        assert(meets_at(t, b, v_sub(a, b), q - p, q));
    }
    if segment_meets(t, b, a) {
        let (p, q) = choose|p: int, q: int| #[trigger] meets_at(t, b, v_sub(a, b), p, q);
        lemma_meets_reverse(t, b, v_sub(a, b), p, q);
        assert(v_add(b, v_sub(a, b)) == a && v_neg(v_sub(a, b)) == v_sub(b, a));
        assert(meets_at(t, a, v_sub(b, a), q - p, q));
    }
}

/// A segment is reported to meet the prism exactly when some point of it
/// lies in all five facet half-spaces.
pub proof fn lemma_prism_line_meets(t: TriPrism, l: Line)
    ensures
        prism_line(t, l).0 == segment_meets(t, l._a@, l._b@),
{
    let a = l._a@;
    let b = l._b@;
    let v = v_sub(b, a);
    if prism_contains(t, a) {
        lemma_endpoints_meet(t, a, b);
        assert(meets_at(t, a, v, 0, 1));
    } else if prism_contains(t, b) {
        lemma_endpoints_meet(t, a, b);
        assert(meets_at(t, a, v, 1, 1));
    } else {
        lemma_cast_facets_meets(t, a, b, 0);
        if segment_meets(t, a, b) {
            let (p, q) = choose|p: int, q: int| #[trigger] meets_at(t, a, v, p, q);
            lemma_entry_facet(t, a, v, p, q);
            let r = best_entry(t, a, v, 0);
            lemma_cast_finds(t, a, b, 0, r);
        }
    }
}

/// A segment with both endpoints outside is reported at the rounded point
/// where it enters the prism: a crossing of a facet plane that lies in all
/// five half-spaces, and the nearest such point of the segment.
pub proof fn lemma_prism_line_nearest(t: TriPrism, l: Line)
    requires
        !prism_contains(t, l._a@),
        !prism_contains(t, l._b@),
        prism_line(t, l).0,
    ensures
        exists|i: int|
            0 <= i < 5 && #[trigger] meets_at(
                t,
                l._a@,
                v_sub(l._b@, l._a@),
                crossing(t, i, l._a@, v_sub(l._b@, l._a@)).0,
                crossing(t, i, l._a@, v_sub(l._b@, l._a@)).1,
            ) && prism_line(t, l).1 == Some(
                along(
                    l._a@,
                    v_sub(l._b@, l._a@),
                    crossing(t, i, l._a@, v_sub(l._b@, l._a@)).0,
                    crossing(t, i, l._a@, v_sub(l._b@, l._a@)).1,
                ),
            ) && forall|p: int, q: int|
                #[trigger] meets_at(t, l._a@, v_sub(l._b@, l._a@), p, q) ==> crossing(
                    t,
                    i,
                    l._a@,
                    v_sub(l._b@, l._a@),
                ).0 * q <= p * crossing(t, i, l._a@, v_sub(l._b@, l._a@)).1,
{
    let a = l._a@;
    let b = l._b@;
    let v = v_sub(b, a);
    let i = lemma_cast_facets_hit(t, a, b, 0);
    let c = crossing(t, i, a, v);
    assert forall|p: int, q: int| #[trigger] meets_at(t, a, v, p, q) implies c.0 * q <= p * c.1 by {
        lemma_behind_at_facet(t, i, a, v, p, q);
    }
}

/// Every location reported for a segment is an endpoint inside the prism or
/// the rounding of a point of the segment in all five half-spaces.
pub proof fn lemma_prism_line_location(t: TriPrism, l: Line)
    ensures
        prism_line(t, l).0 ==> prism_line(t, l).1 == Some(l._a@) && prism_contains(t, l._a@)
            || prism_line(t, l).1 == Some(l._b@) && prism_contains(t, l._b@) || exists|
            p: int,
            q: int,
        |
            #[trigger] meets_at(t, l._a@, v_sub(l._b@, l._a@), p, q) && prism_line(t, l).1 == Some(
                along(l._a@, v_sub(l._b@, l._a@), p, q),
            ),
{
    let a = l._a@;
    let b = l._b@;
    if prism_line(t, l).0 && !prism_contains(t, a) && !prism_contains(t, b) {
        let i = lemma_cast_facets_hit(t, a, b, 0);
        let c = crossing(t, i, a, v_sub(b, a));
        assert(meets_at(t, a, v_sub(b, a), c.0, c.1));
    }
}

/// The facet where `cast_facets` from `i` reports its hit.
proof fn lemma_cast_facets_hit(t: TriPrism, a: V3, b: V3, i: int) -> (r: int)
    requires
        cast_facets(t, a, b, i).0,
    ensures
        i <= r < 5,
        meets_at(t, a, v_sub(b, a), crossing(t, r, a, v_sub(b, a)).0, crossing(t, r, a, v_sub(b, a)).1),
        cast_facets(t, a, b, i).1 == Some(
            along(a, v_sub(b, a), crossing(t, r, a, v_sub(b, a)).0, crossing(t, r, a, v_sub(b, a)).1),
        ),
    decreases 5 - i,
{
    let v = v_sub(b, a);
    let c = crossing(t, i, a, v);
    if meets_at(t, a, v, c.0, c.1) {
        i
    } else {
        lemma_cast_facets_hit(t, a, b, i + 1)
    }
}

proof fn lemma_cast_facets_meets(t: TriPrism, a: V3, b: V3, i: int)
    ensures
        cast_facets(t, a, b, i).0 ==> segment_meets(t, a, b),
    decreases 5 - i,
{
    if cast_facets(t, a, b, i).0 {
        let r = lemma_cast_facets_hit(t, a, b, i);
        let c = crossing(t, r, a, v_sub(b, a));
        assert(meets_at(t, a, v_sub(b, a), c.0, c.1));
    }
}

proof fn lemma_cast_finds(t: TriPrism, a: V3, b: V3, i: int, r: int)
    requires
        0 <= i <= r < 5,
        meets_at(t, a, v_sub(b, a), crossing(t, r, a, v_sub(b, a)).0, crossing(t, r, a, v_sub(b, a)).1),
    ensures
        cast_facets(t, a, b, i).0,
    decreases r - i,
{
    if i < r {
        lemma_cast_finds(t, a, b, i + 1, r);
    }
}

/// `q1 (x + y) + (q1 - p1) (-y) = q1 x + p1 y`.
proof fn lemma_reverse_terms(q1: int, p1: int, x: int, y: int)
    ensures
        q1 * (x + y) + (q1 - p1) * (-y) == q1 * x + p1 * y,
{
    assert(q1 * (x + y) + (q1 - p1) * (-y) == q1 * x + p1 * y) by (nonlinear_arith);
}

proof fn lemma_dot_add(x: V3, y: V3, n: V3)
    ensures
        v_dot(v_add(x, y), n) == v_dot(x, n) + v_dot(y, n),
{
    vstd::arithmetic::mul::lemma_mul_is_distributive_add_other_way(n.0, x.0, y.0);
    vstd::arithmetic::mul::lemma_mul_is_distributive_add_other_way(n.1, x.1, y.1);
    vstd::arithmetic::mul::lemma_mul_is_distributive_add_other_way(n.2, x.2, y.2);
}

proof fn lemma_dot_neg(x: V3, n: V3)
    ensures
        v_dot(v_neg(x), n) == -v_dot(x, n),
{
    vstd::arithmetic::mul::lemma_mul_unary_negation(x.0, n.0);
    vstd::arithmetic::mul::lemma_mul_unary_negation(x.1, n.1);
    vstd::arithmetic::mul::lemma_mul_unary_negation(x.2, n.2);
}

/// Facet `i` taken from the other end of the segment.
proof fn lemma_behind_at_reverse(t: TriPrism, i: int, a: V3, v: V3, p: int, q: int)
    ensures
        behind_at(t, i, a, v, p, q) == behind_at(t, i, v_add(a, v), v_neg(v), q - p, q),
{
    let f = facet(t, i);
    assert(v_sub(v_add(a, v), f.0) == v_add(v_sub(a, f.0), v));
    lemma_dot_add(v_sub(a, f.0), v, f.1);
    lemma_dot_neg(v, f.1);
    lemma_reverse_terms(q, p, v_dot(v_sub(a, f.0), f.1), v_dot(v, f.1));
}

/// The point at `p / q` from `a` is the point at `(q - p) / q` from `a + v`.
proof fn lemma_meets_reverse(t: TriPrism, a: V3, v: V3, p: int, q: int)
    requires
        meets_at(t, a, v, p, q),
    ensures
        meets_at(t, v_add(a, v), v_neg(v), q - p, q),
{
    lemma_behind_at_reverse(t, 0, a, v, p, q);
    lemma_behind_at_reverse(t, 1, a, v, p, q);
    lemma_behind_at_reverse(t, 2, a, v, p, q);
    lemma_behind_at_reverse(t, 3, a, v, p, q);
    lemma_behind_at_reverse(t, 4, a, v, p, q);
}

/// The endpoints are the points at parameters 0 and 1.
proof fn lemma_endpoints_meet(t: TriPrism, a: V3, b: V3)
    ensures
        prism_contains(t, a) ==> meets_at(t, a, v_sub(b, a), 0, 1),
        prism_contains(t, b) ==> meets_at(t, a, v_sub(b, a), 1, 1),
{
    let v = v_sub(b, a);
    assert forall|i: int| 0 <= i < 5 implies (behind_facet(t, i, b) == behind_at(t, i, a, v, 1, 1))
        && (behind_facet(t, i, a) == behind_at(t, i, a, v, 0, 1)) by {
        let f = facet(t, i);
        assert(v_sub(b, f.0) == v_add(v_sub(a, f.0), v));
        lemma_dot_add(v_sub(a, f.0), v, f.1);
    }
}

/// Behind facet `i` at `p / q` means not before the crossing of facet `i`
/// where the segment enters through it.
proof fn lemma_behind_at_facet(t: TriPrism, i: int, a: V3, v: V3, p: int, q: int)
    requires
        behind_at(t, i, a, v, p, q),
    ensures
        crossing(t, i, a, v).0 * q <= p * crossing(t, i, a, v).1,
{
    let d1 = v_dot(v_sub(a, facet(t, i).0), facet(t, i).1);
    let d2 = v_dot(v, facet(t, i).1);
    assert(d1 * q <= p * (-d2)) by (nonlinear_arith)
        requires
            q * d1 + p * d2 <= 0,
    ;
}

/// Of the facets from `i` on that the segment enters through (`q > 0`), the
/// one whose crossing comes last; -1 when there is none.
pub open spec fn best_entry(t: TriPrism, a: V3, v: V3, i: int) -> int
    decreases 5 - i,
{
    if i >= 5 {
        -1
    } else {
        let r = best_entry(t, a, v, i + 1);
        let c = crossing(t, i, a, v);
        if c.1 > 0 && (r == -1 || crossing(t, r, a, v).0 * c.1 <= c.0 * crossing(t, r, a, v).1) {
            i
        } else {
            r
        }
    }
}

proof fn lemma_best_entry(t: TriPrism, a: V3, v: V3, i: int)
    requires
        0 <= i <= 5,
    ensures
        ({
            let r = best_entry(t, a, v, i);
            (r == -1 && forall|j: int| i <= j < 5 ==> (#[trigger] crossing(t, j, a, v)).1 <= 0) || (
            i <= r < 5 && crossing(t, r, a, v).1 > 0 && forall|j: int|
                i <= j < 5 && (#[trigger] crossing(t, j, a, v)).1 > 0 ==> crossing(t, j, a, v).0
                    * crossing(t, r, a, v).1 <= crossing(t, r, a, v).0 * crossing(t, j, a, v).1)
        }),
    decreases 5 - i,
{
    if i < 5 {
        lemma_best_entry(t, a, v, i + 1);
        let r = best_entry(t, a, v, i + 1);
        let c = crossing(t, i, a, v);
        if r != -1 && c.1 > 0 && !(crossing(t, r, a, v).0 * c.1 <= c.0 * crossing(t, r, a, v).1) {
            let cr = crossing(t, r, a, v);
            assert(c.0 * cr.1 <= cr.0 * c.1) by (nonlinear_arith)
                requires
                    !(cr.0 * c.1 <= c.0 * cr.1),
            ;
        }
        if c.1 > 0 && r != -1 && crossing(t, r, a, v).0 * c.1 <= c.0 * crossing(t, r, a, v).1 {
            let cr = crossing(t, r, a, v);
            assert forall|j: int|
                i <= j < 5 && (#[trigger] crossing(t, j, a, v)).1 > 0 implies crossing(t, j, a, v).0
                * c.1 <= c.0 * crossing(t, j, a, v).1 by {
                if j > i {
                    let cj = crossing(t, j, a, v);
                    assert(cj.0 * c.1 <= c.0 * cj.1) by (nonlinear_arith)
                        requires
                            cj.0 * cr.1 <= cr.0 * cj.1,
                            cr.0 * c.1 <= c.0 * cr.1,
                            cr.1 > 0,
                            c.1 > 0,
                            cj.1 > 0,
                    ;
                }
            }
        }
    }
}

/// A segment from an outside point that meets the prism enters it through
/// `best_entry`: that facet's crossing lies on the segment and in all five
/// half-spaces.
proof fn lemma_entry_facet(t: TriPrism, a: V3, v: V3, p: int, q: int)
    requires
        meets_at(t, a, v, p, q),
        !prism_contains(t, a),
    ensures
        0 <= best_entry(t, a, v, 0) < 5,
        meets_at(
            t,
            a,
            v,
            crossing(t, best_entry(t, a, v, 0), a, v).0,
            crossing(t, best_entry(t, a, v, 0), a, v).1,
        ),
{
    lemma_best_entry(t, a, v, 0);
    let g = choose|g: int| 0 <= g < 5 && !behind_facet(t, g, a);
    let cg = crossing(t, g, a, v);
    assert(behind_at(t, g, a, v, p, q));
    assert(cg.1 > 0 && cg.0 > 0) by (nonlinear_arith)
        requires
            q * cg.0 + p * (-cg.1) <= 0,
            q > 0,
            0 <= p,
            cg.0 > 0,
    ;
    let r = best_entry(t, a, v, 0);
    let cr = crossing(t, r, a, v);
    assert(behind_at(t, r, a, v, p, q));
    assert(0 <= cr.0 <= cr.1) by (nonlinear_arith)
        requires
            cg.0 * cr.1 <= cr.0 * cg.1,
            cg.0 > 0,
            cg.1 > 0,
            cr.1 > 0,
            q * cr.0 + p * (-cr.1) <= 0,
            q > 0,
            p <= q,
    ;
    assert forall|j: int| 0 <= j < 5 implies behind_at(t, j, a, v, cr.0, cr.1) by {
        let cj = crossing(t, j, a, v);
        assert(behind_at(t, j, a, v, p, q));
        if cj.1 > 0 {
            assert(cr.1 * cj.0 + cr.0 * (-cj.1) <= 0) by (nonlinear_arith)
                requires
                    cj.0 * cr.1 <= cr.0 * cj.1,
            ;
        } else {
            assert(cr.1 * cj.0 + cr.0 * (-cj.1) <= 0) by (nonlinear_arith)
                requires
                    q * cj.0 + p * (-cj.1) <= 0,
                    q * cr.0 + p * (-cr.1) <= 0,
                    -cj.1 >= 0,
                    q > 0,
                    cr.1 > 0,
                    cr.0 >= 0,
            ;
        }
    }
}

impl AnyBase for TriPrism {
    open spec fn to_any(&self) -> AnyShape {
        AnyShape::TriPrism(*self)
    }

    fn as_any(&self) -> (r: AnyShape) {
        AnyShape::TriPrism(*self)
    }
}

impl Shape for TriPrism {
    fn get_type(&self) -> (r: ShapeType) {
        ShapeType::TriPrism
    }

    fn get_bound(&self) -> (r: &AxisAlignedBBox) {
        &self._bound
    }

    fn get_intersect<S: AnyBase>(&self, other: &S) -> (r: (bool, Option<Vec3>)) {
        self.as_any().get_intersect(&other.as_any())
    }

    fn get_support(&self, v: &Vec3) -> (r: Option<Vec3>) {
        self.as_any().get_support(v)
    }
}

} // verus!
