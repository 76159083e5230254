//! Ray against ray, in general position in space.
use crate::ray::Ray;
use crate::shape::{hit_view, Hit};
use crate::vector::{
    lemma_cross_antisymmetric, lemma_cross_neg_right, lemma_lagrange, lemma_norm2_neg,
    lemma_cross_bound, lemma_mul_bound, lemma_norm2_bound, lemma_norm2_zero, scale_sqrt,
    scale_sqrt_exec, v_add, v_cross, v_dot, v_is_zero, v_neg, v_norm2, v_sub, vadd, vcross, vdot,
    vsub,
    Vec3, V3,
};
use vstd::prelude::*;

verus! {

/// `o + d * sqrt(num / den)` per axis, each offset rounded toward zero.
pub open spec fn toward(o: V3, d: V3, num: int, den: int) -> V3 {
    v_add(o, (scale_sqrt(d.0, num, den), scale_sqrt(d.1, num, den), scale_sqrt(d.2, num, den)))
}

/// Ray `a` against ray `b`, with `d = b.origin - a.origin` and
/// `v = a.dir x b.dir`.
///
/// Parallel rays (`v = 0`) meet when the distance `|a.dir x d| / |a.dir|` from
/// `b`'s origin to `a`'s line is within `a`'s tolerance; the location is `a`'s
/// origin when `b`'s origin lies behind it, else `a.origin + u |d|` for the
/// unit direction `u` of `a`.
///
/// Other rays are taken to meet at `a.origin + u t` with
/// `t = |d x b.dir| / |v| * |a.dir|`, the solution for coplanar lines; only
/// `a`'s forward direction is checked, and `t` is never negative. The test
/// of coplanarity on `v . (b.dir - a.dir)` never rejects, as that product
/// vanishes (see `lemma_coplanarity_product_vanishes`).
pub open spec fn ray_ray(a: Ray, b: Ray) -> Hit {
    let da = a._dir@;
    let db = b._dir@;
    let d = v_sub(b._ori@, a._ori@);
    let v = v_cross(da, db);
    if v_is_zero(v) {
        let x = v_cross(da, d);
        let e = a._vicinity as int;
        if v_norm2(x) > e * e * v_norm2(da) {
            (false, None)
        } else if v_dot(d, da) < 0 {
            (true, Some(a._ori@))
        } else {
            (true, Some(toward(a._ori@, da, v_norm2(d), v_norm2(da))))
        }
    } else {
        let y = v_cross(d, db);
        (true, Some(toward(a._ori@, da, v_norm2(y), v_norm2(v))))
    }
}

/// The product `v . (b - a)` with `v = a x b`, on which the coplanarity test
/// of two ray directions `a` and `b` is stated, is zero for all directions.
pub proof fn lemma_coplanarity_product_vanishes(a: V3, b: V3)
    ensures
        v_dot(v_cross(a, b), v_sub(b, a)) == 0,
{
    let (a0, a1, a2) = a;
    let (b0, b1, b2) = b;
    assert((a1 * b2 - a2 * b1) * a0 + (a2 * b0 - a0 * b2) * a1 + (a0 * b1 - a1 * b0) * a2 == 0)
        by (nonlinear_arith);
    assert((a1 * b2 - a2 * b1) * b0 + (a2 * b0 - a0 * b2) * b1 + (a0 * b1 - a1 * b0) * b2 == 0)
        by (nonlinear_arith);
    let c = v_cross(a, b);
    vstd::arithmetic::mul::lemma_mul_is_distributive_sub(c.0, b0, a0);
    vstd::arithmetic::mul::lemma_mul_is_distributive_sub(c.1, b1, a1);
    vstd::arithmetic::mul::lemma_mul_is_distributive_sub(c.2, b2, a2);
}

/// For parallel `a` and `b`, `(a . d) b = (b . d) a`, hence
/// `(a . d)^2 |b|^2 = (b . d)^2 |a|^2`.
pub proof fn lemma_parallel_projection(a: V3, b: V3, d: V3)
    requires
        v_is_zero(v_cross(a, b)),
    ensures
        v_dot(a, d) * v_dot(a, d) * v_norm2(b) == v_dot(b, d) * v_dot(b, d) * v_norm2(a),
{
    let (a0, a1, a2) = a;
    let (b0, b1, b2) = b;
    let (d0, d1, d2) = d;
    lemma_projection_difference(a0, a1, a2, b0, b1, b2, d0, d1, d2);
    lemma_projection_difference(a1, a2, a0, b1, b2, b0, d1, d2, d0);
    lemma_projection_difference(a2, a0, a1, b2, b0, b1, d2, d0, d1);
    let al = v_dot(a, d);
    let be = v_dot(b, d);
    assert(al * b0 == be * a0 && al * b1 == be * a1 && al * b2 == be * a2) by {
        lemma_zero_product(d1, a0 * b1 - a1 * b0);
        lemma_zero_product(d2, a2 * b0 - a0 * b2);
        lemma_zero_product(d2, a1 * b2 - a2 * b1);
        lemma_zero_product(d0, a0 * b1 - a1 * b0);
        lemma_zero_product(d0, a2 * b0 - a0 * b2);
        lemma_zero_product(d1, a1 * b2 - a2 * b1);
    }
    lemma_scaled_square_sum(al, b0, b1, b2);
    lemma_scaled_square_sum(be, a0, a1, a2);
}

/// Products of three factors, in the orders the proofs above need.
proof fn lemma_triple_commutes(x: int, y: int, z: int)
    ensures
        (x * y) * z == x * (y * z),
        (x * y) * z == (y * z) * x,
        (x * y) * z == z * (x * y),
        (x * y) * z == (x * z) * y,
        (x * y) * z == y * (x * z),
        (x * y) * z == (y * x) * z,
{
    vstd::arithmetic::mul::lemma_mul_is_associative(x, y, z);
    vstd::arithmetic::mul::lemma_mul_is_commutative(x, y);
    vstd::arithmetic::mul::lemma_mul_is_commutative(x * y, z);
    vstd::arithmetic::mul::lemma_mul_is_commutative(y * z, x);
    vstd::arithmetic::mul::lemma_mul_is_associative(x, z, y);
    vstd::arithmetic::mul::lemma_mul_is_commutative(z, y);
    vstd::arithmetic::mul::lemma_mul_is_associative(y, x, z);
    vstd::arithmetic::mul::lemma_mul_is_commutative(x * z, y);
}

proof fn lemma_zero_product(x: int, y: int)
    requires
        y == 0,
    ensures
        x * y == 0,
{
}

/// `(a . d) b0 - (b . d) a0 = d2 (a2 b0 - a0 b2) - d1 (a0 b1 - a1 b0)`.
proof fn lemma_projection_difference(
    a0: int,
    a1: int,
    a2: int,
    b0: int,
    b1: int,
    b2: int,
    d0: int,
    d1: int,
    d2: int,
)
    ensures
        (a0 * d0 + a1 * d1 + a2 * d2) * b0 - (b0 * d0 + b1 * d1 + b2 * d2) * a0 == d2 * (a2 * b0
            - a0 * b2) - d1 * (a0 * b1 - a1 * b0),
{
    let l = (a0 * d0 + a1 * d1 + a2 * d2) * b0;
    let r = (b0 * d0 + b1 * d1 + b2 * d2) * a0;
    vstd::arithmetic::mul::lemma_mul_is_distributive_add_other_way(b0, a0 * d0 + a1 * d1, a2 * d2);
    vstd::arithmetic::mul::lemma_mul_is_distributive_add_other_way(b0, a0 * d0, a1 * d1);
    vstd::arithmetic::mul::lemma_mul_is_distributive_add_other_way(a0, b0 * d0 + b1 * d1, b2 * d2);
    vstd::arithmetic::mul::lemma_mul_is_distributive_add_other_way(a0, b0 * d0, b1 * d1);
    vstd::arithmetic::mul::lemma_mul_is_distributive_sub(d2, a2 * b0, a0 * b2);
    vstd::arithmetic::mul::lemma_mul_is_distributive_sub(d1, a0 * b1, a1 * b0);
    lemma_triple_commutes(a0, d0, b0);
    lemma_triple_commutes(a1, d1, b0);
    lemma_triple_commutes(a2, d2, b0);
    lemma_triple_commutes(b1, d1, a0);
    lemma_triple_commutes(b2, d2, a0);
    lemma_triple_commutes(a1, b0, d1);
    lemma_triple_commutes(a0, b1, d1);
    lemma_triple_commutes(a2, b0, d2);
    lemma_triple_commutes(a0, b2, d2);
    assert((b0 * d0) * a0 == (a0 * d0) * b0) by {
        lemma_triple_commutes(b0, d0, a0);
    }
}

proof fn lemma_square_of_product(k: int, x: int)
    ensures
        (k * x) * (k * x) == k * k * (x * x),
{
    assert((k * x) * (k * x) == k * k * (x * x)) by (nonlinear_arith);
}

/// `k^2 (x^2 + y^2 + z^2) = (k x)^2 + (k y)^2 + (k z)^2`.
proof fn lemma_scaled_square_sum(k: int, x: int, y: int, z: int)
    ensures
        k * k * (x * x + y * y + z * z) == (k * x) * (k * x) + (k * y) * (k * y) + (k * z) * (k
            * z),
{
    lemma_square_of_product(k, x);
    lemma_square_of_product(k, y);
    lemma_square_of_product(k, z);
    vstd::arithmetic::mul::lemma_mul_is_distributive_add(k * k, x * x + y * y, z * z);
    vstd::arithmetic::mul::lemma_mul_is_distributive_add(k * k, x * x, y * y);
}

/// Two rays with the same tolerance agree on whether they meet, whichever
/// of them the query is asked of.
pub proof fn lemma_ray_ray_symmetric(a: Ray, b: Ray)
    requires
        a.wf(),
        b.wf(),
        a._vicinity == b._vicinity,
    ensures
        ray_ray(a, b).0 == ray_ray(b, a).0,
{
    let da = a._dir@;
    let db = b._dir@;
    let d = v_sub(b._ori@, a._ori@);
    lemma_cross_antisymmetric(da, db);
    if v_is_zero(v_cross(da, db)) {
        let e = a._vicinity as int;
        let x = v_cross(da, d);
        let y = v_cross(db, v_sub(a._ori@, b._ori@));
        assert(v_sub(a._ori@, b._ori@) == v_neg(d));
        lemma_cross_neg_right(db, d);
        lemma_norm2_neg(v_cross(db, d));
        lemma_lagrange(da, d);
        lemma_lagrange(db, d);
        lemma_parallel_projection(da, db, d);
        lemma_norm2_zero(da);
        lemma_norm2_zero(db);
        let l = v_norm2(x);
        let r = v_norm2(y);
        let na = v_norm2(da);
        let nb = v_norm2(db);
        let dd = v_norm2(d);
        assert(l * nb == r * na) by (nonlinear_arith)
            requires
                l == na * dd - v_dot(da, d) * v_dot(da, d),
                r == nb * dd - v_dot(db, d) * v_dot(db, d),
                v_dot(da, d) * v_dot(da, d) * nb == v_dot(db, d) * v_dot(db, d) * na,
        ;
        assert((l > e * e * na) == (r > e * e * nb)) by (nonlinear_arith)
            requires
                l * nb == r * na,
                na > 0,
                nb > 0,
        ;
    }
}

fn toward_exec(o: Vec3, d: Vec3, num: i128, den: i128) -> (r: Vec3)
    requires
        crate::vector::coord_ok(o@),
        crate::vector::coord_ok(d@),
        0 <= num <= 58028439341502200385896448,
        0 < den,
    ensures
        r@ == toward(o@, d@, num as int, den as int),
{
    proof {
        lemma_mul_bound(d.x as int, d.x as int, 1048576, 1048576);
        lemma_mul_bound(d.y as int, d.y as int, 1048576, 1048576);
        lemma_mul_bound(d.z as int, d.z as int, 1048576, 1048576);
        lemma_mul_bound((d.x * d.x) as int, num as int, 1099511627776, 58028439341502200385896448);
        lemma_mul_bound((d.y * d.y) as int, num as int, 1099511627776, 58028439341502200385896448);
        lemma_mul_bound((d.z * d.z) as int, num as int, 1099511627776, 58028439341502200385896448);
    }
    let g = Vec3::new(
        scale_sqrt_exec(d.x, num, den),
        scale_sqrt_exec(d.y, num, den),
        scale_sqrt_exec(d.z, num, den),
    );
    vadd(o, g)
}

pub(crate) fn intersect(a: &Ray, b: &Ray) -> (r: (bool, Option<Vec3>))
    requires
        a.wf(),
        b.wf(),
    ensures
        hit_view(r) == ray_ray(*a, *b),
{
    let a_dir = a._dir;
    let b_dir = b._dir;
    let a_off = a._ori;
    let d = vsub(b._ori, a_off);
    let v = vcross(a_dir, b_dir);
    proof {
        lemma_cross_bound(a_dir@, b_dir@, 1048576, 1048576);
        lemma_cross_bound(a_dir@, d@, 1048576, 2097152);
        lemma_cross_bound(d@, b_dir@, 2097152, 1048576);
        lemma_norm2_bound(a_dir@, 1048576);
        lemma_norm2_zero(a_dir@);
        lemma_norm2_bound(d@, 2097152);
        lemma_norm2_zero(v@);
    }
    if v.is_zero() {
        //parallel: test colinearity by the distance of b's origin from a's line
        let x = vcross(a_dir, d);
        let x2 = vdot(x, x);
        let n2 = vdot(a_dir, a_dir);
        let e = a._vicinity;
        proof {
            lemma_norm2_bound(x@, 4398046511104);
            lemma_mul_bound(e as int, e as int, 1048576, 1048576);
            lemma_mul_bound((e * e) as int, n2 as int, 1099511627776, 3298534883328);
        }
        if x2 > e * e * n2 {
            (false, None)
        } else if vdot(d, a_dir) < 0 {
            (true, Some(a_off))
        } else {
            (true, Some(toward_exec(a_off, a_dir, vdot(d, d), n2)))
        }
    } else {
        let y = vcross(d, b_dir);
        proof {
            lemma_norm2_bound(y@, 4398046511104);
            lemma_norm2_bound(v@, 2199023255552);
        }
        (true, Some(toward_exec(a_off, a_dir, vdot(y, y), vdot(v, v))))
    }
}

} // verus!
