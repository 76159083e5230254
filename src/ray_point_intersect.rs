//! Ray against point.
use crate::point::Point;
use crate::ray::{along, along_exec, Ray};
use crate::shape::{hit_view, Hit};
use crate::vector::{
    lemma_dot_bound, lemma_norm2_zero,
    lemma_cross_bound, lemma_mul_bound, lemma_norm2_bound, v_cross, v_dot,
    v_norm2, v_sub, vcross, vdot, vsub, Vec3,
};
use vstd::prelude::*;

verus! {

/// The ray parameters `t_i = w_i |d| / d_i` and `t_j = w_j |d| / d_j` of the
/// point offset `w` agree within `e`, with `c = w_i d_j - w_j d_i` and
/// `a = |d|^2`: `|c| |d| <= e |d_i d_j|`. Where `d_i` or `d_j` is zero this asks
/// `c = 0`.
pub open spec fn params_agree(c: int, di: int, dj: int, a: int, e: int) -> bool {
    c * c * a <= e * e * (di * di) * (dj * dj)
}

/// The point lies on the ray: the parameters at which the ray reaches each of
/// its coordinates agree pairwise within the ray's tolerance, and they lie
/// ahead of the origin. The location is the point of the ray nearest to it,
/// `o + d (w . d) / |d|^2`, rounded down; a point exactly on the ray is
/// reported as itself.
pub open spec fn ray_point(r: Ray, p: Point) -> Hit {
    let w = v_sub(p._ori@, r._ori@);
    let d = r._dir@;
    let c = v_cross(w, d);
    let a = v_norm2(d);
    let e = r._vicinity as int;
    if params_agree(c.2, d.0, d.1, a, e) && params_agree(c.0, d.1, d.2, a, e) && params_agree(
        c.1,
        d.2,
        d.0,
        a,
        e,
    ) && v_dot(w, d) >= 0 {
        (true, Some(along(r._ori@, d, v_dot(w, d), a)))
    } else {
        (false, None)
    }
}

fn params_agree_exec(c: i128, di: i128, dj: i128, a: i128, e: i128) -> (r: bool)
    requires
        -4398046511104 <= c <= 4398046511104,
        -1048576 <= di <= 1048576,
        -1048576 <= dj <= 1048576,
        0 <= a <= 3298534883328,
        0 <= e <= 1048576,
    ensures
        r == params_agree(c as int, di as int, dj as int, a as int, e as int),
{
    proof {
        lemma_mul_bound(c as int, c as int, 4398046511104, 4398046511104);
        lemma_mul_bound((c * c) as int, a as int, 19342813113834066795298816, 3298534883328);
        lemma_mul_bound(e as int, e as int, 1048576, 1048576);
        lemma_mul_bound(di as int, di as int, 1048576, 1048576);
        lemma_mul_bound(dj as int, dj as int, 1048576, 1048576);
        lemma_mul_bound((e * e) as int, (di * di) as int, 1099511627776, 1099511627776);
        lemma_mul_bound(
            (e * e * (di * di)) as int,
            (dj * dj) as int,
            1208925819614629174706176,
            1099511627776,
        );
    }
    c * c * a <= e * e * (di * di) * (dj * dj)
}

pub(crate) fn intersect(a: &Ray, b: &Point) -> (r: (bool, Option<Vec3>))
    requires
        a.wf(),
        b.wf(),
    ensures
        hit_view(r) == ray_point(*a, *b),
{
    let b_off = b._ori;
    let a_dir = a._dir;
    let w = vsub(b_off, a._ori);
    let c = vcross(w, a_dir);
    let n = vdot(a_dir, a_dir);
    let t = vdot(w, a_dir);
    proof {
        lemma_cross_bound(w@, a_dir@, 2097152, 1048576);
        lemma_norm2_bound(a_dir@, 1048576);
    }
    let e = a._vicinity;
    if params_agree_exec(c.z, a_dir.x, a_dir.y, n, e) && params_agree_exec(
        c.x,
        a_dir.y,
        a_dir.z,
        n,
        e,
    ) && params_agree_exec(c.y, a_dir.z, a_dir.x, n, e) && t >= 0 {
        proof {
            lemma_norm2_zero(a_dir@);
            lemma_dot_bound(w@, a_dir@, 2097152, 1048576);
        }
        (true, Some(along_exec(a._ori, a_dir, t, n)))
    } else {
        (false, None)
    }
}

} // verus!
