//! Gilbert–Johnson–Keerthi test: whether the Minkowski difference of two
//! convex shapes contains the origin, from their support mappings alone.
use crate::shape::{AnyShape, Shape, ShapeType};
use crate::vector::{
    iabs, lemma_cross_bound, opt_view, v_bounded, v_cross, v_dot, v_is_zero,
    v_neg, v_sub, vcross, vdot, vdot_wide, vneg, vsub, Vec3, LIM_DIR, V3,
};
use vstd::prelude::*;

verus! {

/// The query gives up after this many refinements of the search direction,
/// having found no separating plane.
pub const MAX_GJK_ITERATIONS: u32 = 64;

/// 2^22: magnitude of a point of the Minkowski difference of two shapes.
const LIM_VERTEX: i128 = 4194304;

/// 2^100: magnitude of a search direction before it is scaled down.
const LIM_SEARCH: i128 = 1267650600228229401496703205376;

/// The support point of the Minkowski difference `a - b` along `v`.
pub open spec fn minkowski_support(a: AnyShape, b: AnyShape, v: V3) -> Option<V3> {
    match (a.support(v), b.support(v_neg(v))) {
        (Some(p), Some(q)) => Some(v_sub(p, q)),
        _ => None,
    }
}

/// `d` is a nonzero direction along which the Minkowski difference `a - b`
/// reaches no farther than the origin: a plane through the origin separates
/// it from the origin.
pub open spec fn separates(a: AnyShape, b: AnyShape, d: V3) -> bool {
    !v_is_zero(d) && match minkowski_support(a, b, d) {
        Some(p) => v_dot(p, d) <= 0,
        None => false,
    }
}

/// One step on the simplex `s` (2 or 3 points, the newest last) with search
/// direction `d`: whether the origin is enclosed, the reduced simplex, and the
/// next search direction.
pub open spec fn gjk_step(s: Seq<V3>, d: V3) -> (bool, Seq<V3>, V3) {
    let a = s.last();
    let ao = v_neg(a);
    if s.len() == 3 {
        let ab = v_sub(s[1], a);
        let ac = v_sub(s[0], a);
        let ab_normal = v_cross(v_cross(ac, ab), ab);
        let ac_normal = v_cross(v_cross(ab, ac), ac);
        if v_dot(ab_normal, ao) >= 0 {
            (false, seq![s[1], s[2]], ab_normal)
        } else if v_dot(ac_normal, ao) >= 0 {
            (false, seq![s[0], s[2]], ac_normal)
        } else {
            (true, s, d)
        }
    } else {
        let ab = v_sub(s[0], a);
        let ab_normal = v_cross(v_cross(ab, ao), ab);
        if v_is_zero(ab_normal) {
            (true, s, d)
        } else {
            (false, s, ab_normal)
        }
    }
}

pub open spec fn points_bounded(s: Seq<Vec3>, m: int) -> bool {
    forall|i: int| 0 <= i < s.len() ==> v_bounded((#[trigger] s[i])@, m)
}

pub open spec fn views(s: Seq<Vec3>) -> Seq<V3> {
    s.map_values(|p: Vec3| p@)
}

fn support<A: Shape, B: Shape>(a: &A, b: &B, v: &Vec3) -> (r: Option<Vec3>)
    requires
        a.to_any().wf(),
        b.to_any().wf(),
        v_bounded(v@, LIM_DIR as int),
    ensures
        opt_view(r) == minkowski_support(a.to_any(), b.to_any(), v@),
        r matches Some(p) ==> v_bounded(p@, LIM_VERTEX as int),
{
    let p0 = match a.get_support(v) {
        Some(o) => o,
        None => return None,
    };
    let v_oppose = vneg(*v);
    let p1 = match b.get_support(&v_oppose) {
        Some(o) => o,
        None => return None,
    };
    Some(vsub(p0, p1))
}

fn pass_minkowski_origin(last_vert: &Vec3, support: &Vec3) -> (r: bool)
    requires
        v_bounded(last_vert@, LIM_VERTEX as int),
        v_bounded(support@, LIM_DIR as int),
    ensures
        r == (v_dot(last_vert@, support@) > 0),
{
    vdot(*last_vert, *support) > 0
}

/// Tests whether the simplex encloses the origin; when it does not, drops a
/// vertex (triangle) and points `support` at the origin.
fn contains_minkowski_origin(simplex: &mut Vec<Vec3>, support: &mut Vec3) -> (r: bool)
    requires
        2 <= old(simplex)@.len() <= 3,
        points_bounded(old(simplex)@, LIM_VERTEX as int),
    ensures
        r == gjk_step(views(old(simplex)@), old(support)@).0,
        views(final(simplex)@) == gjk_step(views(old(simplex)@), old(support)@).1,
        final(support)@ == gjk_step(views(old(simplex)@), old(support)@).2,
        points_bounded(final(simplex)@, LIM_VERTEX as int),
        !r ==> final(simplex)@.len() == 2,
        !r ==> v_bounded(final(support)@, LIM_SEARCH as int),
{
    let ghost s = views(simplex@);
    let n = simplex.len();
    let a = simplex[n - 1];
    let ao = vneg(a);
    assert(s.last() == a@);
    if n == 3 {
        let b = simplex[1];
        let c = simplex[0];
        let ab = vsub(b, a);
        let ac = vsub(c, a);
        proof {
            lemma_cross_bound(ac@, ab@, 8388608, 8388608);
            lemma_cross_bound(ab@, ac@, 8388608, 8388608);
            lemma_cross_bound(v_cross(ac@, ab@), ab@, 140737488355328, 8388608);
            lemma_cross_bound(v_cross(ab@, ac@), ac@, 140737488355328, 8388608);
        }
        let ab_normal = vcross(vcross(ac, ab), ab);
        let ac_normal = vcross(vcross(ab, ac), ac);
        if vdot_wide(ab_normal, ao) >= 0 {
            //remove c and set new direction to ab_normal
            let simplex_new = vec![simplex[1], simplex[2]];
            *simplex = simplex_new;
            *support = ab_normal;
            assert(views(simplex@) =~= seq![s[1], s[2]]);
        } else if vdot_wide(ac_normal, ao) >= 0 {
            //remove b and set new direction to ac_normal
            let simplex_new = vec![simplex[0], simplex[2]];
            *simplex = simplex_new;
            *support = ac_normal;
            assert(views(simplex@) =~= seq![s[0], s[2]]);
        } else {
            //the origin is enclosed by the triangle
            return true;
        }
    } else {
        //line segment case: set the direction toward the origin
        let b = simplex[0];
        let ab = vsub(b, a);
        proof {
            lemma_cross_bound(ab@, ao@, 8388608, 4194304);
            lemma_cross_bound(v_cross(ab@, ao@), ab@, 70368744177664, 8388608);
        }
        let ab_normal = vcross(vcross(ab, ao), ab);
        if ab_normal.is_zero() {
            return true;
        } else {
            *support = ab_normal;
        }
    }
    false
}

/// `x / 2` rounded toward zero.
fn halve(x: i128) -> (r: i128)
    requires
        x > i128::MIN,
    ensures
        iabs(r as int) == iabs(x as int) / 2,
{
    if x >= 0 {
        x / 2
    } else {
        -((-x) / 2)
    }
}

/// Halves `d` until each component is at most `LIM_DIR` long; only the
/// direction of `d` matters to a support mapping.
fn shrink(d: Vec3) -> (r: Vec3)
    requires
        v_bounded(d@, LIM_SEARCH as int),
        !v_is_zero(d@),
    ensures
        v_bounded(r@, LIM_DIR as int),
        !v_is_zero(r@),
{
    let mut r = d;
    while !(-LIM_DIR <= r.x && r.x <= LIM_DIR && -LIM_DIR <= r.y && r.y <= LIM_DIR && -LIM_DIR
        <= r.z && r.z <= LIM_DIR)
        invariant
            v_bounded(r@, LIM_SEARCH as int),
            !v_is_zero(r@),
        decreases iabs(r.x as int) + iabs(r.y as int) + iabs(r.z as int),
    {
        r = Vec3::new(halve(r.x), halve(r.y), halve(r.z));
    }
    r
}

/// Whether `a` and `b` intersect, by GJK on their support mappings.
///
/// `Some(false)` comes with a separating direction: a nonzero `d` along which
/// the support point of the Minkowski difference is not beyond the origin.
/// `None` exactly when a shape has no support mapping (a ray or a plane): the
/// search direction is never zero, so every other support query succeeds.
/// `Some(true)` when the simplex encloses the origin, or when
/// `MAX_GJK_ITERATIONS` refinements found no separating direction.
pub fn query_intersect<A: Shape, B: Shape>(a: &A, b: &B) -> (r: Option<bool>)
    requires
        a.to_any().wf(),
        b.to_any().wf(),
    ensures
        r == Some(false) ==> exists|d: V3| #[trigger] separates(a.to_any(), b.to_any(), d),
        r is None <==> (a.to_any().shape_type() == ShapeType::Ray || a.to_any().shape_type()
            == ShapeType::Plane || b.to_any().shape_type() == ShapeType::Ray
            || b.to_any().shape_type() == ShapeType::Plane),
{
    //an arbitrary first direction
    let mut d = Vec3::new(-1, 0, 0);
    let first = match support(a, b, &d) {
        Some(p) => p,
        None => return None,
    };
    let mut simplex: Vec<Vec3> = Vec::new();
    simplex.push(first);
    d = vneg(d);
    let mut n: u32 = 0;
    while n < MAX_GJK_ITERATIONS
        invariant
            a.to_any().wf(),
            b.to_any().wf(),
            1 <= simplex@.len() <= 2,
            points_bounded(simplex@, LIM_VERTEX as int),
            v_bounded(d@, LIM_DIR as int),
            !v_is_zero(d@),
        decreases MAX_GJK_ITERATIONS - n,
    {
        let sup = match support(a, b, &d) {
            Some(p) => p,
            None => return None,
        };
        simplex.push(sup);
        if !pass_minkowski_origin(&sup, &d) {
            assert(separates(a.to_any(), b.to_any(), d@));
            return Some(false);
        }
        let mut dir = d;
        if contains_minkowski_origin(&mut simplex, &mut dir) {
            return Some(true);
        }
        if dir.is_zero() {
            //a collinear triangle: go on from its newest edge, which the
            //reduced simplex holds
            if contains_minkowski_origin(&mut simplex, &mut dir) {
                return Some(true);
            }
        }
        d = shrink(dir);
        n = n + 1;
    }
    Some(true)
}

} // verus!
