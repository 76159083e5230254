//! Exact integer vectors: the coordinates every shape is built from.
//!
//! Coordinates live on an integer grid whose unit the caller chooses. All
//! predicates are evaluated exactly; where a location is irrational it is
//! rounded through the integer square root `isqrt`.
use vstd::arithmetic::div_mod::{
    lemma_fundamental_div_mod, lemma_fundamental_div_mod_converse, lemma_mod_bound,
    lemma_mod_pos_bound,
};
use vstd::prelude::*;

verus! {

/// Largest magnitude accepted for a coordinate, a direction component, a
/// radius, a half size, a height or a tolerance.
pub const MAX_COORD: i64 = 262144;

/// 2^60: operands of a dot or cross product stay within this magnitude.
pub const LIM_PRODUCT: i128 = 1152921504606846976;

/// 2^120: operands of a vector sum or difference stay within this magnitude.
pub const LIM_SUM: i128 = 1329227995784915872903807060280344576;

/// 2^126: the largest argument of `isqrt_exec`, exclusive.
pub const LIM_SQRT: i128 = 85070591730234615865843651857942052864;

/// Every value of `s` is an accepted coordinate.
pub open spec fn coords_ok(s: Seq<i64>) -> bool {
    forall|i: int| 0 <= i < s.len() ==> -MAX_COORD <= #[trigger] s[i] <= MAX_COORD
}

/// Every component of `a` is an accepted coordinate.
pub open spec fn coord_ok(a: V3) -> bool {
    v_bounded(a, MAX_COORD as int)
}

/// 2^24: largest component of a direction handed to a support function.
pub const LIM_DIR: i128 = 16777216;

/// A vector of the mathematical model.
pub type V3 = (int, int, int);

pub open spec fn v_add(a: V3, b: V3) -> V3 {
    (a.0 + b.0, a.1 + b.1, a.2 + b.2)
}

pub open spec fn v_sub(a: V3, b: V3) -> V3 {
    (a.0 - b.0, a.1 - b.1, a.2 - b.2)
}

pub open spec fn v_neg(a: V3) -> V3 {
    (-a.0, -a.1, -a.2)
}

pub open spec fn v_dot(a: V3, b: V3) -> int {
    a.0 * b.0 + a.1 * b.1 + a.2 * b.2
}

pub open spec fn v_cross(a: V3, b: V3) -> V3 {
    (a.1 * b.2 - a.2 * b.1, a.2 * b.0 - a.0 * b.2, a.0 * b.1 - a.1 * b.0)
}

pub open spec fn v_norm2(a: V3) -> int {
    v_dot(a, a)
}

pub open spec fn v_is_zero(a: V3) -> bool {
    a.0 == 0 && a.1 == 0 && a.2 == 0
}

/// Every component of `a` lies in `[-m, m]`.
pub open spec fn v_bounded(a: V3, m: int) -> bool {
    -m <= a.0 <= m && -m <= a.1 <= m && -m <= a.2 <= m
}

pub open spec fn iabs(x: int) -> int {
    if x < 0 {
        -x
    } else {
        x
    }
}

pub open spec fn sign(x: int) -> int {
    if x < 0 {
        -1
    } else if x > 0 {
        1
    } else {
        0
    }
}

/// `r` is the integer square root of `n`: the largest `r` with `r * r <= n`.
pub open spec fn is_isqrt(n: int, r: int) -> bool {
    0 <= r && r * r <= n && n < (r + 1) * (r + 1)
}

/// The integer square root of a non-negative `n`.
pub open spec fn isqrt(n: int) -> int {
    choose|r: int| is_isqrt(n, r)
}

/// `x * sqrt(num / den)` rounded toward zero, for `num >= 0 < den`: the
/// magnitude is `isqrt(x * x * num / den)` and the sign is that of `x`.
pub open spec fn scale_sqrt(x: int, num: int, den: int) -> int {
    sign(x) * isqrt(x * x * num / den)
}

/// A point or a free vector with exact integer components.
#[derive(Clone, Copy, Debug, PartialEq, Eq, Structural)]
pub struct Vec3 {
    pub x: i128,
    pub y: i128,
    pub z: i128,
}

impl View for Vec3 {
    type V = V3;

    open spec fn view(&self) -> V3 {
        (self.x as int, self.y as int, self.z as int)
    }
}

impl Vec3 {
    pub fn new(x: i128, y: i128, z: i128) -> (r: Vec3)
        ensures
            r@ == (x as int, y as int, z as int),
    {
        Vec3 { x, y, z }
    }

    /// The vector of the first three values of `s`.
    pub fn from_slice(s: &[i64]) -> (r: Vec3)
        requires
            s@.len() >= 3,
        ensures
            r@ == (s@[0] as int, s@[1] as int, s@[2] as int),
    {
        Vec3 { x: s[0] as i128, y: s[1] as i128, z: s[2] as i128 }
    }

    pub fn is_zero(&self) -> (r: bool)
        ensures
            r == v_is_zero(self@),
    {
        self.x == 0 && self.y == 0 && self.z == 0
    }
}

pub fn vadd(a: Vec3, b: Vec3) -> (r: Vec3)
    requires
        v_bounded(a@, LIM_SUM as int),
        v_bounded(b@, LIM_SUM as int),
    ensures
        r@ == v_add(a@, b@),
{
    Vec3 { x: a.x + b.x, y: a.y + b.y, z: a.z + b.z }
}

pub fn vsub(a: Vec3, b: Vec3) -> (r: Vec3)
    requires
        v_bounded(a@, LIM_SUM as int),
        v_bounded(b@, LIM_SUM as int),
    ensures
        r@ == v_sub(a@, b@),
{
    Vec3 { x: a.x - b.x, y: a.y - b.y, z: a.z - b.z }
}

pub fn vneg(a: Vec3) -> (r: Vec3)
    requires
        v_bounded(a@, LIM_SUM as int),
    ensures
        r@ == v_neg(a@),
{
    Vec3 { x: -a.x, y: -a.y, z: -a.z }
}

pub fn vdot(a: Vec3, b: Vec3) -> (r: i128)
    requires
        v_bounded(a@, LIM_PRODUCT as int),
        v_bounded(b@, LIM_PRODUCT as int),
    ensures
        r == v_dot(a@, b@),
{
    proof {
        lemma_dot_bound(a@, b@, LIM_PRODUCT as int, LIM_PRODUCT as int);
        lemma_mul_bound(a.x as int, b.x as int, LIM_PRODUCT as int, LIM_PRODUCT as int);
        lemma_mul_bound(a.y as int, b.y as int, LIM_PRODUCT as int, LIM_PRODUCT as int);
        lemma_mul_bound(a.z as int, b.z as int, LIM_PRODUCT as int, LIM_PRODUCT as int);
    }
    a.x * b.x + a.y * b.y + a.z * b.z
}

/// A dot product of a long vector with a short one.
pub fn vdot_wide(a: Vec3, b: Vec3) -> (r: i128)
    requires
        v_bounded(a@, 1267650600228229401496703205376),
        v_bounded(b@, 16777216),
    ensures
        r == v_dot(a@, b@),
{
    proof {
        let m: int = 1267650600228229401496703205376;
        lemma_mul_bound(a.x as int, b.x as int, m, 16777216);
        lemma_mul_bound(a.y as int, b.y as int, m, 16777216);
        lemma_mul_bound(a.z as int, b.z as int, m, 16777216);
    }
    a.x * b.x + a.y * b.y + a.z * b.z
}

pub fn vcross(a: Vec3, b: Vec3) -> (r: Vec3)
    requires
        v_bounded(a@, LIM_PRODUCT as int),
        v_bounded(b@, LIM_PRODUCT as int),
    ensures
        r@ == v_cross(a@, b@),
{
    proof {
        let m = LIM_PRODUCT as int;
        lemma_mul_bound(a.y as int, b.z as int, m, m);
        lemma_mul_bound(a.z as int, b.y as int, m, m);
        lemma_mul_bound(a.z as int, b.x as int, m, m);
        lemma_mul_bound(a.x as int, b.z as int, m, m);
        lemma_mul_bound(a.x as int, b.y as int, m, m);
        lemma_mul_bound(a.y as int, b.x as int, m, m);
    }
    Vec3 {
        x: a.y * b.z - a.z * b.y,
        y: a.z * b.x - a.x * b.z,
        z: a.x * b.y - a.y * b.x,
    }
}

pub proof fn lemma_mul_bound(a: int, b: int, ma: int, mb: int)
    requires
        0 <= ma,
        0 <= mb,
        -ma <= a <= ma,
        -mb <= b <= mb,
    ensures
        -(ma * mb) <= a * b <= ma * mb,
        0 <= ma * mb,
{
    assert(-(ma * mb) <= a * b <= ma * mb && 0 <= ma * mb) by (nonlinear_arith)
        requires
            0 <= ma,
            0 <= mb,
            -ma <= a <= ma,
            -mb <= b <= mb,
    ;
}

pub proof fn lemma_square_bound(a: int, ma: int)
    requires
        0 <= ma,
        -ma <= a <= ma,
    ensures
        0 <= a * a <= ma * ma,
{
    assert(0 <= a * a <= ma * ma) by (nonlinear_arith)
        requires
            0 <= ma,
            -ma <= a <= ma,
    ;
}

pub proof fn lemma_dot_bound(a: V3, b: V3, ma: int, mb: int)
    requires
        0 <= ma,
        0 <= mb,
        v_bounded(a, ma),
        v_bounded(b, mb),
    ensures
        -(3 * (ma * mb)) <= v_dot(a, b) <= 3 * (ma * mb),
{
    lemma_mul_bound(a.0, b.0, ma, mb);
    lemma_mul_bound(a.1, b.1, ma, mb);
    lemma_mul_bound(a.2, b.2, ma, mb);
}

pub proof fn lemma_norm2_bound(a: V3, ma: int)
    requires
        0 <= ma,
        v_bounded(a, ma),
    ensures
        0 <= v_norm2(a) <= 3 * (ma * ma),
{
    lemma_square_bound(a.0, ma);
    lemma_square_bound(a.1, ma);
    lemma_square_bound(a.2, ma);
}

pub proof fn lemma_cross_bound(a: V3, b: V3, ma: int, mb: int)
    requires
        0 <= ma,
        0 <= mb,
        v_bounded(a, ma),
        v_bounded(b, mb),
    ensures
        v_bounded(v_cross(a, b), 2 * (ma * mb)),
{
    lemma_mul_bound(a.1, b.2, ma, mb);
    lemma_mul_bound(a.2, b.1, ma, mb);
    lemma_mul_bound(a.2, b.0, ma, mb);
    lemma_mul_bound(a.0, b.2, ma, mb);
    lemma_mul_bound(a.0, b.1, ma, mb);
    lemma_mul_bound(a.1, b.0, ma, mb);
}

pub proof fn lemma_norm2_zero(a: V3)
    ensures
        v_norm2(a) >= 0,
        v_norm2(a) == 0 <==> v_is_zero(a),
{
    assert(a.0 * a.0 >= 0 && a.1 * a.1 >= 0 && a.2 * a.2 >= 0) by (nonlinear_arith);
    if !v_is_zero(a) {
        assert(a.0 != 0 ==> a.0 * a.0 > 0) by (nonlinear_arith);
        assert(a.1 != 0 ==> a.1 * a.1 > 0) by (nonlinear_arith);
        assert(a.2 != 0 ==> a.2 * a.2 > 0) by (nonlinear_arith);
    }
}

/// `|u x w|^2 = |u|^2 |w|^2 - (u . w)^2`.
pub proof fn lemma_lagrange(u: V3, w: V3)
    ensures
        v_norm2(v_cross(u, w)) == v_norm2(u) * v_norm2(w) - v_dot(u, w) * v_dot(u, w),
{
    lemma_lagrange_scalar(u.0, u.1, u.2, w.0, w.1, w.2);
}

proof fn lemma_lagrange_scalar(a: int, b: int, c: int, x: int, y: int, z: int)
    ensures
        (b * z - c * y) * (b * z - c * y) + (c * x - a * z) * (c * x - a * z) + (a * y - b * x) * (a
            * y - b * x) == (a * a + b * b + c * c) * (x * x + y * y + z * z) - (a * x + b * y + c
            * z) * (a * x + b * y + c * z),
{
    lemma_square_of_difference(b * z, c * y);
    lemma_square_of_difference(c * x, a * z);
    lemma_square_of_difference(a * y, b * x);
    lemma_product_square(b, z);
    lemma_product_square(c, y);
    lemma_product_square(c, x);
    lemma_product_square(a, z);
    lemma_product_square(a, y);
    lemma_product_square(b, x);
    lemma_product_square(a, x);
    lemma_product_square(b, y);
    lemma_product_square(c, z);
    lemma_cross_pair(b, z, c, y);
    lemma_cross_pair(c, x, a, z);
    lemma_cross_pair(a, y, b, x);
    vstd::arithmetic::mul::lemma_mul_is_commutative(c * z, a * x);
    lemma_square_of_sum3(a * x, b * y, c * z);
    lemma_product_of_sums3(a * a, b * b, c * c, x * x, y * y, z * z);
}

proof fn lemma_square_of_difference(p: int, q: int)
    ensures
        (p - q) * (p - q) == p * p - 2 * (p * q) + q * q,
{
    assert((p - q) * (p - q) == p * p - 2 * (p * q) + q * q) by (nonlinear_arith);
}

proof fn lemma_product_square(p: int, q: int)
    ensures
        (p * q) * (p * q) == (p * p) * (q * q),
{
    assert((p * q) * (p * q) == (p * p) * (q * q)) by (nonlinear_arith);
}

/// `(p q) (r s) = (p s) (r q)`.
proof fn lemma_cross_pair(p: int, q: int, r: int, s: int)
    ensures
        (p * q) * (r * s) == (p * s) * (r * q),
{
    assert((p * q) * (r * s) == (p * s) * (r * q)) by (nonlinear_arith);
}

proof fn lemma_square_of_sum3(p: int, q: int, r: int)
    ensures
        (p + q + r) * (p + q + r) == p * p + q * q + r * r + 2 * (p * q) + 2 * (p * r) + 2 * (q
            * r),
{
    assert((p + q + r) * (p + q + r) == p * p + q * q + r * r + 2 * (p * q) + 2 * (p * r) + 2 * (q
        * r)) by (nonlinear_arith);
}

proof fn lemma_product_of_sums3(p: int, q: int, r: int, s: int, t: int, u: int)
    ensures
        (p + q + r) * (s + t + u) == p * s + p * t + p * u + q * s + q * t + q * u + r * s + r * t
            + r * u,
{
    assert((p + q + r) * (s + t + u) == p * s + p * t + p * u + q * s + q * t + q * u + r * s + r
        * t + r * u) by (nonlinear_arith);
}

/// Swapping the operands of a cross product negates it.
pub proof fn lemma_cross_antisymmetric(u: V3, w: V3)
    ensures
        v_cross(w, u) == v_neg(v_cross(u, w)),
{
    let (a, b, c) = u;
    let (x, y, z) = w;
    assert(y * c - z * b == -(b * z - c * y)) by (nonlinear_arith);
    assert(z * a - x * c == -(c * x - a * z)) by (nonlinear_arith);
    assert(x * b - y * a == -(a * y - b * x)) by (nonlinear_arith);
}

/// Negating an operand of a cross product negates it.
pub proof fn lemma_cross_neg_right(u: V3, w: V3)
    ensures
        v_cross(u, v_neg(w)) == v_neg(v_cross(u, w)),
{
    let (a, b, c) = u;
    let (x, y, z) = w;
    assert(b * (-z) - c * (-y) == -(b * z - c * y)) by (nonlinear_arith);
    assert(c * (-x) - a * (-z) == -(c * x - a * z)) by (nonlinear_arith);
    assert(a * (-y) - b * (-x) == -(a * y - b * x)) by (nonlinear_arith);
}

pub proof fn lemma_norm2_neg(u: V3)
    ensures
        v_norm2(v_neg(u)) == v_norm2(u),
{
    let (a, b, c) = u;
    assert((-a) * (-a) + (-b) * (-b) + (-c) * (-c) == a * a + b * b + c * c) by (nonlinear_arith);
}

pub proof fn lemma_isqrt_unique(n: int, r: int)
    requires
        is_isqrt(n, r),
    ensures
        isqrt(n) == r,
{
    let c = isqrt(n);
    assert(is_isqrt(n, c));
    if c < r {
        assert((c + 1) * (c + 1) <= r * r) by (nonlinear_arith)
            requires
                0 <= c,
                c < r,
        ;
    } else if c > r {
        assert((r + 1) * (r + 1) <= c * c) by (nonlinear_arith)
            requires
                0 <= r,
                r < c,
        ;
    }
}

/// The integer square root of `n`, by bisection.
pub fn isqrt_exec(n: i128) -> (r: i128)
    requires
        0 <= n < LIM_SQRT,
    ensures
        is_isqrt(n as int, r as int),
        r == isqrt(n as int),
        0 <= r < 9223372036854775808,
{
    let mut lo: i128 = 0;
    let mut hi: i128 = 9223372036854775808;
    assert(hi * hi == LIM_SQRT);
    while hi - lo > 1
        invariant
            0 <= lo < hi <= 9223372036854775808,
            lo * lo <= n,
            n < hi * hi,
        decreases hi - lo,
    {
        let mid = lo + (hi - lo) / 2;
        assert(lo < mid < hi);
        assert(mid * mid <= hi * hi && hi * hi <= LIM_SQRT) by (nonlinear_arith)
            requires
                0 <= mid < hi,
                hi <= 9223372036854775808,
        ;
        if mid * mid <= n {
            lo = mid;
        } else {
            hi = mid;
        }
    }
    assert(hi == lo + 1);
    proof {
        lemma_isqrt_unique(n as int, lo as int);
    }
    lo
}

/// `a / b` rounded toward negative infinity, for a positive `b`.
pub fn div_floor(a: i128, b: i128) -> (r: i128)
    requires
        b > 0,
        a > i128::MIN,
    ensures
        r == a as int / b as int,
{
    if a >= 0 {
        a / b
    } else {
        let m = -a - 1;
        let q = m / b;
        proof {
            lemma_fundamental_div_mod(m as int, b as int);
            lemma_mod_pos_bound(m as int, b as int);
            assert(q * b == b * q) by (nonlinear_arith);
            assert(a == (-q - 1) * b + (b - 1 - (m - q * b))) by (nonlinear_arith)
                requires
                    m == -a - 1,
            ;
            lemma_fundamental_div_mod_converse(a as int, b as int, -q - 1, b - 1 - (m - q * b));
        }
        -q - 1
    }
}

/// `x * sqrt(num / den)` rounded toward zero.
pub fn scale_sqrt_exec(x: i128, num: i128, den: i128) -> (r: i128)
    requires
        0 <= num,
        0 < den,
        x * x < LIM_SQRT,
        x * x * num < LIM_SQRT,
    ensures
        r == scale_sqrt(x as int, num as int, den as int),
        r * r <= (x * x * num) / (den as int),
        -9223372036854775808 < r < 9223372036854775808,
{
    assert(x * x >= 0 && x * x * num >= 0) by (nonlinear_arith)
        requires
            num >= 0,
    ;
    let q = (x * x * num) / den;
    proof {
        let xn = x * x * num;
        lemma_fundamental_div_mod(xn, den as int);
        lemma_mod_bound(xn, den as int);
        assert(q <= xn) by (nonlinear_arith)
            requires
                den >= 1,
                xn >= 0,
                xn == den * q + xn % (den as int),
                0 <= xn % (den as int),
        ;
    }
    let s = isqrt_exec(q);
    assert((-s) * (-s) == s * s) by (nonlinear_arith);
    if x < 0 {
        -s
    } else if x > 0 {
        s
    } else {
        0
    }
}

/// The model of an optional vector.
pub open spec fn opt_view(o: Option<Vec3>) -> Option<V3> {
    match o {
        Some(v) => Some(v@),
        None => None,
    }
}

/// The point of `pts` farthest along `v`, the last one of equally far points.
pub open spec fn farthest_point(pts: Seq<V3>, v: V3) -> V3 {
    pts[last_argmax(pts.map_values(|p: V3| v_dot(p, v)))]
}

/// `a / den <= num` for `0 <= a <= den * num`.
pub proof fn lemma_div_le(a: int, den: int, num: int)
    requires
        den > 0,
        0 <= a <= den * num,
    ensures
        0 <= a / den <= num,
{
    lemma_fundamental_div_mod(a, den);
    lemma_mod_bound(a, den);
    let q = a / den;
    assert(0 <= q <= num) by (nonlinear_arith)
        requires
            a == den * q + a % den,
            0 <= a % den < den,
            0 <= a <= den * num,
            den > 0,
    ;
}

/// The index of the last greatest value of `s` (0 when `s` is empty).
pub open spec fn last_argmax(s: Seq<int>) -> int
    decreases s.len(),
{
    if s.len() <= 1 {
        0
    } else {
        let k = last_argmax(s.drop_last());
        if s.last() >= s[k] {
            s.len() - 1
        } else {
            k
        }
    }
}

pub proof fn lemma_last_argmax_range(s: Seq<int>)
    ensures
        s.len() > 0 ==> 0 <= last_argmax(s) < s.len(),
    decreases s.len(),
{
    if s.len() > 1 {
        lemma_last_argmax_range(s.drop_last());
    }
}

/// The dot products of `pts` with `v`.
pub open spec fn dots(pts: Seq<Vec3>, v: V3) -> Seq<int> {
    pts.map_values(|p: Vec3| v_dot(p@, v))
}

/// The index of the last point of `pts` farthest along `v`.
pub fn farthest(pts: &Vec<Vec3>, v: Vec3) -> (r: usize)
    requires
        0 < pts@.len(),
        forall|i: int| 0 <= i < pts@.len() ==> v_bounded((#[trigger] pts@[i])@, LIM_PRODUCT as int),
        v_bounded(v@, LIM_PRODUCT as int),
    ensures
        r == last_argmax(dots(pts@, v@)),
        r < pts@.len(),
        pts@[r as int]@ == farthest_point(pts@.map_values(|p: Vec3| p@), v@),
{
    let ghost vals = dots(pts@, v@);
    let mut best: usize = 0;
    let mut best_val = vdot(pts[0], v);
    let mut i: usize = 1;
    assert(vals.subrange(0, 1).len() == 1);
    while i < pts.len()
        invariant
            1 <= i <= pts@.len(),
            vals == dots(pts@, v@),
            forall|k: int| 0 <= k < pts@.len() ==> v_bounded((#[trigger] pts@[k])@, LIM_PRODUCT as int),
            v_bounded(v@, LIM_PRODUCT as int),
            best < i,
            best == last_argmax(vals.subrange(0, i as int)),
            best_val == vals[best as int],
        decreases pts@.len() - i,
    {
        let val = vdot(pts[i], v);
        assert(vals.subrange(0, i + 1).drop_last() =~= vals.subrange(0, i as int));
        if val >= best_val {
            best = i;
            best_val = val;
        }
        i = i + 1;
    }
    assert(vals.subrange(0, i as int) =~= vals);
    let ghost views = pts@.map_values(|p: Vec3| p@);
    assert(views.map_values(|p: V3| v_dot(p, v@)) =~= vals);
    best
}

} // verus!
