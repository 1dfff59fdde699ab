//! 3D vectors over the fixed-point scalar, used interchangeably as points,
//! directions and colors.
//!
//! Every operation's contract states its result exactly over `V3`, the
//! mathematical image of a vector (its raw components as integers), through
//! the spec functions of `crate::fixed`. The algebra's ideal laws, free of
//! truncation, are stated over the same model at unbounded precision at the
//! end of this file.

use vstd::prelude::*;
use crate::fixed::{
    SCALE, fadd, fsub, fneg, fmul, fdiv, tdiv, sqrt_floor, fx_add, fx_sub, fx_neg, fx_mul,
    fx_div, isqrt_u128,
};

verus! {

/// Tolerance of `is_near`, in raw units.
pub const NEAR_EPS: i64 = 8;

/// A 3D vector; each component is a fixed-point raw value (`SCALE` per 1.0).
#[derive(Debug, Clone, Copy, PartialEq, Eq, Structural)]
pub struct Vec3 {
    pub x: i64,
    pub y: i64,
    pub z: i64,
}

/// The mathematical image of a `Vec3`: its raw components as integers.
pub struct V3 {
    pub x: int,
    pub y: int,
    pub z: int,
}

impl View for Vec3 {
    type V = V3;

    open spec fn view(&self) -> V3 {
        V3 { x: self.x as int, y: self.y as int, z: self.z as int }
    }
}

pub open spec fn v3_zero() -> V3 {
    V3 { x: 0, y: 0, z: 0 }
}

pub open spec fn v3_one() -> V3 {
    V3 { x: SCALE as int, y: SCALE as int, z: SCALE as int }
}

pub open spec fn v3_add(a: V3, b: V3) -> V3 {
    V3 { x: fadd(a.x, b.x), y: fadd(a.y, b.y), z: fadd(a.z, b.z) }
}

pub open spec fn v3_sub(a: V3, b: V3) -> V3 {
    V3 { x: fsub(a.x, b.x), y: fsub(a.y, b.y), z: fsub(a.z, b.z) }
}

pub open spec fn v3_neg(a: V3) -> V3 {
    V3 { x: fneg(a.x), y: fneg(a.y), z: fneg(a.z) }
}

/// Componentwise product, the color-tinting multiply.
pub open spec fn v3_mul(a: V3, b: V3) -> V3 {
    V3 { x: fmul(a.x, b.x), y: fmul(a.y, b.y), z: fmul(a.z, b.z) }
}

/// Product with a scalar.
pub open spec fn v3_scale(a: V3, k: int) -> V3 {
    V3 { x: fmul(a.x, k), y: fmul(a.y, k), z: fmul(a.z, k) }
}

/// Quotient by a scalar.
pub open spec fn v3_div(a: V3, k: int) -> V3 {
    V3 { x: fdiv(a.x, k), y: fdiv(a.y, k), z: fdiv(a.z, k) }
}

/// Dot product: the three componentwise products summed in the fixed-point
/// arithmetic itself, so each step truncates and saturates like the rest
/// of the algebra.
pub open spec fn v3_dot(a: V3, b: V3) -> int {
    fadd(fadd(fmul(a.x, b.x), fmul(a.y, b.y)), fmul(a.z, b.z))
}

pub open spec fn v3_squared_norm(a: V3) -> int {
    v3_dot(a, a)
}

/// Fixed-point square root of a nonnegative raw value: `sqrt(a/S)*S` is
/// `sqrt_floor(a*S)`.
pub open spec fn fsqrt(a: int) -> int {
    sqrt_floor((a * SCALE) as nat) as int
}

pub open spec fn v3_norm(a: V3) -> int {
    fsqrt(v3_squared_norm(a))
}

pub open spec fn v3_normalize(a: V3) -> V3 {
    v3_div(a, v3_norm(a))
}

pub open spec fn v3_cross(a: V3, b: V3) -> V3 {
    V3 {
        x: fsub(fmul(a.y, b.z), fmul(a.z, b.y)),
        y: fsub(fmul(a.z, b.x), fmul(a.x, b.z)),
        z: fsub(fmul(a.x, b.y), fmul(a.y, b.x)),
    }
}

pub open spec fn v3_abs(a: V3) -> V3 {
    V3 {
        x: if a.x < 0 { fneg(a.x) } else { a.x },
        y: if a.y < 0 { fneg(a.y) } else { a.y },
        z: if a.z < 0 { fneg(a.z) } else { a.z },
    }
}

pub open spec fn clamp_i(v: int, lo: int, hi: int) -> int {
    if v < lo { lo } else if v > hi { hi } else { v }
}

pub open spec fn v3_clamp(a: V3, lo: int, hi: int) -> V3 {
    V3 { x: clamp_i(a.x, lo, hi), y: clamp_i(a.y, lo, hi), z: clamp_i(a.z, lo, hi) }
}

/// `v - 2*dot(v,n)*n`, each step in the fixed-point arithmetic.
pub open spec fn v3_reflect(v: V3, n: V3) -> V3 {
    v3_sub(v, v3_scale(n, fadd(v3_dot(v, n), v3_dot(v, n))))
}

pub open spec fn v3_is_near(a: V3, b: V3) -> bool {
    let d = v3_abs(v3_sub(a, b));
    d.x < NEAR_EPS && d.y < NEAR_EPS && d.z < NEAR_EPS
}

/// Snell's law decomposition: the refracted direction's perpendicular and
/// parallel parts, with the incident cosine clamped to 1 against overshoot.
pub open spec fn v3_refract(v: V3, n: V3, eta1: int, eta2: int) -> V3 {
    let cos_theta = if fneg(v3_dot(v, n)) > SCALE { SCALE as int } else { fneg(v3_dot(v, n)) };
    let ratio = fdiv(eta1, eta2);
    let perp = v3_scale(v3_add(v, v3_scale(n, cos_theta)), ratio);
    let k = fsub(SCALE as int, v3_squared_norm(perp));
    let ka = if k < 0 { fneg(k) } else { k };
    let parallel = v3_scale(n, fneg(fsqrt(ka)));
    v3_add(perp, parallel)
}

/// Every fixed-point square is nonnegative.
pub proof fn lemma_fmul_square_nonneg(a: int)
    ensures
        fmul(a, a) >= 0,
{
    assert(a * a >= 0) by (nonlinear_arith);
    assert(crate::fixed::abs_i(a * a) / crate::fixed::abs_i(SCALE as int) >= 0) by {
        vstd::arithmetic::div_mod::lemma_div_pos_is_pos(crate::fixed::abs_i(a * a), SCALE as int);
    }
}

/// A dot product of a vector with itself is nonnegative.
pub proof fn lemma_squared_norm_nonneg(a: V3)
    ensures
        0 <= v3_squared_norm(a) <= i64::MAX,
{
    lemma_fmul_square_nonneg(a.x);
    lemma_fmul_square_nonneg(a.y);
    lemma_fmul_square_nonneg(a.z);
}

impl Vec3 {
    pub fn new(x: i64, y: i64, z: i64) -> (r: Self)
        ensures
            r@ == (V3 { x: x as int, y: y as int, z: z as int }),
    {
        Vec3 { x, y, z }
    }

    pub fn zero() -> (r: Self)
        ensures
            r@ == (V3 { x: 0int, y: 0int, z: 0int }),
    {
        Vec3 { x: 0, y: 0, z: 0 }
    }

    pub fn one() -> (r: Self)
        ensures
            r@ == (V3 { x: SCALE as int, y: SCALE as int, z: SCALE as int }),
    {
        Vec3 { x: SCALE, y: SCALE, z: SCALE }
    }

    pub fn add(self, rhs: Self) -> (r: Self)
        ensures
            r@ == v3_add(self@, rhs@),
    {
        Vec3 { x: fx_add(self.x, rhs.x), y: fx_add(self.y, rhs.y), z: fx_add(self.z, rhs.z) }
    }

    pub fn sub(self, rhs: Self) -> (r: Self)
        ensures
            r@ == v3_sub(self@, rhs@),
    {
        Vec3 { x: fx_sub(self.x, rhs.x), y: fx_sub(self.y, rhs.y), z: fx_sub(self.z, rhs.z) }
    }

    pub fn neg(self) -> (r: Self)
        ensures
            r@ == v3_neg(self@),
    {
        Vec3 { x: fx_neg(self.x), y: fx_neg(self.y), z: fx_neg(self.z) }
    }

    /// Componentwise product (color tinting).
    pub fn mul(self, rhs: Self) -> (r: Self)
        ensures
            r@ == v3_mul(self@, rhs@),
    {
        Vec3 { x: fx_mul(self.x, rhs.x), y: fx_mul(self.y, rhs.y), z: fx_mul(self.z, rhs.z) }
    }

    /// Product with a scalar.
    pub fn scale(self, k: i64) -> (r: Self)
        ensures
            r@ == v3_scale(self@, k as int),
    {
        Vec3 { x: fx_mul(self.x, k), y: fx_mul(self.y, k), z: fx_mul(self.z, k) }
    }

    /// Quotient by a scalar.
    pub fn div(self, k: i64) -> (r: Self)
        requires
            k != 0,
        ensures
            r@ == v3_div(self@, k as int),
    {
        Vec3 { x: fx_div(self.x, k), y: fx_div(self.y, k), z: fx_div(self.z, k) }
    }

    pub fn dot(&self, other: Self) -> (r: i64)
        ensures
            r as int == v3_dot(self@, other@),
    {
        fx_add(fx_add(fx_mul(self.x, other.x), fx_mul(self.y, other.y)), fx_mul(self.z, other.z))
    }

    pub fn squared_norm(self) -> (r: i64)
        ensures
            r as int == v3_squared_norm(self@),
            r >= 0,
    {
        proof {
            lemma_squared_norm_nonneg(self@);
        }
        self.dot(self)
    }

    pub fn norm(self) -> (r: i64)
        ensures
            r as int == v3_norm(self@),
            r >= 0,
    {
        let sn = self.squared_norm();
        fx_sqrt(sn)
    }

    /// Direction rescaled to unit length. Degenerate inputs are the caller's
    /// to guard: a vector whose norm rounds to zero has no direction.
    pub fn normalize(self) -> (r: Self)
        requires
            v3_norm(self@) != 0,
        ensures
            r@ == v3_normalize(self@),
    {
        let n = self.norm();
        self.div(n)
    }

    /// Rescale in place to unit length.
    pub fn normalized(&mut self)
        requires
            v3_norm(old(self)@) != 0,
        ensures
            final(self)@ == v3_normalize(old(self)@),
    {
        *self = self.normalize();
    }

    pub fn cross(&self, other: Self) -> (r: Self)
        ensures
            r@ == v3_cross(self@, other@),
    {
        Vec3 {
            x: fx_sub(fx_mul(self.y, other.z), fx_mul(self.z, other.y)),
            y: fx_sub(fx_mul(self.z, other.x), fx_mul(self.x, other.z)),
            z: fx_sub(fx_mul(self.x, other.y), fx_mul(self.y, other.x)),
        }
    }

    pub fn abs(self) -> (r: Self)
        ensures
            r@ == v3_abs(self@),
    {
        Vec3 {
            x: if self.x < 0 { fx_neg(self.x) } else { self.x },
            y: if self.y < 0 { fx_neg(self.y) } else { self.y },
            z: if self.z < 0 { fx_neg(self.z) } else { self.z },
        }
    }

    pub fn clamp(self, min: i64, max: i64) -> (r: Self)
        requires
            min <= max,
        ensures
            r@ == v3_clamp(self@, min as int, max as int),
    {
        Vec3 {
            x: clamp_i64(self.x, min, max),
            y: clamp_i64(self.y, min, max),
            z: clamp_i64(self.z, min, max),
        }
    }

    /// Specular reflection about the normal `n`.
    pub fn reflect(&self, n: Self) -> (r: Self)
        ensures
            r@ == v3_reflect(self@, n@),
    {
        let d = self.dot(n);
        self.sub(n.scale(fx_add(d, d)))
    }

    /// Snell's law refraction from a medium of index `eta1` into `eta2`.
    pub fn refract(self, n: Self, eta1: i64, eta2: i64) -> (r: Self)
        requires
            eta2 != 0,
        ensures
            r@ == v3_refract(self@, n@, eta1 as int, eta2 as int),
    {
        let md = fx_neg(self.dot(n));
        let cos_theta = if md > SCALE { SCALE } else { md };
        let ratio = fx_div(eta1, eta2);
        let perp = self.add(n.scale(cos_theta)).scale(ratio);
        let k = fx_sub(SCALE, perp.squared_norm());
        let ka = if k < 0 { fx_neg(k) } else { k };
        let parallel = n.scale(fx_neg(fx_sqrt(ka)));
        perp.add(parallel)
    }

    /// Approximate equality within `NEAR_EPS` per component.
    pub fn is_near(&self, v: Self) -> (r: bool)
        ensures
            r == v3_is_near(self@, v@),
    {
        let d = self.sub(v).abs();
        d.x < NEAR_EPS && d.y < NEAR_EPS && d.z < NEAR_EPS
    }
}

pub fn clamp_i64(v: i64, lo: i64, hi: i64) -> (r: i64)
    requires
        lo <= hi,
    ensures
        r as int == clamp_i(v as int, lo as int, hi as int),
{
    if v < lo {
        lo
    } else if v > hi {
        hi
    } else {
        v
    }
}

/// Fixed-point square root of a nonnegative raw value.
pub fn fx_sqrt(a: i64) -> (r: i64)
    requires
        a >= 0,
    ensures
        r as int == fsqrt(a as int),
        r >= 0,
{
    proof {
        assert(0 <= (a as int) * (SCALE as int) <= 0x7fff_ffff_ffff_ffff_0000)
            by (nonlinear_arith)
            requires
                0 <= a as int <= 0x7fff_ffff_ffff_ffff,
                SCALE as int == 65536;
    }
    let r = isqrt_u128((a as u128) * (SCALE as u128));
    proof {
        assert(((r as int) * (r as int) <= (a as int) * (SCALE as int)
            && (a as int) * (SCALE as int) <= 0x7fff_ffff_ffff_ffff_0000)
            ==> r <= 0x1_0000_0000_0000) by (nonlinear_arith);
    }
    r as i64
}

/// Shorthand constructor.
pub fn vec3(x: i64, y: i64, z: i64) -> (r: Vec3)
    ensures
        r@ == (V3 { x: x as int, y: y as int, z: z as int }),
{
    Vec3 { x, y, z }
}

// ---------------------------------------------------------------------------
// The ideal algebra: the same operations at unbounded precision, over which
// the library's geometric laws hold exactly.
// ---------------------------------------------------------------------------

/// Exact dot product, free of truncation.
pub open spec fn idot(a: V3, b: V3) -> int {
    a.x * b.x + a.y * b.y + a.z * b.z
}

/// Exact product with a scalar.
pub open spec fn iscale(a: V3, k: int) -> V3 {
    V3 { x: k * a.x, y: k * a.y, z: k * a.z }
}

/// Exact difference.
pub open spec fn isub(a: V3, b: V3) -> V3 {
    V3 { x: a.x - b.x, y: a.y - b.y, z: a.z - b.z }
}

/// Exact specular reflection `v - 2*dot(v,n)*n`.
pub open spec fn ireflect(v: V3, n: V3) -> V3 {
    isub(v, iscale(n, 2 * idot(v, n)))
}

/// `v*dot(n,n) - 2*dot(v,n)*n`: reflection homogenized so that no division
/// is needed for a non-unit normal.
pub open spec fn ireflect_h(v: V3, n: V3) -> V3 {
    isub(iscale(v, idot(n, n)), iscale(n, 2 * idot(v, n)))
}

/// Reflection scales the squared norm by the fourth power of the normal's
/// length: `|v*|n|^2 - 2(v.n)n|^2 == |n|^4 * |v|^2`.
pub proof fn lemma_reflect_scales_squared_norm(v: V3, n: V3)
    ensures
        idot(ireflect_h(v, n), ireflect_h(v, n)) == idot(n, n) * idot(n, n) * idot(v, v),
{
    let nn = idot(n, n);
    let d = idot(v, n);
    let r = ireflect_h(v, n);
    assert(r.x == nn * v.x - 2 * d * n.x);
    assert(r.y == nn * v.y - 2 * d * n.y);
    assert(r.z == nn * v.z - 2 * d * n.z);
    lemma_reflect_component(v.x, n.x, nn, d);
    lemma_reflect_component(v.y, n.y, nn, d);
    lemma_reflect_component(v.z, n.z, nn, d);
    lemma_distrib3(nn * nn, v.x * v.x, v.y * v.y, v.z * v.z);
    lemma_distrib3(4 * (nn * d), v.x * n.x, v.y * n.y, v.z * n.z);
    lemma_distrib3(4 * (d * d), n.x * n.x, n.y * n.y, n.z * n.z);
    assert(idot(v, v) == v.x * v.x + v.y * v.y + v.z * v.z);
    assert(idot(v, n) == v.x * n.x + v.y * n.y + v.z * n.z);
    assert(idot(n, n) == n.x * n.x + n.y * n.y + n.z * n.z);
    lemma_reflect_cancel(nn, d);
    assert(idot(r, r) == r.x * r.x + r.y * r.y + r.z * r.z);
}

/// Products commute past each other: `(k*x)*(l*y) == (k*l)*(x*y)`.
proof fn lemma_mul_shuffle(k: int, x: int, l: int, y: int)
    ensures
        (k * x) * (l * y) == (k * l) * (x * y),
{
    vstd::arithmetic::mul::lemma_mul_is_associative(k * x, l, y);
    vstd::arithmetic::mul::lemma_mul_is_associative(k, x, l);
    vstd::arithmetic::mul::lemma_mul_is_commutative(x, l);
    vstd::arithmetic::mul::lemma_mul_is_associative(k, l, x);
    vstd::arithmetic::mul::lemma_mul_is_associative(k * l, x, y);
}

/// The square of a difference, expanded.
proof fn lemma_sq_diff(u: int, w: int)
    ensures
        (u - w) * (u - w) == u * u - 2 * (u * w) + w * w,
{
    assert((u - w) * (u - w) == u * u - 2 * (u * w) + w * w) by (nonlinear_arith);
}

/// One squared component of the homogenized reflection, expanded.
proof fn lemma_reflect_component(vc: int, nc: int, nn: int, d: int)
    ensures
        (nn * vc - 2 * d * nc) * (nn * vc - 2 * d * nc)
            == (nn * nn) * (vc * vc) - (4 * (nn * d)) * (vc * nc) + (4 * (d * d)) * (nc * nc),
{
    let u = nn * vc;
    let w = 2 * d * nc;
    lemma_sq_diff(u, w);
    lemma_mul_shuffle(nn, vc, nn, vc);
    lemma_mul_shuffle(2 * d, nc, 2 * d, nc);
    assert((2 * d) * (2 * d) == 4 * (d * d)) by (nonlinear_arith);
    lemma_mul_shuffle(nn, vc, 2 * d, nc);
    vstd::arithmetic::mul::lemma_mul_is_associative(2, nn * (2 * d), vc * nc);
    assert(2 * (nn * (2 * d)) == 4 * (nn * d)) by (nonlinear_arith);
}

/// Distributivity over a three-part sum.
proof fn lemma_distrib3(a: int, s1: int, s2: int, s3: int)
    ensures
        a * s1 + a * s2 + a * s3 == a * (s1 + s2 + s3),
{
    assert(a * s1 + a * s2 + a * s3 == a * (s1 + s2 + s3)) by (nonlinear_arith);
}

/// The two cross terms of the expansion agree.
proof fn lemma_reflect_cancel(nn: int, d: int)
    ensures
        (4 * (nn * d)) * d == (4 * (d * d)) * nn,
{
    assert((4 * (nn * d)) * d == (4 * (d * d)) * nn) by (nonlinear_arith);
}

/// Normalization is exact where no truncation intervenes: an axis vector a
/// whole number `k` of units long rescales to exactly the unit axis. (For a
/// general vector the square root and the divisions each truncate, and the
/// result's norm is only near one.)
pub proof fn lemma_normalize_axis_exact(k: int)
    requires
        1 <= k <= 0x7fff,
    ensures
        v3_normalize(V3 { x: k * SCALE, y: 0, z: 0 })
            == (V3 { x: SCALE as int, y: 0, z: 0 }),
{
    let s = SCALE as int;
    let c = k * s;
    let v = V3 { x: c, y: 0, z: 0 };
    let m = (k * k) * s;
    assert(c * c == m * s) by (nonlinear_arith)
        requires c == k * s && m == (k * k) * s;
    assert(1 <= k * k <= 0x3fff_0001) by (nonlinear_arith)
        requires 1 <= k <= 0x7fff;
    assert(0 < c <= 0x7fff_0000);
    assert(tdiv(c * c, s) == m) by {
        assert(c * c >= 0);
        vstd::arithmetic::div_mod::lemma_div_multiples_vanish(m, s);
    }
    assert(fmul(c, c) == m);
    assert(tdiv(0, s) == 0);
    assert(v3_squared_norm(v) == m);
    assert((c + 1) * (c + 1) > c * c) by (nonlinear_arith)
        requires c > 0;
    crate::fixed::lemma_sqrt_unique((m * s) as nat, c as nat);
    assert(v3_norm(v) == c);
    assert(tdiv(c * s, c) == s) by {
        assert(c * s >= 0) by (nonlinear_arith)
            requires c > 0 && s > 0;
        vstd::arithmetic::div_mod::lemma_div_multiples_vanish(s, c);
    }
    assert(fdiv(c, c) == s);
    assert(tdiv(0 * s, c) == 0);
    assert(fdiv(0, c) == 0);
}

/// Reflection about a unit normal preserves the squared norm, and with it
/// the length, of any vector: the algebra's norm-preservation law.
pub proof fn lemma_reflect_preserves_squared_norm(v: V3, n: V3)
    requires
        idot(n, n) == 1,
    ensures
        idot(ireflect(v, n), ireflect(v, n)) == idot(v, v),
{
    lemma_reflect_scales_squared_norm(v, n);
    assert(iscale(v, 1) == v);
    assert(ireflect_h(v, n) == ireflect(v, n));
    assert(idot(n, n) * idot(n, n) * idot(v, v) == idot(v, v)) by (nonlinear_arith)
        requires idot(n, n) == 1;
}

} // verus!
