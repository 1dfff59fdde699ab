//! The fixed-point scalar: an `i64` raw value counting `SCALE` units per 1.0.
//!
//! Products and quotients truncate toward zero (as Rust's `/` does on machine
//! integers) and every result saturates at the edges of the `i64` range, the
//! fixed-point analogue of a float's infinities: out-of-range intermediate
//! values are pinned to the nearest representable one instead of wrapping or
//! panicking.

use vstd::prelude::*;

verus! {

/// Raw units per 1.0.
pub const SCALE: i64 = 65536;

pub open spec fn abs_i(x: int) -> int {
    if x < 0 { -x } else { x }
}

/// Clamp to the `i64` range: how every arithmetic result saturates.
pub open spec fn sat64(x: int) -> int {
    if x > i64::MAX { i64::MAX as int } else if x < i64::MIN { i64::MIN as int } else { x }
}

/// Division rounding toward zero, as Rust's `/` rounds on machine integers.
pub open spec fn tdiv(p: int, d: int) -> int {
    if (p < 0) == (d < 0) {
        abs_i(p) / abs_i(d)
    } else {
        -(abs_i(p) / abs_i(d))
    }
}

/// Fixed-point sum.
pub open spec fn fadd(a: int, b: int) -> int {
    sat64(a + b)
}

/// Fixed-point difference.
pub open spec fn fsub(a: int, b: int) -> int {
    sat64(a - b)
}

/// Fixed-point negation.
pub open spec fn fneg(a: int) -> int {
    sat64(-a)
}

/// Fixed-point product: a*b rescaled by `SCALE`, truncated toward zero.
pub open spec fn fmul(a: int, b: int) -> int {
    sat64(tdiv(a * b, SCALE as int))
}

/// Fixed-point quotient: a/b rescaled by `SCALE`, truncated toward zero.
pub open spec fn fdiv(a: int, b: int) -> int {
    sat64(tdiv(a * SCALE, b))
}

/// Integer square root, as a spec-level definition.
pub open spec fn sqrt_floor(n: nat) -> nat
    decreases n,
{
    if n == 0 {
        0
    } else {
        let r = sqrt_floor((n - 1) as nat);
        if (r + 1) * (r + 1) <= n {
            r + 1
        } else {
            r
        }
    }
}

/// `sqrt_floor(n)` is the greatest natural whose square is at most `n`.
pub proof fn lemma_sqrt_floor(n: nat)
    ensures
        sqrt_floor(n) * sqrt_floor(n) <= n,
        n < (sqrt_floor(n) + 1) * (sqrt_floor(n) + 1),
    decreases n,
{
    let s = sqrt_floor(n);
    if n == 0 {
        assert(s == 0);
        assert(n < (s + 1) * (s + 1)) by (nonlinear_arith)
            requires n == 0 && s == 0;
    } else {
        lemma_sqrt_floor((n - 1) as nat);
        let r = sqrt_floor((n - 1) as nat);
        assert(r * r <= n - 1);
        assert(n - 1 < (r + 1) * (r + 1));
        if (r + 1) * (r + 1) <= n {
            assert(s == r + 1);
            assert(n < (s + 1) * (s + 1)) by (nonlinear_arith)
                requires s == r + 1 && n <= (r + 1) * (r + 1);
        } else {
            assert(s == r);
        }
    }
}

/// The square-root bracket pins its witness down uniquely.
pub proof fn lemma_sqrt_unique(n: nat, r: nat)
    requires
        r * r <= n,
        n < (r + 1) * (r + 1),
    ensures
        r == sqrt_floor(n),
{
    lemma_sqrt_floor(n);
    let s = sqrt_floor(n);
    if r < s {
        assert((r + 1) * (r + 1) <= s * s) by (nonlinear_arith)
            requires r + 1 <= s;
    }
    if s < r {
        assert((s + 1) * (s + 1) <= r * r) by (nonlinear_arith)
            requires s + 1 <= r;
    }
}

/// A quotient of nonnegative by positive is nonnegative.
pub proof fn lemma_tdiv_nonneg(p: int, d: int)
    requires
        p >= 0,
        d > 0,
    ensures
        tdiv(p, d) >= 0,
{
    vstd::arithmetic::div_mod::lemma_div_pos_is_pos(p, d);
}

/// Whether a value lies within the closed interval `[min, max]`.
pub fn is_campled(v: i64, min: i64, max: i64) -> (r: bool)
    ensures
        r == (min <= v && v <= max),
{
    v >= min && v <= max
}

/// Clamp an `i128` into the `i64` range.
pub fn sat_i128(x: i128) -> (r: i64)
    ensures
        r as int == sat64(x as int),
{
    if x > i64::MAX as i128 {
        i64::MAX
    } else if x < i64::MIN as i128 {
        i64::MIN
    } else {
        x as i64
    }
}

/// Divide `i128` values rounding toward zero.
fn tdiv_i128(p: i128, d: i128) -> (q: i128)
    requires
        d != 0,
        p != i128::MIN,
        d != i128::MIN,
    ensures
        q as int == tdiv(p as int, d as int),
        abs_i(q as int) <= abs_i(p as int),
{
    let pm: u128 = if p < 0 { (-p) as u128 } else { p as u128 };
    let dm: u128 = if d < 0 { (-d) as u128 } else { d as u128 };
    assert(pm as int == abs_i(p as int));
    assert(dm as int == abs_i(d as int));
    let qm: u128 = pm / dm;
    assert(qm <= pm) by {
        vstd::arithmetic::div_mod::lemma_div_nonincreasing(pm as int, dm as int);
    }
    if (p < 0) != (d < 0) {
        -(qm as i128)
    } else {
        qm as i128
    }
}

/// Fixed-point sum, saturating.
pub fn fx_add(a: i64, b: i64) -> (r: i64)
    ensures
        r as int == fadd(a as int, b as int),
{
    sat_i128(a as i128 + b as i128)
}

/// Fixed-point difference, saturating.
pub fn fx_sub(a: i64, b: i64) -> (r: i64)
    ensures
        r as int == fsub(a as int, b as int),
{
    sat_i128(a as i128 - b as i128)
}

/// Fixed-point negation, saturating.
pub fn fx_neg(a: i64) -> (r: i64)
    ensures
        r as int == fneg(a as int),
{
    sat_i128(-(a as i128))
}

/// Fixed-point product, truncating toward zero and saturating.
pub fn fx_mul(a: i64, b: i64) -> (r: i64)
    ensures
        r as int == fmul(a as int, b as int),
{
    proof {
        assert(-0x4000_0000_0000_0000_0000_0000_0000_0000 <= (a as int) * (b as int)
            <= 0x4000_0000_0000_0000_0000_0000_0000_0000) by (nonlinear_arith)
            requires
                -0x8000_0000_0000_0000 <= a as int <= 0x7fff_ffff_ffff_ffff,
                -0x8000_0000_0000_0000 <= b as int <= 0x7fff_ffff_ffff_ffff;
    }
    let p: i128 = (a as i128) * (b as i128);
    sat_i128(tdiv_i128(p, SCALE as i128))
}

/// Fixed-point quotient, truncating toward zero and saturating.
pub fn fx_div(a: i64, b: i64) -> (r: i64)
    requires
        b != 0,
    ensures
        r as int == fdiv(a as int, b as int),
{
    proof {
        assert(-0x1_0000_0000_0000_0000_0000 <= (a as int) * (SCALE as int)
            <= 0x1_0000_0000_0000_0000_0000) by (nonlinear_arith)
            requires
                -0x8000_0000_0000_0000 <= a as int <= 0x7fff_ffff_ffff_ffff,
                SCALE as int == 65536;
    }
    let p: i128 = (a as i128) * (SCALE as i128);
    sat_i128(tdiv_i128(p, b as i128))
}

/// Plain truncating division of raw values (an average, a quantization),
/// with no rescaling.
pub fn idiv(a: i64, b: i64) -> (q: i64)
    requires
        b > 0,
    ensures
        q as int == tdiv(a as int, b as int),
{
    proof {
        vstd::arithmetic::div_mod::lemma_div_pos_is_pos(abs_i(a as int), abs_i(b as int));
    }
    sat_i128(tdiv_i128(a as i128, b as i128))
}

/// A product of unit-interval scalars stays within both factors.
pub proof fn lemma_fmul_unit(a: int, b: int)
    requires
        0 <= a <= SCALE,
        0 <= b <= SCALE,
    ensures
        0 <= fmul(a, b),
        fmul(a, b) <= a,
        fmul(a, b) <= b,
{
    let p = a * b;
    assert(0 <= p && p <= a * 65536 && p <= b * 65536) by (nonlinear_arith)
        requires 0 <= a <= 65536 && 0 <= b <= 65536 && p == a * b;
    assert(tdiv(p, SCALE as int) == p / 65536);
    vstd::arithmetic::div_mod::lemma_div_pos_is_pos(p, 65536);
    vstd::arithmetic::div_mod::lemma_div_is_ordered(p, a * 65536, 65536);
    vstd::arithmetic::div_mod::lemma_div_is_ordered(p, b * 65536, 65536);
    vstd::arithmetic::div_mod::lemma_div_multiples_vanish(a, 65536);
    vstd::arithmetic::div_mod::lemma_div_multiples_vanish(b, 65536);
}

/// Integer square root: the unique `r` with `r*r <= x < (r+1)*(r+1)`.
pub fn isqrt_u128(x: u128) -> (r: u64)
    requires
        x < 0x4000_0000_0000_0000_0000_0000_0000_0000,
    ensures
        r as nat == sqrt_floor(x as nat),
        (r as int) * (r as int) <= x as int,
        x < (r as int + 1) * (r as int + 1),
{
    let mut lo: u128 = 0;
    let mut hi: u128 = 0x8000_0000_0000_0000;
    proof {
        assert((0x8000_0000_0000_0000 as int) * (0x8000_0000_0000_0000 as int)
            == 0x4000_0000_0000_0000_0000_0000_0000_0000) by (nonlinear_arith);
    }
    while lo + 1 < hi
        invariant
            lo < hi,
            hi <= 0x8000_0000_0000_0000,
            (lo as int) * (lo as int) <= x as int,
            (x as int) < (hi as int) * (hi as int),
        decreases hi - lo,
    {
        let mid: u128 = lo + (hi - lo) / 2;
        assert(lo < mid < hi);
        proof {
            assert((mid as int) * (mid as int) <= u128::MAX) by (nonlinear_arith)
                requires 0 <= mid as int <= 0x8000_0000_0000_0000;
        }
        let sq: u128 = mid * mid;
        if sq <= x {
            lo = mid;
        } else {
            hi = mid;
        }
    }
    proof {
        lemma_sqrt_unique(x as nat, lo as nat);
    }
    lo as u64
}

} // verus!
