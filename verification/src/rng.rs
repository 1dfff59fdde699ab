//! Randomized sampling: the one gateway to the process-wide generator, and
//! the stochastic vector constructors built on it.
//!
//! Each sampler's contract states only what holds of every draw; nothing is
//! promised about which value comes back.

use vstd::prelude::*;
use rand::Rng;
use crate::fixed::SCALE;
use crate::vec3::{Vec3, v3_squared_norm, v3_norm};

verus! {

/// Half-width of the band around 1.0 that a sampled unit vector's squared
/// norm is guaranteed to land in, in raw units.
pub const UNIT_BAND: i64 = 64;

/// Relies on `rand::Rng::gen_range` over an `i64` half-open range: the
/// result lies in `[lo, hi)`; an empty range would panic, so it is excluded.
#[verifier::external_body]
fn rand_range(lo: i64, hi: i64) -> (r: i64)
    requires
        lo < hi,
    ensures
        lo <= r < hi,
{
    rand::thread_rng().gen_range(lo..hi)
}

impl Vec3 {
    /// A vector with each component drawn uniformly from `[lo, hi)`.
    pub fn random(lo: i64, hi: i64) -> (r: Self)
        requires
            lo < hi,
        ensures
            lo as int <= r@.x < hi as int,
            lo as int <= r@.y < hi as int,
            lo as int <= r@.z < hi as int,
    {
        Vec3::new(rand_range(lo, hi), rand_range(lo, hi), rand_range(lo, hi))
    }

    /// A random direction of (nearly) unit length: a cube sample rescaled,
    /// redrawn while rounding leaves its squared norm outside the unit band,
    /// with a fixed axis as the (practically unreachable) last resort.
    pub fn random_unit_sphere() -> (r: Self)
        ensures
            SCALE - UNIT_BAND <= v3_squared_norm(r@) <= SCALE + UNIT_BAND,
    {
        let mut k: u32 = 0;
        while k < 32
            invariant
                true,
            decreases 32 - k,
        {
            let v = Vec3::random(-SCALE, SCALE);
            let n = v.norm();
            if n > 0 {
                let u = v.div(n);
                let usn = u.squared_norm();
                if SCALE - UNIT_BAND <= usn && usn <= SCALE + UNIT_BAND {
                    return u;
                }
            }
            k = k + 1;
        }
        let axis = Vec3::new(SCALE, 0, 0);
        proof {
            assert(65536int * 65536int == 4294967296int);
            assert(4294967296int / 65536int == 65536int);
            assert(crate::fixed::tdiv(4294967296int, 65536int) == 65536int);
            assert(crate::fixed::fmul(65536int, 65536int) == 65536int);
            assert(crate::fixed::fmul(0int, 0int) == 0int);
            assert(v3_squared_norm(axis@) == SCALE as int);
        }
        axis
    }

    /// A random point within the unit disk in the z = 0 plane, by rejection.
    pub fn random_unit_disk() -> (r: Self)
        ensures
            v3_norm(r@) <= SCALE as int,
            r@.z == 0,
    {
        let mut k: u32 = 0;
        while k < 32
            invariant
                true,
            decreases 32 - k,
        {
            let v = Vec3::new(rand_range(-SCALE, SCALE), rand_range(-SCALE, SCALE), 0);
            if v.norm() <= SCALE {
                return v;
            }
            k = k + 1;
        }
        let center = Vec3::new(0, 0, 0);
        assert(v3_norm(center@) == 0) by {
            crate::fixed::lemma_sqrt_floor(0);
        }
        center
    }
}

/// A random scalar in `[0, 1)`, in raw units.
pub fn random_fx() -> (r: i64)
    ensures
        0 <= r < SCALE,
{
    rand_range(0, SCALE)
}

} // verus!
