//! The integrator: recursive light transport with a hard depth cutoff.

use vstd::prelude::*;
use crate::fixed::{SCALE, fadd, fsub, fmul, lemma_fmul_unit, fx_add, fx_sub, fx_mul};
use crate::vec3::{
    Vec3, V3, v3_add, v3_scale, v3_normalize, v3_norm, v3_zero, v3_one, clamp_i, clamp_i64,
};
use crate::ray::{Ray, RayV};
use crate::hittable::{World, world_hit_from};
use crate::material::color_ok;

verus! {

/// Least ray parameter a hit may have: a small positive bound that keeps a
/// scattered ray from re-hitting its own surface ("shadow acne").
pub const T_MIN: i64 = 66;

/// Greatest ray parameter considered: effectively unbounded.
pub const T_MAX: i64 = i64::MAX;

/// Half, in raw units.
pub const HALF: i64 = 32768;

/// The sky's zenith color `(0.5, 0.7, 1.0)` in raw units.
pub open spec fn sky_blue_v() -> V3 {
    V3 { x: 32768, y: 45875, z: 65536 }
}

pub fn sky_blue() -> (c: Vec3)
    ensures
        c@ == sky_blue_v(),
{
    Vec3::new(32768, 45875, 65536)
}

/// The background gradient a ray that escapes the scene sees: white blended
/// toward sky blue by the unit direction's height, `t = (y + 1) / 2`
/// clamped to `[0, 1]`; a direction whose norm rounds to zero reads height
/// zero.
pub open spec fn background_v(r: RayV) -> V3 {
    let uy = if v3_norm(r.dir) == 0 { 0 } else { v3_normalize(r.dir).y };
    let t = clamp_i(fmul(fadd(uy, SCALE as int), HALF as int), 0, SCALE as int);
    v3_add(v3_scale(v3_one(), fsub(SCALE as int, t)), v3_scale(sky_blue_v(), t))
}

/// The recursive light-transport integrator.
///
/// A spent depth returns black; a miss returns the background gradient,
/// exactly; an absorbed hit returns black; a scattered hit recurses and
/// tints. Whatever the scatter draws, every channel stays in `[0, 1]`.
pub fn ray_color(r: &Ray, world: &World, depth: u64) -> (c: Vec3)
    requires
        world.wf(),
    ensures
        depth == 0 ==> c@ == v3_zero(),
        depth > 0 && world_hit_from(world@, r@, T_MIN as int, T_MAX as int, 0) is None
            ==> c@ == background_v(r@),
        color_ok(c@),
    decreases depth,
{
    if depth == 0 {
        return Vec3::zero();
    }
    match world.hit(r, T_MIN, T_MAX) {
        Some(rec) => {
            match rec.mat.scatter(r, &rec) {
                Some((attenuation, scattered)) => {
                    let rc = ray_color(&scattered, world, depth - 1);
                    proof {
                        lemma_fmul_unit(attenuation@.x, rc@.x);
                        lemma_fmul_unit(attenuation@.y, rc@.y);
                        lemma_fmul_unit(attenuation@.z, rc@.z);
                    }
                    attenuation.mul(rc)
                }
                None => Vec3::zero(),
            }
        }
        None => {
            let n = r.dir.norm();
            let uy = if n == 0 {
                0
            } else {
                r.dir.normalize().y
            };
            let t = clamp_i64(fx_mul(fx_add(uy, SCALE), HALF), 0, SCALE);
            let white_part = Vec3::one().scale(fx_sub(SCALE, t));
            let blue_part = sky_blue().scale(t);
            proof {
                lemma_fmul_unit(SCALE as int, fsub(SCALE as int, t as int));
                lemma_fmul_unit(sky_blue_v().x, t as int);
                lemma_fmul_unit(sky_blue_v().y, t as int);
                lemma_fmul_unit(sky_blue_v().z, t as int);
            }
            white_part.add(blue_part)
        }
    }
}

} // verus!
