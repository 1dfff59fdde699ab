//! The material model: a closed set of scattering behaviours.
//!
//! Each variant's deterministic core is a `*_scatter_with` function that
//! takes the random sample as an argument and pins its result down exactly;
//! `Material::scatter` draws the randomness and dispatches, promising what
//! holds of every draw: a Lambertian surface always scatters and tints by
//! its albedo, metal tints by its albedo when it scatters at all, and glass
//! never tints.

use vstd::prelude::*;
use crate::fixed::{SCALE, fneg, fsub, fadd, fmul, fdiv, fx_neg, fx_sub, fx_add, fx_mul, fx_div};
use crate::vec3::{
    Vec3, V3, v3_add, v3_scale, v3_dot, v3_reflect, v3_refract, v3_normalize, v3_norm,
    v3_is_near, v3_zero, v3_one, fx_sqrt,
};
use crate::ray::Ray;
use crate::hittable::HitRecord;
use crate::rng::random_fx;

verus! {

/// The closed set of surface behaviours.
#[derive(Debug, Clone, Copy, PartialEq, Eq, Structural)]
pub enum Material {
    /// Diffuse: scatters about the normal, tints by `albedo`.
    Lambertian { albedo: Vec3 },
    /// Reflective: mirrors the incoming direction, roughened by `fuzz`.
    Metal { albedo: Vec3, fuzz: i64 },
    /// Refractive: bends or mirrors by Snell's law and Schlick's
    /// approximation; never tints.
    Dielectric { refractive_index: i64 },
}

/// A color's channels lie in [0, 1].
pub open spec fn color_ok(c: V3) -> bool {
    &&& 0 <= c.x <= SCALE
    &&& 0 <= c.y <= SCALE
    &&& 0 <= c.z <= SCALE
}

/// A material's parameters are in range.
pub open spec fn mat_wf(m: Material) -> bool {
    match m {
        Material::Lambertian { albedo } => color_ok(albedo@),
        Material::Metal { albedo, fuzz } => color_ok(albedo@) && 0 <= fuzz <= SCALE,
        Material::Dielectric { refractive_index } => refractive_index > 0,
    }
}

/// The Lambertian scatter direction: normal plus a unit sample, with the
/// normal itself as fallback when the sum is degenerate.
pub open spec fn lambertian_dir(normal: V3, sample: V3) -> V3 {
    let d = v3_add(normal, sample);
    if v3_is_near(d, v3_zero()) {
        normal
    } else {
        d
    }
}

/// The metal scatter direction: the normalized incoming direction mirrored
/// about the normal, perturbed by `fuzz` times the sample.
pub open spec fn metal_dir(in_dir: V3, normal: V3, fuzz: int, sample: V3) -> V3 {
    v3_add(v3_reflect(v3_normalize(in_dir), normal), v3_scale(sample, fuzz))
}

/// Incident cosine, clamped to 1 against floating overshoot's fixed-point
/// analogue.
pub open spec fn d_cos(u: V3, n: V3) -> int {
    let md = fneg(v3_dot(u, n));
    if md > SCALE {
        SCALE as int
    } else {
        md
    }
}

/// Incident sine from the cosine.
pub open spec fn d_sin(c: int) -> int {
    let k = fsub(SCALE as int, fmul(c, c));
    crate::vec3::fsqrt(if k < 0 { fneg(k) } else { k })
}

pub open spec fn pow5(x: int) -> int {
    fmul(fmul(fmul(fmul(x, x), x), x), x)
}

/// Schlick's reflectance approximation.
pub open spec fn schlick(c: int, ratio: int) -> int {
    let r0 = fdiv(fsub(SCALE as int, ratio), fadd(SCALE as int, ratio));
    let r0s = fmul(r0, r0);
    fadd(r0s, fmul(fsub(SCALE as int, r0s), pow5(fsub(SCALE as int, c))))
}

/// Indices on each side of the boundary: entering meets `(1, ir)`, leaving
/// meets `(ir, 1)`.
pub open spec fn dielectric_etas(ir: int, front_face: bool) -> (int, int) {
    if front_face {
        (SCALE as int, ir)
    } else {
        (ir, SCALE as int)
    }
}

/// Whether the dielectric reflects: total internal reflection forces it,
/// else the Schlick reflectance is held against the uniform draw.
pub open spec fn dielectric_reflects(ir: int, in_dir: V3, n: V3, front_face: bool, draw: int) -> bool {
    let u = v3_normalize(in_dir);
    let ratio = fdiv(dielectric_etas(ir, front_face).0, dielectric_etas(ir, front_face).1);
    let c = d_cos(u, n);
    fmul(ratio, d_sin(c)) > SCALE || schlick(c, ratio) > draw
}

/// The dielectric scatter direction for a given draw.
pub open spec fn dielectric_dir(ir: int, in_dir: V3, n: V3, front_face: bool, draw: int) -> V3 {
    let u = v3_normalize(in_dir);
    if dielectric_reflects(ir, in_dir, n, front_face, draw) {
        v3_reflect(u, n)
    } else {
        v3_refract(u, n, dielectric_etas(ir, front_face).0, dielectric_etas(ir, front_face).1)
    }
}

/// Diffuse scattering for a given unit-sphere sample: always scatters, and
/// the attenuation is exactly the albedo.
pub fn lambertian_scatter_with(albedo: Vec3, rec: &HitRecord, sample: Vec3) -> (r: (Vec3, Ray))
    ensures
        r.0 == albedo,
        r.1.origin == rec.point,
        r.1.dir@ == lambertian_dir(rec.normal@, sample@),
{
    let d = rec.normal.add(sample);
    let dir = if d.is_near(Vec3::zero()) {
        rec.normal
    } else {
        d
    };
    (albedo, Ray::new(rec.point, dir))
}

/// Metal scattering for a given fuzz sample: absorbed exactly when the
/// perturbed mirror direction does not leave the surface.
pub fn metal_scatter_with(albedo: Vec3, fuzz: i64, ray_in: &Ray, rec: &HitRecord, sample: Vec3)
    -> (r: Option<(Vec3, Ray)>)
    requires
        v3_norm(ray_in.dir@) != 0,
    ensures
        r is Some <==> v3_dot(
            metal_dir(ray_in.dir@, rec.normal@, fuzz as int, sample@), rec.normal@) > 0,
        r matches Some(p) ==> {
            &&& p.0 == albedo
            &&& p.1.origin == rec.point
            &&& p.1.dir@ == metal_dir(ray_in.dir@, rec.normal@, fuzz as int, sample@)
        },
{
    let reflected = ray_in.dir.normalize().reflect(rec.normal);
    let dir = reflected.add(sample.scale(fuzz));
    if dir.dot(rec.normal) > 0 {
        Some((albedo, Ray::new(rec.point, dir)))
    } else {
        None
    }
}

/// Refractive scattering for a given uniform draw: always scatters, never
/// tints, and reflects exactly when `dielectric_reflects` says so.
pub fn dielectric_scatter_with(ir: i64, ray_in: &Ray, rec: &HitRecord, draw: i64)
    -> (r: (Vec3, Ray))
    requires
        ir > 0,
        v3_norm(ray_in.dir@) != 0,
    ensures
        r.0@ == v3_one(),
        r.1.origin == rec.point,
        r.1.dir@ == dielectric_dir(ir as int, ray_in.dir@, rec.normal@, rec.front_face, draw as int),
{
    let unit = ray_in.dir.normalize();
    let eta1 = if rec.front_face { SCALE } else { ir };
    let eta2 = if rec.front_face { ir } else { SCALE };
    let ratio = fx_div(eta1, eta2);
    let md = fx_neg(unit.dot(rec.normal));
    let cos_theta = if md > SCALE { SCALE } else { md };
    let k = fx_sub(SCALE, fx_mul(cos_theta, cos_theta));
    let ka = if k < 0 { fx_neg(k) } else { k };
    let sin_theta = fx_sqrt(ka);
    let cannot_refract = fx_mul(ratio, sin_theta) > SCALE;
    let denom = fx_add(SCALE, ratio);
    proof {
        assert((eta1 as int) * (SCALE as int) > 0) by (nonlinear_arith)
            requires eta1 as int >= 1 && SCALE as int == 65536;
        crate::fixed::lemma_tdiv_nonneg((eta1 as int) * (SCALE as int), eta2 as int);
    }
    let r0 = fx_div(fx_sub(SCALE, ratio), denom);
    let r0s = fx_mul(r0, r0);
    let omc = fx_sub(SCALE, cos_theta);
    let p5 = fx_mul(fx_mul(fx_mul(fx_mul(omc, omc), omc), omc), omc);
    let refl = fx_add(r0s, fx_mul(fx_sub(SCALE, r0s), p5));
    let dir = if cannot_refract || refl > draw {
        unit.reflect(rec.normal)
    } else {
        unit.refract(rec.normal, eta1, eta2)
    };
    (Vec3::one(), Ray::new(rec.point, dir))
}

impl Material {
    /// Scatter an incoming ray at a hit: draw the randomness the variant
    /// needs and decide attenuation and outgoing ray, or absorption.
    pub fn scatter(&self, ray_in: &Ray, rec: &HitRecord) -> (r: Option<(Vec3, Ray)>)
        ensures
            (match *self {
                Material::Lambertian { albedo } => r matches Some(p) && p.0 == albedo,
                Material::Metal { albedo, .. } => r matches Some(p) ==> p.0 == albedo,
                Material::Dielectric { .. } => r matches Some(p) ==> p.0@ == v3_one(),
            }),
            mat_wf(*self) ==> (r matches Some(p) ==> color_ok(p.0@)),
            r matches Some(p) ==> p.1.origin == rec.point,
    {
        match self {
            Material::Lambertian { albedo } => {
                let sample = Vec3::random_unit_sphere();
                Some(lambertian_scatter_with(*albedo, rec, sample))
            }
            Material::Metal { albedo, fuzz } => {
                if ray_in.dir.norm() == 0 {
                    None
                } else {
                    let sample = Vec3::random_unit_sphere();
                    metal_scatter_with(*albedo, *fuzz, ray_in, rec, sample)
                }
            }
            Material::Dielectric { refractive_index } => {
                if ray_in.dir.norm() == 0 {
                    None
                } else if *refractive_index <= 0 {
                    None
                } else {
                    let draw = random_fx();
                    Some(dielectric_scatter_with(*refractive_index, ray_in, rec, draw))
                }
            }
        }
    }
}

} // verus!
