//! Hittable geometry: spheres, hit records, and the scene aggregate that
//! answers "nearest hit in [t_min, t_max]".

use vstd::prelude::*;
use crate::fixed::{fneg, fsub, fadd, fmul, fdiv, fx_neg, fx_sub, fx_add, fx_mul, fx_div};
use crate::vec3::{Vec3, V3, v3_sub, v3_div, v3_neg, v3_dot, fsqrt, fx_sqrt};
use crate::ray::{Ray, RayV, ray_at};
use crate::material::{Material, mat_wf};

verus! {

/// A recorded intersection: point, normal oriented against the incoming
/// ray, ray parameter, which side was struck, and the surface's material.
#[derive(Debug, Clone, Copy)]
pub struct HitRecord {
    pub point: Vec3,
    pub normal: Vec3,
    pub t: i64,
    pub front_face: bool,
    pub mat: Material,
}

/// A sphere of a given center, radius and material.
#[derive(Debug, Clone, Copy)]
pub struct Sphere {
    pub center: Vec3,
    pub radius: i64,
    pub mat: Material,
}

pub open spec fn sphere_oc(s: Sphere, r: RayV) -> V3 {
    v3_sub(r.origin, s.center@)
}

pub open spec fn sphere_a(s: Sphere, r: RayV) -> int {
    v3_dot(r.dir, r.dir)
}

pub open spec fn sphere_half_b(s: Sphere, r: RayV) -> int {
    v3_dot(sphere_oc(s, r), r.dir)
}

pub open spec fn sphere_c(s: Sphere, r: RayV) -> int {
    fsub(v3_dot(sphere_oc(s, r), sphere_oc(s, r)), fmul(s.radius as int, s.radius as int))
}

/// Quarter discriminant of `|O + tD - C|^2 == r^2`.
pub open spec fn sphere_disc(s: Sphere, r: RayV) -> int {
    fsub(fmul(sphere_half_b(s, r), sphere_half_b(s, r)), fmul(sphere_a(s, r), sphere_c(s, r)))
}

pub open spec fn sphere_root_near(s: Sphere, r: RayV) -> int {
    fdiv(fsub(fneg(sphere_half_b(s, r)), fsqrt(sphere_disc(s, r))), sphere_a(s, r))
}

pub open spec fn sphere_root_far(s: Sphere, r: RayV) -> int {
    fdiv(fadd(fneg(sphere_half_b(s, r)), fsqrt(sphere_disc(s, r))), sphere_a(s, r))
}

/// The ray parameter a sphere reports within `[tmin, tmax]`: the smaller
/// root if it lies in range, else the larger, else nothing. A degenerate
/// direction (squared norm rounding to zero) is a miss.
pub open spec fn sphere_hit_t(s: Sphere, r: RayV, tmin: int, tmax: int) -> Option<int> {
    if sphere_a(s, r) == 0 || sphere_disc(s, r) < 0 {
        None
    } else {
        let r1 = sphere_root_near(s, r);
        let r2 = sphere_root_far(s, r);
        if tmin <= r1 && r1 <= tmax {
            Some(r1)
        } else if tmin <= r2 && r2 <= tmax {
            Some(r2)
        } else {
            None
        }
    }
}

pub open spec fn sphere_outward_normal(s: Sphere, r: RayV, t: int) -> V3 {
    v3_div(v3_sub(ray_at(r, t), s.center@), s.radius as int)
}

pub open spec fn sphere_front_face(s: Sphere, r: RayV, t: int) -> bool {
    v3_dot(r.dir, sphere_outward_normal(s, r, t)) < 0
}

/// The recorded normal: outward when the front face was struck, else
/// flipped, so it always opposes the incoming ray.
pub open spec fn sphere_normal(s: Sphere, r: RayV, t: int) -> V3 {
    if sphere_front_face(s, r, t) {
        sphere_outward_normal(s, r, t)
    } else {
        v3_neg(sphere_outward_normal(s, r, t))
    }
}

impl Sphere {
    /// Nearest intersection with `ray` in `[t_min, t_max]`, if any.
    pub fn hit(&self, ray: &Ray, t_min: i64, t_max: i64) -> (res: Option<HitRecord>)
        requires
            self.radius != 0,
        ensures
            res is Some <==> sphere_hit_t(*self, ray@, t_min as int, t_max as int) is Some,
            res matches Some(rec) ==> {
                &&& Some(rec.t as int) == sphere_hit_t(*self, ray@, t_min as int, t_max as int)
                &&& t_min <= rec.t <= t_max
                &&& rec.point@ == ray_at(ray@, rec.t as int)
                &&& rec.normal@ == sphere_normal(*self, ray@, rec.t as int)
                &&& rec.front_face == sphere_front_face(*self, ray@, rec.t as int)
                &&& rec.mat == self.mat
            },
    {
        let oc = ray.origin.sub(self.center);
        let a = ray.dir.dot(ray.dir);
        if a == 0 {
            return None;
        }
        let half_b = oc.dot(ray.dir);
        let c = fx_sub(oc.dot(oc), fx_mul(self.radius, self.radius));
        let disc = fx_sub(fx_mul(half_b, half_b), fx_mul(a, c));
        if disc < 0 {
            return None;
        }
        let sqrtd = fx_sqrt(disc);
        let r1 = fx_div(fx_sub(fx_neg(half_b), sqrtd), a);
        let root = if t_min <= r1 && r1 <= t_max {
            r1
        } else {
            let r2 = fx_div(fx_add(fx_neg(half_b), sqrtd), a);
            if t_min <= r2 && r2 <= t_max {
                r2
            } else {
                return None;
            }
        };
        let point = ray.at(root);
        let outward = point.sub(self.center).div(self.radius);
        let ff = ray.dir.dot(outward) < 0;
        let normal = if ff { outward } else { outward.neg() };
        Some(HitRecord { point, normal, t: root, front_face: ff, mat: self.mat })
    }
}

/// Every sphere of a scene has a usable radius and an in-range material.
pub open spec fn world_wf(w: Seq<Sphere>) -> bool {
    forall|i: int| 0 <= i < w.len() ==> (#[trigger] w[i]).radius > 0 && mat_wf(w[i].mat)
}

/// The scene: an unordered collection of spheres.
#[derive(Debug)]
pub struct World {
    pub objects: Vec<Sphere>,
}

impl View for World {
    type V = Seq<Sphere>;

    open spec fn view(&self) -> Seq<Sphere> {
        self.objects@
    }
}

/// The nearest-hit selection over `ss[i..]` with the running upper bound
/// `tmax`: each hit shrinks the bound, as the scan does; the result is the
/// winning index and parameter.
pub open spec fn world_hit_from(ss: Seq<Sphere>, r: RayV, tmin: int, tmax: int, i: int)
    -> Option<(int, int)>
    decreases ss.len() - i,
{
    if i < 0 || i >= ss.len() {
        None
    } else {
        match sphere_hit_t(ss[i], r, tmin, tmax) {
            Some(t0) => match world_hit_from(ss, r, tmin, t0, i + 1) {
                Some(p) => Some(p),
                None => Some((i, t0)),
            },
            None => world_hit_from(ss, r, tmin, tmax, i + 1),
        }
    }
}

/// A scan over no spheres selects nothing: the empty scene misses every ray.
pub proof fn lemma_world_hit_empty(r: RayV, tmin: int, tmax: int)
    ensures
        world_hit_from(Seq::<Sphere>::empty(), r, tmin, tmax, 0) is None,
{
}

impl World {
    pub fn new() -> (w: World)
        ensures
            w@ =~= Seq::<Sphere>::empty(),
            w@.len() == 0,
    {
        World { objects: Vec::new() }
    }

    pub open spec fn wf(&self) -> bool {
        world_wf(self@)
    }

    pub fn push(&mut self, s: Sphere)
        requires
            s.radius > 0,
            mat_wf(s.mat),
        ensures
            final(self)@ == old(self)@.push(s),
    {
        self.objects.push(s);
    }

    pub fn len(&self) -> (n: usize)
        ensures
            n == self@.len(),
    {
        self.objects.len()
    }

    /// The nearest hit among all members in `[t_min, t_max]`: scans every
    /// sphere, shrinking the upper bound to the best parameter found.
    pub fn hit(&self, ray: &Ray, t_min: i64, t_max: i64) -> (res: Option<HitRecord>)
        requires
            self.wf(),
        ensures
            res is Some <==> world_hit_from(self@, ray@, t_min as int, t_max as int, 0) is Some,
            self@.len() == 0 ==> res is None,
            res matches Some(rec) ==> {
                &&& world_hit_from(self@, ray@, t_min as int, t_max as int, 0)
                    matches Some(p)
                &&& 0 <= p.0 < self@.len()
                &&& rec.t as int == p.1
                &&& t_min <= rec.t <= t_max
                &&& rec.mat == self@[p.0].mat
                &&& rec.point@ == ray_at(ray@, p.1)
                &&& rec.normal@ == sphere_normal(self@[p.0], ray@, p.1)
                &&& rec.front_face == sphere_front_face(self@[p.0], ray@, p.1)
            },
    {
        let ghost full = world_hit_from(self@, ray@, t_min as int, t_max as int, 0);
        let mut best: Option<HitRecord> = None;
        let ghost mut gsel: Option<(int, int)> = None;
        let mut closest: i64 = t_max;
        let mut j: usize = 0;
        while j < self.objects.len()
            invariant
                0 <= j <= self.objects.len(),
                self.wf(),
                full == world_hit_from(self@, ray@, t_min as int, t_max as int, 0),
                full == (match world_hit_from(self@, ray@, t_min as int, closest as int, j as int) {
                    Some(p) => Some(p),
                    None => gsel,
                }),
                match best {
                    None => gsel is None && closest == t_max,
                    Some(rec) => {
                        &&& gsel matches Some(p)
                        &&& 0 <= p.0 < j
                        &&& rec.t as int == p.1
                        &&& closest == rec.t
                        &&& t_min <= rec.t <= t_max
                        &&& rec.mat == self@[p.0].mat
                        &&& rec.point@ == ray_at(ray@, p.1)
                        &&& rec.normal@ == sphere_normal(self@[p.0], ray@, p.1)
                        &&& rec.front_face == sphere_front_face(self@[p.0], ray@, p.1)
                    },
                },
            decreases self.objects.len() - j,
        {
            let s = self.objects[j];
            assert(s.radius != 0);
            match s.hit(ray, t_min, closest) {
                Some(rec) => {
                    proof {
                        gsel = Some((j as int, rec.t as int));
                    }
                    closest = rec.t;
                    best = Some(rec);
                }
                None => {}
            }
            j = j + 1;
        }
        best
    }
}

} // verus!
