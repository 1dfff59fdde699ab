//! Rays: an origin and a direction, with the point-at-parameter evaluator.

use vstd::prelude::*;
use crate::vec3::{Vec3, V3, v3_add, v3_scale};

verus! {

/// A point in space is a vector like any other.
pub type Point3 = Vec3;

/// A ray: origin plus direction; the direction need not be unit length.
#[derive(Debug, Clone, Copy, PartialEq, Eq, Structural)]
pub struct Ray {
    pub origin: Point3,
    pub dir: Vec3,
}

/// Mathematical image of a ray.
pub struct RayV {
    pub origin: V3,
    pub dir: V3,
}

impl View for Ray {
    type V = RayV;

    open spec fn view(&self) -> RayV {
        RayV { origin: self.origin@, dir: self.dir@ }
    }
}

/// The point a ray reaches at parameter `t`: `origin + dir * t`, exactly,
/// in the fixed-point algebra.
pub open spec fn ray_at(r: RayV, t: int) -> V3 {
    v3_add(r.origin, v3_scale(r.dir, t))
}

impl Ray {
    pub fn new(o: Point3, d: Vec3) -> (r: Self)
        ensures
            r.origin == o,
            r.dir == d,
    {
        Ray { origin: o, dir: d }
    }

    /// Evaluate the ray at parameter `t`: always exactly `origin + dir * t`.
    pub fn at(&self, t: i64) -> (p: Point3)
        ensures
            p@ == ray_at(self@, t as int),
    {
        self.origin.add(self.dir.scale(t))
    }
}

/// Shorthand constructor.
pub fn ray(origin: Point3, dir: Vec3) -> (r: Ray)
    ensures
        r.origin == origin,
        r.dir == dir,
{
    Ray { origin, dir }
}

} // verus!
