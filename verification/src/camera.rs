//! A pinhole camera: maps normalized image-plane coordinates to world rays.

use vstd::prelude::*;
use crate::fixed::{SCALE, fmul, fx_mul};
use crate::vec3::{Vec3, V3, v3_add, v3_sub, v3_scale, v3_div, v3_zero};
use crate::ray::Ray;

verus! {

/// Viewport geometry: origin, lower-left corner, and the two spanning axes.
#[derive(Debug, Clone, Copy)]
pub struct Camera {
    pub origin: Vec3,
    pub lower_left: Vec3,
    pub horizontal: Vec3,
    pub vertical: Vec3,
}

/// The direction of the ray through image-plane coordinates `(u, v)`.
pub open spec fn cam_ray_dir(c: Camera, u: int, v: int) -> V3 {
    v3_sub(
        v3_add(v3_add(c.lower_left@, v3_scale(c.horizontal@, u)), v3_scale(c.vertical@, v)),
        c.origin@,
    )
}

impl Camera {
    /// A camera at the origin looking down -z, with a viewport two units
    /// tall, `aspect_ratio` times as wide, at focal length one.
    pub fn new(aspect_ratio: i64) -> (c: Camera)
        ensures
            c.origin@ == v3_zero(),
            c.horizontal@ == (V3 { x: fmul(aspect_ratio as int, 2 * SCALE), y: 0, z: 0 }),
            c.vertical@ == (V3 { x: 0, y: 2 * SCALE as int, z: 0 }),
            c.lower_left@ == v3_sub(
                v3_sub(
                    v3_sub(v3_zero(), v3_div(c.horizontal@, 2 * SCALE)),
                    v3_div(c.vertical@, 2 * SCALE),
                ),
                V3 { x: 0, y: 0, z: SCALE as int },
            ),
    {
        let origin = Vec3::zero();
        let horizontal = Vec3::new(fx_mul(aspect_ratio, 2 * SCALE), 0, 0);
        let vertical = Vec3::new(0, 2 * SCALE, 0);
        let lower_left = origin
            .sub(horizontal.div(2 * SCALE))
            .sub(vertical.div(2 * SCALE))
            .sub(Vec3::new(0, 0, SCALE));
        Camera { origin, lower_left, horizontal, vertical }
    }

    /// The ray through `(u, v)`, with `u, v` in `[0, 1]` raw units.
    pub fn get_ray(&self, u: i64, v: i64) -> (r: Ray)
        ensures
            r.origin == self.origin,
            r.dir@ == cam_ray_dir(*self, u as int, v as int),
    {
        Ray::new(
            self.origin,
            self.lower_left
                .add(self.horizontal.scale(u))
                .add(self.vertical.scale(v))
                .sub(self.origin),
        )
    }
}

} // verus!
