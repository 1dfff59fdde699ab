//! An offline Monte Carlo path tracer over exact fixed-point arithmetic.
//!
//! Scalars are `i64` raw values at `fixed::SCALE` units per 1.0; every
//! operation's result is stated exactly in its contract, including the
//! truncation and saturation the representation imposes.

pub mod camera;
pub mod fixed;
pub mod hittable;
pub mod material;
pub mod ray;
pub mod render;
pub mod rng;
pub mod trace;
pub mod vec3;

pub use camera::Camera;
pub use fixed::{SCALE, is_campled};
pub use hittable::{HitRecord, Sphere, World};
pub use material::Material;
pub use ray::{Point3, Ray, ray};
pub use render::{Color, Config, render, render_pixel};
pub use trace::ray_color;
pub use vec3::{Vec3, vec3};
