//! The sampler/renderer: per-pixel stochastic sampling, averaging, gamma
//! correction and quantization into a scanline-ordered buffer.

use vstd::prelude::*;
use crate::fixed::{SCALE, tdiv, lemma_tdiv_nonneg, fx_div, fx_add, idiv};
use crate::vec3::{Vec3, fsqrt, fx_sqrt};
use crate::camera::Camera;
use crate::hittable::World;
use crate::trace::ray_color;
use crate::rng::random_fx;

verus! {

/// Render parameters, read once before rendering and immutable thereafter.
#[derive(Debug, Clone, Copy)]
pub struct Config {
    pub width: u32,
    pub height: u32,
    pub aspect_ratio: i64,
    pub samples: u32,
    pub depth: u32,
}

impl Config {
    /// At least a 2x2 image and one sample per pixel.
    pub open spec fn wf(&self) -> bool {
        &&& self.width >= 2
        &&& self.height >= 2
        &&& self.samples >= 1
    }
}

/// An output pixel: quantized RGBA bytes.
#[derive(Debug, Clone, Copy, PartialEq, Eq, Structural)]
pub struct Color {
    pub r: u8,
    pub g: u8,
    pub b: u8,
    pub a: u8,
}

/// One channel's path from accumulated radiance to byte: average over the
/// samples, square-root gamma, clamp to [0, 1], scale to [0, 255].
pub open spec fn quantize(comp: int, samples: int) -> int {
    let avg = tdiv(comp, samples);
    let a0 = if avg < 0 { 0 } else { avg };
    let g = fsqrt(a0);
    let cl = if g > SCALE { SCALE as int } else { g };
    tdiv(cl * 255, SCALE as int)
}

fn quantize_channel(comp: i64, samples: i64) -> (b: u8)
    requires
        samples >= 1,
    ensures
        b as int == quantize(comp as int, samples as int),
{
    let avg = idiv(comp, samples);
    let a0: i64 = if avg < 0 { 0 } else { avg };
    let g = fx_sqrt(a0);
    let cl: i64 = if g > SCALE { SCALE } else { g };
    let q = idiv(cl * 255, SCALE);
    proof {
        lemma_tdiv_nonneg(cl * 255, SCALE as int);
        assert(tdiv(cl * 255, SCALE as int) == (cl * 255) / 65536);
        vstd::arithmetic::div_mod::lemma_div_is_ordered(cl * 255, 16711680int, 65536);
        vstd::arithmetic::div_mod::lemma_div_multiples_vanish(255, 65536);
    }
    q as u8
}

impl Color {
    /// Collapse an accumulated sample sum into an output pixel.
    pub fn from_vec(v: Vec3, samples: u64) -> (c: Color)
        requires
            1 <= samples <= 0xffff_ffff,
        ensures
            c.r as int == quantize(v@.x, samples as int),
            c.g as int == quantize(v@.y, samples as int),
            c.b as int == quantize(v@.z, samples as int),
            c.a == 255,
    {
        Color {
            r: quantize_channel(v.x, samples as i64),
            g: quantize_channel(v.y, samples as i64),
            b: quantize_channel(v.z, samples as i64),
            a: 255,
        }
    }
}

/// Fire `samples` jittered rays through one pixel and accumulate the
/// integrator's answers. Whatever the jitter draws, each channel of the
/// sum stays within `samples` times full radiance.
pub fn render_pixel(world: &World, camera: &Camera, x: u32, y: u32, config: &Config)
    -> (acc: Vec3)
    requires
        world.wf(),
        config.wf(),
        x < config.width,
        y < config.height,
    ensures
        0 <= acc@.x <= (config.samples as int) * (SCALE as int),
        0 <= acc@.y <= (config.samples as int) * (SCALE as int),
        0 <= acc@.z <= (config.samples as int) * (SCALE as int),
{
    let mut acc = Vec3::zero();
    let mut s: u32 = 0;
    while s < config.samples
        invariant
            world.wf(),
            config.wf(),
            x < config.width,
            y < config.height,
            s <= config.samples,
            0 <= acc@.x <= (s as int) * (SCALE as int),
            0 <= acc@.y <= (s as int) * (SCALE as int),
            0 <= acc@.z <= (s as int) * (SCALE as int),
        decreases config.samples - s,
    {
        let jx = random_fx();
        let jy = random_fx();
        proof {
            assert(0 <= (x as int) * (SCALE as int) <= 0xffff_ffff * 65536) by (nonlinear_arith)
                requires 0 <= x as int <= 0xffff_ffff && SCALE as int == 65536;
            assert(0 <= (y as int) * (SCALE as int) <= 0xffff_ffff * 65536) by (nonlinear_arith)
                requires 0 <= y as int <= 0xffff_ffff && SCALE as int == 65536;
            assert(65536 <= ((config.width - 1) as int) * (SCALE as int) <= 0xffff_ffff * 65536)
                by (nonlinear_arith)
                requires 1 <= (config.width - 1) as int <= 0xffff_ffff && SCALE as int == 65536;
            assert(65536 <= ((config.height - 1) as int) * (SCALE as int) <= 0xffff_ffff * 65536)
                by (nonlinear_arith)
                requires 1 <= (config.height - 1) as int <= 0xffff_ffff && SCALE as int == 65536;
        }
        let u = fx_div(fx_add((x as i64) * SCALE, jx), ((config.width - 1) as i64) * SCALE);
        let v = fx_div(fx_add((y as i64) * SCALE, jy), ((config.height - 1) as i64) * SCALE);
        let r = camera.get_ray(u, v);
        let col = ray_color(&r, world, config.depth as u64);
        proof {
            assert((s as int) * (SCALE as int) + SCALE as int <= 0x7fff_ffff_ffff_ffff)
                by (nonlinear_arith)
                requires 0 <= s as int <= 0xffff_fffe && SCALE as int == 65536;
        }
        acc = acc.add(col);
        s = s + 1;
        proof {
            assert((s as int) * (SCALE as int)
                == (s as int - 1) * (SCALE as int) + SCALE as int) by (nonlinear_arith);
        }
    }
    acc
}

/// Render the whole image: every pixel of every scanline, bottom row
/// first, appended in row-major order regardless of how the work inside a
/// row is carried out.
pub fn render(world: &World, camera: &Camera, config: &Config) -> (buf: Vec<Color>)
    requires
        world.wf(),
        config.wf(),
    ensures
        buf@.len() == (config.height as int) * (config.width as int),
{
    let mut buf: Vec<Color> = Vec::new();
    let mut y: u32 = 0;
    while y < config.height
        invariant
            world.wf(),
            config.wf(),
            y <= config.height,
            buf@.len() == (y as int) * (config.width as int),
        decreases config.height - y,
    {
        let mut x: u32 = 0;
        while x < config.width
            invariant
                world.wf(),
                config.wf(),
                y < config.height,
                x <= config.width,
                buf@.len() == (y as int) * (config.width as int) + x as int,
            decreases config.width - x,
        {
            let acc = render_pixel(world, camera, x, y, config);
            buf.push(Color::from_vec(acc, config.samples as u64));
            x = x + 1;
        }
        y = y + 1;
        proof {
            assert((y as int) * (config.width as int)
                == (y as int - 1) * (config.width as int) + config.width as int)
                by (nonlinear_arith);
        }
    }
    buf
}

} // verus!
