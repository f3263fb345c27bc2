//! The recursive radiance integrator and the per-pixel rendering loop.

use vstd::prelude::*;

verus! {

use vstd::arithmetic::div_mod::lemma_div_pos_is_pos;
use vstd::arithmetic::div_mod::lemma_div_is_ordered;
use vstd::arithmetic::div_mod::lemma_div_multiples_vanish;
use rand::rngs::StdRng;
use crate::fixed::Fx;
use crate::fixed::SCALE;
use crate::fixed::RAW_BOUND;
use crate::fixed::sat;
use crate::fixed::div_floor;
use crate::fixed::sqrt_floor;
use crate::fixed::floor_div_wide;
use crate::fixed::lemma_sqrt_floor_bounds;
use crate::ray::Ray;
use crate::vector::Vector;
use crate::vector::add_spec;
use crate::vector::scale_spec;
use crate::vector::unit_spec;
use crate::vector::lemma_unit_bounds;
use crate::materials::color_wf;
use crate::objects::Object;
use crate::scene::Scene;
use crate::sampling::random_fraction;

/// Raw ray parameter below which an intersection is ignored (about 1e-4 in
/// value), suppressing self-intersection of scattered rays.
pub const T_MIN_RAW: i64 = 7;

/// Raw value of the sky color's green channel (0.7).
pub const SKY_GREEN_RAW: i64 = 45875;

/// Bounce bound of the integrator: a path this deep contributes black.
pub const MAX_DEPTH: u32 = 50;

/// The sky-gradient background of a missed ray, as a value: a blend from
/// white at the horizon to sky-blue at the zenith, keyed by the y component
/// of the normalized direction.
pub open spec fn background_spec(r: Ray) -> Vector {
    let uy = unit_spec(r.direction).y.raw as int;
    let t = sat(div_floor((SCALE / 2) * sat(uy + SCALE), SCALE as int));
    add_spec(
        scale_spec(
            sat(SCALE - t),
            Vector { x: (Fx { raw: SCALE }), y: (Fx { raw: SCALE }), z: (Fx { raw: SCALE }) },
        ),
        scale_spec(
            t,
            Vector {
                x: (Fx { raw: (SCALE / 2) as i64 }),
                y: (Fx { raw: SKY_GREEN_RAW }),
                z: (Fx { raw: SCALE }),
            },
        ),
    )
}

/// A product of two color channels stays a color channel.
proof fn lemma_channel_mul(a: int, b: int)
    requires
        0 <= a <= SCALE,
        0 <= b <= SCALE,
    ensures
        0 <= sat(div_floor(a * b, SCALE as int)) <= SCALE,
{
    assert(0 <= a * b <= SCALE * SCALE) by (nonlinear_arith)
        requires
            0 <= a <= SCALE,
            0 <= b <= SCALE;
    lemma_div_pos_is_pos(a * b, SCALE as int);
    lemma_div_is_ordered(a * b, SCALE * SCALE, SCALE as int);
    lemma_div_multiples_vanish(SCALE as int, SCALE as int);
}

/// A channel scaled by a factor in `[0, 1]` stays below the factor.
proof fn lemma_channel_scale(t: int, c: int)
    requires
        0 <= t <= SCALE,
        0 <= c <= SCALE,
    ensures
        0 <= sat(div_floor(t * c, SCALE as int)) <= t,
{
    assert(0 <= t * c <= t * SCALE) by (nonlinear_arith)
        requires
            0 <= t <= SCALE,
            0 <= c <= SCALE;
    lemma_div_pos_is_pos(t * c, SCALE as int);
    lemma_div_is_ordered(t * c, t * SCALE, SCALE as int);
    assert(t * SCALE == (SCALE as int) * t) by (nonlinear_arith);
    lemma_div_multiples_vanish(t, SCALE as int);
}

/// The background gradient is a color.
proof fn lemma_background_color(r: Ray)
    requires
        r.wf(),
    ensures
        color_wf(background_spec(r)),
{
    lemma_unit_bounds(r.direction);
    let uy = unit_spec(r.direction).y.raw as int;
    let blend = sat(uy + SCALE);
    assert(0 <= blend <= 2 * SCALE);
    assert(0 <= (SCALE / 2) * blend <= SCALE * SCALE) by (nonlinear_arith)
        requires
            0 <= blend <= 2 * SCALE,
            SCALE == 65536;
    lemma_div_pos_is_pos((SCALE / 2) * blend, SCALE as int);
    lemma_div_is_ordered((SCALE / 2) * blend, SCALE * SCALE, SCALE as int);
    lemma_div_multiples_vanish(SCALE as int, SCALE as int);
    let t = sat(div_floor((SCALE / 2) * blend, SCALE as int));
    assert(0 <= t <= SCALE);
    lemma_channel_scale(sat(SCALE - t), SCALE as int);
    lemma_channel_scale(t, (SCALE / 2) as int);
    lemma_channel_scale(t, SKY_GREEN_RAW as int);
    lemma_channel_scale(t, SCALE as int);
    assert((sat(SCALE - t) * SCALE) / (SCALE as int) == sat(SCALE - t)) by {
        assert(sat(SCALE - t) * SCALE == (SCALE as int) * sat(SCALE - t)) by (nonlinear_arith);
        lemma_div_multiples_vanish(sat(SCALE - t), SCALE as int);
    }
}

/// A level ray sees the exact midpoint blend of white and sky-blue: for a
/// direction with a zero y component the gradient parameter is one half,
/// and the background is `(0.75, 0.85, 1.0)` up to the sky color's own
/// rounding — raw `(49152, 55705, 65536)`.
pub proof fn lemma_background_horizon(r: Ray)
    requires
        r.wf(),
        r.direction.y.raw == 0,
        crate::vector::norm2_wide(r.direction) > 0,
    ensures
        background_spec(r).x.raw == 49152,
        background_spec(r).y.raw == 55705,
        background_spec(r).z.raw == 65536,
{
    let v = r.direction;
    let n2 = crate::vector::norm2_wide(v) as nat;
    lemma_sqrt_floor_bounds(n2);
    let len = sqrt_floor(n2) as int;
    assert(len >= 1) by (nonlinear_arith)
        requires
            (len + 1) * (len + 1) > n2,
            n2 >= 1,
            len >= 0;
    assert((0 as int) * (SCALE as int) == 0) by (nonlinear_arith);
    lemma_div_pos_is_pos(0, len);
    lemma_div_is_ordered(0, 0, len);
    assert(div_floor(0, len) == 0) by {
        lemma_div_multiples_vanish(0, len);
        assert(len * 0 == 0) by (nonlinear_arith);
    }
    assert(unit_spec(v).y.raw == 0);
}

/// The background gradient for a missed ray.
pub fn background(r: &Ray) -> (c: Vector)
    requires
        r.wf(),
    ensures
        c == background_spec(*r),
        color_wf(c),
{
    proof {
        lemma_background_color(*r);
    }
    let unit_direction = r.direction.unit_or_zero();
    let one = Fx::one();
    let half = Fx::from_raw(SCALE / 2);
    let t = half.mul(unit_direction.y.add(one));
    let white = Vector::new(one, one, one);
    let sky = Vector::new(half, Fx::from_raw(SKY_GREEN_RAW), one);
    white.scale(one.sub(t)).add(sky.scale(t))
}

/// The radiance along a ray: on a hit, the scattered contribution
/// attenuated by the material's color, recursively, up to `MAX_DEPTH`
/// bounces; past the bound, black; on a miss, the background gradient.
pub fn colour(r: &Ray, world: &Object, depth: u32, rng: &mut StdRng) -> (c: Vector)
    requires
        r.wf(),
        world.wf(),
        depth <= MAX_DEPTH,
    ensures
        c.wf(),
        color_wf(c),
        world.hit_spec(*r, T_MIN_RAW as int, RAW_BOUND as int) is None ==> c == background_spec(
            *r,
        ),
        world.hit_spec(*r, T_MIN_RAW as int, RAW_BOUND as int) is Some && depth == MAX_DEPTH
            ==> c.x.raw == 0 && c.y.raw == 0 && c.z.raw == 0,
    decreases MAX_DEPTH - depth,
{
    let hit = world.hit(r, Fx::from_raw(T_MIN_RAW), Fx::from_raw(RAW_BOUND));

    match hit {
        Some(hit_record) => {
            if depth < MAX_DEPTH {
                let scatter = hit_record.material.scatter(r, &hit_record, rng);
                let rec = colour(&scatter.ray, world, depth + 1, rng);
                let c = scatter.attenuation.elem_wise_mul(rec);
                proof {
                    lemma_channel_mul(scatter.attenuation.x.raw as int, rec.x.raw as int);
                    lemma_channel_mul(scatter.attenuation.y.raw as int, rec.y.raw as int);
                    lemma_channel_mul(scatter.attenuation.z.raw as int, rec.z.raw as int);
                }
                c
            } else {
                Vector::zero()
            }
        },
        None => background(r),
    }
}

/// A normalized pixel coordinate `(index + jitter) / extent`, in `[0, 1]`.
fn pixel_coord(index: u32, jitter: Fx, extent: u32) -> (c: Fx)
    requires
        1 <= extent <= 4096,
        index < extent,
        0 <= jitter.raw < SCALE,
    ensures
        c.wf(),
        0 <= c.raw <= SCALE,
        c.raw == div_floor(index * SCALE + jitter.raw, extent as int),
{
    proof {
        assert(0 <= (index as int) * (SCALE as int) <= 0x10000000000) by (nonlinear_arith)
            requires
                0 <= index <= 4096,
                SCALE == 65536;
    }
    let num: i128 = (index as i128) * (SCALE as i128) + (jitter.raw as i128);
    proof {
        lemma_div_pos_is_pos(index * SCALE + jitter.raw, extent as int);
        assert(index * SCALE + jitter.raw <= (extent as int) * SCALE) by (nonlinear_arith)
            requires
                index < extent,
                jitter.raw < SCALE,
                index >= 0,
                jitter.raw >= 0,
                SCALE == 65536;
        lemma_div_is_ordered(index * SCALE + jitter.raw, (extent as int) * SCALE, extent as int);
        lemma_div_multiples_vanish(SCALE as int, extent as int);
        assert((extent as int) * SCALE == (extent as int) * (SCALE as int));
    }
    let q = floor_div_wide(num, extent as i128);
    Fx::from_raw(q as i64)
}

/// One channel's byte: gamma-2 correction (a square root) then the 8-bit
/// quantization `floor(255.99 * value)`.
fn to_byte(c: Fx) -> (b: u8)
    requires
        c.wf(),
        0 <= c.raw <= SCALE,
    ensures
        b as int == div_floor(
            sat(sqrt_floor((c.raw * SCALE) as nat) as int) * 25599,
            100 * SCALE,
        ),
{
    let g = c.sqrt();
    proof {
        lemma_sqrt_floor_bounds((c.raw * SCALE) as nat);
        let s = sqrt_floor((c.raw * SCALE) as nat) as int;
        assert(s <= SCALE) by (nonlinear_arith)
            requires
                s * s <= c.raw * SCALE,
                c.raw <= SCALE,
                s >= 0,
                SCALE == 65536;
        lemma_div_pos_is_pos(g.raw * 25599, 100 * SCALE);
        assert(g.raw * 25599 <= SCALE * 25599) by (nonlinear_arith)
            requires
                0 <= g.raw <= SCALE;
        lemma_div_is_ordered(g.raw * 25599, SCALE * 25599, 100 * SCALE);
    }
    let q = floor_div_wide((g.raw as i128) * 25599, 100 * (SCALE as i128));
    q as u8
}

/// Render the scene into a flat row-major RGB byte buffer, one byte per
/// channel, rows from the top of the image down.
pub fn render(scene: &Scene, rng: &mut StdRng) -> (data: Vec<u8>)
    requires
        scene.wf(),
    ensures
        data@.len() == 3 * scene.width * scene.height,
{
    let mut data: Vec<u8> = Vec::new();
    let mut j: u32 = scene.height;
    while j > 0
        invariant
            scene.wf(),
            j <= scene.height,
            data@.len() == 3 * scene.width * (scene.height - j),
        decreases j,
    {
        j = j - 1;
        let mut i: u32 = 0;
        while i < scene.width
            invariant
                scene.wf(),
                j < scene.height,
                i <= scene.width,
                data@.len() == 3 * scene.width * (scene.height - j - 1) + 3 * i,
            decreases scene.width - i,
        {
            let mut col = Vector::zero();
            let mut s: u32 = 0;
            while s < scene.samples
                invariant
                    scene.wf(),
                    j < scene.height,
                    i < scene.width,
                    s <= scene.samples,
                    col.wf(),
                    0 <= col.x.raw <= s * SCALE,
                    0 <= col.y.raw <= s * SCALE,
                    0 <= col.z.raw <= s * SCALE,
                decreases scene.samples - s,
            {
                let u = pixel_coord(i, random_fraction(rng), scene.width);
                let v = pixel_coord(j, random_fraction(rng), scene.height);
                let r = scene.camera.get_ray(u, v, rng);
                let c = colour(&r, &scene.world, 0, rng);
                col = col.add(c);
                s = s + 1;
            }
            let avg = col.div_scalar(Fx::from_int(scene.samples as i64));
            proof {
                lemma_avg_channel(col.x.raw as int, scene.samples as int);
                lemma_avg_channel(col.y.raw as int, scene.samples as int);
                lemma_avg_channel(col.z.raw as int, scene.samples as int);
            }
            data.push(to_byte(avg.x));
            data.push(to_byte(avg.y));
            data.push(to_byte(avg.z));
            i = i + 1;
        }
        proof {
            assert(3 * scene.width * (scene.height - j - 1) + 3 * scene.width == 3 * scene.width
                * (scene.height - j)) by (nonlinear_arith);
        }
    }
    data
}

/// Averaging an accumulated channel over its sample count lands in `[0, 1]`.
proof fn lemma_avg_channel(col: int, n: int)
    requires
        0 <= col <= n * SCALE,
        1 <= n <= 4096,
    ensures
        0 <= sat(div_floor(col * SCALE, n * SCALE)) <= SCALE,
{
    let d = n * SCALE;
    assert(d >= SCALE) by (nonlinear_arith)
        requires
            n >= 1,
            SCALE == 65536,
            d == n * SCALE;
    lemma_div_pos_is_pos(col * SCALE, d);
    assert(col * SCALE <= d * SCALE) by (nonlinear_arith)
        requires
            col <= d,
            SCALE == 65536;
    lemma_div_is_ordered(col * SCALE, d * SCALE, d);
    lemma_div_multiples_vanish(SCALE as int, d);
}

} // verus!
