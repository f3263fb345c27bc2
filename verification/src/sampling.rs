//! Random sampling: uniform scalars and rejection-sampled points in the
//! unit ball.
//!
//! A generator is passed explicitly into every sampling call, so callers
//! can own independent, reproducible streams.  Nothing is assumed about the
//! values drawn beyond their range.

use vstd::prelude::*;

verus! {

use rand::rngs::StdRng;
use crate::fixed::Fx;
use crate::fixed::SCALE;
use crate::vector::Vector;
use crate::vector::norm2_wide;
use crate::vector::norm2_exec;

#[verifier::external_type_specification]
#[verifier::external_body]
pub struct ExStdRng(StdRng);

/// Relies on rand's `RngExt::random_range` over `0..bound`: returns a value
/// of that range, and panics only when the range is empty.
#[verifier::external_body]
fn rng_below(rng: &mut StdRng, bound: u32) -> (r: u32)
    requires
        bound > 0,
    ensures
        r < bound,
{
    rand::RngExt::random_range(rng, 0..bound)
}

/// A scalar drawn uniformly from `[0, 1)`.
pub fn random_fraction(rng: &mut StdRng) -> (r: Fx)
    ensures
        r.wf(),
        0 <= r.raw < SCALE,
{
    let raw = rng_below(rng, SCALE as u32);
    Fx::from_raw(raw as i64)
}

/// A coordinate drawn uniformly from `[-1/2, 1/2)`.
fn random_half_centered(rng: &mut StdRng) -> (r: Fx)
    ensures
        r.wf(),
        -(SCALE / 2) <= r.raw < SCALE / 2,
{
    let raw = rng_below(rng, SCALE as u32);
    Fx::from_raw(raw as i64 - SCALE / 2)
}

/// A random point strictly inside the unit ball, by rejection sampling:
/// draw a point uniformly from the cube `[-1/2, 1/2)^3` and accept it once
/// its squared length is below one.
pub fn random_in_unit_sphere(rng: &mut StdRng) -> (v: Vector)
    ensures
        v.wf(),
        -(SCALE / 2) <= v.x.raw < SCALE / 2,
        -(SCALE / 2) <= v.y.raw < SCALE / 2,
        -(SCALE / 2) <= v.z.raw < SCALE / 2,
        norm2_wide(v) < SCALE * SCALE,
{
    let mut point = Vector::new(
        random_half_centered(rng),
        random_half_centered(rng),
        random_half_centered(rng),
    );
    let mut n2 = norm2_exec(&point);
    let one_sq: i128 = (SCALE as i128) * (SCALE as i128);
    proof {
        lemma_cube_inside_ball(point);
    }
    // The cube lies strictly inside the unit ball, so the rejection test
    // accepts every draw; the loop body is provably never entered.
    while n2 >= one_sq
        invariant
            point.wf(),
            n2 == norm2_wide(point),
            one_sq == SCALE * SCALE,
            n2 < one_sq,
            -(SCALE / 2) <= point.x.raw < SCALE / 2,
            -(SCALE / 2) <= point.y.raw < SCALE / 2,
            -(SCALE / 2) <= point.z.raw < SCALE / 2,
        decreases 0int,
    {
        point = Vector::new(
            random_half_centered(rng),
            random_half_centered(rng),
            random_half_centered(rng),
        );
        n2 = norm2_exec(&point);
        proof {
            lemma_cube_inside_ball(point);
        }
    }
    point
}

/// A point of the half-unit cube has squared length below one.
proof fn lemma_cube_inside_ball(point: Vector)
    requires
        -32768 <= point.x.raw <= 32768,
        -32768 <= point.y.raw <= 32768,
        -32768 <= point.z.raw <= 32768,
    ensures
        norm2_wide(point) < SCALE * SCALE,
{
    assert(point.x.raw * point.x.raw + point.y.raw * point.y.raw + point.z.raw * point.z.raw
        < SCALE * SCALE) by (nonlinear_arith)
        requires
            -32768 <= point.x.raw <= 32768,
            -32768 <= point.y.raw <= 32768,
            -32768 <= point.z.raw <= 32768,
            SCALE == 65536;
}

impl Vector {
    /// A random point strictly inside the unit ball.
    pub fn random(rng: &mut StdRng) -> (v: Vector)
        ensures
            v.wf(),
            -(SCALE / 2) <= v.x.raw < SCALE / 2,
            -(SCALE / 2) <= v.y.raw < SCALE / 2,
            -(SCALE / 2) <= v.z.raw < SCALE / 2,
            norm2_wide(v) < SCALE * SCALE,
    {
        random_in_unit_sphere(rng)
    }
}

} // verus!
