//! Materials: diffuse, specular-with-roughness and refractive scattering.
//!
//! Each variant's deterministic core is a function from the incoming ray,
//! the hit record and the sampled random values to a `Scatter`, pinned by an
//! exact contract; the sampling wrappers draw the random values and promise
//! what holds of every outcome.

use vstd::prelude::*;

verus! {

use crate::fixed::Fx;
use crate::fixed::SCALE;
use crate::fixed::sat;
use crate::fixed::div_floor;
use crate::ray::Ray;
use crate::vector::Vector;
use crate::vector::dot_wide;
use crate::vector::norm2_wide;
use crate::vector::sub_spec;
use crate::vector::scale_spec;
use crate::objects::HitRecord;

pub mod dielectric;
pub mod lambertian;
pub mod metal;

/// A color: every component lies in `[0, 1]`.
pub open spec fn color_wf(v: Vector) -> bool {
    0 <= v.x.raw <= SCALE && 0 <= v.y.raw <= SCALE && 0 <= v.z.raw <= SCALE
}

/// The result of a material interaction: a color multiplier and the
/// outgoing ray.
#[derive(Clone, Copy, PartialEq, Eq, Structural, Debug)]
pub struct Scatter {
    pub attenuation: Vector,
    pub ray: Ray,
}

impl Scatter {
    /// The attenuation is a color and the ray lies in range.
    pub open spec fn wf(self) -> bool {
        color_wf(self.attenuation) && self.ray.wf()
    }

    /// The scatter result with the given attenuation and outgoing ray.
    pub fn new(attenuation: Vector, ray: Ray) -> (s: Scatter)
        requires
            color_wf(attenuation),
            ray.wf(),
        ensures
            s == (Scatter { attenuation, ray }),
            s.wf(),
    {
        Scatter { attenuation, ray }
    }
}

/// A surface material.
#[derive(Clone, Copy, PartialEq, Eq, Structural, Debug)]
pub enum Material {
    /// Refractive, with a refraction index above zero.
    Dielectric { ref_idx: Fx },
    /// Diffuse, with an albedo color.
    Lambertian { albedo: Vector },
    /// Specular, with an albedo color and a roughness in `[0, 1]`.
    Metal { albedo: Vector, fuzz: Fx },
}

impl Material {
    /// The variant's parameters lie in their documented ranges.
    pub open spec fn wf(self) -> bool {
        match self {
            Material::Dielectric { ref_idx } => ref_idx.wf() && ref_idx.raw > 0,
            Material::Lambertian { albedo } => color_wf(albedo),
            Material::Metal { albedo, fuzz } => color_wf(albedo) && 0 <= fuzz.raw <= SCALE,
        }
    }

    /// A refractive material with the given refraction index.
    pub fn new_dielectric(ref_idx: Fx) -> (m: Material)
        requires
            ref_idx.wf(),
            ref_idx.raw > 0,
        ensures
            m == (Material::Dielectric { ref_idx }),
            m.wf(),
    {
        Material::Dielectric { ref_idx }
    }

    /// A diffuse material with the given albedo.
    pub fn new_lambertian(albedo: Vector) -> (m: Material)
        requires
            color_wf(albedo),
        ensures
            m == (Material::Lambertian { albedo }),
            m.wf(),
    {
        Material::Lambertian { albedo }
    }

    /// A specular material; a roughness outside `[0, 1]` is clamped to one.
    pub fn new_metal(albedo: Vector, fuzz: Fx) -> (m: Material)
        requires
            color_wf(albedo),
            fuzz.wf(),
        ensures
            m == (Material::Metal {
                albedo,
                fuzz: (if 0 <= fuzz.raw <= SCALE {
                    fuzz
                } else {
                    Fx { raw: SCALE }
                }),
            }),
            m.wf(),
    {
        if fuzz.raw < 0 || fuzz.raw > SCALE {
            Material::Metal { albedo, fuzz: Fx::one() }
        } else {
            Material::Metal { albedo, fuzz }
        }
    }
}

/// The reflection of `v` about the normal `n`, as a value:
/// `v - 2 (v . n) n` with each arithmetic step rounded and saturated.
pub open spec fn reflect_spec(v: Vector, n: Vector) -> Vector {
    let d = sat(div_floor(dot_wide(v, n), SCALE as int));
    let twod = sat(d + d);
    sub_spec(v, scale_spec(twod, n))
}

/// The reflection of `v` about the normal `n`.
pub fn reflect(v: &Vector, n: &Vector) -> (r: Vector)
    requires
        v.wf(),
        n.wf(),
    ensures
        r.wf(),
        r == reflect_spec(*v, *n),
{
    let d = Vector::dot(v, n);
    let twod = d.add(d);
    v.sub(n.scale(twod))
}

/// Exact law of reflection: against a unit normal, the exact (unrounded)
/// reflection of `v` makes the same angle with the normal as `v` does, on
/// the other side — its exact dot product with the normal is the negation
/// of the incoming one.  Components are scaled by `SCALE^2` to stay integral.
pub proof fn lemma_reflect_incidence(v: Vector, n: Vector)
    requires
        norm2_wide(n) == SCALE * SCALE,
    ensures
        (v.x.raw * (SCALE * SCALE) - 2 * dot_wide(v, n) * n.x.raw) * n.x.raw + (v.y.raw * (SCALE
            * SCALE) - 2 * dot_wide(v, n) * n.y.raw) * n.y.raw + (v.z.raw * (SCALE * SCALE) - 2
            * dot_wide(v, n) * n.z.raw) * n.z.raw == -dot_wide(v, n) * (SCALE * SCALE),
{
    let d = dot_wide(v, n);
    let s2 = (SCALE * SCALE) as int;
    assert((v.x.raw * s2 - 2 * d * n.x.raw) * n.x.raw == s2 * (v.x.raw * n.x.raw) - 2 * d * (
    n.x.raw * n.x.raw)) by (nonlinear_arith);
    assert((v.y.raw * s2 - 2 * d * n.y.raw) * n.y.raw == s2 * (v.y.raw * n.y.raw) - 2 * d * (
    n.y.raw * n.y.raw)) by (nonlinear_arith);
    assert((v.z.raw * s2 - 2 * d * n.z.raw) * n.z.raw == s2 * (v.z.raw * n.z.raw) - 2 * d * (
    n.z.raw * n.z.raw)) by (nonlinear_arith);
    assert(s2 * (v.x.raw * n.x.raw) + s2 * (v.y.raw * n.y.raw) + s2 * (v.z.raw * n.z.raw) == s2
        * d) by (nonlinear_arith)
        requires
            d == v.x.raw * n.x.raw + v.y.raw * n.y.raw + v.z.raw * n.z.raw;
    assert(2 * d * (n.x.raw * n.x.raw) + 2 * d * (n.y.raw * n.y.raw) + 2 * d * (n.z.raw * n.z.raw)
        == 2 * d * s2) by (nonlinear_arith)
        requires
            n.x.raw * n.x.raw + n.y.raw * n.y.raw + n.z.raw * n.z.raw == s2;
    assert(s2 * d - 2 * d * s2 == -d * s2) by (nonlinear_arith);
}

impl Material {
    /// Scatter an incoming ray at a hit of this material.
    ///
    /// Whatever the random draws, the attenuation is the variant's own
    /// color — the albedo for diffuse and specular surfaces, white for a
    /// refractive one — and the outgoing ray starts at the hit point.
    pub fn scatter(&self, r_in: &Ray, hit: &HitRecord, rng: &mut rand::rngs::StdRng) -> (s:
        Scatter)
        requires
            self.wf(),
            r_in.wf(),
            hit.wf(),
        ensures
            s.wf(),
            s.ray.origin == hit.p,
            self matches Material::Lambertian { albedo } ==> s.attenuation == albedo,
            self matches Material::Metal { albedo, .. } ==> s.attenuation == albedo,
            self matches Material::Dielectric { .. } ==> s.attenuation.x.raw == SCALE
                && s.attenuation.y.raw == SCALE && s.attenuation.z.raw == SCALE,
            self matches Material::Lambertian { albedo } ==> exists|u: Vector|
                u.wf() && norm2_wide(u) < SCALE * SCALE && s.ray == #[trigger] lambertian::scattered_ray(
                    hit.p,
                    hit.normal,
                    u,
                ),
            self matches Material::Metal { albedo, fuzz } ==> exists|u: Vector|
                u.wf() && norm2_wide(u) < SCALE * SCALE && s.ray.direction
                    == #[trigger] metal::scattered_dir(r_in.direction, hit.normal, fuzz.raw as int, u),
            self matches Material::Dielectric { ref_idx } ==> exists|prob: int|
                0 <= prob < SCALE && s.ray.direction == #[trigger] dielectric::scatter_dir(
                    ref_idx.raw as int,
                    *r_in,
                    *hit,
                    prob,
                ),
    {
        match *self {
            Material::Dielectric { ref_idx } => dielectric::scatter(ref_idx, r_in, hit, rng),
            Material::Lambertian { albedo } => lambertian::scatter(albedo, r_in, hit, rng),
            Material::Metal { albedo, fuzz } => metal::scatter(albedo, fuzz, r_in, hit, rng),
        }
    }
}

} // verus!
