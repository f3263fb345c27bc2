//! Specular (metal) scattering with roughness.

use vstd::prelude::*;

verus! {

use rand::rngs::StdRng;
use crate::fixed::Fx;
use crate::fixed::SCALE;
use crate::ray::Ray;
use crate::vector::Vector;
use crate::vector::add_spec;
use crate::vector::scale_spec;
use crate::vector::unit_spec;
use crate::vector::norm2_wide;
use crate::sampling::random_in_unit_sphere;
use crate::materials::Scatter;
use crate::materials::color_wf;
use crate::materials::reflect;
use crate::materials::reflect_spec;
use crate::objects::HitRecord;

/// The specular outgoing direction: the reflection of the normalized
/// incoming direction about the surface normal, perturbed by `fuzz` times
/// the unit-ball sample `u`.
pub open spec fn scattered_dir(dir_in: Vector, normal: Vector, fuzz: int, u: Vector) -> Vector {
    add_spec(reflect_spec(unit_spec(dir_in), normal), scale_spec(fuzz, u))
}

/// Specular scattering with the unit-ball sample `u` given.
pub fn scatter_with(albedo: Vector, fuzz: Fx, r_in: &Ray, hit: &HitRecord, u: Vector) -> (s:
    Scatter)
    requires
        color_wf(albedo),
        fuzz.wf(),
        r_in.wf(),
        hit.wf(),
        u.wf(),
    ensures
        s.wf(),
        s.attenuation == albedo,
        s.ray.origin == hit.p,
        s.ray.direction == scattered_dir(r_in.direction, hit.normal, fuzz.raw as int, u),
{
    let reflected = reflect(&r_in.direction.unit_or_zero(), &hit.normal);
    let scattered = Ray::new(hit.p, reflected.add(u.scale(fuzz)));
    Scatter::new(albedo, scattered)
}

/// Specular scattering.  The attenuation is always the albedo, whatever
/// the random draw; the outgoing direction is the fuzzed reflection for
/// some point of the unit ball.
pub fn scatter(albedo: Vector, fuzz: Fx, r_in: &Ray, hit: &HitRecord, rng: &mut StdRng) -> (s:
    Scatter)
    requires
        color_wf(albedo),
        fuzz.wf(),
        r_in.wf(),
        hit.wf(),
    ensures
        s.wf(),
        s.attenuation == albedo,
        s.ray.origin == hit.p,
        exists|u: Vector|
            u.wf() && norm2_wide(u) < SCALE * SCALE && s.ray.direction == #[trigger] scattered_dir(
                r_in.direction,
                hit.normal,
                fuzz.raw as int,
                u,
            ),
{
    let u = random_in_unit_sphere(rng);
    let s = scatter_with(albedo, fuzz, r_in, hit, u);
    proof {
        assert(s.ray.direction == scattered_dir(r_in.direction, hit.normal, fuzz.raw as int, u));
    }
    s
}

} // verus!
