//! Diffuse (Lambertian) scattering.

use vstd::prelude::*;

verus! {

use rand::rngs::StdRng;
use crate::fixed::SCALE;
use crate::ray::Ray;
use crate::vector::Vector;
use crate::vector::add_spec;
use crate::vector::sub_spec;
use crate::vector::norm2_wide;
use crate::sampling::random_in_unit_sphere;
use crate::materials::Scatter;
use crate::materials::color_wf;
use crate::objects::HitRecord;

/// The diffuse outgoing ray: from the hit point toward a target displaced
/// from it by the surface normal plus a point of the unit ball.
pub open spec fn scattered_ray(p: Vector, normal: Vector, u: Vector) -> Ray {
    let target = add_spec(add_spec(p, normal), u);
    Ray { origin: p, direction: sub_spec(target, p) }
}

/// Diffuse scattering with the unit-ball sample `u` given.
pub fn scatter_with(albedo: Vector, hit: &HitRecord, u: Vector) -> (s: Scatter)
    requires
        color_wf(albedo),
        hit.wf(),
        u.wf(),
    ensures
        s.wf(),
        s.attenuation == albedo,
        s.ray == scattered_ray(hit.p, hit.normal, u),
{
    let target = hit.p.add(hit.normal).add(u);
    let scattered = Ray::new(hit.p, target.sub(hit.p));
    Scatter::new(albedo, scattered)
}

/// Diffuse scattering.  The attenuation is always the albedo, whatever the
/// random draw; the outgoing ray is the diffuse ray for some point of the
/// unit ball.
pub fn scatter(albedo: Vector, _r_in: &Ray, hit: &HitRecord, rng: &mut StdRng) -> (s: Scatter)
    requires
        color_wf(albedo),
        hit.wf(),
    ensures
        s.wf(),
        s.attenuation == albedo,
        s.ray.origin == hit.p,
        exists|u: Vector|
            u.wf() && norm2_wide(u) < SCALE * SCALE && s.ray == #[trigger] scattered_ray(
                hit.p,
                hit.normal,
                u,
            ),
{
    let u = random_in_unit_sphere(rng);
    let s = scatter_with(albedo, hit, u);
    proof {
        assert(s.ray == scattered_ray(hit.p, hit.normal, u));
    }
    s
}

} // verus!
