//! Refractive (dielectric) scattering with a Fresnel-weighted choice
//! between reflection and refraction.

use vstd::prelude::*;

verus! {

use rand::rngs::StdRng;
use crate::fixed::Fx;
use crate::fixed::SCALE;
use crate::fixed::sat;
use crate::fixed::div_floor;
use crate::fixed::sqrt_floor;
use crate::ray::Ray;
use crate::vector::Vector;
use crate::vector::dot_wide;
use crate::vector::len_wide;
use crate::vector::sub_spec;
use crate::vector::scale_spec;
use crate::vector::neg_spec;
use crate::vector::unit_spec;
use crate::sampling::random_fraction;
use crate::materials::Scatter;
use crate::materials::reflect;
use crate::materials::reflect_spec;
use crate::objects::HitRecord;

/// Schlick's reflectance at normal incidence: `((1 - ri) / (1 + ri))^2`.
pub open spec fn r0_spec(ri: int) -> int {
    let q = sat(div_floor(sat(SCALE - ri) * SCALE, sat(SCALE + ri)));
    sat(div_floor(q * q, SCALE as int))
}

/// Schlick's approximation to Fresnel reflectance:
/// `r0 + (1 - r0) (1 - cos)^5`, each step rounded and saturated.
pub open spec fn schlick_spec(cos: int, ri: int) -> int {
    let r0 = r0_spec(ri);
    let m = sat(SCALE - cos);
    let m2 = sat(div_floor(m * m, SCALE as int));
    let m4 = sat(div_floor(m2 * m2, SCALE as int));
    let m5 = sat(div_floor(m4 * m, SCALE as int));
    sat(r0 + sat(div_floor(sat(SCALE - r0) * m5, SCALE as int)))
}

/// Schlick's approximation to Fresnel reflectance.
pub fn schlick(cosine: Fx, ref_idx: Fx) -> (r: Fx)
    requires
        cosine.wf(),
        ref_idx.wf(),
        ref_idx.raw > 0,
    ensures
        r.wf(),
        r.raw == schlick_spec(cosine.raw as int, ref_idx.raw as int),
{
    let one = Fx::one();
    let q = one.sub(ref_idx).div(one.add(ref_idx));
    let r0 = q.mul(q);
    let m = one.sub(cosine);
    let m2 = m.mul(m);
    let m4 = m2.mul(m2);
    let m5 = m4.mul(m);
    r0.add(one.sub(r0).mul(m5))
}

/// At normal incidence (`cos == 1`) Schlick's reflectance equals the base
/// reflectance `r0` exactly.
pub proof fn lemma_schlick_normal_incidence(ri: int)
    ensures
        schlick_spec(SCALE as int, ri) == r0_spec(ri),
{
    let r0 = r0_spec(ri);
    assert(sat((SCALE - SCALE) as int) == 0);
    assert(div_floor(0, SCALE as int) == 0);
    assert(sat(SCALE - r0) * 0 == 0) by (nonlinear_arith);
    assert(0 * 0 == 0) by (nonlinear_arith);
}

/// The refraction of `v` through a surface of outward normal `n` at the
/// refraction ratio `ni`, or nothing under total internal reflection.
pub open spec fn refract_spec(v: Vector, n: Vector, ni: int) -> Option<Vector> {
    let uv = unit_spec(v);
    let dt = sat(div_floor(dot_wide(uv, n), SCALE as int));
    let dtdt = sat(div_floor(dt * dt, SCALE as int));
    let nini = sat(div_floor(ni * ni, SCALE as int));
    let inner = sat(div_floor(nini * sat(SCALE - dtdt), SCALE as int));
    let disc = sat(SCALE - inner);
    if disc > 0 {
        let root = sat(sqrt_floor((disc * SCALE) as nat) as int);
        Option::Some(sub_spec(scale_spec(ni, sub_spec(uv, scale_spec(dt, n))), scale_spec(root, n)))
    } else {
        Option::None
    }
}

/// The refracted direction, or nothing under total internal reflection.
pub fn refract(v: &Vector, n: &Vector, ni_over_nt: Fx) -> (res: Option<Vector>)
    requires
        v.wf(),
        n.wf(),
        ni_over_nt.wf(),
    ensures
        res == refract_spec(*v, *n, ni_over_nt.raw as int),
        res matches Some(w) ==> w.wf(),
{
    let uv = v.unit_or_zero();
    let dt = Vector::dot(&uv, n);
    let one = Fx::one();
    let discriminant = one.sub(ni_over_nt.mul(ni_over_nt).mul(one.sub(dt.mul(dt))));
    if discriminant.raw > 0 {
        Some(uv.sub(n.scale(dt)).scale(ni_over_nt).sub(n.scale(discriminant.sqrt())))
    } else {
        None
    }
}

/// The cosine term of the Fresnel choice, following the sign convention of
/// the entering/exiting test; a zero-length incoming direction yields zero.
pub open spec fn cosine_spec(ri: int, dir: Vector, normal: Vector) -> int {
    let d = sat(div_floor(dot_wide(dir, normal), SCALE as int));
    let len = sat(len_wide(dir));
    if len == 0 {
        0
    } else if d > 0 {
        sat(div_floor(sat(div_floor(ri * d, SCALE as int)) * SCALE, len))
    } else {
        sat(div_floor((-d) * SCALE, len))
    }
}

/// The outgoing direction of a refractive scatter, as a value: reflect
/// when the uniform draw `prob` falls below the Schlick reflectance, else
/// refract, falling back to reflection when refraction is impossible.
pub open spec fn scatter_dir(ri: int, r_in: Ray, hit: HitRecord, prob: int) -> Vector {
    let reflected = reflect_spec(r_in.direction, hit.normal);
    let d = sat(div_floor(dot_wide(r_in.direction, hit.normal), SCALE as int));
    let outward = if d > 0 {
        neg_spec(hit.normal)
    } else {
        hit.normal
    };
    let ni = if d > 0 {
        ri
    } else {
        sat(div_floor((SCALE as int) * (SCALE as int), ri))
    };
    let cosine = cosine_spec(ri, r_in.direction, hit.normal);
    let reflectance = schlick_spec(cosine, ri);
    if prob < reflectance {
        reflected
    } else {
        match refract_spec(r_in.direction, outward, ni) {
            Option::Some(refracted) => refracted,
            Option::None => reflected,
        }
    }
}

/// Refractive scattering with the uniform draw `prob` given.
pub fn scatter_with(ref_idx: Fx, r_in: &Ray, hit: &HitRecord, prob: Fx) -> (s: Scatter)
    requires
        ref_idx.wf(),
        ref_idx.raw > 0,
        r_in.wf(),
        hit.wf(),
        prob.wf(),
    ensures
        s.wf(),
        s.attenuation.x.raw == SCALE && s.attenuation.y.raw == SCALE && s.attenuation.z.raw
            == SCALE,
        s.ray.origin == hit.p,
        s.ray.direction == scatter_dir(ref_idx.raw as int, *r_in, *hit, prob.raw as int),
{
    let one = Fx::one();
    let reflected = reflect(&r_in.direction, &hit.normal);
    let attenuation = Vector::new(one, one, one);

    let d = Vector::dot(&r_in.direction, &hit.normal);
    let len = r_in.direction.length();
    let outward_normal = if d.raw > 0 {
        hit.normal.neg()
    } else {
        hit.normal
    };
    let ni_over_nt = if d.raw > 0 {
        ref_idx
    } else {
        one.div(ref_idx)
    };
    let cosine = if len.raw == 0 {
        Fx::zero()
    } else if d.raw > 0 {
        ref_idx.mul(d).div(len)
    } else {
        d.neg().div(len)
    };

    let reflect_prob = schlick(cosine, ref_idx);
    if prob.raw < reflect_prob.raw {
        Scatter::new(attenuation, Ray::new(hit.p, reflected))
    } else {
        match refract(&r_in.direction, &outward_normal, ni_over_nt) {
            Some(refracted) => Scatter::new(attenuation, Ray::new(hit.p, refracted)),
            None => Scatter::new(attenuation, Ray::new(hit.p, reflected)),
        }
    }
}

/// Refractive scattering.  The attenuation is always white, whatever the
/// random draw; the outgoing direction is the Fresnel-weighted choice for
/// some uniform draw in `[0, 1)`.
pub fn scatter(ref_idx: Fx, r_in: &Ray, hit: &HitRecord, rng: &mut StdRng) -> (s: Scatter)
    requires
        ref_idx.wf(),
        ref_idx.raw > 0,
        r_in.wf(),
        hit.wf(),
    ensures
        s.wf(),
        s.attenuation.x.raw == SCALE && s.attenuation.y.raw == SCALE && s.attenuation.z.raw
            == SCALE,
        s.ray.origin == hit.p,
        exists|prob: int|
            0 <= prob < SCALE && s.ray.direction == #[trigger] scatter_dir(
                ref_idx.raw as int,
                *r_in,
                *hit,
                prob,
            ),
{
    let prob = random_fraction(rng);
    let s = scatter_with(ref_idx, r_in, hit, prob);
    proof {
        assert(s.ray.direction == scatter_dir(ref_idx.raw as int, *r_in, *hit, prob.raw as int));
    }
    s
}

} // verus!
