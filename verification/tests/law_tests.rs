//! Concrete checks of the library's stated properties.

use ray_tracer::fixed::Fx;
use ray_tracer::fixed::RAW_BOUND;
use ray_tracer::fixed::SCALE;
use ray_tracer::materials::dielectric;
use ray_tracer::materials::lambertian;
use ray_tracer::materials::metal;
use ray_tracer::materials::Material;
use ray_tracer::objects::HitRecord;
use ray_tracer::objects::Object;
use ray_tracer::ray::Ray;
use ray_tracer::render::colour;
use ray_tracer::sampling::random_in_unit_sphere;
use ray_tracer::vector::Vector;

fn seeded_rng(seed: u64) -> rand::rngs::StdRng {
    <rand::rngs::StdRng as rand::SeedableRng>::seed_from_u64(seed)
}

fn fx(v: f64) -> Fx {
    Fx::from_raw((v * SCALE as f64).round() as i64)
}

fn val(f: Fx) -> f64 {
    f.raw as f64 / SCALE as f64
}

fn vec3(x: f64, y: f64, z: f64) -> Vector {
    Vector::new(fx(x), fx(y), fx(z))
}

fn approx(a: f64, b: f64) {
    assert!((a - b).abs() < 1e-3, "{} != {}", a, b);
}

// A normalized vector has length one, within the fixed-point tolerance.
#[test]
fn unit_vector_has_unit_length() {
    for v in [
        vec3(1.0, 2.0, 3.0),
        vec3(-5.0, 0.25, 0.125),
        vec3(0.0, 0.0, 4.0),
        vec3(1000.0, -2.0, 17.0),
        vec3(0.01, 0.02, -0.01),
    ] {
        let len = val(v.unit_vector().length());
        assert!((len - 1.0).abs() < 1e-2, "length {}", len);
    }
}

// The cross product is orthogonal to both factors; on whole-valued vectors
// the fixed-point arithmetic is exact, so the dot products are exactly zero.
#[test]
fn cross_product_orthogonal() {
    let a = vec3(1.0, 2.0, 3.0);
    let b = vec3(4.0, 5.0, 6.0);
    let c = Vector::cross(&a, &b);
    assert_eq!(Vector::dot(&c, &a).raw, 0);
    assert_eq!(Vector::dot(&c, &b).raw, 0);

    let a = vec3(-7.0, 0.0, 2.0);
    let b = vec3(3.0, 11.0, -5.0);
    let c = Vector::cross(&a, &b);
    assert_eq!(Vector::dot(&c, &a).raw, 0);
    assert_eq!(Vector::dot(&c, &b).raw, 0);
}

// A ray at parameter zero is its origin; at one, origin plus direction.
#[test]
fn point_at_parameter_endpoints() {
    let r = Ray::new(vec3(1.0, -2.0, 3.0), vec3(0.5, 4.0, -1.0));
    let p0 = r.point_at_parameter(Fx::zero());
    assert_eq!(p0, r.origin);
    let p1 = r.point_at_parameter(Fx::one());
    assert_eq!(p1, r.origin.add(r.direction));
}

// A ray fired straight at a sphere's center from outside hits the near
// side at `distance - radius`, with the normal anti-parallel to the ray.
#[test]
fn head_on_hit_at_distance_minus_radius() {
    let material = Material::new_lambertian(vec3(0.5, 0.5, 0.5));
    let sphere = Object::new_sphere(vec3(0.0, 0.0, -5.0), fx(1.0), material);
    let r = Ray::new(vec3(0.0, 0.0, 0.0), vec3(0.0, 0.0, -1.0));
    let hit = sphere.hit(&r, Fx::from_raw(7), Fx::from_raw(RAW_BOUND));
    let h = hit.expect("head-on ray must hit");
    assert_eq!(h.t.raw, 4 * SCALE);
    assert_eq!(h.normal.x.raw, 0);
    assert_eq!(h.normal.y.raw, 0);
    assert_eq!(h.normal.z.raw, SCALE);
}

// A ray whose closest approach to the center exceeds the radius misses.
#[test]
fn miss_when_closest_approach_exceeds_radius() {
    let material = Material::new_lambertian(vec3(0.5, 0.5, 0.5));
    let sphere = Object::new_sphere(vec3(0.0, 5.0, -5.0), fx(1.0), material);
    let r = Ray::new(vec3(0.0, 0.0, 0.0), vec3(0.0, 0.0, -1.0));
    let hit = sphere.hit(&r, Fx::from_raw(7), Fx::from_raw(RAW_BOUND));
    assert!(hit.is_none());
}

// Lambertian scattering always returns the albedo as attenuation.
#[test]
fn lambertian_attenuation_is_albedo() {
    let mut rng = seeded_rng(1);
    let albedo = vec3(0.25, 0.5, 0.75);
    let hit = HitRecord::new(
        fx(1.0),
        vec3(0.0, 0.0, -1.0),
        vec3(0.0, 0.0, 1.0),
        Material::new_lambertian(albedo),
    );
    for _ in 0..16 {
        let r = Ray::new(vec3(0.3, -0.2, 0.0), vec3(-0.3, 0.2, -1.0));
        let s = lambertian::scatter(albedo, &r, &hit, &mut rng);
        assert_eq!(s.attenuation, albedo);
        assert_eq!(s.ray.origin, hit.p);
    }
}

// Metal with zero fuzz reflects exactly: the outgoing direction's angle of
// incidence equals the angle of reflection about the normal.
#[test]
fn metal_zero_fuzz_reflects_exactly() {
    let albedo = vec3(0.8, 0.8, 0.8);
    let normal = vec3(0.0, 1.0, 0.0);
    let hit = HitRecord::new(
        fx(1.0),
        vec3(0.0, 0.0, 0.0),
        normal,
        Material::new_metal(albedo, Fx::zero()),
    );
    for dir in [vec3(0.0, -1.0, 0.0), vec3(1.0, -1.0, 0.0), vec3(0.25, -2.0, 0.5)] {
        let r = Ray::new(vec3(0.0, 1.0, 0.0), dir);
        let s = metal::scatter_with(albedo, Fx::zero(), &r, &hit, Vector::zero());
        let incoming = r.direction.unit_or_zero();
        let got = Vector::dot(&s.ray.direction, &normal).raw;
        let want = -Vector::dot(&incoming, &normal).raw;
        assert_eq!(got, want);
    }
}

// Schlick reflectance at normal incidence equals the base reflectance r0.
#[test]
fn schlick_normal_incidence_is_r0() {
    for ri in [1.3, 1.5, 2.4] {
        let ref_idx = fx(ri);
        let got = val(dielectric::schlick(Fx::one(), ref_idx));
        let r0 = ((1.0 - ri) / (1.0 + ri)).powi(2);
        approx(got, r0);
        // Exactness: away from normal incidence the value differs from r0.
        let grazing = val(dielectric::schlick(Fx::zero(), ref_idx));
        assert!(grazing > r0);
    }
}

// A level ray through an empty world sees the midpoint blend of white and
// sky-blue: (0.75, 0.85, 1.0).
#[test]
fn background_midpoint_for_level_ray() {
    let mut rng = seeded_rng(3);
    let world = Object::Multiple(vec![]);
    let r = Ray::new(vec3(0.0, 0.0, 0.0), vec3(1.0, 0.0, 0.0));
    let c = colour(&r, &world, 0, &mut rng);
    assert_eq!(c.x.raw, 49152);
    assert_eq!(c.y.raw, 55705);
    assert_eq!(c.z.raw, 65536);
    approx(val(c.x), 0.75);
    approx(val(c.y), 0.85);
    approx(val(c.z), 1.0);
}

// At the depth bound the integrator cuts a path off with exact black, even
// inside a perfectly reflective enclosure where every ray hits.
#[test]
fn depth_bound_returns_black() {
    let mut rng = seeded_rng(4);
    let mirror = Material::new_metal(vec3(1.0, 1.0, 1.0), Fx::zero());
    let world = Object::new_sphere(vec3(0.0, 0.0, 0.0), fx(10.0), mirror);
    let r = Ray::new(vec3(0.0, 0.0, 0.0), vec3(0.0, 0.0, -1.0));
    let c = colour(&r, &world, 50, &mut rng);
    assert_eq!(c.x.raw, 0);
    assert_eq!(c.y.raw, 0);
    assert_eq!(c.z.raw, 0);
}

// The unit-ball sampler stays strictly inside the ball, and moves: it does
// not hand back one fixed point.
#[test]
fn unit_ball_sampler_in_ball() {
    let mut rng = seeded_rng(5);
    let mut seen_distinct = false;
    let first = random_in_unit_sphere(&mut rng);
    for _ in 0..64 {
        let v = random_in_unit_sphere(&mut rng);
        let n2 = (v.x.raw as i128) * (v.x.raw as i128) + (v.y.raw as i128) * (v.y.raw as i128)
            + (v.z.raw as i128) * (v.z.raw as i128);
        assert!(n2 < (SCALE as i128) * (SCALE as i128));
        assert!(v.x.raw.abs() <= SCALE / 2);
        if v != first {
            seen_distinct = true;
        }
    }
    assert!(seen_distinct);
}

// Metal roughness outside [0, 1] is clamped to one at construction.
#[test]
fn metal_fuzz_clamped() {
    let albedo = vec3(0.5, 0.5, 0.5);
    match Material::new_metal(albedo, fx(3.0)) {
        Material::Metal { fuzz, .. } => assert_eq!(fuzz.raw, SCALE),
        _ => panic!("expected a metal"),
    }
    match Material::new_metal(albedo, fx(0.25)) {
        Material::Metal { fuzz, .. } => assert_eq!(fuzz.raw, SCALE / 4),
        _ => panic!("expected a metal"),
    }
}

// Among several spheres the nearest hit wins.
#[test]
fn closest_hit_wins() {
    let m = Material::new_lambertian(vec3(0.5, 0.5, 0.5));
    let far = Object::new_sphere(vec3(0.0, 0.0, -20.0), fx(1.0), m);
    let near = Object::new_sphere(vec3(0.0, 0.0, -5.0), fx(1.0), m);
    let world = Object::Multiple(vec![far, near]);
    let r = Ray::new(vec3(0.0, 0.0, 0.0), vec3(0.0, 0.0, -1.0));
    let h = world.hit(&r, Fx::from_raw(7), Fx::from_raw(RAW_BOUND)).expect("must hit");
    assert_eq!(h.t.raw, 4 * SCALE);
}

// Total internal reflection: refraction fails past the critical angle.
#[test]
fn refract_total_internal_reflection() {
    // Leaving glass (ratio 1.5) at a grazing angle: no refracted ray.
    let v = vec3(1.0, -0.1, 0.0);
    let n = vec3(0.0, 1.0, 0.0);
    assert!(dielectric::refract(&v, &n, fx(1.5)).is_none());
    // Entering glass head-on: refraction succeeds straight through.
    let v = vec3(0.0, -1.0, 0.0);
    let refracted = dielectric::refract(&v, &n, fx(1.0 / 1.5)).expect("must refract");
    approx(val(refracted.x), 0.0);
    assert!(refracted.y.raw < 0);
}
