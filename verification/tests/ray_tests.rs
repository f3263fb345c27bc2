//! Ray tests.

use ray_tracer::fixed::Fx;
use ray_tracer::fixed::SCALE;
use ray_tracer::ray::Ray;
use ray_tracer::vector::Vector;

fn fx(v: f64) -> Fx {
    Fx::from_raw((v * SCALE as f64).round() as i64)
}

fn val(f: Fx) -> f64 {
    f.raw as f64 / SCALE as f64
}

fn vec3(x: f64, y: f64, z: f64) -> Vector {
    Vector::new(fx(x), fx(y), fx(z))
}

fn approx(a: f64, b: f64) {
    assert!((a - b).abs() < 1e-3, "{} != {}", a, b);
}

fn vec_approx_equal(v1: Vector, v2: Vector) {
    approx(val(v1.x), val(v2.x));
    approx(val(v1.y), val(v2.y));
    approx(val(v1.z), val(v2.z));
}

// Construction

#[test]
fn ray_new() {
    let given = Ray::new(vec3(0.0, 1.0, 2.0), vec3(2.0, 1.0, 0.0));
    let expected = Ray { origin: vec3(0.0, 1.0, 2.0), direction: vec3(2.0, 1.0, 0.0) };
    vec_approx_equal(given.origin, expected.origin);
    vec_approx_equal(given.direction, expected.direction);
}

// Methods

#[test]
fn ray_point_at_parameter() {
    let given = Ray::new(vec3(0.0, 1.0, 2.0), vec3(1.0, 1.0, 1.0)).point_at_parameter(fx(0.5));
    let expected = vec3(0.5, 1.5, 2.5);
    vec_approx_equal(given, expected);
}
