//! Vector algebra tests.

use ray_tracer::fixed::Fx;
use ray_tracer::fixed::SCALE;
use ray_tracer::vector::Vector;

// Build a scalar from a float value (tests only; the library is integer-only).
fn fx(v: f64) -> Fx {
    Fx::from_raw((v * SCALE as f64).round() as i64)
}

fn val(f: Fx) -> f64 {
    f.raw as f64 / SCALE as f64
}

fn vec3(x: f64, y: f64, z: f64) -> Vector {
    Vector::new(fx(x), fx(y), fx(z))
}

fn approx(a: f64, b: f64) {
    assert!((a - b).abs() < 1e-3, "{} != {}", a, b);
}

// Utility to check the approximate equality of two vectors.
fn vec_approx_equal(v1: Vector, v2: Vector) {
    approx(val(v1.x), val(v2.x));
    approx(val(v1.y), val(v2.y));
    approx(val(v1.z), val(v2.z));
}

// Construction

#[test]
fn vector_new() {
    let given = Vector::new(fx(1.0), fx(2.0), fx(3.0));
    let expected = vec3(1.0, 2.0, 3.0);
    vec_approx_equal(given, expected);
}

// Computed properties

#[test]
fn vector_squared_length() {
    let given = val(vec3(0.0, 0.0, 0.0).squared_length());
    let expected = 0.0;
    approx(given, expected);

    let given = val(vec3(1.0, 2.0, 3.0).squared_length());
    let expected = 14.0;
    approx(given, expected);
}

#[test]
fn vector_length() {
    let given = val(vec3(0.0, 0.0, 0.0).length());
    let expected = 0.0;
    approx(given, expected);

    let given = val(vec3(1.0, 2.0, 3.0).length());
    let expected = 14.0_f64.sqrt();
    approx(given, expected);
}

#[test]
fn vector_unit_vector() {
    let given = vec3(1.0, 2.0, 3.0).unit_vector();
    let expected = vec3(0.267261, 0.534522, 0.801784);
    vec_approx_equal(given, expected);
}

// Vector operations

#[test]
fn vector_dot() {
    let given = val(Vector::dot(&vec3(1.0, 2.0, 3.0), &vec3(4.0, 5.0, 6.0)));
    let expected = 32.0;
    approx(given, expected);
}

#[test]
fn vector_cross() {
    let given = Vector::cross(&vec3(1.0, 2.0, 3.0), &vec3(4.0, 5.0, 6.0));
    let expected = vec3(-3.0, 6.0, -3.0);
    vec_approx_equal(given, expected);
}

// Indexing

#[test]
fn vector_index() {
    let given = vec3(1.0, 2.0, 3.0);
    approx(val(given.index(0)), 1.0);
    approx(val(given.index(1)), 2.0);
    approx(val(given.index(2)), 3.0);
}

#[test]
fn vector_index_mut() {
    let mut given = vec3(1.0, 2.0, 3.0);
    given.set_index(0, fx(2.0));
    given.set_index(1, fx(3.0));
    given.set_index(2, fx(4.0));
    let expected = vec3(2.0, 3.0, 4.0);
    vec_approx_equal(given, expected);
}

// Componentwise operations

#[test]
fn vector_neg() {
    let given = vec3(-1.0, 2.0, -3.0).neg();
    let expected = vec3(1.0, -2.0, 3.0);
    vec_approx_equal(given, expected);
}

#[test]
fn vector_add() {
    let given = vec3(1.0, 2.0, 3.0).add(vec3(3.0, 2.0, 1.0));
    let expected = vec3(4.0, 4.0, 4.0);
    vec_approx_equal(given, expected);
}

#[test]
fn vector_add_assign() {
    let mut given = vec3(1.0, 2.0, 3.0);
    given = given.add(vec3(3.0, 2.0, 1.0));
    let expected = vec3(4.0, 4.0, 4.0);
    vec_approx_equal(given, expected);
}

#[test]
fn vector_sub() {
    let given = vec3(1.0, 2.0, 3.0).sub(vec3(3.0, 2.0, 1.0));
    let expected = vec3(-2.0, 0.0, 2.0);
    vec_approx_equal(given, expected);
}

#[test]
fn vector_sub_assign() {
    let mut given = vec3(1.0, 2.0, 3.0);
    given = given.sub(vec3(3.0, 2.0, 1.0));
    let expected = vec3(-2.0, 0.0, 2.0);
    vec_approx_equal(given, expected);
}

#[test]
fn vector_mul_vector() {
    let given = vec3(1.0, 2.0, 3.0).elem_wise_mul(vec3(3.0, 2.0, 1.0));
    let expected = vec3(3.0, 4.0, 3.0);
    vec_approx_equal(given, expected);
}

#[test]
fn vector_mul_assign_vector() {
    let mut given = vec3(1.0, 2.0, 3.0);
    given = given.elem_wise_mul(vec3(3.0, 2.0, 1.0));
    let expected = vec3(3.0, 4.0, 3.0);
    vec_approx_equal(given, expected);
}

#[test]
fn vector_div_vector() {
    let given = vec3(1.0, 2.0, 3.0).elem_wise_div(vec3(3.0, 2.0, 1.0));
    let expected = vec3(0.333333, 1.0, 3.0);
    vec_approx_equal(given, expected);
}

#[test]
fn vector_div_assign_vector() {
    let mut given = vec3(1.0, 2.0, 3.0);
    given = given.elem_wise_div(vec3(3.0, 2.0, 1.0));
    let expected = vec3(0.333333, 1.0, 3.0);
    vec_approx_equal(given, expected);
}

// Scalar operations

#[test]
fn vector_mul_float() {
    let given = vec3(1.0, 2.0, 3.0).scale(fx(3.0));
    let expected = vec3(3.0, 6.0, 9.0);
    vec_approx_equal(given, expected);
}

#[test]
fn float_mul_vector() {
    let given = vec3(1.0, 2.0, 3.0).scale(fx(3.0));
    let expected = vec3(3.0, 6.0, 9.0);
    vec_approx_equal(given, expected);
}

#[test]
fn vector_mul_assign_float() {
    let mut given = vec3(1.0, 2.0, 3.0);
    given = given.scale(fx(3.0));
    let expected = vec3(3.0, 6.0, 9.0);
    vec_approx_equal(given, expected);
}

#[test]
fn vector_div_float() {
    let given = vec3(1.0, 2.0, 3.0).div_scalar(fx(2.0));
    let expected = vec3(0.5, 1.0, 1.5);
    vec_approx_equal(given, expected);
}

#[test]
fn float_div_vector() {
    let given = vec3(2.0, 2.0, 2.0).elem_wise_div(vec3(1.0, 2.0, 3.0));
    let expected = vec3(2.0, 1.0, 0.666667);
    vec_approx_equal(given, expected);
}

#[test]
fn vector_div_assign_float() {
    let mut given = vec3(1.0, 2.0, 3.0);
    given = given.div_scalar(fx(2.0));
    let expected = vec3(0.5, 1.0, 1.5);
    vec_approx_equal(given, expected);
}
