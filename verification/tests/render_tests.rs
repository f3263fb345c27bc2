//! End-to-end rendering tests.

use ray_tracer::camera::Camera;
use ray_tracer::camera::Lens;
use ray_tracer::camera::Orientation;
use ray_tracer::fixed::Fx;
use ray_tracer::fixed::SCALE;
use ray_tracer::materials::Material;
use ray_tracer::objects::Object;
use ray_tracer::render::render;
use ray_tracer::scene::Scene;
use ray_tracer::vector::Vector;

fn seeded_rng(seed: u64) -> rand::rngs::StdRng {
    <rand::rngs::StdRng as rand::SeedableRng>::seed_from_u64(seed)
}

fn fx(v: f64) -> Fx {
    Fx::from_raw((v * SCALE as f64).round() as i64)
}

fn vec3(x: f64, y: f64, z: f64) -> Vector {
    Vector::new(fx(x), fx(y), fx(z))
}

// A camera looking down the negative z axis with a 90-degree vertical
// field of view (half-height tangent one) and no depth-of-field.
fn test_camera() -> Camera {
    let orientation = Orientation::new(
        vec3(0.0, 0.0, 0.0),
        vec3(0.0, 0.0, -1.0),
        vec3(0.0, 1.0, 0.0),
    );
    let lens = Lens::new(fx(1.0), fx(0.0), fx(1.0));
    Camera::new(orientation, lens, fx(1.0))
}

fn test_scene(width: u32, height: u32, samples: u32) -> Scene {
    let albedo = vec3(1.0, 1.0, 1.0);
    let sphere = Object::new_sphere(vec3(0.0, 0.0, -3.0), fx(2.5), Material::new_lambertian(albedo));
    let world = Object::Multiple(vec![sphere]);
    Scene::new(width, height, samples, test_camera(), world)
}

// The buffer is one RGB byte triple per pixel, row-major.
#[test]
fn render_buffer_length() {
    let mut rng = seeded_rng(9);
    let scene = test_scene(4, 3, 1);
    let data = render(&scene, &mut rng);
    assert_eq!(data.len(), 4 * 3 * 3);
}

// The same seed reproduces the same image, byte for byte.
#[test]
fn render_deterministic_for_seed() {
    let scene = test_scene(3, 3, 2);
    let mut rng1 = seeded_rng(11);
    let first = render(&scene, &mut rng1);
    let scene = test_scene(3, 3, 2);
    let mut rng2 = seeded_rng(11);
    let second = render(&scene, &mut rng2);
    assert_eq!(first, second);
}

// Golden image: a two-by-two, one-sample render of a white diffuse sphere
// filling the frame, under a fixed random stream.
#[test]
fn render_golden_two_by_two() {
    let mut rng = seeded_rng(42);
    let scene = test_scene(2, 2, 1);
    let data = render(&scene, &mut rng);
    assert_eq!(data, vec![199, 223, 255, 229, 240, 255, 224, 237, 255, 212, 230, 255]);
}
