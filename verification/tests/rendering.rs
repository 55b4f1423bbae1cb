//! The integrator and the progressive renderer: background traces, emissive
//! hits, deterministic frames, and monotonic accumulation.

use pathtracer::cube::Cube;
use pathtracer::intersection::ClosestHit;
use pathtracer::material::Material;
use pathtracer::random::Random;
use pathtracer::ray::Ray;
use pathtracer::sphere::Sphere;
use pathtracer::vector::Vector;
use pathtracer::{Renderer, Scene, Settings};

const S: i64 = 65536;

fn white() -> Vector {
    Vector::new(S, S, S)
}

#[test]
fn empty_scene_returns_exact_background() {
    let scene = Scene::new();
    let settings = Settings::new(5, 1, 1);
    let renderer = Renderer::new(scene, settings, 4, 4);
    let ray = Ray::new(Vector::new(0, 0, 0), Vector::new(0, 0, -S));
    let mut rng = Random::new(123);
    let c = renderer.trace_ray(ray, 5, white(), &mut rng);
    assert_eq!((c.x, c.y, c.z), (49152, 55705, 65536));
}

#[test]
fn empty_scene_trace_never_advances_the_sampler() {
    let scene = Scene::new();
    let settings = Settings::new(8, 1, 1);
    let renderer = Renderer::new(scene, settings, 4, 4);
    let ray = Ray::new(Vector::new(0, 0, 0), Vector::new(S / 2, -S / 4, -S));
    let mut rng = Random::new(99);
    let _ = renderer.trace_ray(ray, 8, white(), &mut rng);
    let mut fresh = Random::new(99);
    assert_eq!(rng.random_value(), fresh.random_value());
}

#[test]
fn zero_depth_trace_is_dark() {
    let scene = Scene::new();
    let settings = Settings::new(5, 1, 1);
    let renderer = Renderer::new(scene, settings, 4, 4);
    let ray = Ray::new(Vector::new(0, 0, 0), Vector::new(0, 0, -S));
    let mut rng = Random::new(1);
    let c = renderer.trace_ray(ray, 0, white(), &mut rng);
    assert_eq!((c.x, c.y, c.z), (0, 0, 0));
}

#[test]
fn emissive_hit_returns_weighted_emission() {
    let mut scene = Scene::new();
    let lamp = Material::new(Vector::new(0, 0, 0), 0, Vector::new(S, S / 2, S / 4), S);
    scene.add_sphere(Sphere::new(Vector::new(0, 0, 0), S, lamp));
    let settings = Settings::new(5, 1, 1);
    let renderer = Renderer::new(scene, settings, 4, 4);
    let ray = Ray::new(Vector::new(0, 0, 5 * S), Vector::new(0, 0, -S));
    let mut rng = Random::new(5);
    let c = renderer.trace_ray(ray, 5, white(), &mut rng);
    // Emission color times power 1.0, weighted by a throughput of one.
    assert_eq!((c.x, c.y, c.z), (S, S / 2, S / 4));
}

fn demo_scene() -> Scene {
    let mut scene = Scene::new();
    let ground = Material::new(Vector::new(S / 2, S / 2, S / 2), 0, Vector::new(0, 0, 0), 0);
    let lamp = Material::new(Vector::new(0, 0, 0), 0, Vector::new(S, S, S), 4 * S);
    scene.add_sphere(Sphere::new(Vector::new(0, -3 * S, -6 * S), 2 * S, ground));
    scene.add_sphere(Sphere::new(Vector::new(2 * S, 3 * S, -6 * S), S, lamp));
    scene
}

#[test]
fn renders_with_equal_seeds_are_byte_identical() {
    let settings = Settings::new(4, 2, 2);
    let mut a = Renderer::new(demo_scene(), settings, 8, 6);
    let mut b = Renderer::new(demo_scene(), settings, 8, 6);
    let fa1 = a.render_frame();
    let fb1 = b.render_frame();
    assert_eq!(fa1, fb1);
    let fa2 = a.render_frame();
    let fb2 = b.render_frame();
    assert_eq!(fa2, fb2);
}

#[test]
fn frame_buffer_has_opaque_alpha() {
    let settings = Settings::new(3, 1, 1);
    let mut r = Renderer::new(demo_scene(), settings, 4, 4);
    let display = r.render_frame();
    assert_eq!(display.len(), 4 * 4 * 4);
    for p in 0..16 {
        assert_eq!(display[p * 4 + 3], 255);
    }
}

#[test]
fn accumulation_is_monotonic_across_frames() {
    let settings = Settings::new(4, 2, 3);
    let mut r = Renderer::new(demo_scene(), settings, 6, 4);
    let mut previous: Vec<u32> = r.get_accumulation().clone();
    for _ in 0..3 {
        let _ = r.render_frame();
        let current = r.get_accumulation().clone();
        for i in 0..current.len() {
            assert!(current[i] >= previous[i]);
        }
        previous = current;
    }
}

#[test]
fn averaged_display_is_accumulation_over_frame_count() {
    let scene = Scene::new();
    let settings = Settings::new(2, 1, 4);
    let mut r = Renderer::new(scene, settings, 1, 1);
    let avg1 = r.accumulate(&vec![100, 200, 50, 255]);
    assert_eq!(avg1, vec![100, 200, 50, 255]);
    assert_eq!(r.get_accumulation(), &vec![100, 200, 50, 255]);
    let avg2 = r.accumulate(&vec![50, 100, 200, 255]);
    assert_eq!(r.get_accumulation(), &vec![150, 300, 250, 510]);
    // Each displayed channel is exactly accumulation / 2 after two frames.
    assert_eq!(avg2, vec![75, 150, 125, 255]);
}

#[test]
fn accumulating_identical_frames_keeps_the_average() {
    let settings = Settings::new(3, 1, 2);
    let mut r = Renderer::new(demo_scene(), settings, 4, 4);
    let first = r.render_frame();
    let second = r.render_frame();
    // The scene and seed derivation differ per frame, but averaging two
    // equal quantized frames would reproduce them; at least alpha does.
    assert_eq!(first.len(), second.len());
    for p in 0..16 {
        assert_eq!(second[p * 4 + 3], 255);
    }
}

#[test]
fn nearer_emissive_surface_wins() {
    // Two lamps along the ray: the integrator must shade the nearer one.
    let mut scene = Scene::new();
    let red = Material::new(Vector::new(0, 0, 0), 0, Vector::new(S, 0, 0), S);
    let green = Material::new(Vector::new(0, 0, 0), 0, Vector::new(0, S, 0), S);
    scene.add_sphere(Sphere::new(Vector::new(0, 0, -10 * S), S, red));
    scene.add_sphere(Sphere::new(Vector::new(0, 0, -4 * S), S, green));
    let settings = Settings::new(4, 1, 1);
    let renderer = Renderer::new(scene, settings, 4, 4);
    let ray = Ray::new(Vector::new(0, 0, 0), Vector::new(0, 0, -S));
    let mut rng = Random::new(11);
    let c = renderer.trace_ray(ray, 4, white(), &mut rng);
    assert_eq!((c.x, c.y, c.z), (0, S, 0));
}

#[test]
fn closest_hit_arbitrates_across_types() {
    let mut scene = Scene::new();
    let m = Material::new(Vector::new(S, S, S), 0, Vector::new(0, 0, 0), 0);
    scene.add_sphere(Sphere::new(Vector::new(0, 0, -6 * S), S, m));
    scene.add_cube(Cube::new(
        Vector::new(0, 0, -3 * S),
        Vector::new(S, S, S),
        m,
    ));
    let settings = Settings::new(4, 1, 1);
    let renderer = Renderer::new(scene, settings, 4, 4);
    let ray = Ray::new(Vector::new(0, 0, 0), Vector::new(0, 0, -S));
    match renderer.closest_hit(&ray) {
        ClosestHit::Cube { hit, index } => {
            assert_eq!(index, 0);
            // The box's near face sits half a unit before its center.
            assert_eq!(hit.t, 5 * S / 2);
        }
        _ => panic!("the box is nearer than the sphere"),
    }
}

#[test]
fn per_pixel_is_reproducible() {
    let settings = Settings::new(4, 3, 1);
    let a = Renderer::new(demo_scene(), settings, 8, 8);
    let b = Renderer::new(demo_scene(), settings, 8, 8);
    for (x, y) in [(0u32, 0u32), (3, 2), (7, 7)] {
        let ca = a.per_pixel(x, y);
        let cb = b.per_pixel(x, y);
        assert_eq!((ca.x, ca.y, ca.z), (cb.x, cb.y, cb.z));
    }
}
