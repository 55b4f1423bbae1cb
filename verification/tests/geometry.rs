//! Primitive intersections, surface normals and the closest-hit resolver.

use pathtracer::cube::Cube;
use pathtracer::intersection::{resolve_closest, ClosestHit, Intersection};
use pathtracer::material::Material;
use pathtracer::ray::Ray;
use pathtracer::sphere::Sphere;
use pathtracer::vector::Vector;

const S: i64 = 65536;

fn plain_material() -> Material {
    Material::new(Vector::new(S, S, S), 0, Vector::new(0, 0, 0), 0)
}

#[test]
fn sphere_head_on_hit() {
    let sphere = Sphere::new(Vector::new(0, 0, 0), S, plain_material());
    let ray = Ray::new(Vector::new(0, 0, 5 * S), Vector::new(0, 0, -S));
    let hit = sphere.intersect(&ray).expect("the ray points at the sphere");
    assert_eq!(hit.t, 4 * S);
    let p = hit.intersection_point;
    assert_eq!((p.x, p.y, p.z), (0, 0, S));
    let n = sphere.calculate_normal(&p);
    assert_eq!((n.x, n.y, n.z), (0, 0, S));
}

#[test]
fn sphere_miss_off_axis() {
    let sphere = Sphere::new(Vector::new(0, 0, 0), S, plain_material());
    let ray = Ray::new(Vector::new(0, 3 * S, 5 * S), Vector::new(0, 0, -S));
    assert!(sphere.intersect(&ray).is_none());
}

#[test]
fn sphere_behind_ray_is_no_hit() {
    let sphere = Sphere::new(Vector::new(0, 0, 0), S, plain_material());
    let ray = Ray::new(Vector::new(0, 0, 5 * S), Vector::new(0, 0, S));
    assert!(sphere.intersect(&ray).is_none());
}

#[test]
fn sphere_degenerate_direction_is_no_hit() {
    let sphere = Sphere::new(Vector::new(0, 0, 0), S, plain_material());
    let ray = Ray::new(Vector::new(0, 0, 5 * S), Vector::new(0, 0, 0));
    assert!(sphere.intersect(&ray).is_none());
}

#[test]
fn cube_head_on_hit() {
    let cube = Cube::new(
        Vector::new(0, 0, 0),
        Vector::new(2 * S, 2 * S, 2 * S),
        plain_material(),
    );
    let ray = Ray::new(Vector::new(0, 0, 5 * S), Vector::new(0, 0, -S));
    let hit = cube.intersect(&ray).expect("the ray points at the box");
    assert_eq!(hit.t, 4 * S);
    let p = hit.intersection_point;
    assert_eq!((p.x, p.y, p.z), (0, 0, S));
    let n = cube.calculate_normal(&p);
    assert_eq!((n.x, n.y, n.z), (0, 0, S));
}

#[test]
fn cube_miss_parallel_outside_slab() {
    let cube = Cube::new(
        Vector::new(0, 0, 0),
        Vector::new(2 * S, 2 * S, 2 * S),
        plain_material(),
    );
    // Direction parallel to the x slab, origin outside it.
    let ray = Ray::new(Vector::new(5 * S, 0, 5 * S), Vector::new(0, 0, -S));
    assert!(cube.intersect(&ray).is_none());
}

#[test]
fn cube_behind_ray_is_no_hit() {
    let cube = Cube::new(
        Vector::new(0, 0, 0),
        Vector::new(2 * S, 2 * S, 2 * S),
        plain_material(),
    );
    let ray = Ray::new(Vector::new(0, 0, 5 * S), Vector::new(0, 0, S));
    assert!(cube.intersect(&ray).is_none());
}

#[test]
fn cube_normal_picks_dominant_axis() {
    let cube = Cube::new(
        Vector::new(0, 0, 0),
        Vector::new(2 * S, 2 * S, 2 * S),
        plain_material(),
    );
    let nx = cube.calculate_normal(&Vector::new(-S, S / 4, 0));
    assert_eq!((nx.x, nx.y, nx.z), (-S, 0, 0));
    let ny = cube.calculate_normal(&Vector::new(S / 4, S, 0));
    assert_eq!((ny.x, ny.y, ny.z), (0, S, 0));
}

fn hit_at(t: i64) -> Intersection {
    Intersection {
        t,
        intersection_point: Vector::new(0, 0, 0),
    }
}

#[test]
fn resolver_picks_smaller_t() {
    let r = resolve_closest(Some((hit_at(2 * S), 0)), Some((hit_at(5 * S), 1)));
    match r {
        ClosestHit::Sphere { hit, index } => {
            assert_eq!(hit.t, 2 * S);
            assert_eq!(index, 0);
        }
        _ => panic!("the sphere hit is closer"),
    }
    let r2 = resolve_closest(Some((hit_at(5 * S), 0)), Some((hit_at(2 * S), 1)));
    assert!(matches!(r2, ClosestHit::Cube { .. }));
}

#[test]
fn resolver_single_candidate_wins() {
    let r = resolve_closest(None, Some((hit_at(5 * S), 3)));
    match r {
        ClosestHit::Cube { hit, index } => {
            assert_eq!(hit.t, 5 * S);
            assert_eq!(index, 3);
        }
        _ => panic!("the only candidate wins"),
    }
}

#[test]
fn resolver_no_candidates_is_miss() {
    assert!(matches!(resolve_closest(None, None), ClosestHit::Miss));
}

#[test]
fn resolver_tie_prefers_sphere() {
    let r = resolve_closest(Some((hit_at(3 * S), 0)), Some((hit_at(3 * S), 0)));
    assert!(matches!(r, ClosestHit::Sphere { .. }));
}

#[test]
fn ray_point_at_parameter() {
    let ray = Ray::new(Vector::new(S, 0, 0), Vector::new(0, 0, -S));
    let p = ray.point_at_parameter(2 * S);
    assert_eq!((p.x, p.y, p.z), (S, 0, -2 * S));
}

#[test]
fn background_gradient_endpoints() {
    // Straight ahead: halfway between white and sky blue.
    let level = Ray::new(Vector::new(0, 0, 0), Vector::new(0, 0, -S));
    let mid = level.get_background_color();
    assert_eq!((mid.x, mid.y, mid.z), (49152, 55705, 65536));
    // Straight up: the sky color (0.5, 0.7, 1.0) in fixed point.
    let up = Ray::new(Vector::new(0, 0, 0), Vector::new(0, S, 0));
    let sky = up.get_background_color();
    assert_eq!((sky.x, sky.y, sky.z), (32768, 45875, 65536));
    // Straight down: white.
    let down = Ray::new(Vector::new(0, 0, 0), Vector::new(0, -S, 0));
    let ground = down.get_background_color();
    assert_eq!((ground.x, ground.y, ground.z), (S, S, S));
}
