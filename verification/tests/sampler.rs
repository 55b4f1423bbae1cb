//! The seeded sampler: reproducibility, value ranges, and hemisphere
//! orientation.

use pathtracer::random::Random;
use pathtracer::vector::Vector;

const S: i64 = 65536;

#[test]
fn random_value_stays_in_unit_range() {
    let mut rng = Random::new(367380976);
    for _ in 0..1000 {
        let v = rng.random_value();
        assert!((0..=S).contains(&v));
    }
}

#[test]
fn equal_seeds_reproduce_equal_streams() {
    let mut a = Random::new(42);
    let mut b = Random::new(42);
    for _ in 0..100 {
        assert_eq!(a.random_value(), b.random_value());
    }
    let da = a.random_direction();
    let db = b.random_direction();
    assert_eq!((da.x, da.y, da.z), (db.x, db.y, db.z));
}

#[test]
fn different_seeds_diverge() {
    let mut a = Random::new(1);
    let mut b = Random::new(2);
    let mut same = true;
    for _ in 0..8 {
        if a.random_value() != b.random_value() {
            same = false;
        }
    }
    assert!(!same);
}

#[test]
fn random_direction_is_nearly_unit() {
    let mut rng = Random::new(7);
    for _ in 0..50 {
        let d = rng.random_direction();
        let sq = d.dot(&d);
        // A rescaled accepted sample has squared length one, up to the
        // truncation of its three components.
        assert!(sq > S - 2048 && sq < S + 2048, "squared length {sq}");
    }
}

#[test]
fn hemisphere_direction_never_points_against_normal() {
    let normals = [
        Vector::new(0, 0, S),
        Vector::new(0, S, 0),
        Vector::new(-S, 0, 0),
        Vector::new(39321, 52428, 0),
    ];
    for (i, n) in normals.iter().enumerate() {
        let mut rng = Random::new(1000 + i as u32);
        for _ in 0..200 {
            let d = rng.random_hemisphere_direction(n);
            assert!(n.dot(&d) >= 0);
        }
    }
}
