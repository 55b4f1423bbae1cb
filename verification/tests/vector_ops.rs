//! Vector arithmetic over fixed-point scalars, and the value pool.

use pathtracer::fault::Fault;
use pathtracer::vector::Vector;
use pathtracer::vector_pool::VectorPool;

const S: i64 = 65536;

#[test]
fn new_and_set() {
    let mut v = Vector::new(S, 2 * S, 3 * S);
    assert_eq!(v.x, S);
    assert_eq!(v.y, 2 * S);
    assert_eq!(v.z, 3 * S);
    v.set(-S, 0, 7);
    assert_eq!((v.x, v.y, v.z), (-S, 0, 7));
}

#[test]
fn default_is_zero() {
    let v = Vector::default();
    assert_eq!((v.x, v.y, v.z), (0, 0, 0));
}

#[test]
fn add_and_subtract_componentwise() {
    let a = Vector::new(S, 2 * S, 3 * S);
    let b = Vector::new(4 * S, 5 * S, 6 * S);
    let sum = a.add(&b);
    assert_eq!((sum.x, sum.y, sum.z), (5 * S, 7 * S, 9 * S));
    let diff = b.subtract(&a);
    assert_eq!((diff.x, diff.y, diff.z), (3 * S, 3 * S, 3 * S));
}

#[test]
fn multiply_by_scalar() {
    let v = Vector::new(S, 2 * S, -3 * S);
    let r = v.multiply(2 * S);
    assert_eq!((r.x, r.y, r.z), (2 * S, 4 * S, -6 * S));
    let half = v.multiply(S / 2);
    assert_eq!((half.x, half.y, half.z), (S / 2, S, -3 * S / 2));
}

#[test]
fn multiply_elementwise_scales_channels() {
    let a = Vector::new(S / 2, S, 2 * S);
    let b = Vector::new(S, S / 2, S);
    let r = a.multiply_elementwise(&b);
    assert_eq!((r.x, r.y, r.z), (S / 2, S / 2, 2 * S));
}

#[test]
fn divide_by_scalar() {
    let v = Vector::new(4 * S, 2 * S, 6 * S);
    let r = v.divide(2 * S).unwrap();
    assert_eq!((r.x, r.y, r.z), (2 * S, S, 3 * S));
}

#[test]
fn divide_by_zero_fails_for_every_vector() {
    let samples = [
        Vector::new(0, 0, 0),
        Vector::new(S, 2 * S, 3 * S),
        Vector::new(-S, 7, i64::MAX / 2),
    ];
    for v in samples.iter() {
        match v.divide(0) {
            Err(Fault::DivisionByZero) => {}
            _ => panic!("division by zero must fail with the defined condition"),
        }
    }
}

#[test]
fn dot_product() {
    let a = Vector::new(3 * S, 4 * S, 0);
    assert_eq!(a.dot(&a), 25 * S);
    let b = Vector::new(0, 0, -S);
    let c = Vector::new(0, 0, 5 * S);
    assert_eq!(c.dot(&b), -5 * S);
}

#[test]
fn cross_product_of_axes() {
    let x = Vector::new(S, 0, 0);
    let y = Vector::new(0, S, 0);
    let r = x.cross(&y);
    assert_eq!((r.x, r.y, r.z), (0, 0, S));
    let r2 = y.cross(&x);
    assert_eq!((r2.x, r2.y, r2.z), (0, 0, -S));
}

#[test]
fn magnitude_of_pythagorean_triple() {
    let v = Vector::new(3 * S, 4 * S, 0);
    assert_eq!(v.magnitude(), 5 * S);
}

#[test]
fn normalize_rescales_to_unit_length() {
    let v = Vector::new(3 * S, 4 * S, 0);
    let n = v.normalize();
    // 0.6 and 0.8 truncated to fixed point.
    assert_eq!((n.x, n.y, n.z), (39321, 52428, 0));
    let z = Vector::new(0, 0, 7 * S);
    let nz = z.normalize();
    assert_eq!((nz.x, nz.y, nz.z), (0, 0, S));
}

#[test]
fn pool_starts_zeroed() {
    let pool = VectorPool::new(3);
    for i in 0..3 {
        let v = pool.get(i).unwrap();
        assert_eq!((v.x, v.y, v.z), (0, 0, 0));
    }
}

#[test]
fn pool_set_and_get() {
    let mut pool = VectorPool::new(2);
    pool.set(1, Vector::new(S, 2 * S, 3 * S)).unwrap();
    let v = pool.get(1).unwrap();
    assert_eq!((v.x, v.y, v.z), (S, 2 * S, 3 * S));
    pool.set_values(0, 7, 8, 9).unwrap();
    let w = pool.get(0).unwrap();
    assert_eq!((w.x, w.y, w.z), (7, 8, 9));
}

#[test]
fn pool_out_of_bounds_fails() {
    let mut pool = VectorPool::new(2);
    assert!(matches!(pool.get(2), Err(Fault::IndexOutOfBounds)));
    assert!(matches!(
        pool.set(5, Vector::default()),
        Err(Fault::IndexOutOfBounds)
    ));
    assert!(matches!(
        pool.set_values(2, 1, 2, 3),
        Err(Fault::IndexOutOfBounds)
    ));
    assert!(pool.is_valid_index(1));
    assert!(!pool.is_valid_index(2));
    let empty = VectorPool::new(0);
    assert!(!empty.is_valid_index(0));
    assert!(matches!(empty.get(0), Err(Fault::IndexOutOfBounds)));
}
