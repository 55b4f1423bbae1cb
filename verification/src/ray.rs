//! Rays: an origin and a direction, with parametric evaluation and the
//! background radiance query.

use vstd::prelude::*;
use crate::fixed::{fmul, SCALE};
use crate::vector::{fits_v3, v3_add, v3_scale, Vec3, Vector};

verus! {

/// Largest supported coordinate magnitude (16384 units) for scene geometry and
/// camera rays, a machine limit of the fixed-point intersection math.
pub const COORD_MAX: i64 = 0x4000_0000;

/// One half, as a fixed-point scalar.
pub const HALF: i64 = 32768;

/// Whether every component of `v` has magnitude at most `m`.
pub open spec fn bounded_v3(v: Vec3, m: int) -> bool {
    &&& -m <= v.x <= m
    &&& -m <= v.y <= m
    &&& -m <= v.z <= m
}

/// Whether every component of `v` has magnitude at most `m` (executable).
pub fn within(v: &Vector, m: i64) -> (b: bool)
    requires
        m >= 0,
    ensures
        b == bounded_v3(v@, m as int),
{
    -m <= v.x && v.x <= m && -m <= v.y && v.y <= m && -m <= v.z && v.z <= m
}

/// The mathematical value of a [`Ray`].
pub ghost struct RayV {
    pub origin: Vec3,
    pub direction: Vec3,
}

/// A ray: origin and direction. The direction need not be unit length;
/// distances along the ray are in units of the direction's magnitude.
#[derive(Clone, Copy, Debug, PartialEq, Eq, Structural)]
pub struct Ray {
    pub origin: Vector,
    pub direction: Vector,
}

impl View for Ray {
    type V = RayV;

    open spec fn view(&self) -> RayV {
        RayV { origin: self.origin@, direction: self.direction@ }
    }
}

/// The point `origin + direction * t` on a ray.
pub open spec fn spec_point_at(r: RayV, t: int) -> Vec3 {
    v3_add(r.origin, v3_scale(r.direction, t))
}

/// The background radiance of a ray: a vertical gradient from white at the
/// bottom to sky blue at the top, blended by `t = 0.5 * (direction.y + 1)`.
/// The blue channel values are the nearest fixed-point representations of
/// `(0.5, 0.7, 1.0)`.
pub open spec fn spec_background(r: RayV) -> Vec3 {
    let t = fmul(HALF as int, r.direction.y + SCALE as int);
    let white = Vec3 { x: SCALE as int, y: SCALE as int, z: SCALE as int };
    let blue = Vec3 { x: 32768, y: 45875, z: 65536 };
    v3_add(v3_scale(white, SCALE - t), v3_scale(blue, t))
}

impl Ray {
    /// A new ray from an origin and a direction.
    pub fn new(origin: Vector, direction: Vector) -> (r: Ray)
        ensures
            r@ == (RayV { origin: origin@, direction: direction@ }),
    {
        Ray { origin, direction }
    }

    /// The point at parameter `t` along this ray.
    pub fn point_at_parameter(&self, t: i64) -> (p: Vector)
        requires
            fits_v3(v3_scale(self@.direction, t as int)),
            fits_v3(spec_point_at(self@, t as int)),
        ensures
            p@ == spec_point_at(self@, t as int),
    {
        let scaled: Vector = self.direction.multiply(t);
        self.origin.add(&scaled)
    }

    /// The background radiance of this ray.
    pub fn get_background_color(&self) -> (c: Vector)
        requires
            -(COORD_MAX as int) <= self@.direction.y <= COORD_MAX as int,
        ensures
            c@ == spec_background(self@),
    {
        proof {
            crate::fixed::lemma_fmul_bound(
                HALF as int,
                self@.direction.y + SCALE as int,
                HALF as int,
                COORD_MAX as int + SCALE as int,
            );
            lemma_background_scale_bounds(self@.direction.y as int);
        }
        let t: i64 = crate::fixed::fix_mul(HALF, self.direction.y + SCALE);
        let white: Vector = Vector::new(SCALE, SCALE, SCALE);
        let blue: Vector = Vector::new(32768, 45875, 65536);
        let w: Vector = white.multiply(SCALE - t);
        let b: Vector = blue.multiply(t);
        w.add(&b)
    }
}

/// Bounds that discharge the arithmetic side conditions of the background
/// gradient for any supported ray direction.
proof fn lemma_background_scale_bounds(y: int)
    requires
        -(COORD_MAX as int) <= y <= COORD_MAX as int,
    ensures
        ({
            let t = fmul(HALF as int, y + SCALE as int);
            let white = Vec3 { x: SCALE as int, y: SCALE as int, z: SCALE as int };
            let blue = Vec3 { x: 32768, y: 45875, z: 65536 };
            &&& -0x8000_0000_0000 <= t <= 0x8000_0000_0000
            &&& fits_v3(v3_scale(white, SCALE - t))
            &&& fits_v3(v3_scale(blue, t))
            &&& fits_v3(v3_add(v3_scale(white, SCALE - t), v3_scale(blue, t)))
        }),
{
    let t = fmul(HALF as int, y + SCALE as int);
    crate::fixed::lemma_fmul_bound(HALF as int, y + SCALE as int, HALF as int, 0x4000_2000_0000);
    let white = Vec3 { x: SCALE as int, y: SCALE as int, z: SCALE as int };
    let blue = Vec3 { x: 32768, y: 45875, z: 65536 };
    crate::fixed::lemma_fmul_bound(SCALE as int, SCALE - t, SCALE as int, 0x8000_0001_0000);
    crate::fixed::lemma_fmul_bound(32768, t, 32768, 0x8000_0000_0000);
    crate::fixed::lemma_fmul_bound(45875, t, 45875, 0x8000_0000_0000);
    crate::fixed::lemma_fmul_bound(65536, t, 65536, 0x8000_0000_0000);
}

} // verus!
