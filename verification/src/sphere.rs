//! Spheres and their ray intersection.

use vstd::prelude::*;
use crate::fixed::{fdiv, fits, fmul, fsqrt, fdiv_wide, fix_div, fix_mul, fmul_wide,
    fix_sqrt_wide};
use crate::intersection::{HitV, Intersection, T_MAX};
use crate::material::{material_wf, Material, MaterialV};
use crate::random::NORMAL_MAX;
use crate::ray::{bounded_v3, spec_point_at, within, Ray, RayV, COORD_MAX};
use crate::vector::{fits_v3, v3_dot, v3_magnitude, v3_normalize, v3_sub, v3_zero, Vec3, Vector};

verus! {

/// Largest center-offset component for which a surface normal is computed;
/// farther points (never produced by a supported hit) get the zero normal.
pub const NORMAL_ARG_MAX: i64 = 0x20_0000_0000;

/// The mathematical value of a [`Sphere`].
pub ghost struct SphereV {
    pub center: Vec3,
    pub radius: int,
    pub material: MaterialV,
}

/// A sphere: center, radius and material.
#[derive(Clone, Copy, Debug, PartialEq, Eq, Structural)]
pub struct Sphere {
    pub center: Vector,
    pub radius: i64,
    pub material: Material,
}

impl View for Sphere {
    type V = SphereV;

    open spec fn view(&self) -> SphereV {
        SphereV { center: self.center@, radius: self.radius as int, material: self.material@ }
    }
}

/// Validated ranges of a sphere: center within the supported coordinate
/// range, a positive radius within it too, and a well-formed material.
pub open spec fn sphere_wf(s: SphereV) -> bool {
    &&& bounded_v3(s.center, COORD_MAX as int)
    &&& 0 < s.radius <= COORD_MAX as int
    &&& material_wf(s.material)
}

/// Whether the sphere intersection math is within its supported ranges for
/// this ray and sphere; outside them every ray counts as missing.
pub open spec fn sphere_in_range(s: SphereV, r: RayV) -> bool {
    &&& bounded_v3(r.origin, COORD_MAX as int)
    &&& bounded_v3(r.direction, COORD_MAX as int)
    &&& bounded_v3(s.center, COORD_MAX as int)
    &&& 0 < s.radius <= COORD_MAX as int
}

/// Where a ray hits a sphere: the near root of the quadratic
/// `a t^2 + b t + c = 0` built from the ray and the center offset, accepted
/// when the discriminant is nonnegative and the root is a positive supported
/// distance. A degenerate direction (`a == 0`) never hits.
pub open spec fn spec_sphere_intersect(s: SphereV, r: RayV) -> Option<HitV> {
    if !sphere_in_range(s, r) {
        Option::None
    } else {
        let oc = v3_sub(r.origin, s.center);
        let a = v3_dot(r.direction, r.direction);
        let b = 2 * v3_dot(oc, r.direction);
        let c = v3_dot(oc, oc) - fmul(s.radius, s.radius);
        let disc = fmul(b, b) - fmul(4 * a, c);
        if a <= 0 || disc < 0 {
            Option::None
        } else {
            let t = fdiv(-b - fsqrt(disc), 2 * a);
            if 0 < t <= T_MAX as int {
                Option::Some(HitV { t: t, point: spec_point_at(r, t) })
            } else {
                Option::None
            }
        }
    }
}

/// The surface normal of a sphere at a point: the normalized offset from the
/// center. Degenerate arguments (a point at the center, or one far outside
/// the supported range) get the zero normal rather than an undefined value.
pub open spec fn spec_sphere_normal(s: SphereV, p: Vec3) -> Vec3 {
    if !bounded_v3(p, 0x80_0000_0000_0000) || !bounded_v3(s.center, COORD_MAX as int) {
        v3_zero()
    } else {
        let d = v3_sub(p, s.center);
        if !bounded_v3(d, NORMAL_ARG_MAX as int) || v3_magnitude(d) <= 0 {
            v3_zero()
        } else {
            v3_normalize(d)
        }
    }
}

impl Sphere {
    /// A new sphere from validated components.
    pub fn new(center: Vector, radius: i64, material: Material) -> (s: Sphere)
        requires
            bounded_v3(center@, COORD_MAX as int),
            0 < radius <= COORD_MAX,
            material_wf(material@),
        ensures
            s@ == (SphereV {
                center: center@,
                radius: radius as int,
                material: material@,
            }),
            sphere_wf(s@),
    {
        Sphere { center, radius, material }
    }

    /// The material of this sphere.
    pub fn get_material(&self) -> (m: &Material)
        ensures
            m@ == self@.material,
    {
        &self.material
    }

    /// Intersect a ray with this sphere: the nearest positive hit, if any.
    pub fn intersect(&self, ray: &Ray) -> (r: Option<Intersection>)
        ensures
            r is Some <==> spec_sphere_intersect(self@, ray@) is Some,
            r matches Some(h) ==> Option::Some(h@) == spec_sphere_intersect(self@, ray@),
    {
        if !(within(&ray.origin, COORD_MAX) && within(&ray.direction, COORD_MAX) && within(
            &self.center,
            COORD_MAX,
        ) && 0 < self.radius && self.radius <= COORD_MAX) {
            return None;
        }
        proof {
            lemma_sphere_quadratic_bounds(self@, ray@);
        }
        let oc: Vector = ray.origin.subtract(&self.center);
        let a: i64 = ray.direction.dot(&ray.direction);
        let b: i64 = 2 * oc.dot(&ray.direction);
        let c: i64 = oc.dot(&oc) - fix_mul(self.radius, self.radius);
        let disc: i128 = fmul_wide(b, b) - fmul_wide(4 * a, c);
        if a <= 0 || disc < 0 {
            return None;
        }
        let sq: i64 = fix_sqrt_wide(disc);
        let tw: i128 = fdiv_wide(-b - sq, 2 * a);
        if 0 < tw && tw <= T_MAX as i128 {
            let t: i64 = tw as i64;
            proof {
                lemma_sphere_point_bounds(ray@, t as int);
            }
            let point: Vector = ray.point_at_parameter(t);
            Some(Intersection { t, intersection_point: point })
        } else {
            None
        }
    }

    /// The surface normal at a point on this sphere.
    pub fn calculate_normal(&self, point: &Vector) -> (n: Vector)
        ensures
            n@ == spec_sphere_normal(self@, point@),
            bounded_v3(n@, NORMAL_MAX as int),
    {
        if !(within(point, 0x80_0000_0000_0000) && within(&self.center, COORD_MAX)) {
            return Vector::default();
        }
        let d: Vector = point.subtract(&self.center);
        if !within(&d, NORMAL_ARG_MAX) {
            return Vector::default();
        }
        proof {
            lemma_normal_arg_bounds(d@);
        }
        let mag: i64 = d.magnitude();
        if mag <= 0 {
            return Vector::default();
        }
        Vector::new(fix_div(d.x, mag), fix_div(d.y, mag), fix_div(d.z, mag))
    }
}

/// Arithmetic bounds of the sphere quadratic for an in-range ray and sphere:
/// every intermediate fits its machine type.
proof fn lemma_sphere_quadratic_bounds(s: SphereV, r: RayV)
    requires
        sphere_in_range(s, r),
    ensures
        ({
            let oc = v3_sub(r.origin, s.center);
            let a = v3_dot(r.direction, r.direction);
            let b = 2 * v3_dot(oc, r.direction);
            let c = v3_dot(oc, oc) - fmul(s.radius, s.radius);
            &&& fits_v3(oc)
            &&& fits(a)
            &&& 0 <= a <= 0x3000_0000_0000
            &&& fits(v3_dot(oc, r.direction))
            &&& -0x6000_0000_0000 <= v3_dot(oc, r.direction) <= 0x6000_0000_0000
            &&& 0 <= v3_dot(oc, oc) <= 0xC000_0000_0000
            &&& 0 <= fmul(s.radius, s.radius) <= 0x1000_0000_0000
            &&& fits(c)
            &&& -0x10_0000_0000_0000_0000_0000 <= fmul(b, b) <= 0x10_0000_0000_0000_0000_0000
            &&& -0x10_0000_0000_0000_0000_0000 <= fmul(4 * a, c) <= 0x10_0000_0000_0000_0000_0000
        }),
{
    let g: int = COORD_MAX as int;
    let oc = v3_sub(r.origin, s.center);
    crate::fixed::lemma_fmul_bound(r.direction.x, r.direction.x, g, g);
    crate::fixed::lemma_fmul_bound(r.direction.y, r.direction.y, g, g);
    crate::fixed::lemma_fmul_bound(r.direction.z, r.direction.z, g, g);
    crate::vector::lemma_dot_self_nonneg(r.direction);
    crate::vector::lemma_dot_self_nonneg(oc);
    crate::fixed::lemma_fmul_bound(oc.x, r.direction.x, 2 * g, g);
    crate::fixed::lemma_fmul_bound(oc.y, r.direction.y, 2 * g, g);
    crate::fixed::lemma_fmul_bound(oc.z, r.direction.z, 2 * g, g);
    crate::fixed::lemma_fmul_bound(oc.x, oc.x, 2 * g, 2 * g);
    crate::fixed::lemma_fmul_bound(oc.y, oc.y, 2 * g, 2 * g);
    crate::fixed::lemma_fmul_bound(oc.z, oc.z, 2 * g, 2 * g);
    crate::fixed::lemma_fmul_bound(s.radius, s.radius, g, g);
    let a = v3_dot(r.direction, r.direction);
    let b = 2 * v3_dot(oc, r.direction);
    let c = v3_dot(oc, oc) - fmul(s.radius, s.radius);
    crate::fixed::lemma_fmul_bound(b, b, 0xC000_0000_0000, 0xC000_0000_0000);
    crate::fixed::lemma_fmul_bound(4 * a, c, 0xC000_0000_0000, 0xD000_0000_0000);
}

/// Arithmetic bounds of the hit point for a supported hit distance.
proof fn lemma_sphere_point_bounds(r: RayV, t: int)
    requires
        bounded_v3(r.origin, COORD_MAX as int),
        bounded_v3(r.direction, COORD_MAX as int),
        0 < t <= T_MAX as int,
    ensures
        fits_v3(crate::vector::v3_scale(r.direction, t)),
        fits_v3(spec_point_at(r, t)),
{
    crate::fixed::lemma_fmul_bound(r.direction.x, t, COORD_MAX as int, T_MAX as int);
    crate::fixed::lemma_fmul_bound(r.direction.y, t, COORD_MAX as int, T_MAX as int);
    crate::fixed::lemma_fmul_bound(r.direction.z, t, COORD_MAX as int, T_MAX as int);
}

/// Arithmetic bounds of the normal computation for a guarded center offset.
proof fn lemma_normal_arg_bounds(d: Vec3)
    requires
        bounded_v3(d, NORMAL_ARG_MAX as int),
    ensures
        fits(v3_dot(d, d)),
        v3_magnitude(d) > 0 ==> fits_v3(v3_normalize(d)),
        v3_magnitude(d) > 0 ==> bounded_v3(v3_normalize(d), NORMAL_MAX as int),
{
    let m: int = NORMAL_ARG_MAX as int;
    crate::fixed::lemma_fmul_bound(d.x, d.x, m, m);
    crate::fixed::lemma_fmul_bound(d.y, d.y, m, m);
    crate::fixed::lemma_fmul_bound(d.z, d.z, m, m);
    let mag = v3_magnitude(d);
    if mag > 0 {
        crate::fixed::lemma_fdiv_bound(d.x, mag, m);
        crate::fixed::lemma_fdiv_bound(d.y, mag, m);
        crate::fixed::lemma_fdiv_bound(d.z, mag, m);
    }
}

} // verus!
