//! Axis-aligned boxes and their ray intersection by the slab method.

use vstd::prelude::*;
use crate::fixed::{fdiv, fix_div, SCALE};
use crate::intersection::{HitV, Intersection};
use crate::material::{material_wf, Material, MaterialV};
use crate::random::NORMAL_MAX;
use crate::ray::{bounded_v3, spec_point_at, within, Ray, RayV, COORD_MAX};
use crate::vector::{fits_v3, v3_add, v3_div_scalar, v3_sub, v3_zero, Vec3, Vector};

verus! {

/// Largest point-coordinate magnitude for which a box normal is computed.
pub const CUBE_POINT_MAX: i64 = 0x4000_0000_0000_0000;

/// The mathematical value of a [`Cube`].
pub ghost struct CubeV {
    pub center: Vec3,
    pub size: Vec3,
    pub material: MaterialV,
}

/// An axis-aligned box: center, per-axis full extents, and material.
#[derive(Clone, Copy, Debug, PartialEq, Eq, Structural)]
pub struct Cube {
    pub center: Vector,
    pub size: Vector,
    pub material: Material,
}

impl View for Cube {
    type V = CubeV;

    open spec fn view(&self) -> CubeV {
        CubeV { center: self.center@, size: self.size@, material: self.material@ }
    }
}

/// Validated ranges of a box: center within the supported coordinate range,
/// positive extents within it too, and a well-formed material.
pub open spec fn cube_wf(c: CubeV) -> bool {
    &&& bounded_v3(c.center, COORD_MAX as int)
    &&& 0 < c.size.x <= COORD_MAX as int
    &&& 0 < c.size.y <= COORD_MAX as int
    &&& 0 < c.size.z <= COORD_MAX as int
    &&& material_wf(c.material)
}

/// Whether the slab math is within its supported ranges for this ray and box;
/// outside them every ray counts as missing.
pub open spec fn cube_in_range(c: CubeV, r: RayV) -> bool {
    &&& bounded_v3(r.origin, COORD_MAX as int)
    &&& bounded_v3(r.direction, COORD_MAX as int)
    &&& bounded_v3(c.center, COORD_MAX as int)
    &&& 0 < c.size.x <= COORD_MAX as int
    &&& 0 < c.size.y <= COORD_MAX as int
    &&& 0 < c.size.z <= COORD_MAX as int
}

/// A ray parallel to an axis misses when its origin lies outside that slab.
pub open spec fn axis_miss(mn: int, mx: int, o: int, d: int) -> bool {
    d == 0 && !(mn <= o <= mx)
}

/// The entry and exit parameters of one slab, for a non-parallel axis; a
/// parallel axis constrains nothing.
pub open spec fn axis_bounds(mn: int, mx: int, o: int, d: int) -> Option<(int, int)> {
    if d == 0 {
        Option::None
    } else {
        let t1 = fdiv(mn - o, d);
        let t2 = fdiv(mx - o, d);
        Option::Some((vstd::math::min(t1, t2), vstd::math::max(t1, t2)))
    }
}

/// Fold two slabs' parameter ranges: the entry is the later entry, the exit
/// the earlier exit; an unconstrained side passes the other through.
pub open spec fn merge_bounds(a: Option<(int, int)>, b: Option<(int, int)>) -> Option<(int, int)> {
    match (a, b) {
        (Option::None, other) => other,
        (Option::Some(p), Option::None) => Option::Some(p),
        (Option::Some((l1, h1)), Option::Some((l2, h2))) => Option::Some(
            (vstd::math::max(l1, l2), vstd::math::min(h1, h2)),
        ),
    }
}

/// Where a ray hits a box, by folding the three slabs: a hit needs a
/// nonempty parameter range with nonnegative entry, and some non-parallel
/// axis. A ray parallel to every axis never hits, even from inside.
pub open spec fn spec_cube_intersect(c: CubeV, r: RayV) -> Option<HitV> {
    if !cube_in_range(c, r) {
        Option::None
    } else {
        let half = v3_div_scalar(c.size, 2 * SCALE as int);
        let mn = v3_sub(c.center, half);
        let mx = v3_add(c.center, half);
        if axis_miss(mn.x, mx.x, r.origin.x, r.direction.x) || axis_miss(
            mn.y,
            mx.y,
            r.origin.y,
            r.direction.y,
        ) || axis_miss(mn.z, mx.z, r.origin.z, r.direction.z) {
            Option::None
        } else {
            let bx = axis_bounds(mn.x, mx.x, r.origin.x, r.direction.x);
            let by = axis_bounds(mn.y, mx.y, r.origin.y, r.direction.y);
            let bz = axis_bounds(mn.z, mx.z, r.origin.z, r.direction.z);
            match merge_bounds(merge_bounds(bx, by), bz) {
                Option::Some((t_min, t_max)) => if t_min <= t_max && t_min >= 0 {
                    Option::Some(HitV { t: t_min, point: spec_point_at(r, t_min) })
                } else {
                    Option::None
                },
                Option::None => Option::None,
            }
        }
    }
}

/// The axis-unit value carrying the sign of `d` (one unit for nonnegative `d`).
pub open spec fn sign_unit(d: int) -> int {
    if d >= 0 {
        SCALE as int
    } else {
        -(SCALE as int)
    }
}

/// The surface normal of a box at a point: the signed unit vector of the axis
/// with the largest center offset, ties broken in the order x, y, z. Points
/// far outside the supported range get the zero normal.
pub open spec fn spec_cube_normal(c: CubeV, p: Vec3) -> Vec3 {
    if !bounded_v3(p, CUBE_POINT_MAX as int) || !bounded_v3(c.center, COORD_MAX as int) {
        v3_zero()
    } else {
        let dx = p.x - c.center.x;
        let dy = p.y - c.center.y;
        let dz = p.z - c.center.z;
        if vstd::math::abs(dx) > vstd::math::abs(dy) && vstd::math::abs(dx) > vstd::math::abs(dz) {
            Vec3 { x: sign_unit(dx), y: 0, z: 0 }
        } else if vstd::math::abs(dy) > vstd::math::abs(dz) {
            Vec3 { x: 0, y: sign_unit(dy), z: 0 }
        } else {
            Vec3 { x: 0, y: 0, z: sign_unit(dz) }
        }
    }
}

/// The view of one axis' executable slab bounds.
pub open spec fn opt_pair_view(o: Option<(i64, i64)>) -> Option<(int, int)> {
    match o {
        Option::Some((l, h)) => Option::Some((l as int, h as int)),
        Option::None => Option::None,
    }
}

/// One slab's entry and exit parameters (executable).
fn axis_slab(mn: i64, mx: i64, o: i64, d: i64) -> (r: Option<(i64, i64)>)
    requires
        -0x6000_0000 <= mn <= 0x6000_0000,
        -0x6000_0000 <= mx <= 0x6000_0000,
        -COORD_MAX <= o <= COORD_MAX,
    ensures
        opt_pair_view(r) == axis_bounds(mn as int, mx as int, o as int, d as int),
        r matches Some((l, h)) ==> -0xA000_0000_0000 <= l <= h <= 0xA000_0000_0000,
{
    if d == 0 {
        None
    } else {
        proof {
            crate::fixed::lemma_fdiv_bound(mn as int - o as int, d as int, 0xA000_0000);
            crate::fixed::lemma_fdiv_bound(mx as int - o as int, d as int, 0xA000_0000);
        }
        let t1: i64 = fix_div(mn - o, d);
        let t2: i64 = fix_div(mx - o, d);
        if t1 <= t2 {
            Some((t1, t2))
        } else {
            Some((t2, t1))
        }
    }
}

/// Fold two slabs' parameter ranges (executable).
fn merge_slab(a: Option<(i64, i64)>, b: Option<(i64, i64)>) -> (r: Option<(i64, i64)>)
    ensures
        opt_pair_view(r) == merge_bounds(opt_pair_view(a), opt_pair_view(b)),
{
    match (a, b) {
        (Option::None, other) => other,
        (Option::Some(p), Option::None) => Some(p),
        (Option::Some((l1, h1)), Option::Some((l2, h2))) => {
            let lo: i64 = if l1 >= l2 {
                l1
            } else {
                l2
            };
            let hi: i64 = if h1 <= h2 {
                h1
            } else {
                h2
            };
            Some((lo, hi))
        },
    }
}

impl Cube {
    /// A new box from validated components.
    pub fn new(center: Vector, size: Vector, material: Material) -> (c: Cube)
        requires
            bounded_v3(center@, COORD_MAX as int),
            0 < size@.x <= COORD_MAX as int,
            0 < size@.y <= COORD_MAX as int,
            0 < size@.z <= COORD_MAX as int,
            material_wf(material@),
        ensures
            c@ == (CubeV { center: center@, size: size@, material: material@ }),
            cube_wf(c@),
    {
        Cube { center, size, material }
    }

    /// The material of this box.
    pub fn get_material(&self) -> (m: &Material)
        ensures
            m@ == self@.material,
    {
        &self.material
    }

    /// Intersect a ray with this box: the nearest nonnegative entry, if any.
    pub fn intersect(&self, ray: &Ray) -> (r: Option<Intersection>)
        ensures
            r is Some <==> spec_cube_intersect(self@, ray@) is Some,
            r matches Some(h) ==> Option::Some(h@) == spec_cube_intersect(self@, ray@),
    {
        if !(within(&ray.origin, COORD_MAX) && within(&ray.direction, COORD_MAX) && within(
            &self.center,
            COORD_MAX,
        ) && 0 < self.size.x && self.size.x <= COORD_MAX && 0 < self.size.y && self.size.y
            <= COORD_MAX && 0 < self.size.z && self.size.z <= COORD_MAX) {
            return None;
        }
        proof {
            lemma_half_bounds(self@.size);
        }
        let half: Vector = self.size.divide(2 * SCALE).unwrap();
        let mn: Vector = self.center.subtract(&half);
        let mx: Vector = self.center.add(&half);
        if (ray.direction.x == 0 && (ray.origin.x < mn.x || ray.origin.x > mx.x)) || (
        ray.direction.y == 0 && (ray.origin.y < mn.y || ray.origin.y > mx.y)) || (ray.direction.z
            == 0 && (ray.origin.z < mn.z || ray.origin.z > mx.z)) {
            return None;
        }
        let bx: Option<(i64, i64)> = axis_slab(mn.x, mx.x, ray.origin.x, ray.direction.x);
        let by: Option<(i64, i64)> = axis_slab(mn.y, mx.y, ray.origin.y, ray.direction.y);
        let bz: Option<(i64, i64)> = axis_slab(mn.z, mx.z, ray.origin.z, ray.direction.z);
        let merged: Option<(i64, i64)> = merge_slab(merge_slab(bx, by), bz);
        match merged {
            Option::Some((t_min, t_max)) => {
                if t_min <= t_max && t_min >= 0 {
                    proof {
                        lemma_cube_point_bounds(ray@, t_min as int);
                    }
                    let point: Vector = ray.point_at_parameter(t_min);
                    Some(Intersection { t: t_min, intersection_point: point })
                } else {
                    None
                }
            },
            Option::None => None,
        }
    }

    /// The surface normal at a point on this box.
    pub fn calculate_normal(&self, point: &Vector) -> (n: Vector)
        ensures
            n@ == spec_cube_normal(self@, point@),
            bounded_v3(n@, NORMAL_MAX as int),
    {
        if !(within(point, CUBE_POINT_MAX) && within(&self.center, COORD_MAX)) {
            return Vector::default();
        }
        let dx: i64 = point.x - self.center.x;
        let dy: i64 = point.y - self.center.y;
        let dz: i64 = point.z - self.center.z;
        let ax: i64 = if dx >= 0 {
            dx
        } else {
            -dx
        };
        let ay: i64 = if dy >= 0 {
            dy
        } else {
            -dy
        };
        let az: i64 = if dz >= 0 {
            dz
        } else {
            -dz
        };
        if ax > ay && ax > az {
            Vector::new(if dx >= 0 { SCALE } else { -SCALE }, 0, 0)
        } else if ay > az {
            Vector::new(0, if dy >= 0 { SCALE } else { -SCALE }, 0)
        } else {
            Vector::new(0, 0, if dz >= 0 { SCALE } else { -SCALE })
        }
    }
}

/// Half of a supported box extent stays within half the coordinate range.
proof fn lemma_half_bounds(s: Vec3)
    requires
        bounded_v3(s, COORD_MAX as int),
    ensures
        fits_v3(v3_div_scalar(s, 2 * SCALE as int)),
        bounded_v3(v3_div_scalar(s, 2 * SCALE as int), 0x2000_0000),
{
    assert(2 * SCALE as int == 131072);
    crate::fixed::lemma_tdiv_bound(s.x * (SCALE as int), 0x4000_0000_0000, 131072);
    crate::fixed::lemma_tdiv_bound(s.y * (SCALE as int), 0x4000_0000_0000, 131072);
    crate::fixed::lemma_tdiv_bound(s.z * (SCALE as int), 0x4000_0000_0000, 131072);
}

/// Arithmetic bounds of the hit point for a slab entry parameter.
proof fn lemma_cube_point_bounds(r: RayV, t: int)
    requires
        bounded_v3(r.origin, COORD_MAX as int),
        bounded_v3(r.direction, COORD_MAX as int),
        -0xA000_0000_0000 <= t <= 0xA000_0000_0000,
    ensures
        fits_v3(crate::vector::v3_scale(r.direction, t)),
        fits_v3(spec_point_at(r, t)),
{
    crate::fixed::lemma_fmul_bound(r.direction.x, t, COORD_MAX as int, 0xA000_0000_0000);
    crate::fixed::lemma_fmul_bound(r.direction.y, t, COORD_MAX as int, 0xA000_0000_0000);
    crate::fixed::lemma_fmul_bound(r.direction.z, t, COORD_MAX as int, 0xA000_0000_0000);
}

} // verus!
