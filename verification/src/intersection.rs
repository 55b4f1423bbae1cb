//! Intersection records and the closest-hit resolver across primitive types.

use vstd::prelude::*;
use crate::vector::{Vec3, Vector};

verus! {

/// Largest supported hit distance along a ray, a machine limit of the
/// fixed-point intersection math; more distant intersections count as misses.
pub const T_MAX: i64 = 0x100_0000_0000;

/// The mathematical value of an [`Intersection`].
pub ghost struct HitV {
    pub t: int,
    pub point: Vec3,
}

/// A ray-primitive intersection: the ray parameter at the hit and the hit
/// point itself.
#[derive(Clone, Copy, Debug, PartialEq, Eq, Structural)]
pub struct Intersection {
    pub t: i64,
    pub intersection_point: Vector,
}

impl View for Intersection {
    type V = HitV;

    open spec fn view(&self) -> HitV {
        HitV { t: self.t as int, point: self.intersection_point@ }
    }
}

/// The mathematical value of a [`ClosestHit`].
pub ghost enum ClosestV {
    Sphere { hit: HitV, index: int },
    Cube { hit: HitV, index: int },
    Miss,
}

/// The globally closest hit: which primitive type produced it, the hit
/// record, and the index of the primitive in its scene collection.
#[derive(Clone, Copy, Debug, PartialEq, Eq, Structural)]
pub enum ClosestHit {
    Sphere { hit: Intersection, index: usize },
    Cube { hit: Intersection, index: usize },
    Miss,
}

impl View for ClosestHit {
    type V = ClosestV;

    open spec fn view(&self) -> ClosestV {
        match self {
            ClosestHit::Sphere { hit, index } => ClosestV::Sphere {
                hit: hit@,
                index: index as int,
            },
            ClosestHit::Cube { hit, index } => ClosestV::Cube { hit: hit@, index: index as int },
            ClosestHit::Miss => ClosestV::Miss,
        }
    }
}

/// The view of an optional per-type candidate hit.
pub open spec fn opt_hit_view(o: Option<(Intersection, usize)>) -> Option<(HitV, int)> {
    match o {
        Option::Some((h, i)) => Option::Some((h@, i as int)),
        Option::None => Option::None,
    }
}

/// The resolver's arbitration rule: with both candidates present the smaller
/// ray parameter wins and the sphere wins ties; with one candidate it wins;
/// with none the result is a miss.
pub open spec fn spec_resolve(s: Option<(HitV, int)>, c: Option<(HitV, int)>) -> ClosestV {
    match (s, c) {
        (Option::None, Option::None) => ClosestV::Miss,
        (Option::Some((h, i)), Option::None) => ClosestV::Sphere { hit: h, index: i },
        (Option::None, Option::Some((h, i))) => ClosestV::Cube { hit: h, index: i },
        (Option::Some((sh, si)), Option::Some((ch, ci))) => if ch.t < sh.t {
            ClosestV::Cube { hit: ch, index: ci }
        } else {
            ClosestV::Sphere { hit: sh, index: si }
        },
    }
}

/// Pick the globally closest hit from the best sphere candidate and the best
/// cube candidate.
pub fn resolve_closest(
    sphere_hit: Option<(Intersection, usize)>,
    cube_hit: Option<(Intersection, usize)>,
) -> (r: ClosestHit)
    ensures
        r@ == spec_resolve(opt_hit_view(sphere_hit), opt_hit_view(cube_hit)),
{
    match (sphere_hit, cube_hit) {
        (Option::None, Option::None) => ClosestHit::Miss,
        (Option::Some((h, i)), Option::None) => ClosestHit::Sphere { hit: h, index: i },
        (Option::None, Option::Some((h, i))) => ClosestHit::Cube { hit: h, index: i },
        (Option::Some((sh, si)), Option::Some((ch, ci))) => if ch.t < sh.t {
            ClosestHit::Cube { hit: ch, index: ci }
        } else {
            ClosestHit::Sphere { hit: sh, index: si }
        },
    }
}

} // verus!
