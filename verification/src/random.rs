//! The seeded sampler: a deterministic hash-based pseudo-random stream of
//! uniform scalars, unit directions, and hemisphere-oriented directions.
//! Identical seeds reproduce identical streams; reproducibility of renders
//! rests on this.

use vstd::prelude::*;
use crate::fixed::{fdiv, fsqrt, fix_div, fix_sqrt, SCALE};
use crate::ray::bounded_v3;
use crate::vector::{v3_div_scalar, v3_dot, v3_scale, v3_zero, Vec3, Vector};

verus! {

/// Largest component magnitude of a sampled direction (16 fixed-point units,
/// far above the near-unit values the sampler produces).
pub const DIR_MAX: i64 = 16777216;

/// Largest normal-vector component magnitude the hemisphere sampler accepts.
pub const NORMAL_MAX: i64 = 0x20_0000_0000_0000;

/// Number of rejection-sampling attempts before the zero-vector fallback.
pub const DIRECTION_ATTEMPTS: u32 = 100;

/// A deterministic pseudo-random sampler over a 32-bit state.
pub struct Random {
    state: u32,
}

impl View for Random {
    type V = u32;

    closed spec fn view(&self) -> u32 {
        self.state
    }
}

/// The state update rule: a linear congruential step, wrapping at 32 bits.
#[verifier::opaque]
pub open spec fn next_state(s: u32) -> u32 {
    s.wrapping_mul(747796405).wrapping_add(2891336453)
}

/// The finishing hash applied to a state to produce an output word.
#[verifier::opaque]
pub open spec fn finish_hash(s: u32) -> u32 {
    let w = ((s >> ((s >> 28) + 4)) ^ s).wrapping_mul(277803737);
    (w >> 22) ^ w
}

/// The scalar drawn from state `s`: the hashed next state, scaled into
/// `[0, 1]` by the largest 32-bit value.
#[verifier::opaque]
pub open spec fn rv_value(s: u32) -> int {
    (finish_hash(next_state(s)) as int) * (SCALE as int) / 0xFFFF_FFFF
}

/// The high nibble of a 32-bit word is below 16.
proof fn lemma_high_nibble(s: u32)
    ensures
        (s >> 28) < 16,
{
    assert(s >> 28 < 16) by (bit_vector);
}

/// The drawn scalar lies in `[0, 1]`.
pub proof fn lemma_rv_value_range(s: u32)
    ensures
        0 <= rv_value(s) <= SCALE as int,
{
    reveal(rv_value);
    let h = finish_hash(next_state(s)) as int;
    vstd::arithmetic::div_mod::lemma_div_pos_is_pos(h * (SCALE as int), 0xFFFF_FFFF);
    vstd::arithmetic::mul::lemma_mul_inequality(h, 0xFFFF_FFFF, SCALE as int);
    vstd::arithmetic::div_mod::lemma_div_is_ordered(
        h * (SCALE as int),
        0xFFFF_FFFF * (SCALE as int),
        0xFFFF_FFFF,
    );
    vstd::arithmetic::mul::lemma_mul_is_commutative(0xFFFF_FFFF, SCALE as int);
    vstd::arithmetic::div_mod::lemma_div_multiples_vanish(SCALE as int, 0xFFFF_FFFF);
}

/// The point one attempt draws from state `s`: a point in the cube of
/// half-extent one, each coordinate from one scalar draw.
#[verifier::opaque]
pub open spec fn spec_attempt_point(s: u32) -> Vec3 {
    let x = 2 * rv_value(s) - SCALE as int;
    let y = 2 * rv_value(next_state(s)) - SCALE as int;
    let z = 2 * rv_value(next_state(next_state(s))) - SCALE as int;
    Vec3 { x: x, y: y, z: z }
}

/// The sampler state after one attempt's three draws.
#[verifier::opaque]
pub open spec fn spec_attempt_state(s: u32) -> u32 {
    next_state(next_state(next_state(s)))
}

/// What one rejection-sampling attempt from state `s` yields: the drawn cube
/// point rescaled onto the unit sphere if its squared length lies in `(0, 1]`,
/// nothing if the point is rejected.
#[verifier::opaque]
pub open spec fn spec_attempt(s: u32) -> Option<Vec3> {
    let v = spec_attempt_point(s);
    let sq = v3_dot(v, v);
    if 0 < sq <= SCALE as int {
        Some(v3_div_scalar(v, fsqrt(sq)))
    } else {
        None
    }
}

/// The direction drawn from state `s` with the given attempt budget:
/// points are sampled uniformly in the cube of half-extent one and rejected
/// until one falls inside the unit sphere (its squared length must also be
/// positive, so that normalizing is defined); that point is rescaled onto the
/// sphere's surface. An exhausted budget yields the zero vector, the
/// documented degenerate-sampling fallback.
#[verifier::opaque]
pub open spec fn spec_random_direction(s: u32, attempts: nat) -> (Vec3, u32)
    decreases attempts,
{
    if attempts == 0 {
        (v3_zero(), s)
    } else {
        match spec_attempt(s) {
            Some(v) => (v, spec_attempt_state(s)),
            None => spec_random_direction(spec_attempt_state(s), (attempts - 1) as nat),
        }
    }
}

/// The hemisphere direction drawn from state `s`: a direction on the sphere,
/// flipped when it points against `n`.
pub open spec fn spec_hemisphere(n: Vec3, s: u32) -> (Vec3, u32) {
    let (d, s2) = spec_random_direction(s, DIRECTION_ATTEMPTS as nat);
    if v3_dot(n, d) < 0 {
        (v3_scale(d, -(SCALE as int)), s2)
    } else {
        (d, s2)
    }
}

/// Bounds that hold of an accepted sample: the rescaled components stay below
/// `DIR_MAX`, because the squared length is at least one fixed-point step.
proof fn lemma_accepted_sample_bounds(v: Vec3, sq: int)
    requires
        sq == v3_dot(v, v),
        0 < sq <= SCALE as int,
        -(SCALE as int) <= v.x <= SCALE as int,
        -(SCALE as int) <= v.y <= SCALE as int,
        -(SCALE as int) <= v.z <= SCALE as int,
    ensures
        256 <= fsqrt(sq) <= SCALE as int,
        bounded_v3(v3_div_scalar(v, fsqrt(sq)), DIR_MAX as int),
{
    let n = (sq * SCALE) as nat;
    let mag = crate::fixed::sqrt_floor(n);
    crate::fixed::lemma_sqrt_floor_bounds(n);
    assert(mag >= 256) by (nonlinear_arith)
        requires
            (mag + 1) * (mag + 1) > n,
            n >= 65536,
    ;
    assert(mag <= SCALE as int) by (nonlinear_arith)
        requires
            mag * mag <= n,
            n <= 65536 * 65536,
    ;
    lemma_div_comp_bound(v.x, mag as int);
    lemma_div_comp_bound(v.y, mag as int);
    lemma_div_comp_bound(v.z, mag as int);
}

/// A component of magnitude at most one, divided by a magnitude of at least
/// 256 steps, stays below `DIR_MAX`.
proof fn lemma_div_comp_bound(c: int, mag: int)
    requires
        -(SCALE as int) <= c <= SCALE as int,
        mag >= 256,
    ensures
        -(DIR_MAX as int) <= fdiv(c, mag) <= DIR_MAX as int,
{
    crate::fixed::lemma_tdiv_bound(c * (SCALE as int), (SCALE as int) * (SCALE as int), mag);
    vstd::arithmetic::div_mod::lemma_div_is_ordered_by_denominator(
        (SCALE as int) * (SCALE as int),
        256,
        mag,
    );
}

impl Random {
    /// A new sampler at the given seed.
    pub fn new(seed: u32) -> (r: Random)
        ensures
            r@ == seed,
    {
        Random { state: seed }
    }

    /// Draw one uniform scalar in `[0, 1]`, advancing the state.
    pub fn random_value(&mut self) -> (r: i64)
        ensures
            final(self)@ == next_state(old(self)@),
            r as int == rv_value(old(self)@),
            0 <= r <= SCALE,
    {
        proof {
            reveal(rv_value);
            reveal(next_state);
            reveal(finish_hash);
            lemma_rv_value_range(old(self)@);
        }
        let s: u32 = self.state.wrapping_mul(747796405).wrapping_add(2891336453);
        self.state = s;
        proof {
            lemma_high_nibble(s);
        }
        let sh: u32 = (s >> ((s >> 28) + 4)) ^ s;
        let w: u32 = sh.wrapping_mul(277803737);
        let h: u32 = (w >> 22) ^ w;
        let v: u64 = ((h as u64) * (SCALE as u64)) / 0xFFFF_FFFFu64;
        v as i64
    }

    /// Run one rejection-sampling attempt: three scalar draws, accepted when
    /// the point falls inside the unit sphere with positive squared length.
    fn try_direction(&mut self) -> (r: Option<Vector>)
        ensures
            final(self)@ == spec_attempt_state(old(self)@),
            r matches Some(v) ==> spec_attempt(old(self)@) == Some(v@) && bounded_v3(
                v@,
                DIR_MAX as int,
            ),
            r is None ==> spec_attempt(old(self)@) is None,
    {
        proof {
            reveal(spec_attempt);
            reveal(spec_attempt_point);
            reveal(spec_attempt_state);
        }
        let rx: i64 = self.random_value();
        let x: i64 = 2 * rx - SCALE;
        let ry: i64 = self.random_value();
        let y: i64 = 2 * ry - SCALE;
        let rz: i64 = self.random_value();
        let z: i64 = 2 * rz - SCALE;
        let v: Vector = Vector::new(x, y, z);
        proof {
            crate::fixed::lemma_fmul_bound(x as int, x as int, SCALE as int, SCALE as int);
            crate::fixed::lemma_fmul_bound(y as int, y as int, SCALE as int, SCALE as int);
            crate::fixed::lemma_fmul_bound(z as int, z as int, SCALE as int, SCALE as int);
        }
        let sq: i64 = v.dot(&v);
        if 0 < sq && sq <= SCALE {
            proof {
                lemma_accepted_sample_bounds(v@, sq as int);
            }
            let mag: i64 = fix_sqrt(sq);
            Some(Vector::new(fix_div(x, mag), fix_div(y, mag), fix_div(z, mag)))
        } else {
            None
        }
    }

    /// Draw a direction on the unit sphere by rejection sampling; after an
    /// exhausted attempt budget, the zero vector (callers treat it as "no
    /// change of direction").
    pub fn random_direction(&mut self) -> (r: Vector)
        ensures
            r@ == spec_random_direction(old(self)@, DIRECTION_ATTEMPTS as nat).0,
            final(self)@ == spec_random_direction(old(self)@, DIRECTION_ATTEMPTS as nat).1,
            bounded_v3(r@, DIR_MAX as int),
    {
        let ghost s0: u32 = self@;
        let mut i: u32 = 0;
        while i < DIRECTION_ATTEMPTS
        invariant
            0 <= i <= DIRECTION_ATTEMPTS,
            s0 == old(self)@,
            spec_random_direction(s0, DIRECTION_ATTEMPTS as nat) == spec_random_direction(
                self@,
                (DIRECTION_ATTEMPTS - i) as nat,
            ),
        decreases DIRECTION_ATTEMPTS - i,
        {
            let ghost si: u32 = self@;
            let attempt: Option<Vector> = self.try_direction();
            match attempt {
                Some(v) => {
                    proof {
                        reveal(spec_random_direction);
                        let n = (DIRECTION_ATTEMPTS - i) as nat;
                        assert(spec_random_direction(si, n) == (v@, self@));
                    }
                    return v;
                },
                None => {
                    proof {
                        reveal(spec_random_direction);
                        let n = (DIRECTION_ATTEMPTS - i) as nat;
                        assert(spec_random_direction(si, n) == spec_random_direction(
                            self@,
                            (n - 1) as nat,
                        ));
                    }
                },
            }
            i = i + 1;
        }
        proof {
            reveal(spec_random_direction);
        }
        Vector::default()
    }

    /// Draw a direction in the hemisphere around `normal`: a sphere direction,
    /// flipped when it points against the normal. The result never points
    /// against the normal.
    pub fn random_hemisphere_direction(&mut self, normal: &Vector) -> (r: Vector)
        requires
            bounded_v3(normal@, NORMAL_MAX as int),
        ensures
            r@ == spec_hemisphere(normal@, old(self)@).0,
            final(self)@ == spec_hemisphere(normal@, old(self)@).1,
            v3_dot(normal@, r@) >= 0,
            bounded_v3(r@, DIR_MAX as int),
    {
        let d: Vector = self.random_direction();
        proof {
            crate::fixed::lemma_fmul_bound(
                normal@.x,
                d@.x,
                NORMAL_MAX as int,
                DIR_MAX as int,
            );
            crate::fixed::lemma_fmul_bound(
                normal@.y,
                d@.y,
                NORMAL_MAX as int,
                DIR_MAX as int,
            );
            crate::fixed::lemma_fmul_bound(
                normal@.z,
                d@.z,
                NORMAL_MAX as int,
                DIR_MAX as int,
            );
        }
        let dt: i64 = normal.dot(&d);
        if dt < 0 {
            proof {
                crate::vector::lemma_dot_neg(normal@, d@);
                crate::vector::lemma_scale_neg_one(d@);
            }
            d.multiply(-SCALE)
        } else {
            d
        }
    }
}

} // verus!
