//! Three-component fixed-point vectors, used as points, directions and colors.

use vstd::prelude::*;
use crate::fault::Fault;
use crate::fixed::{fdiv, fits, fmul, fsqrt, fix_div, fix_mul, fix_sqrt, fmul_wide, SCALE};

verus! {

/// The mathematical value of a [`Vector`]: three unbounded fixed-point scalars.
pub ghost struct Vec3 {
    pub x: int,
    pub y: int,
    pub z: int,
}

/// A vector of three fixed-point scalars.
#[derive(Clone, Copy, Debug, PartialEq, Eq, Structural)]
pub struct Vector {
    pub x: i64,
    pub y: i64,
    pub z: i64,
}

impl View for Vector {
    type V = Vec3;

    open spec fn view(&self) -> Vec3 {
        Vec3 { x: self.x as int, y: self.y as int, z: self.z as int }
    }
}

/// Whether each component is representable as an `i64` scalar.
pub open spec fn fits_v3(v: Vec3) -> bool {
    fits(v.x) && fits(v.y) && fits(v.z)
}

/// The zero vector.
pub open spec fn v3_zero() -> Vec3 {
    Vec3 { x: 0, y: 0, z: 0 }
}

/// Component-wise sum.
pub open spec fn v3_add(a: Vec3, b: Vec3) -> Vec3 {
    Vec3 { x: a.x + b.x, y: a.y + b.y, z: a.z + b.z }
}

/// Component-wise difference.
pub open spec fn v3_sub(a: Vec3, b: Vec3) -> Vec3 {
    Vec3 { x: a.x - b.x, y: a.y - b.y, z: a.z - b.z }
}

/// Each component scaled by the fixed-point scalar `s`.
pub open spec fn v3_scale(a: Vec3, s: int) -> Vec3 {
    Vec3 { x: fmul(a.x, s), y: fmul(a.y, s), z: fmul(a.z, s) }
}

/// Component-wise (Hadamard) product.
pub open spec fn v3_mul_ew(a: Vec3, b: Vec3) -> Vec3 {
    Vec3 { x: fmul(a.x, b.x), y: fmul(a.y, b.y), z: fmul(a.z, b.z) }
}

/// Each component divided by the fixed-point scalar `s`.
pub open spec fn v3_div_scalar(a: Vec3, s: int) -> Vec3
    recommends
        s != 0,
{
    Vec3 { x: fdiv(a.x, s), y: fdiv(a.y, s), z: fdiv(a.z, s) }
}

/// Dot product of two vectors, as an unbounded fixed-point scalar.
pub open spec fn v3_dot(a: Vec3, b: Vec3) -> int {
    fmul(a.x, b.x) + fmul(a.y, b.y) + fmul(a.z, b.z)
}

/// Cross product of two vectors.
pub open spec fn v3_cross(a: Vec3, b: Vec3) -> Vec3 {
    Vec3 {
        x: fmul(a.y, b.z) - fmul(a.z, b.y),
        y: fmul(a.z, b.x) - fmul(a.x, b.z),
        z: fmul(a.x, b.y) - fmul(a.y, b.x),
    }
}

/// Length of a vector: the square root of its dot product with itself.
pub open spec fn v3_magnitude(a: Vec3) -> int {
    fsqrt(v3_dot(a, a))
}

/// The vector rescaled to unit length (well-defined only for nonzero length).
pub open spec fn v3_normalize(a: Vec3) -> Vec3
    recommends
        v3_magnitude(a) > 0,
{
    v3_div_scalar(a, v3_magnitude(a))
}

/// A vector's dot product with itself is never negative.
pub proof fn lemma_dot_self_nonneg(a: Vec3)
    ensures
        v3_dot(a, a) >= 0,
{
    crate::fixed::lemma_fmul_sq_nonneg(a.x);
    crate::fixed::lemma_fmul_sq_nonneg(a.y);
    crate::fixed::lemma_fmul_sq_nonneg(a.z);
}

/// Negating one argument negates the dot product.
pub proof fn lemma_dot_neg(a: Vec3, b: Vec3)
    ensures
        v3_dot(a, v3_scale(b, -(SCALE as int))) == -v3_dot(a, b),
{
    crate::fixed::lemma_fmul_unit(b.x);
    crate::fixed::lemma_fmul_neg(b.x, SCALE as int);
    crate::fixed::lemma_fmul_unit(b.y);
    crate::fixed::lemma_fmul_neg(b.y, SCALE as int);
    crate::fixed::lemma_fmul_unit(b.z);
    crate::fixed::lemma_fmul_neg(b.z, SCALE as int);
    crate::fixed::lemma_fmul_neg(a.x, b.x);
    crate::fixed::lemma_fmul_neg(a.y, b.y);
    crate::fixed::lemma_fmul_neg(a.z, b.z);
}

/// Scaling by minus one negates every component exactly.
pub proof fn lemma_scale_neg_one(v: Vec3)
    ensures
        v3_scale(v, -(SCALE as int)) == (Vec3 { x: -v.x, y: -v.y, z: -v.z }),
{
    crate::fixed::lemma_fmul_unit(v.x);
    crate::fixed::lemma_fmul_neg(v.x, SCALE as int);
    crate::fixed::lemma_fmul_unit(v.y);
    crate::fixed::lemma_fmul_neg(v.y, SCALE as int);
    crate::fixed::lemma_fmul_unit(v.z);
    crate::fixed::lemma_fmul_neg(v.z, SCALE as int);
}

impl Vector {
    /// A new vector from three fixed-point scalars.
    pub fn new(x: i64, y: i64, z: i64) -> (v: Vector)
        ensures
            v@ == (Vec3 { x: x as int, y: y as int, z: z as int }),
    {
        Vector { x, y, z }
    }

    /// Overwrite this vector with the given components.
    pub fn set(&mut self, x: i64, y: i64, z: i64)
        ensures
            final(self)@ == (Vec3 { x: x as int, y: y as int, z: z as int }),
    {
        self.x = x;
        self.y = y;
        self.z = z;
    }

    /// Component-wise sum with another vector.
    pub fn add(&self, v: &Vector) -> (r: Vector)
        requires
            fits_v3(v3_add(self@, v@)),
        ensures
            r@ == v3_add(self@, v@),
    {
        Vector { x: self.x + v.x, y: self.y + v.y, z: self.z + v.z }
    }

    /// Component-wise difference with another vector.
    pub fn subtract(&self, v: &Vector) -> (r: Vector)
        requires
            fits_v3(v3_sub(self@, v@)),
        ensures
            r@ == v3_sub(self@, v@),
    {
        Vector { x: self.x - v.x, y: self.y - v.y, z: self.z - v.z }
    }

    /// Each component scaled by a fixed-point scalar.
    pub fn multiply(&self, scalar: i64) -> (r: Vector)
        requires
            fits_v3(v3_scale(self@, scalar as int)),
        ensures
            r@ == v3_scale(self@, scalar as int),
    {
        Vector {
            x: fix_mul(self.x, scalar),
            y: fix_mul(self.y, scalar),
            z: fix_mul(self.z, scalar),
        }
    }

    /// Component-wise product with another vector.
    pub fn multiply_elementwise(&self, v: &Vector) -> (r: Vector)
        requires
            fits_v3(v3_mul_ew(self@, v@)),
        ensures
            r@ == v3_mul_ew(self@, v@),
    {
        Vector {
            x: fix_mul(self.x, v.x),
            y: fix_mul(self.y, v.y),
            z: fix_mul(self.z, v.z),
        }
    }

    /// Each component divided by a fixed-point scalar; a zero scalar is the
    /// division-by-zero fault, for every vector.
    pub fn divide(&self, scalar: i64) -> (r: Result<Vector, Fault>)
        requires
            scalar != 0 ==> fits_v3(v3_div_scalar(self@, scalar as int)),
        ensures
            scalar == 0 <==> r is Err,
            r matches Err(f) ==> f == Fault::DivisionByZero,
            r matches Ok(v) ==> v@ == v3_div_scalar(self@, scalar as int),
    {
        if scalar != 0 {
            Ok(Vector {
                x: fix_div(self.x, scalar),
                y: fix_div(self.y, scalar),
                z: fix_div(self.z, scalar),
            })
        } else {
            Err(Fault::DivisionByZero)
        }
    }

    /// Dot product with another vector.
    pub fn dot(&self, v: &Vector) -> (r: i64)
        requires
            fits(v3_dot(self@, v@)),
        ensures
            r as int == v3_dot(self@, v@),
    {
        let tx: i128 = fmul_wide(self.x, v.x);
        let ty: i128 = fmul_wide(self.y, v.y);
        let tz: i128 = fmul_wide(self.z, v.z);
        (tx + ty + tz) as i64
    }

    /// Cross product with another vector.
    pub fn cross(&self, v: &Vector) -> (r: Vector)
        requires
            fits_v3(v3_cross(self@, v@)),
        ensures
            r@ == v3_cross(self@, v@),
    {
        let xa: i128 = fmul_wide(self.y, v.z);
        let xb: i128 = fmul_wide(self.z, v.y);
        let ya: i128 = fmul_wide(self.z, v.x);
        let yb: i128 = fmul_wide(self.x, v.z);
        let za: i128 = fmul_wide(self.x, v.y);
        let zb: i128 = fmul_wide(self.y, v.x);
        Vector { x: (xa - xb) as i64, y: (ya - yb) as i64, z: (za - zb) as i64 }
    }

    /// Length of this vector.
    pub fn magnitude(&self) -> (r: i64)
        requires
            fits(v3_dot(self@, self@)),
        ensures
            r as int == v3_magnitude(self@),
            r >= 0,
    {
        proof {
            lemma_dot_self_nonneg(self@);
        }
        let sq: i64 = self.dot(self);
        fix_sqrt(sq)
    }

    /// This vector rescaled to unit length. Callers must not normalize a
    /// vector of zero length (the operation is undefined there).
    pub fn normalize(&self) -> (r: Vector)
        requires
            fits(v3_dot(self@, self@)),
            v3_magnitude(self@) > 0,
            fits_v3(v3_normalize(self@)),
        ensures
            r@ == v3_normalize(self@),
    {
        let mag: i64 = self.magnitude();
        Vector {
            x: fix_div(self.x, mag),
            y: fix_div(self.y, mag),
            z: fix_div(self.z, mag),
        }
    }
}

impl Default for Vector {
    /// The zero vector.
    fn default() -> (v: Vector)
        ensures
            v@ == v3_zero(),
    {
        Vector { x: 0, y: 0, z: 0 }
    }
}

} // verus!
