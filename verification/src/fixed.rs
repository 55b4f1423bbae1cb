//! Fixed-point scalar arithmetic.
//!
//! Every scalar of the renderer is an `i64` counting `1/SCALE` units, so a
//! value of `SCALE` stands for one unit. Products and quotients are rescaled
//! with truncating (round-toward-zero) division, the rounding that Rust's
//! integer division performs.

use vstd::prelude::*;

verus! {

/// Number of fractional steps in one unit; `SCALE` itself stands for 1.0.
pub const SCALE: i64 = 65536;

/// Truncating (round-toward-zero) division of `x` by `d`.
pub open spec fn tdiv(x: int, d: int) -> int
    recommends
        d != 0,
{
    if x == 0 {
        0
    } else if x > 0 && d > 0 {
        x / d
    } else if x < 0 && d < 0 {
        (x * -1) / (d * -1)
    } else if x < 0 {
        ((x * -1) / d) * -1
    } else {
        (x / (d * -1)) * -1
    }
}

/// Fixed-point product: the integer product, rescaled back by `SCALE`.
pub open spec fn fmul(a: int, b: int) -> int {
    tdiv(a * b, SCALE as int)
}

/// Fixed-point quotient of `a` by `b`.
pub open spec fn fdiv(a: int, b: int) -> int
    recommends
        b != 0,
{
    tdiv(a * SCALE, b)
}

/// Whether a mathematical value is representable as an `i64` scalar.
pub open spec fn fits(x: int) -> bool {
    i64::MIN <= x <= i64::MAX
}

/// For a nonnegative numerator, truncating division is Euclidean division.
pub proof fn lemma_tdiv_nonneg(x: int, d: int)
    requires
        x >= 0,
        d >= 1,
    ensures
        tdiv(x, d) == x / d,
        tdiv(x, d) >= 0,
{
    if x == 0 {
        assert(0int / d == 0) by (nonlinear_arith)
            requires
                d >= 1,
        ;
    } else {
        vstd::arithmetic::div_mod::lemma_div_pos_is_pos(x, d);
    }
}

/// Truncating division commutes with negation of the numerator.
pub proof fn lemma_tdiv_neg(x: int, d: int)
    requires
        d >= 1,
    ensures
        tdiv(-x, d) == -tdiv(x, d),
{
}

/// A bound on the numerator bounds the truncated quotient.
pub proof fn lemma_tdiv_bound(x: int, m: int, d: int)
    requires
        d >= 1,
        -m <= x <= m,
    ensures
        -(m / d) <= tdiv(x, d) <= m / d,
        0 <= m / d <= m,
{
    vstd::arithmetic::div_mod::lemma_div_pos_is_pos(m, d);
    vstd::arithmetic::div_mod::lemma_div_is_ordered(0, m, d);
    vstd::arithmetic::div_mod::lemma_div_nonincreasing(m, d);
    if x >= 0 {
        lemma_tdiv_nonneg(x, d);
        vstd::arithmetic::div_mod::lemma_div_is_ordered(x, m, d);
    } else {
        lemma_tdiv_nonneg(-x, d);
        lemma_tdiv_neg(-x, d);
        vstd::arithmetic::div_mod::lemma_div_is_ordered(-x, m, d);
    }
}

/// Scaling a value by one unit gives the value back exactly.
pub proof fn lemma_fmul_unit(a: int)
    ensures
        fmul(a, SCALE as int) == a,
        fmul(SCALE as int, a) == a,
{
    if a >= 0 {
        lemma_tdiv_nonneg(a * (SCALE as int), SCALE as int);
        vstd::arithmetic::div_mod::lemma_div_multiples_vanish(a, SCALE as int);
        assert(a * (SCALE as int) == (SCALE as int) * a) by (nonlinear_arith);
    } else {
        lemma_tdiv_neg(-(a * (SCALE as int)), SCALE as int);
        assert(-(a * (SCALE as int)) == (-a) * (SCALE as int)) by (nonlinear_arith);
        lemma_tdiv_nonneg((-a) * (SCALE as int), SCALE as int);
        vstd::arithmetic::div_mod::lemma_div_multiples_vanish(-a, SCALE as int);
    }
    assert(a * (SCALE as int) == (SCALE as int) * a) by (nonlinear_arith);
}

/// Negating one factor negates the fixed-point product.
pub proof fn lemma_fmul_neg(a: int, b: int)
    ensures
        fmul(a, -b) == -fmul(a, b),
{
    assert(a * (-b) == -(a * b)) by (nonlinear_arith);
    lemma_tdiv_neg(a * b, SCALE as int);
}

/// Bounds on both factors bound the fixed-point product.
pub proof fn lemma_fmul_bound(a: int, b: int, ma: int, mb: int)
    requires
        -ma <= a <= ma,
        -mb <= b <= mb,
    ensures
        -((ma * mb) / (SCALE as int)) <= fmul(a, b) <= (ma * mb) / (SCALE as int),
        0 <= (ma * mb) / (SCALE as int) <= ma * mb,
{
    assert(-(ma * mb) <= a * b <= ma * mb && ma * mb >= 0) by (nonlinear_arith)
        requires
            -ma <= a <= ma,
            -mb <= b <= mb,
    ;
    lemma_tdiv_bound(a * b, ma * mb, SCALE as int);
}

/// A square is nonnegative, also after rescaling.
pub proof fn lemma_fmul_sq_nonneg(a: int)
    ensures
        fmul(a, a) >= 0,
{
    assert(a * a >= 0) by (nonlinear_arith);
    lemma_tdiv_nonneg(a * a, SCALE as int);
}

/// The product of two factors in `[0, 1]` stays in `[0, 1]` and below each factor.
pub proof fn lemma_fmul_unit_interval(a: int, b: int)
    requires
        0 <= a <= SCALE as int,
        0 <= b <= SCALE as int,
    ensures
        0 <= fmul(a, b) <= SCALE as int,
        fmul(a, b) <= a,
        fmul(a, b) <= b,
{
    assert(0 <= a * b <= a * (SCALE as int) && a * b <= b * (SCALE as int) && a * b <= (SCALE as int)
        * (SCALE as int)) by (nonlinear_arith)
        requires
            0 <= a <= SCALE as int,
            0 <= b <= SCALE as int,
    ;
    lemma_tdiv_nonneg(a * b, SCALE as int);
    vstd::arithmetic::div_mod::lemma_div_is_ordered(a * b, a * (SCALE as int), SCALE as int);
    vstd::arithmetic::div_mod::lemma_div_is_ordered(a * b, b * (SCALE as int), SCALE as int);
    vstd::arithmetic::div_mod::lemma_div_multiples_vanish(a, SCALE as int);
    vstd::arithmetic::div_mod::lemma_div_multiples_vanish(b, SCALE as int);
}

/// Negating the divisor negates the truncated quotient.
pub proof fn lemma_tdiv_neg_divisor(x: int, d: int)
    requires
        d >= 1,
    ensures
        tdiv(x, -d) == -tdiv(x, d),
{
}

/// The floor of the square root of a natural number.
pub open spec fn sqrt_floor(n: nat) -> nat
    decreases n,
{
    if n == 0 {
        0
    } else {
        let p = sqrt_floor((n - 1) as nat);
        if (p + 1) * (p + 1) <= n {
            p + 1
        } else {
            p
        }
    }
}

/// `sqrt_floor(n)` is the largest natural number whose square is at most `n`.
pub proof fn lemma_sqrt_floor_bounds(n: nat)
    ensures
        sqrt_floor(n) * sqrt_floor(n) <= n,
        n < (sqrt_floor(n) + 1) * (sqrt_floor(n) + 1),
    decreases n,
{
    if n == 0 {
        let s = sqrt_floor(n);
        assert(s == 0);
        assert((s + 1) * (s + 1) == 1) by (nonlinear_arith)
            requires
                s == 0,
        ;
    } else {
        lemma_sqrt_floor_bounds((n - 1) as nat);
        let p = sqrt_floor((n - 1) as nat);
        assert(p * p <= n - 1 && n - 1 < (p + 1) * (p + 1));
        if (p + 1) * (p + 1) <= n {
            assert(sqrt_floor(n) == p + 1);
            assert(n <= (p + 1) * (p + 1));
            assert((p + 1) * (p + 1) < (p + 2) * (p + 2)) by (nonlinear_arith);
            assert(sqrt_floor(n) + 1 == p + 2);
            assert((sqrt_floor(n) + 1) * (sqrt_floor(n) + 1) == (p + 2) * (p + 2));
            assert(n < (sqrt_floor(n) + 1) * (sqrt_floor(n) + 1));
        } else {
            assert(sqrt_floor(n) == p);
            assert(n < (sqrt_floor(n) + 1) * (sqrt_floor(n) + 1));
        }
    }
}

/// Any value with the floor-square-root bounds is `sqrt_floor`.
pub proof fn lemma_sqrt_floor_unique(n: nat, r: nat)
    requires
        r * r <= n,
        n < (r + 1) * (r + 1),
    ensures
        r == sqrt_floor(n),
{
    lemma_sqrt_floor_bounds(n);
    let s = sqrt_floor(n);
    assert(r == s) by (nonlinear_arith)
        requires
            r * r <= n < (r + 1) * (r + 1),
            s * s <= n < (s + 1) * (s + 1),
    ;
}

/// Floor square root of an unsigned 128-bit value, by bisection.
pub fn isqrt_u128(n: u128) -> (r: u128)
    ensures
        r == sqrt_floor(n as nat),
{
    let mut lo: u128 = 0;
    let mut hi: u128 = 0xFFFF_FFFF_FFFF_FFFF;
    proof {
        assert((hi + 1) * (hi + 1) > n) by (nonlinear_arith)
            requires
                hi == 0xFFFF_FFFF_FFFF_FFFFu128,
                n <= u128::MAX,
        ;
    }
    while lo < hi
        invariant
            lo <= hi,
            hi <= 0xFFFF_FFFF_FFFF_FFFF,
            lo * lo <= n,
            ((hi + 1) * (hi + 1)) > n,
        decreases hi - lo,
    {
        let mid: u128 = lo + (hi - lo + 1) / 2;
        proof {
            assert(mid * mid <= 0xFFFF_FFFF_FFFF_FFFFu128 * 0xFFFF_FFFF_FFFF_FFFFu128)
                by (nonlinear_arith)
                requires
                    mid <= 0xFFFF_FFFF_FFFF_FFFFu128,
            ;
        }
        if mid * mid <= n {
            lo = mid;
        } else {
            hi = mid - 1;
        }
    }
    proof {
        lemma_sqrt_floor_unique(n as nat, lo as nat);
    }
    lo
}

/// Floor square root of a nonnegative fixed-point scalar, as a fixed-point scalar.
pub open spec fn fsqrt(x: int) -> int
    recommends
        x >= 0,
{
    sqrt_floor((x * SCALE) as nat) as int
}

/// Fixed-point square root of a nonnegative scalar.
pub fn fix_sqrt(x: i64) -> (r: i64)
    requires
        x >= 0,
    ensures
        r as int == fsqrt(x as int),
        r >= 0,
{
    let n: u128 = (x as u128) * (SCALE as u128);
    let r: u128 = isqrt_u128(n);
    proof {
        lemma_sqrt_floor_bounds(n as nat);
        vstd::arithmetic::mul::lemma_mul_inequality(x as int, i64::MAX as int, SCALE as int);
        assert(sqrt_floor(n as nat) < 0x100_0000_0000) by (nonlinear_arith)
            requires
                sqrt_floor(n as nat) * sqrt_floor(n as nat) <= n as nat,
                n as nat <= (i64::MAX as int) * (SCALE as int),
        ;
    }
    r as i64
}

/// Fixed-point multiplication of two scalars, kept wide: the result always
/// fits an `i128`, so no precondition is needed.
pub fn fmul_wide(a: i64, b: i64) -> (r: i128)
    ensures
        r as int == fmul(a as int, b as int),
        -0x4000_0000_0000_0000_0000_0000_0000 <= r <= 0x4000_0000_0000_0000_0000_0000_0000,
{
    proof {
        let m: int = (i64::MAX as int + 1) * (i64::MAX as int + 1);
        assert(-m <= (a as int) * (b as int) <= m) by (nonlinear_arith)
            requires
                i64::MIN <= a <= i64::MAX,
                i64::MIN <= b <= i64::MAX,
                m == (i64::MAX as int + 1) * (i64::MAX as int + 1),
        ;
        lemma_tdiv_bound((a as int) * (b as int), m, SCALE as int);
    }
    let p: i128 = (a as i128) * (b as i128);
    p.checked_div(SCALE as i128).unwrap()
}

/// Fixed-point multiplication of two scalars.
pub fn fix_mul(a: i64, b: i64) -> (r: i64)
    requires
        fits(fmul(a as int, b as int)),
    ensures
        r as int == fmul(a as int, b as int),
{
    let q: i128 = fmul_wide(a, b);
    q as i64
}

/// A bound on the dividend bounds the fixed-point quotient, for any nonzero
/// divisor.
pub proof fn lemma_fdiv_bound(a: int, b: int, m: int)
    requires
        b != 0,
        -m <= a <= m,
    ensures
        -(m * (SCALE as int)) <= fdiv(a, b) <= m * (SCALE as int),
{
    vstd::arithmetic::mul::lemma_mul_inequality(a, m, SCALE as int);
    vstd::arithmetic::mul::lemma_mul_inequality(-m, a, SCALE as int);
    if b > 0 {
        lemma_tdiv_bound(a * (SCALE as int), m * (SCALE as int), b);
    } else {
        lemma_tdiv_bound(a * (SCALE as int), m * (SCALE as int), -b);
        lemma_tdiv_neg_divisor(a * (SCALE as int), -b);
    }
}

/// Fixed-point division kept wide: for any `i64` dividend and nonzero divisor
/// the result fits an `i128`.
pub fn fdiv_wide(a: i64, b: i64) -> (r: i128)
    requires
        b != 0,
    ensures
        r as int == fdiv(a as int, b as int),
{
    let p: i128 = (a as i128) * 65536i128;
    proof {
        let m: int = 0x8_0000_0000_0000_0000_0000;
        if b > 0 {
            lemma_tdiv_bound(p as int, m, b as int);
        } else {
            lemma_tdiv_bound(p as int, m, -(b as int));
            lemma_tdiv_neg_divisor(p as int, -(b as int));
        }
    }
    p.checked_div(b as i128).unwrap()
}

/// Fixed-point square root of a wide nonnegative scalar; the argument must
/// stay below `2^94` so that the root fits an `i64`.
pub fn fix_sqrt_wide(x: i128) -> (r: i64)
    requires
        0 <= x <= 0x4000_0000_0000_0000_0000_0000,
    ensures
        r as int == fsqrt(x as int),
        0 <= r <= 0x80_0000_0000_0000,
{
    let n: u128 = (x as u128) * 65536u128;
    let r: u128 = isqrt_u128(n);
    proof {
        lemma_sqrt_floor_bounds(n as nat);
        let rr = sqrt_floor(n as nat);
        let bb: int = 0x80_0000_0000_0000;
        if rr > bb {
            assert(rr * rr > bb * bb) by (nonlinear_arith)
                requires
                    rr > bb,
                    bb > 0,
            ;
        }
    }
    r as i64
}

/// Fixed-point division of `a` by a nonzero scalar `b`.
pub fn fix_div(a: i64, b: i64) -> (r: i64)
    requires
        b != 0,
        fits(fdiv(a as int, b as int)),
    ensures
        r as int == fdiv(a as int, b as int),
{
    let p: i128 = (a as i128) * (SCALE as i128);
    proof {
        let m: int = 0x8_0000_0000_0000_0000_0000;
        if b > 0 {
            lemma_tdiv_bound(p as int, m, b as int);
        } else {
            lemma_tdiv_bound(p as int, m, -(b as int));
            lemma_tdiv_neg_divisor(p as int, -(b as int));
        }
    }
    let q: i128 = p.checked_div(b as i128).unwrap();
    q as i64
}

} // verus!
