//! Fixed-point scalars.
//!
//! Every quantity of the simulation (a coordinate, a speed, an angle, a span
//! of time) is an `i64` counting millionths of a unit. Results are rounded
//! toward zero and saturate at `LIMIT`, so no operation overflows or wraps.

use vstd::prelude::*;

verus! {

/// Raw units per world unit: the raw value of 1.0.
pub const SCALE: i64 = 1_000_000;

/// Largest magnitude that a raw value takes; results saturate here.
pub const LIMIT: i64 = 1_000_000_000_000;

/// Whether a raw value lies within the saturation bounds.
pub open spec fn in_range(a: int) -> bool {
    -LIMIT <= a <= LIMIT
}

/// The value nearest to `a` that lies within the saturation bounds.
pub open spec fn sat(a: int) -> int {
    if a < -LIMIT {
        -(LIMIT as int)
    } else if a > LIMIT {
        LIMIT as int
    } else {
        a
    }
}

/// The raw value that stands for `a`: `a` itself, or the nearer bound.
pub open spec fn clamp(a: int) -> i64 {
    sat(a) as i64
}

/// The quotient of `a` by `b`, rounded toward zero.
pub open spec fn div_trunc(a: int, b: int) -> int
    recommends
        b != 0,
{
    if b > 0 {
        if a >= 0 {
            a / b
        } else {
            -((-a) / b)
        }
    } else {
        if a >= 0 {
            -(a / (-b))
        } else {
            (-a) / (-b)
        }
    }
}

/// The fixed-point product of two raw values.
pub open spec fn product(a: int, b: int) -> int {
    sat(div_trunc(a * b, SCALE as int))
}

/// The quotient of `a` by a positive `b`, rounded away from zero: a quotient
/// that is not zero is not rounded to zero.
pub open spec fn div_away(a: int, b: int) -> int
    recommends
        b > 0,
{
    if a >= 0 {
        (a + b - 1) / b
    } else {
        -((-a + b - 1) / b)
    }
}

/// The fixed-point product of two raw values, rounded away from zero. It
/// has the sign of the exact product.
pub open spec fn product_away(a: int, b: int) -> int {
    sat(div_away(a * b, SCALE as int))
}

/// The fixed-point quotient of two raw values.
pub open spec fn quotient(a: int, b: int) -> int
    recommends
        b != 0,
{
    sat(div_trunc(a * SCALE, b))
}

/// Whether `r` is the largest natural number whose square does not exceed `n`.
pub open spec fn is_sqrt_floor(n: int, r: int) -> bool {
    0 <= r && r * r <= n < (r + 1) * (r + 1)
}

/// The square root of `n`, rounded down.
pub open spec fn sqrt_floor(n: int) -> int
    recommends
        n >= 0,
{
    choose|r: int| is_sqrt_floor(n, r)
}

/// The absolute value.
pub open spec fn magnitude(a: int) -> int {
    if a < 0 {
        -a
    } else {
        a
    }
}

/// The sign of a raw value as a fixed-point number: minus one, zero or one.
pub open spec fn sign(a: int) -> int {
    if a < 0 {
        -(SCALE as int)
    } else if a > 0 {
        SCALE as int
    } else {
        0
    }
}

/// A product is bounded by the product of the bounds of its factors.
pub proof fn lemma_mul_bounds(a: int, b: int, m: int, n: int)
    by (nonlinear_arith)
    requires
        -m <= a <= m,
        -n <= b <= n,
    ensures
        -(m * n) <= a * b <= m * n,
{
}

/// Among natural numbers the greater has the greater square.
pub proof fn lemma_square_monotonic(a: int, b: int)
    by (nonlinear_arith)
    requires
        0 <= a <= b,
    ensures
        a * a <= b * b,
{
}

/// At most one number is the rounded-down square root of `n`.
pub proof fn lemma_sqrt_floor_unique(n: int, r: int)
    requires
        is_sqrt_floor(n, r),
    ensures
        sqrt_floor(n) == r,
{
    let s = sqrt_floor(n);
    assert(is_sqrt_floor(n, s));
    if s < r {
        lemma_square_monotonic(s + 1, r);
    } else if r < s {
        lemma_square_monotonic(r + 1, s);
    }
}

/// Whether a raw value lies within the saturation bounds.
pub fn within(a: i64) -> (r: bool)
    ensures
        r == in_range(a as int),
{
    -LIMIT <= a && a <= LIMIT
}

/// Brings a wide value into the saturation bounds.
pub fn saturate(a: i128) -> (r: i64)
    ensures
        r == sat(a as int),
        r == clamp(a as int),
        in_range(r as int),
{
    if a > LIMIT as i128 {
        LIMIT
    } else if a < -(LIMIT as i128) {
        -LIMIT
    } else {
        a as i64
    }
}

/// Divides `a` by a non-zero `b`, rounding toward zero. Neither may be the
/// least number of its type, which has no opposite.
pub fn divide_trunc(a: i128, b: i128) -> (r: i128)
    requires
        b != 0,
        a > i128::MIN,
        b > i128::MIN,
    ensures
        r == div_trunc(a as int, b as int),
{
    if b > 0 {
        a / b
    } else {
        let na: i128 = -a;
        let nb: i128 = -b;
        na / nb
    }
}

/// Multiplies two fixed-point numbers.
pub fn mul_fixed(a: i64, b: i64) -> (r: i64)
    ensures
        r == product(a as int, b as int),
        in_range(r as int),
{
    proof {
        lemma_mul_bounds(a as int, b as int, 0x8000_0000_0000_0000, 0x8000_0000_0000_0000);
    }
    let wide: i128 = (a as i128) * (b as i128);
    saturate(wide / (SCALE as i128))
}

/// Multiplies two fixed-point numbers, rounding away from zero.
pub fn mul_away(a: i64, b: i64) -> (r: i64)
    ensures
        r == product_away(a as int, b as int),
        in_range(r as int),
{
    proof {
        lemma_mul_bounds(a as int, b as int, 0x8000_0000_0000_0000, 0x8000_0000_0000_0000);
    }
    let wide: i128 = (a as i128) * (b as i128);
    if wide >= 0 {
        saturate((wide + (SCALE as i128 - 1)) / (SCALE as i128))
    } else {
        saturate(-((-wide + (SCALE as i128 - 1)) / (SCALE as i128)))
    }
}

/// Divides one fixed-point number by another.
pub fn div_fixed(a: i64, b: i64) -> (r: i64)
    requires
        b != 0,
    ensures
        r == quotient(a as int, b as int),
        in_range(r as int),
{
    proof {
        lemma_mul_bounds(a as int, SCALE as int, 0x8000_0000_0000_0000, 1_000_000);
    }
    let wide: i128 = (a as i128) * (SCALE as i128);
    saturate(divide_trunc(wide, b as i128))
}

/// The square root of `n`, rounded down.
pub fn isqrt(n: u128) -> (r: u128)
    ensures
        r == sqrt_floor(n as int),
        is_sqrt_floor(n as int, r as int),
        r < 0x1_0000_0000_0000_0000,
{
    let mut lo: u128 = 0;
    let mut hi: u128 = 0x1_0000_0000_0000_0000;
    assert(n < hi * hi) by (nonlinear_arith)
        requires
            hi == 0x1_0000_0000_0000_0000,
            n <= u128::MAX,
    ;
    while hi - lo > 1
        invariant
            lo < hi <= 0x1_0000_0000_0000_0000,
            lo * lo <= n < hi * hi,
        decreases hi - lo,
    {
        let mid: u128 = lo + (hi - lo) / 2;
        proof {
            lemma_mul_bounds(
                mid as int,
                mid as int,
                0xffff_ffff_ffff_ffff,
                0xffff_ffff_ffff_ffff,
            );
        }
        if mid * mid <= n {
            lo = mid;
        } else {
            hi = mid;
        }
    }
    proof {
        lemma_sqrt_floor_unique(n as int, lo as int);
    }
    lo
}

} // verus!
