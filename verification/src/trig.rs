//! Sine and cosine of fixed-point angles.
//!
//! Angles are in radians. A quarter turn is taken as 1.570796, and a full
//! turn as four of these, so that the symmetries of the circle hold exactly.
//! Within a quarter turn the sine is its Taylor polynomial of degree nine,
//! evaluated in fixed point and capped at one.

use vstd::prelude::*;
use crate::fixed::{lemma_mul_bounds, mul_fixed, product, LIMIT, SCALE};

verus! {

/// A quarter turn: the right angle.
pub const QUARTER_TURN: i64 = 1_570_796;

/// A half turn.
pub const HALF_TURN: i64 = 3_141_592;

/// A full turn.
pub const FULL_TURN: i64 = 6_283_184;

/// The sine of an angle between zero and a quarter turn.
pub open spec fn quarter_sine(t: int) -> int {
    let sq = product(t, t);
    let h4 = SCALE - sq / 72;
    let h3 = SCALE - product(sq, h4) / 42;
    let h2 = SCALE - product(sq, h3) / 20;
    let h1 = SCALE - product(sq, h2) / 6;
    let s = product(t, h1);
    if s > SCALE {
        SCALE as int
    } else {
        s
    }
}

/// The sine of any angle: the angle is brought into one full turn, and the
/// quarter in which it falls gives the sign and the direction in which the
/// quarter wave is read.
pub open spec fn sine(a: int) -> int {
    let r = a % (FULL_TURN as int);
    let t = r % (QUARTER_TURN as int);
    if r < QUARTER_TURN {
        quarter_sine(t)
    } else if r < HALF_TURN {
        quarter_sine(QUARTER_TURN - t)
    } else if r < HALF_TURN + QUARTER_TURN {
        -quarter_sine(t)
    } else {
        -quarter_sine(QUARTER_TURN - t)
    }
}

/// The cosine of any angle: the sine of the angle a quarter turn further.
pub open spec fn cosine(a: int) -> int {
    sine(a + QUARTER_TURN)
}

/// The product of a non-negative number with a factor of at most one is
/// non-negative and no greater than the number.
pub proof fn lemma_product_shrinks(a: int, b: int)
    by (nonlinear_arith)
    requires
        0 <= a <= LIMIT,
        0 <= b <= SCALE,
    ensures
        0 <= product(a, b) <= a,
{
}

/// The quarter wave lies between zero and one.
pub proof fn lemma_quarter_sine_bounds(t: int)
    requires
        0 <= t <= QUARTER_TURN,
    ensures
        0 <= quarter_sine(t) <= SCALE,
{
    lemma_mul_bounds(t, t, QUARTER_TURN as int, QUARTER_TURN as int);
    let sq = product(t, t);
    assert(t * t >= 0) by (nonlinear_arith);
    assert(0 <= sq <= 2_467_400);
    let h4 = SCALE - sq / 72;
    lemma_product_shrinks(sq, h4);
    let h3 = SCALE - product(sq, h4) / 42;
    lemma_product_shrinks(sq, h3);
    let h2 = SCALE - product(sq, h3) / 20;
    lemma_product_shrinks(sq, h2);
    let h1 = SCALE - product(sq, h2) / 6;
    lemma_product_shrinks(t, h1);
}

/// The sine of every angle lies between minus one and one.
pub proof fn lemma_sine_bounds(a: int)
    ensures
        -SCALE <= sine(a) <= SCALE,
        -SCALE <= cosine(a) <= SCALE,
{
    let r = a % (FULL_TURN as int);
    let t = r % (QUARTER_TURN as int);
    lemma_quarter_sine_bounds(t);
    lemma_quarter_sine_bounds(QUARTER_TURN - t);
    let r2 = (a + QUARTER_TURN) % (FULL_TURN as int);
    let t2 = r2 % (QUARTER_TURN as int);
    lemma_quarter_sine_bounds(t2);
    lemma_quarter_sine_bounds(QUARTER_TURN - t2);
}

/// The sine of the zero angle is zero and its cosine is one; the sine of a
/// right angle is one and its cosine is zero.
pub proof fn lemma_cardinal_angles()
    ensures
        sine(0) == 0,
        cosine(0) == SCALE,
        sine(QUARTER_TURN as int) == SCALE,
        cosine(QUARTER_TURN as int) == 0,
        sine(HALF_TURN as int) == 0,
        cosine(HALF_TURN as int) == -SCALE,
{
    assert(quarter_sine(0) == 0) by (nonlinear_arith);
    assert(quarter_sine(QUARTER_TURN as int) == SCALE) by {
        let t = QUARTER_TURN as int;
        assert(t * t == 2_467_400_073_616) by (nonlinear_arith)
            requires
                t == 1_570_796,
        ;
        let sq = product(t, t);
        assert(sq == 2_467_400);
        let h4 = SCALE - sq / 72;
        assert(h4 == 965_731);
        assert(sq * h4 == 2_382_844_669_400) by (nonlinear_arith)
            requires
                sq == 2_467_400,
                h4 == 965_731,
        ;
        let h3 = SCALE - product(sq, h4) / 42;
        assert(h3 == 943_266);
        assert(sq * h3 == 2_327_414_528_400) by (nonlinear_arith)
            requires
                sq == 2_467_400,
                h3 == 943_266,
        ;
        let h2 = SCALE - product(sq, h3) / 20;
        assert(h2 == 883_630);
        assert(sq * h2 == 2_180_268_662_000) by (nonlinear_arith)
            requires
                sq == 2_467_400,
                h2 == 883_630,
        ;
        let h1 = SCALE - product(sq, h2) / 6;
        assert(h1 == 636_622);
        assert(t * h1 == 1_000_003_291_112) by (nonlinear_arith)
            requires
                t == 1_570_796,
                h1 == 636_622,
        ;
    }
}

/// The sine is odd: the sine of the opposite angle is the opposite sine.
pub proof fn lemma_sine_of_opposite(a: int)
    ensures
        sine(-a) == -sine(a),
{
    let full = FULL_TURN as int;
    let quarter = QUARTER_TURN as int;
    let r = a % full;
    let n = (-a) % full;
    if r == 0 {
        assert(n == 0);
        assert(quarter_sine(0) == 0) by (nonlinear_arith);
    } else {
        assert(n == full - r);
        let t = r % quarter;
        let u = n % quarter;
        if t == 0 {
            assert(u == 0);
            assert(quarter_sine(0) == 0) by (nonlinear_arith);
        } else {
            assert(u == quarter - t);
        }
    }
}

/// The angle brought into one full turn, counted from zero.
fn wrap_turn(a: i128) -> (r: i64)
    requires
        -0x1_0000_0000_0000_0000 <= a <= 0x1_0000_0000_0000_0000,
    ensures
        r == (a as int) % (FULL_TURN as int),
        0 <= r < FULL_TURN,
{
    let m: i128 = a % (FULL_TURN as i128);
    if m < 0 {
        (m + FULL_TURN as i128) as i64
    } else {
        m as i64
    }
}

/// The sine of an angle between zero and a quarter turn.
fn quarter_wave(t: i64) -> (r: i64)
    requires
        0 <= t <= QUARTER_TURN,
    ensures
        r == quarter_sine(t as int),
        0 <= r <= SCALE,
{
    proof {
        lemma_quarter_sine_bounds(t as int);
        lemma_mul_bounds(t as int, t as int, QUARTER_TURN as int, QUARTER_TURN as int);
        assert(t * t >= 0) by (nonlinear_arith);
    }
    let sq: i64 = mul_fixed(t, t);
    let h4: i64 = SCALE - sq / 72;
    proof {
        lemma_product_shrinks(sq as int, h4 as int);
    }
    let h3: i64 = SCALE - mul_fixed(sq, h4) / 42;
    proof {
        lemma_product_shrinks(sq as int, h3 as int);
    }
    let h2: i64 = SCALE - mul_fixed(sq, h3) / 20;
    proof {
        lemma_product_shrinks(sq as int, h2 as int);
    }
    let h1: i64 = SCALE - mul_fixed(sq, h2) / 6;
    let s: i64 = mul_fixed(t, h1);
    if s > SCALE {
        SCALE
    } else {
        s
    }
}

/// The sine of an angle that has been brought into one full turn.
fn wave(r: i64) -> (s: i64)
    requires
        0 <= r < FULL_TURN,
    ensures
        r == (r as int) % (FULL_TURN as int),
        s == sine(r as int),
        -SCALE <= s <= SCALE,
{
    let t: i64 = r % QUARTER_TURN;
    if r < QUARTER_TURN {
        quarter_wave(t)
    } else if r < HALF_TURN {
        quarter_wave(QUARTER_TURN - t)
    } else if r < HALF_TURN + QUARTER_TURN {
        -quarter_wave(t)
    } else {
        -quarter_wave(QUARTER_TURN - t)
    }
}

/// The sine of an angle in radians.
pub fn sin_fixed(a: i64) -> (r: i64)
    ensures
        r == sine(a as int),
        -SCALE <= r <= SCALE,
{
    let w: i64 = wrap_turn(a as i128);
    proof {
        assert(sine(a as int) == sine(w as int));
    }
    wave(w)
}

/// The cosine of an angle in radians.
pub fn cos_fixed(a: i64) -> (r: i64)
    ensures
        r == cosine(a as int),
        -SCALE <= r <= SCALE,
{
    let w: i64 = wrap_turn(a as i128 + QUARTER_TURN as i128);
    proof {
        assert(sine(a as int + QUARTER_TURN) == sine(w as int));
    }
    wave(w)
}

} // verus!
