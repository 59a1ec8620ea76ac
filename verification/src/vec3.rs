//! Three-dimensional vectors of fixed-point numbers.

use vstd::prelude::*;
use crate::fixed::{
    clamp, div_trunc, divide_trunc, in_range, isqrt, lemma_mul_bounds, mul_away, product,
    product_away, quotient, sat, saturate, sqrt_floor, LIMIT, SCALE,
};

verus! {

/// The power of two by which a vector within range is scaled up before its
/// unit vector is taken.
pub const FINE: i64 = 8_388_608;

/// A point or a displacement in world space.
#[derive(Clone, Copy, Debug, PartialEq, Eq, Structural)]
pub struct Vec3 {
    pub x: i64,
    pub y: i64,
    pub z: i64,
}

impl Vec3 {
    /// Every component lies within the saturation bounds.
    pub open spec fn wf(self) -> bool {
        in_range(self.x as int) && in_range(self.y as int) && in_range(self.z as int)
    }

    /// The vector whose components are all zero.
    pub open spec fn origin() -> Vec3 {
        Vec3 { x: 0, y: 0, z: 0 }
    }

    /// The componentwise sum.
    pub open spec fn plus(self, other: Vec3) -> Vec3 {
        Vec3 {
            x: clamp(self.x + other.x),
            y: clamp(self.y + other.y),
            z: clamp(self.z + other.z),
        }
    }

    /// The componentwise difference.
    pub open spec fn minus(self, other: Vec3) -> Vec3 {
        Vec3 {
            x: clamp(self.x - other.x),
            y: clamp(self.y - other.y),
            z: clamp(self.z - other.z),
        }
    }

    /// Each component multiplied by the fixed-point number `k`.
    pub open spec fn scaled(self, k: int) -> Vec3 {
        Vec3 {
            x: product(self.x as int, k) as i64,
            y: product(self.y as int, k) as i64,
            z: product(self.z as int, k) as i64,
        }
    }

    /// Each component multiplied by the fixed-point number `k` and rounded
    /// away from zero: a component that moves at all moves by a raw unit at
    /// least.
    pub open spec fn scaled_away(self, k: int) -> Vec3 {
        Vec3 {
            x: product_away(self.x as int, k) as i64,
            y: product_away(self.y as int, k) as i64,
            z: product_away(self.z as int, k) as i64,
        }
    }

    /// Each component divided by the fixed-point number `k`.
    pub open spec fn divided(self, k: int) -> Vec3
        recommends
            k != 0,
    {
        Vec3 {
            x: quotient(self.x as int, k) as i64,
            y: quotient(self.y as int, k) as i64,
            z: quotient(self.z as int, k) as i64,
        }
    }

    /// The sum of the products of the components, before it is brought back
    /// to the fixed-point scale.
    pub open spec fn dot_wide(self, other: Vec3) -> int {
        self.x * other.x + self.y * other.y + self.z * other.z
    }

    /// The dot product as a fixed-point number.
    pub open spec fn dot_spec(self, other: Vec3) -> int {
        sat(div_trunc(self.dot_wide(other), SCALE as int))
    }

    /// The Euclidean length in raw units, rounded down and not saturated.
    pub open spec fn norm(self) -> int {
        sqrt_floor(self.dot_wide(self))
    }

    /// The Euclidean length as a fixed-point number.
    pub open spec fn length_spec(self) -> int {
        sat(self.norm())
    }

    /// The factor by which the components are scaled up before the unit
    /// vector is taken, so that a short vector loses no accuracy to the
    /// rounding of its length. A vector out of range is long enough as it is.
    pub open spec fn refinement(self) -> int {
        if self.wf() {
            FINE as int
        } else {
            1
        }
    }

    /// The Euclidean length of the vector scaled up by its refinement,
    /// rounded down.
    pub open spec fn fine_norm(self) -> int {
        sqrt_floor(self.refinement() * self.refinement() * self.dot_wide(self))
    }

    /// The vector of length one that points where `self` points: each
    /// component, scaled up, over the length of the scaled-up vector. The
    /// zero vector has no direction and is its own unit vector.
    pub open spec fn unit_spec(self) -> Vec3 {
        if self.fine_norm() == 0 {
            self
        } else {
            Vec3 {
                x: clamp(div_trunc(self.x * self.refinement() * SCALE, self.fine_norm())),
                y: clamp(div_trunc(self.y * self.refinement() * SCALE, self.fine_norm())),
                z: clamp(div_trunc(self.z * self.refinement() * SCALE, self.fine_norm())),
            }
        }
    }

    /// The part of `self` that lies along `axis`:
    /// `axis * (self . axis) / (axis . axis)`, rounded once.
    pub open spec fn projection(self, axis: Vec3) -> Vec3 {
        if axis.dot_wide(axis) == 0 {
            axis
        } else {
            Vec3 {
                x: clamp(div_trunc(axis.x * self.dot_wide(axis), axis.dot_wide(axis))),
                y: clamp(div_trunc(axis.y * self.dot_wide(axis), axis.dot_wide(axis))),
                z: clamp(div_trunc(axis.z * self.dot_wide(axis), axis.dot_wide(axis))),
            }
        }
    }

    pub fn new(x: i64, y: i64, z: i64) -> (r: Self)
        ensures
            r == (Vec3 { x, y, z }),
    {
        Self { x, y, z }
    }

    /// The zero vector.
    pub fn zero() -> (r: Self)
        ensures
            r == Vec3::origin(),
            r.wf(),
    {
        Self { x: 0, y: 0, z: 0 }
    }

    /// Whether every component lies within the saturation bounds.
    pub fn in_bounds(&self) -> (r: bool)
        ensures
            r == self.wf(),
    {
        -LIMIT <= self.x && self.x <= LIMIT && -LIMIT <= self.y && self.y <= LIMIT && -LIMIT
            <= self.z && self.z <= LIMIT
    }

    /// The sum of the products of the components of two vectors that are
    /// within range.
    fn wide_dot(&self, other: &Vec3) -> (r: i128)
        requires
            self.wf(),
            other.wf(),
        ensures
            r == self.dot_wide(*other),
            -3 * (LIMIT * LIMIT) <= r <= 3 * (LIMIT * LIMIT),
    {
        proof {
            lemma_mul_bounds(self.x as int, other.x as int, LIMIT as int, LIMIT as int);
            lemma_mul_bounds(self.y as int, other.y as int, LIMIT as int, LIMIT as int);
            lemma_mul_bounds(self.z as int, other.z as int, LIMIT as int, LIMIT as int);
            assert(LIMIT * LIMIT == 1_000_000_000_000_000_000_000_000) by (nonlinear_arith);
        }
        let xx: i128 = (self.x as i128) * (other.x as i128);
        let yy: i128 = (self.y as i128) * (other.y as i128);
        let zz: i128 = (self.z as i128) * (other.z as i128);
        xx + yy + zz
    }

    /// The Euclidean length of the vector scaled up by `factor`, rounded
    /// down and not saturated.
    fn scaled_norm(&self, factor: i128) -> (r: i128)
        requires
            factor == 1 || (factor == FINE && self.wf()),
        ensures
            r == sqrt_floor(factor * factor * self.dot_wide(*self)),
            0 <= r < 0x1_0000_0000_0000_0000,
            r == 0 <==> *self == Vec3::origin(),
            self.x * factor <= r && -(self.x * factor) <= r,
            self.y * factor <= r && -(self.y * factor) <= r,
            self.z * factor <= r && -(self.z * factor) <= r,
            -0x8000_0000_0000_0000 <= self.x * factor < 0x8000_0000_0000_0000,
            -0x8000_0000_0000_0000 <= self.y * factor < 0x8000_0000_0000_0000,
            -0x8000_0000_0000_0000 <= self.z * factor < 0x8000_0000_0000_0000,
            self.wf() && factor == 1 ==> r <= 2 * LIMIT,
    {
        proof {
            if factor == FINE {
                lemma_mul_bounds(self.x as int, factor as int, LIMIT as int, FINE as int);
                lemma_mul_bounds(self.y as int, factor as int, LIMIT as int, FINE as int);
                lemma_mul_bounds(self.z as int, factor as int, LIMIT as int, FINE as int);
                assert(LIMIT * FINE == 8_388_608_000_000_000_000) by (nonlinear_arith);
            }
        }
        let x: i128 = (self.x as i128) * factor;
        let y: i128 = (self.y as i128) * factor;
        let z: i128 = (self.z as i128) * factor;
        proof {
            lemma_square_bounds(x as int);
            lemma_square_bounds(y as int);
            lemma_square_bounds(z as int);
        }
        let xx: u128 = (x * x) as u128;
        let yy: u128 = (y * y) as u128;
        let zz: u128 = (z * z) as u128;
        let r: u128 = isqrt(xx + yy + zz);
        proof {
            let ri = r as int;
            let xi = x as int;
            let yi = y as int;
            let zi = z as int;
            let f = factor as int;
            assert(xi * xi + yi * yi + zi * zi == f * f * self.dot_wide(*self)) by (nonlinear_arith)
                requires
                    xi == self.x * f,
                    yi == self.y * f,
                    zi == self.z * f,
            ;
            assert(xi <= ri && -xi <= ri && yi <= ri && -yi <= ri && zi <= ri && -zi <= ri)
                by (nonlinear_arith)
                requires
                    0 <= ri,
                    xi * xi + yi * yi + zi * zi < (ri + 1) * (ri + 1),
            ;
            assert(ri == 0 <==> (xi == 0 && yi == 0 && zi == 0)) by (nonlinear_arith)
                requires
                    0 <= ri,
                    ri * ri <= xi * xi + yi * yi + zi * zi < (ri + 1) * (ri + 1),
            ;
            assert((xi == 0 <==> self.x == 0) && (yi == 0 <==> self.y == 0) && (zi == 0
                <==> self.z == 0)) by (nonlinear_arith)
                requires
                    xi == self.x * f,
                    yi == self.y * f,
                    zi == self.z * f,
                    f >= 1,
            ;
            if self.wf() && factor == 1 {
                lemma_mul_bounds(xi, xi, LIMIT as int, LIMIT as int);
                lemma_mul_bounds(yi, yi, LIMIT as int, LIMIT as int);
                lemma_mul_bounds(zi, zi, LIMIT as int, LIMIT as int);
                assert(ri <= 2 * LIMIT) by (nonlinear_arith)
                    requires
                        0 <= ri,
                        ri * ri <= 3 * (LIMIT * LIMIT),
                        LIMIT == 1_000_000_000_000,
                ;
            }
        }
        r as i128
    }

    /// The Euclidean length.
    pub fn length(&self) -> (r: i64)
        ensures
            r == self.length_spec(),
            0 <= r <= LIMIT,
            r == 0 <==> *self == Vec3::origin(),
    {
        proof {
            assert(1 * 1 * self.dot_wide(*self) == self.dot_wide(*self)) by (nonlinear_arith);
        }
        saturate(self.scaled_norm(1))
    }

    /// The vector of length one in the direction of `self`, or the zero
    /// vector where `self` is the zero vector.
    pub fn unit(&self) -> (r: Vec3)
        ensures
            r == self.unit_spec(),
            *self == Vec3::origin() ==> r == Vec3::origin(),
            -SCALE <= r.x <= SCALE,
            -SCALE <= r.y <= SCALE,
            -SCALE <= r.z <= SCALE,
            r.wf(),
    {
        let factor: i128 = if self.in_bounds() {
            FINE as i128
        } else {
            1
        };
        let n: i128 = self.scaled_norm(factor);
        if n == 0 {
            return *self;
        }
        proof {
            lemma_unit_component(self.x * factor, n as int);
            lemma_unit_component(self.y * factor, n as int);
            lemma_unit_component(self.z * factor, n as int);
        }
        Vec3 {
            x: saturate(divide_trunc((self.x as i128) * factor * (SCALE as i128), n)),
            y: saturate(divide_trunc((self.y as i128) * factor * (SCALE as i128), n)),
            z: saturate(divide_trunc((self.z as i128) * factor * (SCALE as i128), n)),
        }
    }

    /// The dot product.
    pub fn dot(&self, other: &Vec3) -> (r: i64)
        ensures
            r == self.dot_spec(*other),
            in_range(r as int),
    {
        proof {
            lemma_mul_bounds(
                self.x as int,
                other.x as int,
                0x8000_0000_0000_0000,
                0x8000_0000_0000_0000,
            );
            lemma_mul_bounds(
                self.y as int,
                other.y as int,
                0x8000_0000_0000_0000,
                0x8000_0000_0000_0000,
            );
            lemma_mul_bounds(
                self.z as int,
                other.z as int,
                0x8000_0000_0000_0000,
                0x8000_0000_0000_0000,
            );
        }
        let xx: i128 = (self.x as i128) * (other.x as i128);
        let yy: i128 = (self.y as i128) * (other.y as i128);
        let zz: i128 = (self.z as i128) * (other.z as i128);
        if xx > 0 && yy > i128::MAX - xx {
            // The first two products alone leave the range, and the third
            // cannot bring the sum back near it.
            return LIMIT;
        }
        let first_two: i128 = xx + yy;
        if zz > 0 && first_two > i128::MAX - zz {
            return LIMIT;
        }
        if zz < 0 && first_two < i128::MIN - zz {
            return -LIMIT;
        }
        saturate((first_two + zz) / (SCALE as i128))
    }

    /// The part of `self` that lies along `other`, or the zero vector where
    /// `other` is the zero vector.
    pub fn project_onto(&self, other: &Vec3) -> (r: Vec3)
        requires
            self.wf(),
            other.wf(),
        ensures
            r == self.projection(*other),
            *other == Vec3::origin() ==> r == Vec3::origin(),
            r.wf(),
    {
        let d: i128 = other.wide_dot(other);
        if d == 0 {
            proof {
                let xi = other.x as int;
                let yi = other.y as int;
                let zi = other.z as int;
                assert(xi == 0 && yi == 0 && zi == 0) by (nonlinear_arith)
                    requires
                        xi * xi + yi * yi + zi * zi == 0,
                ;
            }
            return *other;
        }
        let s: i128 = self.wide_dot(other);
        proof {
            assert(LIMIT * LIMIT == 1_000_000_000_000_000_000_000_000) by (nonlinear_arith);
            lemma_mul_bounds(
                other.x as int,
                s as int,
                LIMIT as int,
                3_000_000_000_000_000_000_000_000,
            );
            lemma_mul_bounds(
                other.y as int,
                s as int,
                LIMIT as int,
                3_000_000_000_000_000_000_000_000,
            );
            lemma_mul_bounds(
                other.z as int,
                s as int,
                LIMIT as int,
                3_000_000_000_000_000_000_000_000,
            );
            assert(LIMIT * 3_000_000_000_000_000_000_000_000
                == 3_000_000_000_000_000_000_000_000_000_000_000_000) by (nonlinear_arith);
            if *other == Vec3::origin() {
                assert(other.dot_wide(*other) == 0);
            }
        }
        Vec3 {
            x: saturate(divide_trunc((other.x as i128) * s, d)),
            y: saturate(divide_trunc((other.y as i128) * s, d)),
            z: saturate(divide_trunc((other.z as i128) * s, d)),
        }
    }

    /// Each component multiplied by a fixed-point number and rounded away
    /// from zero, saturating.
    pub fn scale_away(&self, scalar: i64) -> (r: Vec3)
        ensures
            r == self.scaled_away(scalar as int),
            r.wf(),
    {
        Vec3 {
            x: mul_away(self.x, scalar),
            y: mul_away(self.y, scalar),
            z: mul_away(self.z, scalar),
        }
    }

    /// The three components in order.
    pub fn to_vec(&self) -> (r: Vec<i64>)
        ensures
            r@ == seq![self.x, self.y, self.z],
    {
        let mut out: Vec<i64> = Vec::new();
        out.push(self.x);
        out.push(self.y);
        out.push(self.z);
        assert(out@ =~= seq![self.x, self.y, self.z]);
        out
    }
}

/// A component of a non-zero vector, scaled to length one, stays within one
/// unit and scaling it does not overflow.
proof fn lemma_unit_component(c: int, n: int)
    by (nonlinear_arith)
    requires
        0 < n,
        -n <= c <= n,
        -0x8000_0000_0000_0000 <= c < 0x8000_0000_0000_0000,
    ensures
        -(SCALE as int) <= div_trunc(c * SCALE, n) <= SCALE,
        -0x8000_0000_0000_0000 * 1_000_000 <= c * SCALE <= 0x8000_0000_0000_0000 * 1_000_000,
{
}

/// The square of a machine number is a natural number below the 126th power
/// of two, or that power itself.
proof fn lemma_square_bounds(c: int)
    by (nonlinear_arith)
    requires
        -0x8000_0000_0000_0000 <= c < 0x8000_0000_0000_0000,
    ensures
        0 <= c * c <= 0x4000_0000_0000_0000_0000_0000_0000_0000,
{
}

impl vstd::std_specs::ops::AddSpecImpl for Vec3 {
    open spec fn obeys_add_spec() -> bool {
        true
    }

    open spec fn add_req(self, other: Vec3) -> bool {
        true
    }

    open spec fn add_spec(self, other: Vec3) -> Vec3 {
        self.plus(other)
    }
}

impl core::ops::Add for Vec3 {
    type Output = Vec3;

    /// The componentwise sum, saturating.
    fn add(self, other: Vec3) -> (r: Vec3)
        ensures
            r.wf(),
    {
        Vec3 {
            x: saturate(self.x as i128 + other.x as i128),
            y: saturate(self.y as i128 + other.y as i128),
            z: saturate(self.z as i128 + other.z as i128),
        }
    }
}

impl core::ops::AddAssign for Vec3 {
    /// Adds `other` to `self`, saturating.
    fn add_assign(&mut self, other: Vec3)
        ensures
            *final(self) == old(self).plus(other),
    {
        *self = *self + other;
    }
}

impl core::ops::SubAssign for Vec3 {
    /// Takes `other` from `self`, saturating.
    fn sub_assign(&mut self, other: Vec3)
        ensures
            *final(self) == old(self).minus(other),
    {
        *self = *self - other;
    }
}

impl vstd::std_specs::ops::SubSpecImpl for Vec3 {
    open spec fn obeys_sub_spec() -> bool {
        true
    }

    open spec fn sub_req(self, other: Vec3) -> bool {
        true
    }

    open spec fn sub_spec(self, other: Vec3) -> Vec3 {
        self.minus(other)
    }
}

impl core::ops::Sub for Vec3 {
    type Output = Vec3;

    /// The componentwise difference, saturating.
    fn sub(self, other: Vec3) -> (r: Vec3)
        ensures
            r.wf(),
    {
        Vec3 {
            x: saturate(self.x as i128 - other.x as i128),
            y: saturate(self.y as i128 - other.y as i128),
            z: saturate(self.z as i128 - other.z as i128),
        }
    }
}

impl vstd::std_specs::ops::MulSpecImpl<i64> for Vec3 {
    open spec fn obeys_mul_spec() -> bool {
        true
    }

    open spec fn mul_req(self, scalar: i64) -> bool {
        true
    }

    open spec fn mul_spec(self, scalar: i64) -> Vec3 {
        self.scaled(scalar as int)
    }
}

impl core::ops::Mul<i64> for Vec3 {
    type Output = Vec3;

    /// Each component multiplied by a fixed-point number, saturating.
    fn mul(self, scalar: i64) -> (r: Vec3)
        ensures
            r.wf(),
    {
        Vec3 {
            x: crate::fixed::mul_fixed(self.x, scalar),
            y: crate::fixed::mul_fixed(self.y, scalar),
            z: crate::fixed::mul_fixed(self.z, scalar),
        }
    }
}

impl vstd::std_specs::ops::DivSpecImpl<i64> for Vec3 {
    open spec fn obeys_div_spec() -> bool {
        true
    }

    open spec fn div_req(self, scalar: i64) -> bool {
        scalar != 0
    }

    open spec fn div_spec(self, scalar: i64) -> Vec3 {
        self.divided(scalar as int)
    }
}

impl core::ops::Div<i64> for Vec3 {
    type Output = Vec3;

    /// Each component divided by a non-zero fixed-point number, saturating.
    fn div(self, scalar: i64) -> (r: Vec3)
        ensures
            r.wf(),
    {
        Vec3 {
            x: crate::fixed::div_fixed(self.x, scalar),
            y: crate::fixed::div_fixed(self.y, scalar),
            z: crate::fixed::div_fixed(self.z, scalar),
        }
    }
}

} // verus!
