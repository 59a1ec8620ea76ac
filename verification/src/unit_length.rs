//! How close to one the length of a unit vector is.

use vstd::prelude::*;
use crate::fixed::{
    div_trunc, is_sqrt_floor, lemma_square_monotonic, magnitude, product, sqrt_floor, LIMIT,
    SCALE,
};
use crate::vec3::{Vec3, FINE};

verus! {

/// Every natural number has a rounded-down square root.
pub proof fn lemma_sqrt_floor_exists(n: int)
    requires
        n >= 0,
    ensures
        is_sqrt_floor(n, sqrt_floor(n)),
    decreases n,
{
    if n == 0 {
        assert(is_sqrt_floor(0, 0));
    } else {
        lemma_sqrt_floor_exists(n - 1);
        let r = sqrt_floor(n - 1);
        if (r + 1) * (r + 1) <= n {
            assert(is_sqrt_floor(n, r + 1)) by (nonlinear_arith)
                requires
                    0 <= r,
                    r * r <= n - 1 < (r + 1) * (r + 1),
                    (r + 1) * (r + 1) <= n,
            ;
        } else {
            assert(is_sqrt_floor(n, r));
        }
    }
}

/// The rounded-down square root lies on the side of `m` on which `n` lies
/// of the square of `m`.
pub proof fn lemma_sqrt_floor_between(n: int, m: int)
    requires
        n >= 0,
        m >= 0,
    ensures
        m * m <= n ==> m <= sqrt_floor(n),
        n < m * m ==> sqrt_floor(n) < m,
{
    lemma_sqrt_floor_exists(n);
    let r = sqrt_floor(n);
    if m * m <= n && r < m {
        lemma_square_monotonic(r + 1, m);
    }
    if n < m * m && m <= r {
        lemma_square_monotonic(m, r);
    }
}

/// The magnitude of a quotient rounded toward zero is the rounded-down
/// quotient of the magnitudes.
pub proof fn lemma_magnitude_of_quotient(a: int, n: int)
    requires
        n > 0,
    ensures
        magnitude(div_trunc(a, n)) == magnitude(a) / n,
        magnitude(a) / n >= 0,
        (magnitude(a) / n) * n <= magnitude(a) < (magnitude(a) / n) * n + n,
{
    let m = magnitude(a);
    vstd::arithmetic::div_mod::lemma_fundamental_div_mod(m, n);
    vstd::arithmetic::div_mod::lemma_mod_bound(m, n);
    vstd::arithmetic::div_mod::lemma_div_pos_is_pos(m, n);
    assert(n * (m / n) == (m / n) * n) by (nonlinear_arith);
}

/// A square is the square of the magnitude.
pub proof fn lemma_square_of_magnitude(a: int)
    by (nonlinear_arith)
    ensures
        magnitude(a) * magnitude(a) == a * a,
        magnitude(a) >= 0,
{
}

/// The square of a scaled-down component, taken times the square of the
/// divisor, does not exceed the square of the scaled-up component.
proof fn lemma_scaled_square_upper(w: int, n: int, a: int, s: int)
    by (nonlinear_arith)
    requires
        0 <= w,
        0 < n,
        0 <= a,
        0 < s,
        w * n <= a * s,
    ensures
        (w * w) * (n * n) <= (s * s) * (a * a),
{
    assert((w * n) * (w * n) <= (a * s) * (a * s));
    assert((w * n) * (w * n) == (w * w) * (n * n));
    assert((a * s) * (a * s) == (s * s) * (a * a));
}

/// The square of a scaled-down component, taken times the square of the
/// divisor, falls short of the square of the scaled-up component by at most
/// twice the scale, the component and one less than the divisor.
proof fn lemma_scaled_square_lower(w: int, n: int, a: int, s: int)
    by (nonlinear_arith)
    requires
        0 <= w,
        0 < n,
        0 <= a,
        0 < s,
        w * n <= a * s < w * n + n,
    ensures
        (w * w) * (n * n) >= (s * s) * (a * a) - 2 * s * (n - 1) * a,
{
    let e = a * s - w * n;
    assert(0 <= e <= n - 1);
    assert((w * n) * (w * n) == (a * s) * (a * s) - 2 * (a * s) * e + e * e);
    assert(e * e >= 0);
    assert((a * s) * e <= (a * s) * (n - 1));
    assert((w * n) * (w * n) == (w * w) * (n * n));
    assert((a * s) * (a * s) == (s * s) * (a * a));
    assert(2 * (a * s) * (n - 1) == 2 * s * (n - 1) * a);
}

/// The sum of three non-negative numbers is at most seven quarters of one
/// more than the rounded-down root of the sum of their squares.
proof fn lemma_sum_against_norm(a: int, b: int, c: int, n: int)
    by (nonlinear_arith)
    requires
        0 <= a,
        0 <= b,
        0 <= c,
        0 <= n,
        a * a + b * b + c * c < (n + 1) * (n + 1),
    ensures
        4 * (a + b + c) <= 7 * (n + 1),
{
    let t = a + b + c;
    assert(t * t <= 3 * (a * a + b * b + c * c)) by {
        assert((a - b) * (a - b) >= 0);
        assert((b - c) * (b - c) >= 0);
        assert((a - c) * (a - c) >= 0);
        assert(3 * (a * a + b * b + c * c) - t * t == (a - b) * (a - b) + (b - c) * (b - c) + (a
            - c) * (a - c));
    }
    assert((4 * t) * (4 * t) == 16 * (t * t));
    assert((7 * (n + 1)) * (7 * (n + 1)) == 49 * ((n + 1) * (n + 1)));
    if 4 * t > 7 * (n + 1) {
        assert((4 * t) * (4 * t) >= (7 * (n + 1)) * (7 * (n + 1)));
    }
}

/// The arithmetic of the lower bound: what the rounding takes away leaves
/// at least the square of the scale less two.
proof fn lemma_lower_bound_arith(q: int, n: int, t: int, s: int, wn: int)
    by (nonlinear_arith)
    requires
        s >= 8,
        n >= 1,
        t >= 0,
        n * n <= q,
        4 * t <= 7 * (n + 1),
        wn >= (s * s) * q - 2 * s * (n - 1) * t,
    ensures
        wn >= ((s - 2) * (s - 2)) * (n * n),
{
    let nn = n * n;
    let ss = s * s;
    let x = s * nn;
    let k = 2 * s * (n - 1);
    assert(k >= 0);
    assert(ss * q >= ss * nn);
    assert(2 * s * (n - 1) * t == k * t);
    assert(k * (4 * t) <= k * (7 * (n + 1)));
    assert(k * (7 * (n + 1)) == 14 * x - 14 * s);
    assert(4 * (k * t) <= 14 * x);
    assert(((s - 2) * (s - 2)) * nn == ss * nn - 4 * x + 4 * nn);
    assert(8 * nn <= x);
    assert(4 * wn >= 4 * (ss * nn) - 14 * x);
}

/// The arithmetic of the two bounds, over the magnitudes of the components.
proof fn lemma_unit_bounds_arith(a: int, b: int, c: int, n: int, wa: int, wb: int, wc: int, s: int)
    requires
        s >= 8,
        n >= 1,
        0 <= a,
        0 <= b,
        0 <= c,
        n * n <= a * a + b * b + c * c < (n + 1) * (n + 1),
        0 <= wa && wa * n <= a * s < wa * n + n,
        0 <= wb && wb * n <= b * s < wb * n + n,
        0 <= wc && wc * n <= c * s < wc * n + n,
    ensures
        (s - 2) * (s - 2) <= wa * wa + wb * wb + wc * wc,
        wa * wa + wb * wb + wc * wc < (s + s / n + 1) * (s + s / n + 1),
        (wa * wa + wb * wb + wc * wc) * (n * n) <= (s * s) * (a * a + b * b + c * c),
{
    let q = a * a + b * b + c * c;
    let w = wa * wa + wb * wb + wc * wc;
    lemma_scaled_square_upper(wa, n, a, s);
    lemma_scaled_square_upper(wb, n, b, s);
    lemma_scaled_square_upper(wc, n, c, s);
    lemma_scaled_square_lower(wa, n, a, s);
    lemma_scaled_square_lower(wb, n, b, s);
    lemma_scaled_square_lower(wc, n, c, s);
    lemma_sum_against_norm(a, b, c, n);
    let nn = n * n;
    let ss = s * s;
    assert(w * nn == (wa * wa) * nn + (wb * wb) * nn + (wc * wc) * nn) by (nonlinear_arith)
        requires
            w == wa * wa + wb * wb + wc * wc,
    ;
    assert(ss * q == ss * (a * a) + ss * (b * b) + ss * (c * c)) by (nonlinear_arith)
        requires
            q == a * a + b * b + c * c,
    ;
    assert(2 * s * (n - 1) * (a + b + c) == 2 * s * (n - 1) * a + 2 * s * (n - 1) * b + 2 * s * (n
        - 1) * c) by (nonlinear_arith);
    assert(w * nn <= ss * q);
    assert(w * nn >= ss * q - 2 * s * (n - 1) * (a + b + c));
    assert(nn >= 1) by (nonlinear_arith)
        requires
            nn == n * n,
            n >= 1,
    ;
    lemma_lower_bound_arith(q, n, a + b + c, s, w * nn);
    let low = (s - 2) * (s - 2);
    assert(low <= w) by (nonlinear_arith)
        requires
            w * nn >= low * nn,
            nn >= 1,
    ;
    let m = s + s / n + 1;
    vstd::arithmetic::div_mod::lemma_fundamental_div_mod(s, n);
    vstd::arithmetic::div_mod::lemma_mod_bound(s, n);
    assert(m * n >= s * (n + 1)) by (nonlinear_arith)
        requires
            m == s + s / n + 1,
            s == n * (s / n) + s % n,
            0 <= s % n < n,
            n >= 1,
    ;
    assert(w < m * m) by (nonlinear_arith)
        requires
            w * nn <= ss * q,
            q < (n + 1) * (n + 1),
            m * n >= s * (n + 1),
            nn == n * n,
            ss == s * s,
            s >= 8,
            n >= 1,
            m >= 0,
            w >= 0,
    {
        assert(ss * q < ss * ((n + 1) * (n + 1)));
        assert(ss * ((n + 1) * (n + 1)) == (s * (n + 1)) * (s * (n + 1)));
        assert((s * (n + 1)) * (s * (n + 1)) <= (m * n) * (m * n));
        assert((m * n) * (m * n) == (m * m) * nn);
        assert(w * nn < (m * m) * nn);
    }
}

/// What holds of the unit vector `u` of a vector `v` that is within range and
/// not zero, with `n` the length of `v` scaled up and `q` its square before
/// the root: no component of `u` exceeds one, and the square of the length of
/// `u` is what the square of one is to `n * n / q`, or less.
pub proof fn lemma_unit_squares(v: Vec3)
    requires
        v.wf(),
        v != Vec3::origin(),
    ensures
        ({
            let n = v.fine_norm();
            let q = FINE * FINE * v.dot_wide(v);
            let u = v.unit_spec();
            let w = u.dot_wide(u);
            &&& n >= FINE
            &&& n * n <= q < (n + 1) * (n + 1)
            &&& w * (n * n) <= (SCALE * SCALE) * q
            &&& (SCALE - 2) * (SCALE - 2) <= w < (SCALE + 1) * (SCALE + 1)
            &&& -SCALE <= u.x <= SCALE
            &&& -SCALE <= u.y <= SCALE
            &&& -SCALE <= u.z <= SCALE
        }),
{
    let s = SCALE as int;
    let f = FINE as int;
    assert(v.refinement() == f);
    let a = magnitude(v.x as int) * f;
    let b = magnitude(v.y as int) * f;
    let c = magnitude(v.z as int) * f;
    lemma_square_of_magnitude(v.x as int);
    lemma_square_of_magnitude(v.y as int);
    lemma_square_of_magnitude(v.z as int);
    let q = f * f * v.dot_wide(v);
    assert(q == a * a + b * b + c * c && a >= 0 && b >= 0 && c >= 0 && q >= f * f)
        by (nonlinear_arith)
        requires
            q == f * f * (v.x * v.x + v.y * v.y + v.z * v.z),
            a == magnitude(v.x as int) * f,
            b == magnitude(v.y as int) * f,
            c == magnitude(v.z as int) * f,
            magnitude(v.x as int) * magnitude(v.x as int) == v.x * v.x,
            magnitude(v.y as int) * magnitude(v.y as int) == v.y * v.y,
            magnitude(v.z as int) * magnitude(v.z as int) == v.z * v.z,
            magnitude(v.x as int) >= 0,
            magnitude(v.y as int) >= 0,
            magnitude(v.z as int) >= 0,
            magnitude(v.x as int) > 0 || magnitude(v.y as int) > 0 || magnitude(v.z as int) > 0,
            f == 8_388_608,
    ;
    lemma_sqrt_floor_exists(q);
    let n = v.fine_norm();
    assert(n == sqrt_floor(q));
    lemma_sqrt_floor_between(q, f);
    assert(n >= f);
    assert(a <= n && b <= n && c <= n) by (nonlinear_arith)
        requires
            0 <= n,
            0 <= a,
            0 <= b,
            0 <= c,
            a * a + b * b + c * c < (n + 1) * (n + 1),
    ;
    let u = v.unit_spec();
    let wa = a * s / n;
    let wb = b * s / n;
    let wc = c * s / n;
    lemma_magnitude_of_quotient(v.x * f * s, n);
    lemma_magnitude_of_quotient(v.y * f * s, n);
    lemma_magnitude_of_quotient(v.z * f * s, n);
    assert(magnitude(v.x * f * s) == a * s && magnitude(v.y * f * s) == b * s && magnitude(
        v.z * f * s,
    ) == c * s) by (nonlinear_arith)
        requires
            s > 0,
            f > 0,
            a == magnitude(v.x as int) * f,
            b == magnitude(v.y as int) * f,
            c == magnitude(v.z as int) * f,
    ;
    assert(wa <= s && wb <= s && wc <= s) by (nonlinear_arith)
        requires
            wa * n <= a * s,
            wb * n <= b * s,
            wc * n <= c * s,
            a <= n,
            b <= n,
            c <= n,
            n >= 1,
            s > 0,
            wa >= 0,
            wb >= 0,
            wc >= 0,
    ;
    assert(magnitude(u.x as int) == wa);
    assert(magnitude(u.y as int) == wb);
    assert(magnitude(u.z as int) == wc);
    lemma_square_of_magnitude(u.x as int);
    lemma_square_of_magnitude(u.y as int);
    lemma_square_of_magnitude(u.z as int);
    let w = u.dot_wide(u);
    assert(w == wa * wa + wb * wb + wc * wc);
    lemma_unit_bounds_arith(a, b, c, n, wa, wb, wc, s);
    assert(s / n == 0) by {
        vstd::arithmetic::div_mod::lemma_basic_div(s, n);
    }
}

/// The unit vector of a vector that is within range and not zero has a
/// length of one, to within two millionths below and none above.
pub proof fn lemma_unit_length(v: Vec3)
    requires
        v.wf(),
        v != Vec3::origin(),
    ensures
        SCALE - 2 <= v.unit_spec().length_spec() <= SCALE,
{
    lemma_unit_squares(v);
    let u = v.unit_spec();
    let w = u.dot_wide(u);
    lemma_sqrt_floor_between(w, SCALE - 2);
    lemma_sqrt_floor_between(w, SCALE + 1);
}

/// The unit vector of a vector within range points the way the vector
/// points: each component has the sign of the vector's, or is zero, and,
/// taken times the length of the scaled-up vector, falls short of the
/// scaled-up component by less than that length.
pub proof fn lemma_unit_points_the_same_way(v: Vec3)
    requires
        v.wf(),
        v != Vec3::origin(),
    ensures
        ({
            let n = v.fine_norm();
            let u = v.unit_spec();
            &&& v.x >= 0 ==> 0 <= v.x * FINE * SCALE - u.x * n < n
            &&& v.x <= 0 ==> 0 <= u.x * n - v.x * FINE * SCALE < n
            &&& v.y >= 0 ==> 0 <= v.y * FINE * SCALE - u.y * n < n
            &&& v.y <= 0 ==> 0 <= u.y * n - v.y * FINE * SCALE < n
            &&& v.z >= 0 ==> 0 <= v.z * FINE * SCALE - u.z * n < n
            &&& v.z <= 0 ==> 0 <= u.z * n - v.z * FINE * SCALE < n
        }),
{
    lemma_unit_squares(v);
    let n = v.fine_norm();
    lemma_quotient_remainder(v.x * FINE * SCALE, n);
    lemma_quotient_remainder(v.y * FINE * SCALE, n);
    lemma_quotient_remainder(v.z * FINE * SCALE, n);
    assert((v.x >= 0 ==> v.x * FINE * SCALE >= 0) && (v.x <= 0 ==> v.x * FINE * SCALE <= 0) && (v.y
        >= 0 ==> v.y * FINE * SCALE >= 0) && (v.y <= 0 ==> v.y * FINE * SCALE <= 0) && (v.z >= 0
        ==> v.z * FINE * SCALE >= 0) && (v.z <= 0 ==> v.z * FINE * SCALE <= 0))
        by (nonlinear_arith);
}

/// A quotient rounded toward zero, taken times the divisor, falls short of
/// the dividend by less than the divisor, on the side of zero.
proof fn lemma_quotient_remainder(a: int, n: int)
    requires
        n > 0,
    ensures
        a >= 0 ==> 0 <= a - div_trunc(a, n) * n < n,
        a <= 0 ==> 0 <= div_trunc(a, n) * n - a < n,
{
    lemma_magnitude_of_quotient(a, n);
    let m = magnitude(a);
    if a >= 0 {
        assert(div_trunc(a, n) == m / n);
    } else {
        assert(div_trunc(a, n) == -(m / n));
        assert((-(m / n)) * n == -((m / n) * n)) by (nonlinear_arith);
    }
}

/// The square of a product rounded toward zero, taken times the square of
/// the scale, does not exceed the square of the exact product.
proof fn lemma_product_square(u: int, t: int)
    requires
        -SCALE <= u <= SCALE,
        0 <= t <= LIMIT,
    ensures
        product(u, t) * product(u, t) * (SCALE * SCALE) <= (u * u) * (t * t),
        -t <= product(u, t) <= t,
{
    let s = SCALE as int;
    let m = magnitude(u) * t;
    lemma_magnitude_of_quotient(u * t, s);
    assert(magnitude(u * t) == m && 0 <= m <= s * t) by (nonlinear_arith)
        requires
            m == magnitude(u) * t,
            t >= 0,
            0 <= magnitude(u) <= s,
    ;
    let c = m / s;
    assert(c <= t) by (nonlinear_arith)
        requires
            c * s <= m,
            m <= s * t,
            s > 0,
            c >= 0,
            t >= 0,
    ;
    assert(magnitude(product(u, t)) == c);
    lemma_square_of_magnitude(product(u, t));
    lemma_square_of_magnitude(u);
    assert((c * c) * (s * s) <= (u * u) * (t * t)) by (nonlinear_arith)
        requires
            0 <= c,
            c * s <= m,
            m == magnitude(u) * t,
            magnitude(u) * magnitude(u) == u * u,
            0 <= magnitude(u),
            0 <= t,
            0 < s,
    {
        assert((c * s) * (c * s) <= m * m);
        assert((c * s) * (c * s) == (c * c) * (s * s));
        assert(m * m == (magnitude(u) * magnitude(u)) * (t * t));
    }
}

/// The arithmetic of the bound on a rescaled unit vector.
proof fn lemma_rescaled_arith(cc: int, w: int, n: int, q: int, t: int, s: int)
    by (nonlinear_arith)
    requires
        s > 0,
        0 < t <= n,
        0 <= cc,
        0 <= w,
        cc * (s * s) <= w * (t * t),
        w * (n * n) <= (s * s) * q,
        q < (n + 1) * (n + 1),
    ensures
        cc < (t + 1) * (t + 1),
{
    assert(cc * (s * s) * (n * n) <= w * (t * t) * (n * n));
    assert(w * (t * t) * (n * n) == (w * (n * n)) * (t * t));
    assert((w * (n * n)) * (t * t) <= ((s * s) * q) * (t * t));
    assert(((s * s) * q) * (t * t) < ((s * s) * ((n + 1) * (n + 1))) * (t * t));
    assert(((s * s) * ((n + 1) * (n + 1))) * (t * t) == (s * s) * ((t * (n + 1)) * (t * (n + 1))));
    assert(t * (n + 1) <= (t + 1) * n);
    assert((t * (n + 1)) * (t * (n + 1)) <= ((t + 1) * n) * ((t + 1) * n));
    assert(cc * (s * s) * (n * n) == (s * s) * (cc * (n * n)));
    assert(((t + 1) * n) * ((t + 1) * n) == ((t + 1) * (t + 1)) * (n * n));
    assert(cc * (n * n) < ((t + 1) * (t + 1)) * (n * n));
}

/// A vector brought to a length that is no greater than its own has that
/// length or less: the unit vector of a vector within range, scaled to `t`,
/// is no longer than `t`.
pub proof fn lemma_rescaled_length(v: Vec3, t: int)
    requires
        v.wf(),
        0 <= t <= LIMIT,
        t <= v.norm(),
    ensures
        v.unit_spec().scaled(t).length_spec() <= t,
        v.unit_spec().scaled(t).wf(),
{
    let u = v.unit_spec();
    let r = u.scaled(t);
    if t == 0 {
        assert(u.x * 0 == 0 && u.y * 0 == 0 && u.z * 0 == 0) by (nonlinear_arith);
        assert(r == Vec3::origin());
        assert(is_sqrt_floor(0, 0));
        lemma_sqrt_floor_between(0, 1);
    } else {
        assert(v.dot_wide(v) >= 0) by (nonlinear_arith)
            requires
                v.dot_wide(v) == v.x * v.x + v.y * v.y + v.z * v.z,
        ;
        lemma_sqrt_floor_exists(v.dot_wide(v));
        if v == Vec3::origin() {
            assert(is_sqrt_floor(0, 0));
            lemma_sqrt_floor_between(0, 1);
            assert(false);
        }
        lemma_unit_squares(v);
        let n = v.fine_norm();
        let q = FINE * FINE * v.dot_wide(v);
        let w = u.dot_wide(u);
        lemma_product_square(u.x as int, t);
        lemma_product_square(u.y as int, t);
        lemma_product_square(u.z as int, t);
        let cc = r.dot_wide(r);
        let ss = SCALE * SCALE;
        let tt = t * t;
        assert(cc * ss <= w * tt && cc >= 0 && w >= 0) by (nonlinear_arith)
            requires
                cc == r.x * r.x + r.y * r.y + r.z * r.z,
                w == u.x * u.x + u.y * u.y + u.z * u.z,
                r.x * r.x * ss <= (u.x * u.x) * tt,
                r.y * r.y * ss <= (u.y * u.y) * tt,
                r.z * r.z * ss <= (u.z * u.z) * tt,
        ;
        assert(t <= n) by {
            let q0 = v.dot_wide(v);
            assert(t * t <= q0) by (nonlinear_arith)
                requires
                    0 <= t <= v.norm(),
                    v.norm() * v.norm() <= q0,
            ;
            assert(q0 <= q) by (nonlinear_arith)
                requires
                    q == FINE * FINE * q0,
                    q0 >= 0,
                    FINE == 8_388_608,
            ;
            lemma_sqrt_floor_between(q, t);
        }
        lemma_rescaled_arith(cc, w, n, q, t, SCALE as int);
        lemma_sqrt_floor_between(cc, t + 1);
    }
}

} // verus!
