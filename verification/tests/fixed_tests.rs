use grapple_world::fixed::{
    div_fixed, divide_trunc, isqrt, mul_away, mul_fixed, saturate, LIMIT, SCALE,
};

#[test]
fn saturate_keeps_values_in_range() {
    assert_eq!(saturate(0), 0);
    assert_eq!(saturate(-17), -17);
    assert_eq!(saturate(LIMIT as i128), LIMIT);
    assert_eq!(saturate(-(LIMIT as i128)), -LIMIT);
}

#[test]
fn saturate_stops_at_the_bounds() {
    assert_eq!(saturate(LIMIT as i128 + 1), LIMIT);
    assert_eq!(saturate(-(LIMIT as i128) - 1), -LIMIT);
    assert_eq!(saturate(i128::MAX), LIMIT);
    assert_eq!(saturate(i128::MIN), -LIMIT);
}

#[test]
fn divide_trunc_rounds_toward_zero() {
    assert_eq!(divide_trunc(7, 2), 3);
    assert_eq!(divide_trunc(-7, 2), -3);
    assert_eq!(divide_trunc(7, -2), -3);
    assert_eq!(divide_trunc(-7, -2), 3);
    assert_eq!(divide_trunc(0, -5), 0);
    assert_eq!(divide_trunc(6, 3), 2);
    assert_eq!(divide_trunc(i128::MAX, -1), -i128::MAX);
    assert_eq!(divide_trunc(-i128::MAX, i128::MAX), -1);
    assert_eq!(divide_trunc(i128::MAX - 1, i128::MAX), 0);
}

#[test]
fn mul_fixed_multiplies_and_rescales() {
    assert_eq!(mul_fixed(2 * SCALE, 3 * SCALE), 6 * SCALE);
    assert_eq!(mul_fixed(500_000, 500_000), 250_000);
    assert_eq!(mul_fixed(-1_500_000, 2_000_000), -3_000_000);
    assert_eq!(mul_fixed(SCALE, 123_456), 123_456);
    assert_eq!(mul_fixed(0, i64::MAX), 0);
}

#[test]
fn mul_fixed_rounds_toward_zero() {
    assert_eq!(mul_fixed(7, 500_000), 3);
    assert_eq!(mul_fixed(-7, 500_000), -3);
    assert_eq!(mul_fixed(1, 999_999), 0);
    assert_eq!(mul_fixed(-1, 999_999), 0);
}

#[test]
fn mul_fixed_saturates() {
    assert_eq!(mul_fixed(LIMIT, 2 * SCALE), LIMIT);
    assert_eq!(mul_fixed(LIMIT, -2 * SCALE), -LIMIT);
    assert_eq!(mul_fixed(i64::MAX, i64::MAX), LIMIT);
    assert_eq!(mul_fixed(i64::MIN, i64::MAX), -LIMIT);
    assert_eq!(mul_fixed(i64::MIN, i64::MIN), LIMIT);
}

#[test]
fn div_fixed_divides_and_rescales() {
    assert_eq!(div_fixed(6 * SCALE, 3 * SCALE), 2 * SCALE);
    assert_eq!(div_fixed(SCALE, 2 * SCALE), 500_000);
    assert_eq!(div_fixed(SCALE, 3 * SCALE), 333_333);
    assert_eq!(div_fixed(-SCALE, 3 * SCALE), -333_333);
    assert_eq!(div_fixed(SCALE, -3 * SCALE), -333_333);
    assert_eq!(div_fixed(-SCALE, -3 * SCALE), 333_333);
    assert_eq!(div_fixed(7, 2 * SCALE), 3);
}

#[test]
fn div_fixed_saturates() {
    assert_eq!(div_fixed(LIMIT, 1), LIMIT);
    assert_eq!(div_fixed(-LIMIT, 1), -LIMIT);
    assert_eq!(div_fixed(i64::MIN, -1), LIMIT);
}

#[test]
fn isqrt_rounds_down() {
    assert_eq!(isqrt(0), 0);
    assert_eq!(isqrt(1), 1);
    assert_eq!(isqrt(3), 1);
    assert_eq!(isqrt(4), 2);
    assert_eq!(isqrt(24), 4);
    assert_eq!(isqrt(25), 5);
    assert_eq!(isqrt(26), 5);
    assert_eq!(isqrt(25_000_000_000_000), 5_000_000);
}

#[test]
fn isqrt_of_large_numbers() {
    let r: u128 = 1_732_050_807_568;
    let n: u128 = 3_000_000_000_000_000_000_000_000;
    assert_eq!(isqrt(n), r);
    assert!(r * r <= n && n < (r + 1) * (r + 1));
    let top: u128 = (1u128 << 126) - 1;
    assert_eq!(isqrt(top), (1u128 << 63) - 1);
    assert_eq!(isqrt(u128::MAX), u64::MAX as u128);
    assert_eq!(isqrt(1u128 << 126), 1u128 << 63);
}

#[test]
fn mul_away_rounds_away_from_zero() {
    assert_eq!(mul_away(2 * SCALE, 3 * SCALE), 6 * SCALE);
    assert_eq!(mul_away(7, 500_000), 4);
    assert_eq!(mul_away(-7, 500_000), -4);
    assert_eq!(mul_away(1, 1), 1);
    assert_eq!(mul_away(-1, 1), -1);
    assert_eq!(mul_away(-1, -1), 1);
    assert_eq!(mul_away(-50, 5_000), -1);
    assert_eq!(mul_away(0, 5_000), 0);
    assert_eq!(mul_away(123, 0), 0);
    assert_eq!(mul_away(SCALE, 123_456), 123_456);
}

#[test]
fn mul_away_saturates() {
    assert_eq!(mul_away(LIMIT, 2 * SCALE), LIMIT);
    assert_eq!(mul_away(LIMIT, -2 * SCALE), -LIMIT);
    assert_eq!(mul_away(i64::MIN, i64::MIN), LIMIT);
    assert_eq!(mul_away(i64::MIN, i64::MAX), -LIMIT);
}
