use grapple_world::fixed::SCALE;
use grapple_world::trig::{cos_fixed, sin_fixed, FULL_TURN, HALF_TURN, QUARTER_TURN};

#[test]
fn sine_and_cosine_of_the_cardinal_angles() {
    assert_eq!(sin_fixed(0), 0);
    assert_eq!(cos_fixed(0), SCALE);
    assert_eq!(sin_fixed(QUARTER_TURN), SCALE);
    assert_eq!(cos_fixed(QUARTER_TURN), 0);
    assert_eq!(sin_fixed(HALF_TURN), 0);
    assert_eq!(cos_fixed(HALF_TURN), -SCALE);
    assert_eq!(sin_fixed(HALF_TURN + QUARTER_TURN), -SCALE);
    assert_eq!(cos_fixed(HALF_TURN + QUARTER_TURN), 0);
    assert_eq!(sin_fixed(FULL_TURN), 0);
    assert_eq!(cos_fixed(FULL_TURN), SCALE);
}

#[test]
fn sine_and_cosine_of_common_angles() {
    assert_eq!(sin_fixed(500_000), 479_426);
    assert_eq!(cos_fixed(500_000), 877_582);
    assert_eq!(sin_fixed(1_000_000), 841_471);
    assert_eq!(cos_fixed(1_000_000), 540_302);
    assert_eq!(sin_fixed(785_398), 707_107);
    assert_eq!(cos_fixed(785_398), 707_107);
    assert_eq!(sin_fixed(2_000_000), 909_297);
    assert_eq!(cos_fixed(2_000_000), -416_147);
    assert_eq!(sin_fixed(4_000_000), -756_803);
    assert_eq!(cos_fixed(4_000_000), -653_643);
}

#[test]
fn sine_is_odd_and_cosine_even() {
    let angles: [i64; 6] = [1, 500_000, 1_570_796, 2_000_000, 5_000_000, 123_456_789];
    for a in angles {
        assert_eq!(sin_fixed(-a), -sin_fixed(a));
        assert_eq!(cos_fixed(-a), cos_fixed(a));
    }
}

#[test]
fn sine_repeats_after_a_full_turn() {
    let angles: [i64; 5] = [0, 1, 500_000, -2_000_000, 4_000_000];
    for a in angles {
        assert_eq!(sin_fixed(a + FULL_TURN), sin_fixed(a));
        assert_eq!(cos_fixed(a - 3 * FULL_TURN), cos_fixed(a));
    }
}

#[test]
fn sine_stays_within_one_at_the_extremes() {
    let angles: [i64; 4] = [i64::MAX, i64::MIN, i64::MAX - 1_570_796, 1_570_795];
    for a in angles {
        let s = sin_fixed(a);
        let c = cos_fixed(a);
        assert!(-SCALE <= s && s <= SCALE);
        assert!(-SCALE <= c && c <= SCALE);
    }
}

#[test]
fn sine_is_close_to_the_real_sine() {
    let mut a: i64 = -7_000_000;
    while a <= 7_000_000 {
        let exact = ((a as f64) / 1e6).sin() * 1e6;
        let got = sin_fixed(a) as f64;
        assert!((got - exact).abs() <= 12.0, "angle {}: {} against {}", a, got, exact);
        let exact_cos = ((a as f64) / 1e6).cos() * 1e6;
        let got_cos = cos_fixed(a) as f64;
        assert!((got_cos - exact_cos).abs() <= 12.0);
        a += 9_973;
    }
}
