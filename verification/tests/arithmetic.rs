use fermi_paradox::fixed::{
    isqrt, magnitude, minus, negated, plus, saturate, scaled, sin, times, FULL_TURN, HALF_TURN,
    UNIT,
};
use fermi_paradox::random::{bool_from, index, range, range_from, usize_from};

#[test]
fn sums_saturate_at_both_ends() {
    assert_eq!(plus(1, 2), 3);
    assert_eq!(plus(i64::MAX, 1), i64::MAX);
    assert_eq!(plus(i64::MIN, -1), i64::MIN);
    assert_eq!(minus(5, 7), -2);
    assert_eq!(minus(i64::MIN, 1), i64::MIN);
    assert_eq!(minus(i64::MAX, -1), i64::MAX);
    assert_eq!(saturate(i128::MAX), i64::MAX);
    assert_eq!(saturate(i128::MIN), i64::MIN);
    assert_eq!(saturate(-42), -42);
}

#[test]
fn negation_and_magnitude_saturate() {
    assert_eq!(negated(5), -5);
    assert_eq!(negated(i64::MIN), i64::MAX);
    assert_eq!(magnitude(-7), 7);
    assert_eq!(magnitude(7), 7);
    assert_eq!(magnitude(i64::MIN), i64::MAX);
}

#[test]
fn products_round_toward_zero() {
    assert_eq!(times(1_500, 850), 1_275);
    assert_eq!(times(-1_500, 850), -1_275);
    assert_eq!(times(1, 850), 0);
    assert_eq!(times(-1, 850), 0);
    assert_eq!(times(1_999, 500), 999);
    assert_eq!(times(-1_999, 500), -999);
    assert_eq!(times(UNIT, UNIT), UNIT);
    assert_eq!(times(i64::MAX, 2 * UNIT), i64::MAX);
    assert_eq!(times(i64::MIN, 2 * UNIT), i64::MIN);
}

#[test]
fn ratios_round_toward_zero() {
    assert_eq!(scaled(30_000, 5_000, 50_000), 3_000);
    assert_eq!(scaled(-30_000, 5_000, 50_000), -3_000);
    assert_eq!(scaled(7, 1, 2), 3);
    assert_eq!(scaled(-7, 1, 2), -3);
    assert_eq!(scaled(i64::MAX, i64::MAX, 1), i64::MAX);
}

#[test]
fn square_roots_are_rounded_down() {
    assert_eq!(isqrt(0), 0);
    assert_eq!(isqrt(1), 1);
    assert_eq!(isqrt(15), 3);
    assert_eq!(isqrt(16), 4);
    assert_eq!(isqrt(25_000_000), 5_000);
    assert_eq!(isqrt(u128::MAX), u64::MAX);
    let n: u128 = 1 << 100;
    assert_eq!(isqrt(n), 1 << 50);
    assert_eq!(isqrt(n - 1), (1 << 50) - 1);
}

#[test]
fn sine_is_exact_at_the_quarter_turns() {
    assert_eq!(sin(0), 0);
    assert_eq!(sin(HALF_TURN / 2), UNIT);
    assert_eq!(sin(HALF_TURN), 0);
    assert_eq!(sin(HALF_TURN + HALF_TURN / 2), -UNIT);
    assert_eq!(sin(FULL_TURN), 0);
}

#[test]
fn sine_is_close_to_the_true_sine() {
    // A sixth of half a turn is thirty degrees.
    assert_eq!(sin(524), 500);
    assert_eq!(sin(-524), -500);
    for k in -7_000i64..7_000 {
        let angle = k as f64 / 1000.0;
        let approximate = sin(k) as f64 / 1000.0;
        assert!((approximate - angle.sin()).abs() < 0.004, "angle {}", k);
    }
}

#[test]
fn sine_has_the_period_of_a_full_turn() {
    for k in -7_000i64..7_000 {
        assert_eq!(sin(k), sin(k + FULL_TURN));
        assert_eq!(sin(k), -sin(k + HALF_TURN));
        assert!(-UNIT <= sin(k) && sin(k) <= UNIT);
    }
    assert!(sin(i64::MAX).abs() <= UNIT);
    assert!(sin(i64::MIN).abs() <= UNIT);
}

#[test]
fn a_draw_selects_a_point_of_the_span() {
    assert_eq!(range_from(0, 0, 1_000), 0);
    assert_eq!(range_from(u32::MAX, 0, 1_000), 1_000);
    assert_eq!(range_from(u32::MAX / 2, 0, 1_000), 499);
    assert_eq!(range_from(0, -800, 800), -800);
    assert_eq!(range_from(u32::MAX, -800, 800), 800);
    assert_eq!(range_from(u32::MAX / 2, -800, 800), -1);
    assert_eq!(range_from(u32::MAX, 10, 10), 10);
    assert_eq!(range_from(0, i64::MIN, i64::MAX), i64::MIN);
    assert_eq!(range_from(u32::MAX, i64::MIN, i64::MAX), i64::MAX);
}

#[test]
fn a_draw_selects_a_point_of_a_span_that_runs_down() {
    assert_eq!(range_from(0, 5, -5), 5);
    assert_eq!(range_from(u32::MAX, 5, -5), -5);
    assert_eq!(range_from(u32::MAX / 2, 10, 0), 6);
}

#[test]
fn random_points_stay_in_their_span() {
    quad_rand::srand(7);
    for _ in 0..1_000 {
        let v = range(-300, 300);
        assert!(-300 <= v && v <= 300);
        let w = range(20, 10);
        assert!(10 <= w && w <= 20);
    }
}

#[test]
fn random_points_follow_the_generator() {
    quad_rand::srand(99);
    let drawn: Vec<i64> = (0..5).map(|_| range(0, 1_000_000)).collect();
    quad_rand::srand(99);
    let expected: Vec<i64> = (0..5).map(|_| range_from(quad_rand::rand(), 0, 1_000_000)).collect();
    assert_eq!(drawn, expected);
    assert!(drawn.iter().any(|v| *v != drawn[0]));
}

#[test]
fn a_draw_selects_an_index() {
    assert_eq!(usize_from(0, 3), 0);
    assert_eq!(usize_from(1_431_655_764, 3), 0);
    assert_eq!(usize_from(1_431_655_765, 3), 1);
    assert_eq!(usize_from(u32::MAX, 3), 2);
    assert_eq!(usize_from(u32::MAX, 1), 0);
    assert_eq!(usize_from(12345, 1), 0);
    assert_eq!(usize_from(u32::MAX, 120_000), 119_999);
}

#[test]
fn a_draw_selects_a_truth_value() {
    assert!(!bool_from(0));
    assert!(!bool_from(u32::MAX / 2));
    assert!(bool_from(u32::MAX / 2 + 1));
    assert!(bool_from(u32::MAX));
}

#[test]
fn a_random_element_is_one_of_the_vector() {
    quad_rand::srand(3);
    let v = vec![10, 20, 30];
    let mut seen = [false; 3];
    for _ in 0..200 {
        let e = *index(&v);
        assert!(v.contains(&e));
        seen[(e / 10 - 1) as usize] = true;
    }
    assert_eq!(seen, [true, true, true]);
    assert_eq!(fermi_paradox::random::usize(1), 0);
    let _ = fermi_paradox::random::bool();
}
