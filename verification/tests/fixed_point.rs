use asteroids::fixed::{
    add_sat, ceil_length, cos, isqrt, limit_magnitude, midpoint, mul_fixed, sin, square_sum,
    sub_sat, HALF_PI, ONE, PI, TAU,
};

#[test]
fn one_is_a_million() {
    assert_eq!(ONE, 1_000_000);
    assert_eq!(TAU, 2 * PI);
    assert_eq!(PI, 2 * HALF_PI);
}

#[test]
fn products_are_scaled_and_round_toward_zero() {
    assert_eq!(mul_fixed(2 * ONE, 3 * ONE), 6 * ONE);
    assert_eq!(mul_fixed(ONE / 2, ONE / 2), ONE / 4);
    assert_eq!(mul_fixed(3, 500_000), 1);
    assert_eq!(mul_fixed(-3, 500_000), -1);
    assert_eq!(mul_fixed(1, 1), 0);
    assert_eq!(mul_fixed(-1, 1), 0);
    assert_eq!(mul_fixed(0, i64::MAX), 0);
}

#[test]
fn products_saturate() {
    assert_eq!(mul_fixed(i64::MAX, i64::MAX), i64::MAX);
    assert_eq!(mul_fixed(i64::MIN, i64::MAX), i64::MIN);
    assert_eq!(mul_fixed(i64::MIN, i64::MIN), i64::MAX);
    assert_eq!(mul_fixed(i64::MAX, ONE), i64::MAX);
}

#[test]
fn sums_saturate() {
    assert_eq!(add_sat(1, 2), 3);
    assert_eq!(add_sat(i64::MAX, 1), i64::MAX);
    assert_eq!(add_sat(i64::MIN, -1), i64::MIN);
    assert_eq!(sub_sat(1, 2), -1);
    assert_eq!(sub_sat(i64::MIN, 1), i64::MIN);
    assert_eq!(sub_sat(i64::MAX, -1), i64::MAX);
    assert_eq!(sub_sat(0, i64::MIN), i64::MAX);
}

#[test]
fn midpoints_round_toward_zero() {
    assert_eq!(midpoint(2, 4), 3);
    assert_eq!(midpoint(1, 2), 1);
    assert_eq!(midpoint(-1, -2), -1);
    assert_eq!(midpoint(i64::MAX, i64::MAX), i64::MAX);
    assert_eq!(midpoint(i64::MIN, i64::MAX), 0);
}

#[test]
fn square_roots_round_down() {
    assert_eq!(isqrt(0), 0);
    assert_eq!(isqrt(1), 1);
    assert_eq!(isqrt(3), 1);
    assert_eq!(isqrt(4), 2);
    assert_eq!(isqrt(24), 4);
    assert_eq!(isqrt(25), 5);
    assert_eq!(isqrt(32_000_000_000_000), 5_656_854);
    assert_eq!(isqrt(u128::MAX), u64::MAX);
}

#[test]
fn lengths_round_up() {
    assert_eq!(square_sum(3, 4), 25);
    assert_eq!(square_sum(-3, 4), 25);
    assert_eq!(ceil_length(3, 4), 5);
    assert_eq!(ceil_length(1, 1), 2);
    assert_eq!(ceil_length(0, 0), 0);
    assert_eq!(square_sum(i64::MIN, i64::MIN), 1u128 << 127);
}

#[test]
fn a_vector_within_the_limit_is_kept() {
    assert_eq!(limit_magnitude(3, 4, 5), (3, 4));
    assert_eq!(limit_magnitude(-3, -4, 5), (-3, -4));
    assert_eq!(limit_magnitude(0, 0, 0), (0, 0));
    assert_eq!(limit_magnitude(60 * ONE, 80 * ONE, 100 * ONE), (60 * ONE, 80 * ONE));
}

#[test]
fn a_longer_vector_is_shortened_to_the_limit() {
    assert_eq!(limit_magnitude(6, 8, 5), (3, 4));
    assert_eq!(limit_magnitude(-6, 8, 5), (-3, 4));
    assert_eq!(limit_magnitude(120 * ONE, 160 * ONE, 100 * ONE), (60 * ONE, 80 * ONE));
    assert_eq!(limit_magnitude(0, 200 * ONE, 100 * ONE), (0, 100 * ONE));
    assert_eq!(limit_magnitude(7, 7, 0), (0, 0));
    assert_eq!(limit_magnitude(7, 7, -3), (0, 0));
}

#[test]
fn a_limited_vector_is_never_longer_than_the_limit() {
    let max: i64 = 100 * ONE;
    let samples: [(i64, i64); 6] = [
        (100 * ONE + 1, 0),
        (70_710_679, 70_710_679),
        (123_456_789, -987_654_321),
        (i64::MAX, i64::MAX),
        (i64::MIN, i64::MIN),
        (-1, i64::MAX),
    ];
    for (x, y) in samples {
        let (lx, ly) = limit_magnitude(x, y, max);
        let length = (lx as i128) * (lx as i128) + (ly as i128) * (ly as i128);
        assert!(length <= (max as i128) * (max as i128));
        assert!(lx == 0 || (lx > 0) == (x > 0));
        assert!(ly == 0 || (ly > 0) == (y > 0));
    }
}

#[test]
fn sine_and_cosine_are_exact_at_the_quarter_turns() {
    assert_eq!(sin(0), 0);
    assert_eq!(cos(0), ONE);
    assert_eq!(sin(HALF_PI), ONE);
    assert_eq!(cos(HALF_PI), 0);
    assert_eq!(sin(PI), 0);
    assert_eq!(cos(PI), -ONE);
    assert_eq!(sin(PI + HALF_PI), -ONE);
    assert_eq!(cos(PI + HALF_PI), 0);
    assert_eq!(sin(TAU), 0);
    assert_eq!(cos(TAU), ONE);
    assert_eq!(sin(-HALF_PI), -ONE);
    assert_eq!(cos(-PI), -ONE);
}

#[test]
fn sine_is_close_to_the_true_sine() {
    let mut angle: i64 = -2 * TAU;
    while angle <= 2 * TAU {
        let truth = (angle as f64 / PI as f64 * std::f64::consts::PI).sin();
        let got = sin(angle) as f64 / ONE as f64;
        assert!((truth - got).abs() < 0.002);
        let truth = (angle as f64 / PI as f64 * std::f64::consts::PI).cos();
        let got = cos(angle) as f64 / ONE as f64;
        assert!((truth - got).abs() < 0.002);
        assert!(sin(angle).abs() <= ONE && cos(angle).abs() <= ONE);
        angle += 12_345;
    }
}

#[test]
fn sine_takes_every_angle() {
    assert!(sin(i64::MAX).abs() <= ONE);
    assert!(sin(i64::MIN).abs() <= ONE);
    assert!(cos(i64::MAX).abs() <= ONE);
    assert!(cos(i64::MIN).abs() <= ONE);
}
