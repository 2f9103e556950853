use sector::math::{div_round, fraction, saturate, ONE};
use sector::utils::{between, clamp, lerp, lerpi};

#[test]
fn one_is_two_to_the_sixteenth() {
    assert_eq!(ONE, 65536);
}

#[test]
fn div_round_rounds_to_nearest() {
    assert_eq!(div_round(7, 2), 4);
    assert_eq!(div_round(6, 4), 2);
    assert_eq!(div_round(5, 4), 1);
    assert_eq!(div_round(10, 5), 2);
    assert_eq!(div_round(0, 3), 0);
}

#[test]
fn div_round_rounds_halves_away_from_zero() {
    assert_eq!(div_round(1, 2), 1);
    assert_eq!(div_round(-1, 2), -1);
    assert_eq!(div_round(3, 2), 2);
    assert_eq!(div_round(-3, 2), -2);
    assert_eq!(div_round(-7, 2), -4);
}

#[test]
fn div_round_follows_the_sign_of_the_divisor() {
    assert_eq!(div_round(7, -2), -4);
    assert_eq!(div_round(-7, -2), 4);
    assert_eq!(div_round(1, -3), 0);
    assert_eq!(div_round(2, -3), -1);
}

#[test]
fn div_round_is_symmetric() {
    for n in -50i128..=50 {
        for d in 1i128..=9 {
            assert_eq!(div_round(-n, d), -div_round(n, d));
            assert_eq!(div_round(n, -d), -div_round(n, d));
        }
    }
}

#[test]
fn saturate_limits_to_the_range_of_i32() {
    assert_eq!(saturate(5), 5);
    assert_eq!(saturate(-5), -5);
    assert_eq!(saturate(i32::MAX as i128 + 1), i32::MAX);
    assert_eq!(saturate(i32::MIN as i128 - 1), i32::MIN);
    assert_eq!(saturate(1 << 70), i32::MAX);
}

#[test]
fn fraction_of_integers() {
    assert_eq!(fraction(1, 2), ONE / 2);
    assert_eq!(fraction(3, 4), 3 * ONE / 4);
    assert_eq!(fraction(-1, 4), -ONE / 4);
    assert_eq!(fraction(5, 5), ONE);
    assert_eq!(fraction(1, 3), 21845);
    assert_eq!(fraction(2, 3), 43691);
}

#[test]
fn fraction_by_zero_divides_by_one_step() {
    assert_eq!(fraction(3, 0), 3 * ONE);
    assert_eq!(fraction(0, 0), 0);
    assert_eq!(fraction(-2, 0), -2 * ONE);
}

#[test]
fn fraction_saturates() {
    assert_eq!(fraction(1 << 40, 1), i32::MAX);
    assert_eq!(fraction(-(1 << 40), 1), i32::MIN);
}

#[test]
fn lerp_between_two_numbers() {
    assert_eq!(lerp(0, 10 * ONE, 0), 0);
    assert_eq!(lerp(0, 10 * ONE, ONE), 10 * ONE);
    assert_eq!(lerp(0, 10 * ONE, ONE / 2), 5 * ONE);
    assert_eq!(lerp(4 * ONE, 8 * ONE, ONE / 4), 5 * ONE);
    assert_eq!(lerp(8 * ONE, 4 * ONE, ONE / 4), 7 * ONE);
}

#[test]
fn lerp_beyond_the_ends() {
    assert_eq!(lerp(0, ONE, 2 * ONE), 2 * ONE);
    assert_eq!(lerp(0, ONE, -ONE), -ONE);
}

#[test]
fn lerpi_between_two_rows() {
    assert_eq!(lerpi(40, 200, 0), 40);
    assert_eq!(lerpi(40, 200, ONE), 200);
    assert_eq!(lerpi(40, 200, ONE / 2), 120);
    assert_eq!(lerpi(0, 3, ONE / 2), 2);
    assert_eq!(lerpi(0, -3, ONE / 2), -2);
    assert_eq!(lerpi(100, 100, 12345), 100);
}

#[test]
fn clamp_limits_to_an_interval() {
    assert_eq!(clamp(5, 1, 10), 5);
    assert_eq!(clamp(0, 1, 10), 1);
    assert_eq!(clamp(11, 1, 10), 10);
    assert_eq!(clamp(1, 1, 1), 1);
}

#[test]
fn clamp_with_an_empty_interval_takes_a_bound() {
    assert_eq!(clamp(0, 10, 1), 10);
    assert_eq!(clamp(20, 10, 1), 1);
    assert_eq!(clamp(5, 10, 1), 10);
}

#[test]
fn between_takes_the_bounds_in_either_order() {
    assert!(between(5, 1, 10));
    assert!(between(5, 10, 1));
    assert!(between(1, 1, 10));
    assert!(between(10, 1, 10));
    assert!(!between(0, 1, 10));
    assert!(!between(11, 10, 1));
    assert!(between(-3, -5, 5));
}
