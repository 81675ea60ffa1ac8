use cpu_render::fixed::{Fixed, ONE_RAW};

fn f(x: f64) -> Fixed {
    Fixed::from_raw((x * 65536.0).round() as i64)
}

#[test]
fn whole_numbers_multiply_exactly() {
    assert_eq!(Fixed::from_int(3).mul(Fixed::from_int(-4)), Fixed::from_int(-12));
    assert_eq!(Fixed::from_int(7).raw, 7 * ONE_RAW);
}

#[test]
fn products_round_toward_zero() {
    // 1/65536 * 1/2 is below the resolution on either side of zero.
    assert_eq!(Fixed::from_raw(1).mul(f(0.5)), Fixed::zero());
    assert_eq!(Fixed::from_raw(-1).mul(f(0.5)), Fixed::zero());
    assert_eq!(Fixed::from_raw(3).mul(f(0.5)), Fixed::from_raw(1));
    assert_eq!(Fixed::from_raw(-3).mul(f(0.5)), Fixed::from_raw(-1));
}

#[test]
fn quotients_round_toward_zero() {
    assert_eq!(Fixed::from_int(1).div(Fixed::from_int(3)), Fixed::from_raw(21845));
    assert_eq!(Fixed::from_int(-1).div(Fixed::from_int(3)), Fixed::from_raw(-21845));
    assert_eq!(Fixed::from_int(1).div(Fixed::from_int(-3)), Fixed::from_raw(-21845));
    assert_eq!(Fixed::from_ratio(1, 4), f(0.25));
}

#[test]
fn division_by_zero_saturates() {
    assert_eq!(Fixed::from_int(1).div(Fixed::zero()), Fixed::max_value());
    assert_eq!(Fixed::from_int(-1).div(Fixed::zero()), Fixed::min_value());
    assert_eq!(Fixed::zero().div(Fixed::zero()), Fixed::zero());
}

#[test]
fn sums_and_products_saturate() {
    assert_eq!(Fixed::max_value().add(Fixed::from_int(1)), Fixed::max_value());
    assert_eq!(Fixed::min_value().sub(Fixed::from_int(1)), Fixed::min_value());
    assert_eq!(Fixed::min_value().neg(), Fixed::max_value());
    assert_eq!(Fixed::min_value().abs(), Fixed::max_value());
    assert_eq!(Fixed::max_value().mul(Fixed::from_int(2)), Fixed::max_value());
    assert_eq!(Fixed::max_value().mul(Fixed::from_int(-2)), Fixed::min_value());
    assert_eq!(Fixed::from_i64(i64::MAX), Fixed::max_value());
}

#[test]
fn square_roots_round_down() {
    assert_eq!(Fixed::from_int(4).sqrt(), Fixed::from_int(2));
    assert_eq!(Fixed::from_int(0).sqrt(), Fixed::zero());
    assert_eq!(Fixed::from_int(-4).sqrt(), Fixed::zero());
    // sqrt(2) = 1.41421356...; 1.41421356 * 65536 = 92681.9
    assert_eq!(Fixed::from_int(2).sqrt(), Fixed::from_raw(92681));
    assert_eq!(f(0.25).sqrt(), f(0.5));
    let big = Fixed::max_value().sqrt();
    assert!((big.raw as i128) * (big.raw as i128) <= (i64::MAX as i128) * 65536);
    assert!((big.raw as i128 + 1) * (big.raw as i128 + 1) > (i64::MAX as i128) * 65536);
}

#[test]
fn powers_square_and_multiply() {
    assert_eq!(Fixed::from_int(2).pow(10), Fixed::from_int(1024));
    assert_eq!(Fixed::from_int(3).pow(0), Fixed::one());
    assert_eq!(f(0.5).pow(3), f(0.125));
    assert_eq!(Fixed::from_int(2).powi(-2), f(0.25));
    assert_eq!(Fixed::from_int(2).powi(5), Fixed::from_int(32));
    assert_eq!(Fixed::zero().powi(-1), Fixed::max_value());
}

#[test]
fn integer_parts() {
    assert_eq!(f(2.75).to_int(), 2);
    assert_eq!(f(-2.75).to_int(), -2);
    assert_eq!(f(2.75).floor(), 2);
    assert_eq!(f(-2.75).floor(), -3);
    assert_eq!(f(-3.0).floor(), -3);
    assert_eq!(Fixed::max_value().to_int(), i32::MAX);
    assert_eq!(Fixed::min_value().to_int(), i32::MIN);
}

#[test]
fn comparisons_follow_the_raw_values() {
    assert!(f(0.5).lt(f(0.75)));
    assert!(!f(0.75).lt(f(0.75)));
    assert!(f(0.75).le(f(0.75)));
    assert!(f(0.1).is_positive());
    assert!(!Fixed::zero().is_positive());
}
