use raytracer::fixed::{isqrt_u128, sum3_div, trunc_div_i128, wide_mul, Fixed, ONE_RAW};

fn fx(x: f64) -> Fixed {
    Fixed::from_raw((x * 4294967296.0).round() as i64)
}

#[test]
fn one_is_two_to_the_thirty_second() {
    assert_eq!(ONE_RAW, 4294967296);
    assert_eq!(Fixed::one().raw, 4294967296);
    assert_eq!(Fixed::zero().raw, 0);
    assert_eq!(Fixed::largest().raw, i64::MAX);
}

#[test]
fn whole_numbers_and_fractions() {
    assert_eq!(Fixed::from_int(3), fx(3.0));
    assert_eq!(Fixed::from_int(-1000), fx(-1000.0));
    assert_eq!(Fixed::from_int(i32::MIN).raw, i64::MIN);
    assert_eq!(Fixed::from_ratio(1, 2), fx(0.5));
    assert_eq!(Fixed::from_ratio(1, 3).raw, 1431655765);
    assert_eq!(Fixed::from_ratio(-1, 3).raw, -1431655765);
    assert_eq!(Fixed::from_ratio(1, -3).raw, -1431655765);
    assert_eq!(Fixed::from_ratio(i32::MIN, -1).raw, i64::MAX);
}

#[test]
fn sums_saturate() {
    assert_eq!(fx(1.5).plus(fx(2.25)), fx(3.75));
    assert_eq!(fx(1.5).minus(fx(2.25)), fx(-0.75));
    assert_eq!(Fixed::largest().plus(fx(1.0)), Fixed::largest());
    assert_eq!(Fixed::from_raw(i64::MIN).minus(fx(1.0)).raw, i64::MIN);
    assert_eq!(Fixed::from_raw(i64::MIN).negated().raw, i64::MAX);
    assert_eq!(Fixed::from_raw(i64::MIN).abs().raw, i64::MAX);
    assert_eq!(fx(-2.5).abs(), fx(2.5));
    assert_eq!(fx(2.5).negated(), fx(-2.5));
}

#[test]
fn products_round_towards_zero() {
    assert_eq!(fx(1.5).times(fx(-2.0)), fx(-3.0));
    assert_eq!(Fixed::from_raw(3).times(fx(0.5)).raw, 1);
    assert_eq!(Fixed::from_raw(-3).times(fx(0.5)).raw, -1);
    assert_eq!(Fixed::from_raw(1).times(Fixed::from_raw(1)).raw, 0);
    assert_eq!(Fixed::largest().times(fx(2.0)), Fixed::largest());
    assert_eq!(Fixed::largest().times(fx(-2.0)).raw, i64::MIN);
}

#[test]
fn quotients_round_towards_zero() {
    assert_eq!(fx(1.0).divided_by(fx(3.0)).raw, 1431655765);
    assert_eq!(fx(-1.0).divided_by(fx(3.0)).raw, -1431655765);
    assert_eq!(fx(1.0).divided_by(fx(-3.0)).raw, -1431655765);
    assert_eq!(fx(7.0).divided_by(fx(2.0)), fx(3.5));
    assert_eq!(fx(1000.0).divided_by(Fixed::from_raw(1)), Fixed::largest());
}

#[test]
fn roots_round_down() {
    assert_eq!(fx(4.0).sqrt(), fx(2.0));
    assert_eq!(fx(0.25).sqrt(), fx(0.5));
    assert_eq!(fx(2.0).sqrt().raw, 6074000999);
    assert_eq!(Fixed::zero().sqrt(), Fixed::zero());
    assert_eq!(Fixed::from_raw(1).sqrt().raw, 65536);
    let root = Fixed::largest().sqrt().raw as i128;
    let square = (i64::MAX as i128) << 32;
    assert!(root * root <= square && square < (root + 1) * (root + 1));
}

#[test]
fn order() {
    assert!(fx(1.0).lt(fx(2.0)));
    assert!(!fx(2.0).lt(fx(2.0)));
    assert!(fx(2.0).le(fx(2.0)));
    assert!(fx(3.0).gt(fx(2.0)));
    assert!(fx(2.0).ge(fx(2.0)));
    assert_eq!(fx(1.0).min(fx(2.0)), fx(1.0));
    assert_eq!(fx(1.0).max(fx(2.0)), fx(2.0));
}

#[test]
fn integer_roots() {
    assert_eq!(isqrt_u128(0), 0);
    assert_eq!(isqrt_u128(1), 1);
    assert_eq!(isqrt_u128(3), 1);
    assert_eq!(isqrt_u128(4), 2);
    assert_eq!(isqrt_u128(99), 9);
    assert_eq!(isqrt_u128(1 << 64), 1 << 32);
    assert_eq!(isqrt_u128(u128::MAX), u64::MAX);
}

#[test]
fn wide_sums() {
    assert_eq!(wide_mul(i64::MIN, i64::MIN), 1i128 << 126);
    assert_eq!(wide_mul(-3, 5), -15);
    let top = 1i128 << 126;
    assert_eq!(sum3_div(top, top, top), i64::MAX);
    assert_eq!(sum3_div(-top, -top, -top), i64::MIN);
    assert_eq!(sum3_div(top, -top, 5 << 32), 5);
    assert_eq!(sum3_div(1, 1, -3), 0);
    assert_eq!(sum3_div((1 << 32) - 1, 1, 0), 1);
    assert_eq!(sum3_div(-(1 << 32) + 1, -1, 0), -1);
    assert_eq!(sum3_div(3 << 32, -1, 0), 2);
    assert_eq!(sum3_div(-(3 << 32), 1, 0), -2);
    assert_eq!(trunc_div_i128(-7, 2), -3);
    assert_eq!(trunc_div_i128(7, -2), -3);
    assert_eq!(trunc_div_i128(-7, -2), 3);
}

#[test]
fn operators_on_numbers() {
    assert_eq!(fx(1.5) + fx(2.0), fx(3.5));
    assert_eq!(fx(1.5) - fx(2.0), fx(-0.5));
    assert_eq!(fx(1.5) * fx(2.0), fx(3.0));
    assert_eq!(fx(1.5) / fx(2.0), fx(0.75));
    assert_eq!(-fx(1.5), fx(-1.5));
}
