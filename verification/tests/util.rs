use raytracer::fixed::Fixed;
use raytracer::util::{clamp, degrees_to_radians, random_f64, random_range, PI_RAW};

fn fx(x: f64) -> Fixed {
    Fixed::from_raw((x * 4294967296.0).round() as i64)
}

#[test]
fn random_bounds() {
    for _ in 0..1000 {
        let r = random_f64();
        assert_eq!(true, fx(0.0).le(r));
        assert_eq!(true, r.lt(fx(1.0)));
    }
}

#[test]
fn random_range_bounds() {
    for _ in 0..1000 {
        let min = fx(0.0);
        let max = fx(1.0);
        let r = random_range(min, max);
        assert_eq!(true, min.le(r));
        assert_eq!(true, r.lt(max));
    }
}

#[test]
fn test_clamp() {
    assert_eq!(fx(0.0), clamp(fx(-1.0), fx(0.0), fx(1.0)));
    assert_eq!(fx(1.0), clamp(fx(2.0), fx(0.0), fx(1.0)));
    assert_eq!(fx(0.5), clamp(fx(0.5), fx(0.0), fx(1.0)));
}

#[test]
fn random_numbers_differ() {
    let first = random_f64();
    let mut differs = false;
    for _ in 0..50 {
        if random_f64() != first {
            differs = true;
        }
    }
    assert!(differs);
}

#[test]
fn random_range_keeps_narrow_and_negative_bounds() {
    for _ in 0..200 {
        let r = random_range(fx(-3.0), fx(-2.5));
        assert!(fx(-3.0).le(r) && r.lt(fx(-2.5)));
        let only = random_range(Fixed::from_raw(7), Fixed::from_raw(8));
        assert_eq!(only.raw, 7);
    }
}

#[test]
fn clamp_keeps_the_ends() {
    assert_eq!(fx(0.0), clamp(fx(0.0), fx(0.0), fx(1.0)));
    assert_eq!(fx(1.0), clamp(fx(1.0), fx(0.0), fx(1.0)));
    assert_eq!(fx(0.999), clamp(fx(7.5), fx(0.0), fx(0.999)));
}

#[test]
fn half_a_turn_is_pi() {
    assert_eq!(degrees_to_radians(fx(180.0)).raw, PI_RAW);
    assert_eq!(degrees_to_radians(fx(90.0)).raw, 6746518852);
    assert_eq!(degrees_to_radians(fx(-90.0)).raw, -6746518852);
    assert_eq!(degrees_to_radians(fx(0.0)).raw, 0);
    assert_eq!(degrees_to_radians(Fixed::largest()).raw, 160978210185194154);
}
