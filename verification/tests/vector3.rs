use raytracer::fixed::{Fixed, ONE_RAW};
use raytracer::vector3::Vector3;

fn fx(x: f64) -> Fixed {
    Fixed::from_raw((x * 4294967296.0).round() as i64)
}

fn v(x: f64, y: f64, z: f64) -> Vector3 {
    Vector3::new(fx(x), fx(y), fx(z))
}

fn close(a: Vector3, b: Vector3, raw_tolerance: i64) -> bool {
    (a.x.raw - b.x.raw).abs() <= raw_tolerance
        && (a.y.raw - b.y.raw).abs() <= raw_tolerance
        && (a.z.raw - b.z.raw).abs() <= raw_tolerance
}

#[test]
fn dot() {
    assert_eq!(fx(26.0), v(1.0, 2.0, 3.0).dot(&v(3.0, 4.0, 5.0)));
}

#[test]
fn length() {
    assert_eq!(fx(1.0), v(1.0, 0.0, 0.0).length());
    assert_eq!(fx(2.0), v(0.0, 2.0, 0.0).length());
    assert_eq!(fx(3.0), v(0.0, 0.0, 3.0).length());
}

#[test]
fn length_squared() {
    assert_eq!(fx(1.0), v(1.0, 0.0, 0.0).length_squared());
    assert_eq!(fx(4.0), v(0.0, 2.0, 0.0).length_squared());
    assert_eq!(fx(9.0), v(0.0, 0.0, 3.0).length_squared());
}

#[test]
fn unit() {
    assert_eq!(v(1.0, 0.0, 0.0), v(1.0, 0.0, 0.0).unit());
    assert_eq!(v(0.0, 1.0, 0.0), v(0.0, 2.0, 0.0).unit());
    assert_eq!(v(0.0, 0.0, 1.0), v(0.0, 0.0, 3.0).unit());
}

#[test]
fn reflect() {
    assert_eq!(v(-1.0, 0.0, 0.0), v(1.0, 0.0, 0.0).reflect(&v(1.0, 0.0, 0.0)));
    assert_eq!(v(-3.0, -3.0, 0.0), v(1.0, 1.0, 0.0).reflect(&v(1.0, 1.0, 0.0)));
    assert_eq!(v(-5.0, -5.0, -5.0), v(1.0, 1.0, 1.0).reflect(&v(1.0, 1.0, 1.0)));
}

#[test]
fn refract() {
    assert_eq!(v(-1.0, 0.0, 0.0), v(1.0, 0.0, 0.0).refract(&v(1.0, 0.0, 0.0), fx(1.0)));
    assert_eq!(v(-2.0, -2.0, 0.0), v(1.0, 1.0, 0.0).refract(&v(1.0, 1.0, 0.0), fx(1.0)));
    let bent = v(1.0, 1.0, 1.0).refract(&v(1.0, 1.0, 1.0), fx(1.4));
    assert!(close(
        v(-7.545524207081868, -7.545524207081868, -7.545524207081868),
        bent,
        4
    ));
}

#[test]
fn cross() {
    assert_eq!(v(0.0, -1.0, 0.0), v(1.0, 0.0, 0.0).cross(&v(1.0, 0.0, 1.0)));
    assert_eq!(v(-2.0, 7.0, -4.0), v(1.0, 2.0, 3.0).cross(&v(3.0, 2.0, 2.0)));
}

#[test]
fn refract_rounds_as_stated() {
    let bent = v(1.0, 1.0, 1.0).refract(&v(1.0, 1.0, 1.0), fx(1.4));
    assert_eq!(bent.x.raw, -32407779698);
    assert_eq!(bent.y.raw, -32407779698);
    assert_eq!(bent.z.raw, -32407779698);
}

#[test]
fn sums_and_products_of_vectors() {
    let a = v(1.0, 2.0, 3.0);
    let b = v(0.5, -1.0, 4.0);
    assert_eq!(a.plus(&b), v(1.5, 1.0, 7.0));
    assert_eq!(a.minus(&b), v(0.5, 3.0, -1.0));
    assert_eq!(a.negated(), v(-1.0, -2.0, -3.0));
    assert_eq!(a.scaled(fx(2.0)), v(2.0, 4.0, 6.0));
    assert_eq!(a.hadamard(&b), v(0.5, -2.0, 12.0));
    assert_eq!(a.divided_by(fx(2.0)), v(0.5, 1.0, 1.5));
    assert_eq!(a + b, v(1.5, 1.0, 7.0));
    assert_eq!(a - b, v(0.5, 3.0, -1.0));
    assert_eq!(-a, v(-1.0, -2.0, -3.0));
    assert_eq!(a * b, v(0.5, -2.0, 12.0));
    assert_eq!(a * fx(2.0), v(2.0, 4.0, 6.0));
    assert_eq!(fx(2.0) * a, v(2.0, 4.0, 6.0));
    assert_eq!(a / fx(2.0), v(0.5, 1.0, 1.5));
}

#[test]
fn dot_rounds_once() {
    // Each product alone rounds to zero; their sum does not.
    let a = Vector3::new(Fixed::from_raw(65536), Fixed::from_raw(65536), Fixed::from_raw(0));
    let b = Vector3::new(Fixed::from_raw(32768), Fixed::from_raw(32768), Fixed::from_raw(0));
    assert_eq!(a.dot(&b).raw, 1);
    let huge = Vector3::new(Fixed::largest(), Fixed::largest(), Fixed::largest());
    assert_eq!(huge.dot(&huge), Fixed::largest());
    assert_eq!(huge.dot(&huge.negated()).raw, i64::MIN);
}

#[test]
fn length_of_a_triangle() {
    assert_eq!(fx(5.0), v(3.0, 4.0, 0.0).length());
    assert_eq!(fx(25.0), v(3.0, 4.0, 0.0).length_squared());
    assert_eq!(v(1.0, 1.0, 0.0).length().raw, 6074000999);
    let tiny = Vector3::new(Fixed::from_raw(3), Fixed::from_raw(4), Fixed::from_raw(0));
    assert_eq!(tiny.length().raw, 5);
    assert_eq!(tiny.length_squared().raw, 0);
}

#[test]
fn length_squared_lies_between_squares_of_length() {
    let samples = [
        v(1.0, 1.0, 0.0),
        v(0.3, -0.2, 0.9),
        v(1000.0, -1000.5, 3.25),
        Vector3::new(Fixed::from_raw(7), Fixed::from_raw(-9), Fixed::from_raw(11)),
        Vector3::new(Fixed::largest(), Fixed::from_raw(0), Fixed::from_raw(0)),
    ];
    for s in samples {
        let len = s.length();
        let next = Fixed::from_raw(len.raw.saturating_add(1));
        assert!(len.times(len).le(s.length_squared()));
        assert!(s.length_squared().le(next.times(next)));
    }
}

#[test]
fn unit_has_length_one_within_tolerance() {
    let samples = [
        v(1.0, 1.0, 0.0),
        v(0.3, -0.2, 0.9),
        v(1000.0, -1000.5, 3.25),
        v(-2.0e9, 1.5e9, 1.0e9),
        Vector3::new(Fixed::from_raw(1), Fixed::from_raw(1), Fixed::from_raw(1)),
        Vector3::new(Fixed::from_raw(0), Fixed::from_raw(-1), Fixed::from_raw(0)),
        Vector3::new(Fixed::from_raw(i64::MIN), Fixed::from_raw(i64::MIN), Fixed::largest()),
    ];
    for s in samples {
        let u = s.unit();
        let off = u.length_squared().raw - ONE_RAW;
        assert!(-7 <= off && off <= 4, "{:?} {}", s, off);
        assert!(u.x.raw.abs() <= ONE_RAW && u.y.raw.abs() <= ONE_RAW && u.z.raw.abs() <= ONE_RAW);
    }
}

#[test]
fn unit_of_short_and_long_vectors() {
    assert_eq!(v(3.0, 4.0, 0.0).unit().x.raw, 2576980377);
    assert_eq!(v(3.0, 4.0, 0.0).unit().y.raw, 3435973836);
    let tiny = Vector3::new(Fixed::from_raw(1), Fixed::from_raw(1), Fixed::from_raw(1));
    assert_eq!(tiny.unit().x.raw, 2479700524);
    let axis = Vector3::new(Fixed::from_raw(0), Fixed::from_raw(-5), Fixed::from_raw(0));
    assert_eq!(axis.unit(), v(0.0, -1.0, 0.0));
}

#[test]
fn reflect_turns_the_part_along_the_normal() {
    let n = v(1.0, 2.0, 2.0).unit();
    let incoming = [v(3.0, -1.0, 0.5), v(0.1, 0.2, 0.3), v(-40.0, 12.0, 7.5), v(0.0, 0.0, 0.0)];
    for a in incoming {
        let before = a.dot(&n).raw;
        let after = a.reflect(&n).dot(&n).raw;
        let whole = before.abs() / ONE_RAW;
        assert!((after + before).abs() <= 22 + 16 * whole, "{:?}", a);
    }
}

#[test]
fn near_zero_means_below_a_hundred_millionth() {
    assert!(v(0.0, 0.0, 0.0).near_zero());
    assert!(Vector3::new(Fixed::from_raw(42), Fixed::from_raw(-42), Fixed::from_raw(0)).near_zero());
    assert!(!Vector3::new(Fixed::from_raw(43), Fixed::from_raw(0), Fixed::from_raw(0)).near_zero());
    assert!(!Vector3::new(Fixed::from_raw(0), Fixed::from_raw(0), Fixed::from_raw(-43)).near_zero());
    assert!(!v(1.0e-8, 0.0, 0.0).near_zero());
    assert!(v(0.9e-8, 0.9e-8, -0.9e-8).near_zero());
    assert!(v(0.0, 0.0, 0.0).all_zero());
    assert!(!Vector3::new(Fixed::from_raw(0), Fixed::from_raw(1), Fixed::from_raw(0)).all_zero());
}

#[test]
fn random_vectors_keep_their_bounds() {
    for _ in 0..200 {
        let r = Vector3::new_random(fx(-2.0), fx(3.0));
        for c in [r.x, r.y, r.z] {
            assert!(fx(-2.0).le(c) && c.lt(fx(3.0)));
        }
        let p = Vector3::new_random_in_unit_sphere();
        assert!(p.length_squared().lt(fx(1.0)));
        assert!(p.is_inside_unit_ball());
        let d = Vector3::new_random_in_unit_disk();
        assert!(d.length_squared().lt(fx(1.0)));
        assert_eq!(d.z, fx(0.0));
        let u = Vector3::new_random_unit_vector();
        assert!((u.length_squared().raw - ONE_RAW).abs() <= 7);
        let n = v(0.0, 1.0, 0.0);
        let h = Vector3::new_random_in_hemisphere(&n);
        assert!(h.dot(&n).ge(fx(0.0)));
        assert!(h.length_squared().lt(fx(1.0)));
    }
}

#[test]
fn random_vectors_differ() {
    let first = Vector3::new_random(fx(0.0), fx(1.0));
    let mut differs = false;
    for _ in 0..50 {
        if Vector3::new_random(fx(0.0), fx(1.0)) != first {
            differs = true;
        }
    }
    assert!(differs);
}

#[test]
fn first_candidate_inside_the_ball_is_taken() {
    let outside = v(0.9, 0.9, 0.9);
    let inside = v(0.5, 0.5, 0.5);
    let also_inside = v(0.1, 0.0, 0.0);
    assert_eq!(Vector3::first_inside_unit_ball(&vec![outside, inside, also_inside]), inside);
    assert_eq!(Vector3::first_inside_unit_ball(&vec![outside, outside]), v(0.0, 0.0, 0.0));
    assert_eq!(Vector3::first_inside_unit_ball(&vec![]), v(0.0, 0.0, 0.0));
    assert!(!v(1.0, 0.0, 0.0).is_inside_unit_ball());
    assert!(Vector3::new(Fixed::from_raw(ONE_RAW - 1), fx(0.0), fx(0.0)).is_inside_unit_ball());
}

#[test]
fn direction_of_a_point() {
    assert_eq!(v(0.0, 0.0, 0.0).direction_of(), v(1.0, 0.0, 0.0));
    assert_eq!(v(0.0, 0.5, 0.0).direction_of(), v(0.0, 1.0, 0.0));
    assert_eq!(v(0.3, 0.4, 0.0).toward(&v(-1.0, 0.0, 0.0)), v(-0.3, -0.4, 0.0));
    assert_eq!(v(0.3, 0.4, 0.0).toward(&v(1.0, 0.0, 0.0)), v(0.3, 0.4, 0.0));
    assert_eq!(v(0.0, 0.4, 0.0).toward(&v(1.0, 0.0, 0.0)), v(0.0, -0.4, 0.0));
}
