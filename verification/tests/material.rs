use raytracer::fixed::{Fixed, ONE_RAW};
use raytracer::material::{
    reflectance, Dielectric, Lambertian, Material, Metal, Sample, ScatterRecord, Surface,
};
use raytracer::ray::Ray;
use raytracer::vector3::Vector3;

fn fx(x: f64) -> Fixed {
    Fixed::from_raw((x * 4294967296.0).round() as i64)
}

fn v(x: f64, y: f64, z: f64) -> Vector3 {
    Vector3::new(fx(x), fx(y), fx(z))
}

fn raw(x: i64, y: i64, z: i64) -> Vector3 {
    Vector3::new(Fixed::from_raw(x), Fixed::from_raw(y), Fixed::from_raw(z))
}

fn sample(point: Vector3, draw: f64) -> Sample {
    Sample { point, draw: fx(draw) }
}

#[test]
fn lambertian_adds_a_direction_to_the_normal() {
    let m = Lambertian::new(v(0.1, 0.2, 0.5));
    let r_in = Ray::new(v(0.0, 0.0, 0.0), v(1.0, -1.0, 0.0));
    let p = v(1.0, 2.0, 3.0);
    let n = v(0.0, 1.0, 0.0);
    let out = m.scatter_with(&r_in, &p, &n, true, &sample(v(0.0, 0.5, 0.0), 0.0)).unwrap();
    assert_eq!(out.attenuation, v(0.1, 0.2, 0.5));
    assert_eq!(out.scattered_ray, Ray::new(p, v(0.0, 2.0, 0.0)));
    let out = m.scatter_with(&r_in, &p, &n, false, &sample(v(0.3, 0.0, 0.4), 0.0)).unwrap();
    assert_eq!(out.scattered_ray.direction, n.plus(&v(0.3, 0.0, 0.4).unit()));
    let out = m.scatter_with(&r_in, &p, &n, true, &sample(v(0.0, 0.0, 0.0), 0.0)).unwrap();
    assert_eq!(out.scattered_ray.direction, v(1.0, 1.0, 0.0));
}

#[test]
fn lambertian_falls_back_to_the_normal() {
    let m = Lambertian::new(v(0.1, 0.2, 0.5));
    let r_in = Ray::new(v(0.0, 0.0, 0.0), v(1.0, -1.0, 0.0));
    let p = v(1.0, 2.0, 3.0);
    let n = v(0.0, 1.0, 0.0);
    let out = m.scatter_with(&r_in, &p, &n, true, &sample(v(0.0, -0.5, 0.0), 0.0)).unwrap();
    assert_eq!(out.scattered_ray.direction, n);
    let nearly = raw(0, ONE_RAW + 42, 0);
    let out = m.scatter_with(&r_in, &p, &nearly, true, &sample(v(0.0, -0.5, 0.0), 0.0)).unwrap();
    assert_eq!(out.scattered_ray.direction, nearly);
    let apart = raw(0, ONE_RAW + 43, 0);
    let out = m.scatter_with(&r_in, &p, &apart, true, &sample(v(0.0, -0.5, 0.0), 0.0)).unwrap();
    assert_eq!(out.scattered_ray.direction, raw(0, 43, 0));
}

#[test]
fn lambertian_always_scatters() {
    let m = Lambertian::new(v(0.1, 0.2, 0.5));
    let r_in = Ray::new(v(0.0, 0.0, 0.0), v(1.0, -1.0, 0.0));
    let p = v(1.0, 2.0, 3.0);
    let n = v(0.6, 0.0, -0.8);
    for _ in 0..300 {
        let out = m.scatter(&r_in, &p, &n, true).unwrap();
        assert_eq!(out.attenuation, v(0.1, 0.2, 0.5));
        assert_eq!(out.scattered_ray.origin, p);
        assert!(!out.scattered_ray.direction.all_zero());
        assert!(!out.scattered_ray.direction.near_zero());
        assert!(out.scattered_ray.direction.length().le(fx(2.001)));
    }
}

#[test]
fn metal_mirrors_the_ray() {
    let m = Metal::new(v(0.8, 0.6, 0.2), fx(0.0));
    let r_in = Ray::new(v(0.0, 1.0, 0.0), v(1.0, -1.0, 0.0));
    let p = v(1.0, 0.0, 0.0);
    let n = v(0.0, 1.0, 0.0);
    let out = m.scatter_with(&r_in, &p, &n, true, &sample(v(0.5, 0.5, 0.5), 0.0)).unwrap();
    assert_eq!(out.attenuation, v(0.8, 0.6, 0.2));
    assert_eq!(out.scattered_ray.origin, p);
    assert_eq!(out.scattered_ray.direction, raw(3037000500, 3037000500, 0));
    for _ in 0..50 {
        assert_eq!(m.scatter(&r_in, &p, &n, true), Some(out));
    }
}

#[test]
fn metal_with_fuzz_moves_the_mirror_direction() {
    let m = Metal::new(v(0.8, 0.6, 0.2), fx(0.5));
    let r_in = Ray::new(v(0.0, 1.0, 0.0), v(1.0, -1.0, 0.0));
    let p = v(1.0, 0.0, 0.0);
    let n = v(0.0, 1.0, 0.0);
    let out = m.scatter_with(&r_in, &p, &n, true, &sample(v(0.0, 0.5, 0.0), 0.0)).unwrap();
    assert_eq!(out.scattered_ray.direction, raw(3037000500, 4110742324, 0));
    for _ in 0..200 {
        if let Some(out) = m.scatter(&r_in, &p, &n, true) {
            assert!(out.scattered_ray.direction.dot(&n).gt(fx(0.0)));
            assert_eq!(out.attenuation, v(0.8, 0.6, 0.2));
            let moved = out.scattered_ray.direction.minus(&raw(3037000500, 3037000500, 0));
            assert!(moved.length().le(fx(0.5)));
        }
    }
}

#[test]
fn metal_absorbs_what_would_go_into_the_surface() {
    let m = Metal::new(v(0.8, 0.6, 0.2), fx(0.0));
    let p = v(1.0, 0.0, 0.0);
    let n = v(0.0, 1.0, 0.0);
    let leaving = Ray::new(v(0.0, -1.0, 0.0), v(0.0, 1.0, 0.0));
    assert_eq!(m.scatter_with(&leaving, &p, &n, true, &sample(v(0.0, 0.0, 0.0), 0.0)), None);
    let along = Ray::new(v(0.0, 0.0, 0.0), v(1.0, 0.0, 0.0));
    assert_eq!(m.scatter_with(&along, &p, &n, true, &sample(v(0.0, 0.0, 0.0), 0.0)), None);
    let fuzzy = Metal::new(v(0.8, 0.6, 0.2), fx(1.0));
    let grazing = Ray::new(v(0.0, 0.0, 0.0), v(1.0, -0.01, 0.0));
    assert_eq!(fuzzy.scatter_with(&grazing, &p, &n, true, &sample(v(0.0, -0.5, 0.0), 0.0)), None);
    assert!(fuzzy.scatter_with(&grazing, &p, &n, true, &sample(v(0.0, 0.5, 0.0), 0.0)).is_some());
}

#[test]
fn reflectance_by_schlick() {
    assert_eq!(reflectance(fx(1.0), fx(1.5)).raw, 171798691);
    assert!((reflectance(fx(1.0), fx(1.5)).raw - fx(0.04).raw).abs() <= 2);
    assert_eq!(reflectance(fx(0.5), fx(1.5)).raw, 300647709);
    assert_eq!(reflectance(fx(0.0), fx(1.5)), fx(1.0));
    assert_eq!(reflectance(fx(1.0), fx(1.0)), fx(0.0));
    assert_eq!(reflectance(fx(0.0), fx(1.0)), fx(1.0));
}

#[test]
fn dielectric_of_the_same_index_lets_the_ray_through() {
    let m = Dielectric::new(fx(1.0));
    assert_eq!(m.index(), fx(1.0));
    let r_in = Ray::new(v(0.0, 0.0, 1.0), v(0.0, 0.0, -2.0));
    let p = v(0.0, 0.0, 0.0);
    let n = v(0.0, 0.0, 1.0);
    let straight = ScatterRecord {
        attenuation: v(1.0, 1.0, 1.0),
        scattered_ray: Ray::new(p, v(0.0, 0.0, -1.0)),
    };
    for draw in [0.0, 0.3, 0.999] {
        for front_face in [true, false] {
            let point = v(0.1, 0.2, 0.3);
            assert_eq!(m.scatter_with(&r_in, &p, &n, front_face, &sample(point, draw)), Some(straight));
        }
    }
    for _ in 0..200 {
        assert_eq!(m.scatter(&r_in, &p, &n, true), Some(straight));
    }
    let slanted = Ray::new(v(0.0, 0.0, 0.0), v(1.0, 1.0, 0.0));
    let against = v(1.0, 1.0, 0.0).unit().negated();
    let out = m.scatter_with(&slanted, &p, &against, true, &sample(p, 0.0)).unwrap();
    assert_eq!(out.scattered_ray.direction, v(1.0, 1.0, 0.0).unit());
}

#[test]
fn dielectric_reflects_or_refracts_by_the_draw() {
    let m = Dielectric::new(fx(1.5));
    let r_in = Ray::new(v(-1.0, 1.0, 0.0), v(1.0, -1.0, 0.0));
    let p = v(0.0, 0.0, 0.0);
    let n = v(0.0, 1.0, 0.0);
    // The surface reflects a share of 180686151 / 2^32, about 0.042.
    let reflected = m.scatter_with(&r_in, &p, &n, true, &sample(p, 0.01)).unwrap();
    assert_eq!(reflected.attenuation, v(1.0, 1.0, 1.0));
    assert_eq!(reflected.scattered_ray.origin, p);
    assert_eq!(reflected.scattered_ray.direction, raw(3037000500, 3037000500, 0));
    let refracted = m.scatter_with(&r_in, &p, &n, true, &sample(p, 0.5)).unwrap();
    assert_eq!(refracted.attenuation, v(1.0, 1.0, 1.0));
    assert_eq!(refracted.scattered_ray.direction, raw(2024666999, -3787805119, 0));
    let at_the_share = Sample { point: p, draw: Fixed::from_raw(180686151) };
    assert_eq!(m.scatter_with(&r_in, &p, &n, true, &at_the_share), Some(refracted));
    let below_the_share = Sample { point: p, draw: Fixed::from_raw(180686150) };
    assert_eq!(m.scatter_with(&r_in, &p, &n, true, &below_the_share), Some(reflected));
    for _ in 0..200 {
        let out = m.scatter(&r_in, &p, &n, true);
        assert!(out == Some(reflected) || out == Some(refracted));
    }
}

#[test]
fn dielectric_reflects_where_it_cannot_refract() {
    let m = Dielectric::new(fx(1.5));
    let r_in = Ray::new(v(-1.0, 0.1, 0.0), v(1.0, -0.1, 0.0));
    let p = v(0.0, 0.0, 0.0);
    let n = v(0.0, 1.0, 0.0);
    let out = m.scatter_with(&r_in, &p, &n, false, &sample(p, 0.999)).unwrap();
    assert_eq!(out.scattered_ray.direction, raw(4273652190, 427365219, 0));
    assert_eq!(out.scattered_ray.direction, v(1.0, -0.1, 0.0).unit().reflect(&n));
    for _ in 0..100 {
        assert_eq!(m.scatter(&r_in, &p, &n, false), Some(out));
    }
}

#[test]
fn surface_scatters_as_its_material() {
    let r_in = Ray::new(v(-1.0, 1.0, 0.0), v(1.0, -1.0, 0.0));
    let p = v(0.0, 0.0, 0.0);
    let n = v(0.0, 1.0, 0.0);
    let s = sample(v(0.1, 0.2, 0.3), 0.5);
    let matte = Lambertian::new(v(0.1, 0.2, 0.5));
    let metal = Metal::new(v(0.8, 0.6, 0.2), fx(0.3));
    let glass = Dielectric::new(fx(1.5));
    assert_eq!(
        Surface::Lambertian(matte).scatter_with(&r_in, &p, &n, true, &s),
        matte.scatter_with(&r_in, &p, &n, true, &s)
    );
    assert_eq!(
        Surface::Metal(metal).scatter_with(&r_in, &p, &n, true, &s),
        metal.scatter_with(&r_in, &p, &n, true, &s)
    );
    assert_eq!(
        Surface::Dielectric(glass).scatter_with(&r_in, &p, &n, true, &s),
        glass.scatter_with(&r_in, &p, &n, true, &s)
    );
    assert!(Surface::Lambertian(matte).scatter(&r_in, &p, &n, true).is_some());
    assert!(Surface::Dielectric(glass).scatter(&r_in, &p, &n, true).is_some());
}

#[test]
fn random_samples_are_valid() {
    for _ in 0..200 {
        let s = Sample::new_random();
        assert!(s.point.is_inside_unit_ball());
        assert!(fx(0.0).le(s.draw) && s.draw.lt(fx(1.0)));
    }
}
