use raytracer::camera::Camera;
use raytracer::fixed::{Fixed, ONE_RAW};
use raytracer::hittable_list::HittableList;
use raytracer::material::{Dielectric, Lambertian, Metal, Sample, Surface};
use raytracer::ray::Ray;
use raytracer::render::{
    pixel_color, pixel_color_with, ray_color, ray_color_with, sample_color, sample_color_with,
    sample_coordinate, sky_color, Pixel, PixelSample, HALF_RAW, SKY_GREEN_RAW, T_MIN_RAW,
};
use raytracer::sphere::Sphere;
use raytracer::vector3::Vector3;

fn fx(x: f64) -> Fixed {
    Fixed::from_raw((x * 4294967296.0).round() as i64)
}

fn v(x: f64, y: f64, z: f64) -> Vector3 {
    Vector3::new(fx(x), fx(y), fx(z))
}

fn raw(x: i64, y: i64, z: i64) -> Vector3 {
    Vector3::new(Fixed::from_raw(x), Fixed::from_raw(y), Fixed::from_raw(z))
}

fn black() -> Vector3 {
    v(0.0, 0.0, 0.0)
}

fn one_sphere() -> HittableList {
    let mut world = HittableList::new();
    world.add_sphere(Sphere::new(
        v(0.0, 0.0, -1.0),
        fx(0.5),
        Surface::Lambertian(Lambertian::new(v(0.1, 0.2, 0.5))),
    ));
    world
}

fn mixed_scene() -> HittableList {
    let mut world = one_sphere();
    world.add_sphere(Sphere::new(
        v(0.0, -100.5, -1.0),
        fx(100.0),
        Surface::Lambertian(Lambertian::new(v(0.8, 0.8, 0.0))),
    ));
    world.add_sphere(Sphere::new(
        v(-1.0, 0.0, -1.0),
        fx(0.5),
        Surface::Dielectric(Dielectric::new(fx(1.5))),
    ));
    world.add_sphere(Sphere::new(
        v(-1.0, 0.0, -1.0),
        fx(-0.4),
        Surface::Dielectric(Dielectric::new(fx(1.5))),
    ));
    world.add_sphere(Sphere::new(
        v(1.0, 0.0, -1.0),
        fx(0.5),
        Surface::Metal(Metal::new(v(0.8, 0.6, 0.2), fx(0.0))),
    ));
    world
}

fn pinhole() -> Camera {
    Camera::new(
        v(0.0, 0.0, 0.0),
        v(0.0, 0.0, -1.0),
        v(0.0, 1.0, 0.0),
        fx(1.0),
        fx(2.0),
        fx(0.0),
        fx(1.0),
    )
}

fn still(point: Vector3) -> Sample {
    Sample { point, draw: fx(0.0) }
}

#[test]
fn constants_of_the_integrator() {
    assert_eq!(T_MIN_RAW, (0.001f64 * 4294967296.0) as i64);
    assert_eq!(HALF_RAW * 2, ONE_RAW);
    assert_eq!(SKY_GREEN_RAW, (0.7f64 * 4294967296.0) as i64);
}

#[test]
fn sky_blends_white_and_blue() {
    assert_eq!(sky_color(&v(0.0, 1.0, 0.0)), raw(HALF_RAW, SKY_GREEN_RAW, ONE_RAW));
    assert_eq!(sky_color(&v(0.0, 7.0, 0.0)), raw(HALF_RAW, SKY_GREEN_RAW, ONE_RAW));
    assert_eq!(sky_color(&v(0.0, -1.0, 0.0)), v(1.0, 1.0, 1.0));
    assert_eq!(sky_color(&v(1.0, 0.0, 0.0)), raw(3221225472, 3650722201, 4294967296));
    assert_eq!(sky_color(&v(1.0, 1.0, 0.0)), raw(2461975347, 3195172126, 4294967296));
    assert_eq!(sky_color(&v(0.0, 0.0, 0.0)), black());
}

#[test]
fn depth_zero_is_black() {
    let rays = [
        Ray::new(v(0.0, 0.0, 0.0), v(0.0, 0.0, -1.0)),
        Ray::new(v(0.0, 0.0, 0.0), v(0.0, 1.0, 0.0)),
        Ray::new(v(3.0, 1.0, 2.0), v(-1.0, 0.2, 0.5)),
    ];
    for world in [HittableList::new(), one_sphere(), mixed_scene()] {
        for r in &rays {
            assert_eq!(ray_color(r, &world, 0), black());
            assert_eq!(ray_color_with(r, &world, 0, &vec![]), black());
            assert_eq!(ray_color_with(r, &world, 0, &vec![still(black())]), black());
        }
    }
}

#[test]
fn empty_scene_shows_the_sky() {
    let world = HittableList::new();
    let directions =
        [v(0.0, 1.0, 0.0), v(0.0, -1.0, 0.0), v(1.0, 0.0, 0.0), v(-0.3, 0.2, -1.0), v(0.0, 0.0, 0.0)];
    for d in directions {
        let r = Ray::new(v(0.5, 0.5, 0.5), d);
        for depth in [1u8, 2, 50] {
            assert_eq!(ray_color(&r, &world, depth), sky_color(&d));
        }
        assert_eq!(ray_color_with(&r, &world, 1, &vec![still(black())]), sky_color(&d));
    }
}

#[test]
fn background_render_is_the_sky_gradient() {
    let world = HittableList::new();
    let camera = pinhole();
    let (width, height) = (8, 4);
    for y in 0..height {
        for x in 0..width {
            let pixel = Pixel { x, y, width, height };
            let sample = PixelSample {
                jitter_x: fx(0.5),
                jitter_y: fx(0.5),
                lens: black(),
                bounces: vec![still(black())],
            };
            let u = fx((x as f64 + 0.5) / width as f64);
            let w = fx((y as f64 + 0.5) / height as f64);
            let expected = sky_color(&camera.get_ray_with(u, w, &black()).direction);
            assert_eq!(sample_color_with(&camera, &world, pixel, 1, &sample), expected);
            assert_eq!(pixel_color_with(&camera, &world, pixel, 1, &vec![sample]), expected);
        }
    }
    // By the formula itself: half a turn up from the horizon is all blue.
    let up = Camera::new(
        v(0.0, 0.0, 0.0),
        v(0.0, 1.0, 0.0),
        v(0.0, 0.0, 1.0),
        fx(1.0),
        fx(1.0),
        fx(0.0),
        fx(1.0),
    );
    let pixel = Pixel { x: 0, y: 0, width: 1, height: 1 };
    for _ in 0..20 {
        let c = sample_color(&up, &world, pixel, 1);
        assert!(c.z == fx(1.0) && c.x.lt(fx(0.75)) && c.y.lt(fx(0.85)));
    }
    let centered = PixelSample {
        jitter_x: fx(0.5),
        jitter_y: fx(0.5),
        lens: black(),
        bounces: vec![still(black())],
    };
    assert_eq!(
        sample_color_with(&up, &world, pixel, 1, &centered),
        raw(HALF_RAW, SKY_GREEN_RAW, ONE_RAW)
    );
}

#[test]
fn single_sphere_through_its_center() {
    let world = one_sphere();
    let camera = pinhole();
    let pixel = Pixel { x: 1, y: 1, width: 3, height: 3 };
    let sample = PixelSample {
        jitter_x: fx(0.5),
        jitter_y: fx(0.5),
        lens: black(),
        bounces: vec![still(v(0.0, 0.5, 0.0)), still(black())],
    };
    let u = sample_coordinate(1, fx(0.5), 3);
    let r = camera.get_ray_with(u, u, &black());
    assert_eq!(r.direction, v(0.0, 0.0, -1.0));
    // With one scattering allowed the ray ends on the sphere.
    assert_eq!(sample_color_with(&camera, &world, pixel, 1, &sample), black());
    for _ in 0..20 {
        assert_eq!(ray_color(&r, &world, 1), black());
    }
    // With two, the sphere tints the sky that the scattered ray sees.
    let scattered = v(0.0, 0.0, 1.0).plus(&v(0.0, 1.0, 0.0));
    let expected = v(0.1, 0.2, 0.5).hadamard(&sky_color(&scattered));
    assert_eq!(sample_color_with(&camera, &world, pixel, 2, &sample), expected);
    assert_eq!(ray_color_with(&r, &world, 2, &sample.bounces), expected);
    for _ in 0..20 {
        let c = ray_color(&r, &world, 2);
        assert!(c.x.le(fx(0.1)) && c.y.le(fx(0.2)) && c.z.le(fx(0.5)));
        assert!(c.x.ge(fx(0.05) ) && c.y.ge(fx(0.13)) && c.z.ge(fx(0.49)));
    }
}

#[test]
fn ray_color_follows_the_samples() {
    let world = mixed_scene();
    // Off the metal sphere into the sky.
    let r = Ray::new(v(1.0, 1.0, -1.0), v(0.0, -1.0, 0.0));
    let samples = vec![still(black()), still(black())];
    let mirrored = v(0.8, 0.6, 0.2).hadamard(&sky_color(&v(0.0, 1.0, 0.0)));
    assert_eq!(ray_color_with(&r, &world, 2, &samples), mirrored);
    assert_eq!(ray_color(&r, &world, 2), mirrored);
    assert_eq!(ray_color_with(&r, &world, 1, &samples), black());
    // Down onto the ground and up into the sky.
    let r = Ray::new(v(5.0, 1.0, -1.0), v(0.0, -1.0, 0.0));
    let up = vec![still(v(0.0, 0.5, 0.0)), still(v(0.0, 0.5, 0.0)), still(black())];
    let c = ray_color_with(&r, &world, 3, &up);
    assert_eq!(c.z, fx(0.0));
    assert!((c.x.raw - fx(0.4).raw).abs() < fx(0.001).raw, "{:?}", c);
    assert!((c.y.raw - fx(0.56).raw).abs() < fx(0.001).raw, "{:?}", c);
}

#[test]
fn coordinates_of_samples() {
    assert_eq!(sample_coordinate(3, fx(0.5), 4), fx(0.875));
    assert_eq!(sample_coordinate(0, fx(0.0), 400), fx(0.0));
    assert_eq!(sample_coordinate(399, fx(0.0), 400).raw, 4284229877);
    assert_eq!(sample_coordinate(1, fx(0.5), 3), fx(0.5));
    assert_eq!(sample_coordinate(-1, fx(0.5), 2), fx(-0.25));
}

#[test]
fn pixel_color_adds_the_samples() {
    let world = HittableList::new();
    let camera = pinhole();
    let pixel = Pixel { x: 2, y: 1, width: 4, height: 2 };
    let at = |jx: f64, jy: f64| PixelSample {
        jitter_x: fx(jx),
        jitter_y: fx(jy),
        lens: black(),
        bounces: vec![still(black())],
    };
    let first = sample_color_with(&camera, &world, pixel, 1, &at(0.25, 0.75));
    let second = sample_color_with(&camera, &world, pixel, 1, &at(0.5, 0.0));
    assert!(first != second);
    assert_eq!(pixel_color_with(&camera, &world, pixel, 1, &vec![]), black());
    assert_eq!(
        pixel_color_with(&camera, &world, pixel, 1, &vec![at(0.25, 0.75), at(0.5, 0.0)]),
        first.plus(&second)
    );
    assert_eq!(pixel_color(&camera, &world, pixel, 0, 5), black());
    assert_eq!(pixel_color(&camera, &world, pixel, 7, 0), black());
    let sum = pixel_color(&camera, &world, pixel, 10, 5);
    assert_eq!(sum.z, fx(10.0));
    assert!(sum.x.ge(fx(5.0)) && sum.x.le(fx(10.0)));
}

#[test]
fn rendered_colors_stay_between_black_and_white() {
    let world = mixed_scene();
    let camera = Camera::new(
        v(0.0, 0.0, 0.0),
        v(0.0, 0.0, -1.0),
        v(0.0, 1.0, 0.0),
        fx(1.0),
        fx(16.0 / 9.0),
        fx(0.1),
        fx(1.0),
    );
    let (width, height) = (12, 7);
    for y in 0..height {
        for x in 0..width {
            let c = pixel_color(&camera, &world, Pixel { x, y, width, height }, 3, 8);
            for channel in [c.x, c.y, c.z] {
                assert!(channel.ge(fx(0.0)) && channel.le(fx(3.0)), "{:?}", c);
            }
        }
    }
}
