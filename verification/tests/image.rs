use raytracer::camera::Camera;
use raytracer::fixed::Fixed;
use raytracer::hittable_list::HittableList;
use raytracer::image::{render, write_row};
use raytracer::material::{Lambertian, Surface};
use raytracer::sphere::Sphere;
use raytracer::vector3::Vector3;

fn fx(x: f64) -> Fixed {
    Fixed::from_raw((x * 4294967296.0).round() as i64)
}

fn v(x: f64, y: f64, z: f64) -> Vector3 {
    Vector3::new(fx(x), fx(y), fx(z))
}

fn pinhole() -> Camera {
    Camera::new(
        v(0.0, 0.0, 0.0),
        v(0.0, 0.0, -1.0),
        v(0.0, 1.0, 0.0),
        fx(1.0),
        fx(1.5),
        fx(0.0),
        fx(1.0),
    )
}

fn one_sphere() -> HittableList {
    let mut world = HittableList::new();
    world.add_sphere(Sphere::new(
        v(0.0, 0.0, -1.0),
        fx(0.5),
        Surface::Lambertian(Lambertian::new(v(0.1, 0.2, 0.5))),
    ));
    world
}

fn numbers(line: &str) -> Vec<u32> {
    line.split(' ').map(|n| n.parse::<u32>().unwrap()).collect()
}

#[test]
fn image_without_depth_is_black() {
    let text = String::from_utf8(render(&pinhole(), &one_sphere(), 3, 2, 4, 0)).unwrap();
    assert_eq!(text, "P3\n3 2\n255\n0 0 0\n0 0 0\n0 0 0\n0 0 0\n0 0 0\n0 0 0\n");
}

#[test]
fn image_has_a_line_for_each_pixel() {
    let text = String::from_utf8(render(&pinhole(), &one_sphere(), 6, 4, 3, 5)).unwrap();
    let lines: Vec<&str> = text.lines().collect();
    assert_eq!(lines.len(), 3 + 6 * 4);
    assert_eq!(&lines[..3], &["P3", "6 4", "255"]);
    assert!(text.ends_with('\n'));
    for line in &lines[3..] {
        let channels = numbers(line);
        assert_eq!(channels.len(), 3);
        assert!(channels.iter().all(|c| *c <= 255));
    }
}

#[test]
fn image_starts_at_the_top() {
    // The sky is bluest at the top: the red channel grows from the first
    // scanline to the last.
    let world = HittableList::new();
    let text = String::from_utf8(render(&pinhole(), &world, 1, 5, 20, 2)).unwrap();
    let lines: Vec<&str> = text.lines().collect();
    let reds: Vec<u32> = lines[3..].iter().map(|l| numbers(l)[0]).collect();
    assert_eq!(reds.len(), 5);
    assert!(reds[0] < reds[2] && reds[2] < reds[4], "{:?}", reds);
    for line in &lines[3..] {
        assert_eq!(numbers(line)[2], 255);
    }
}

#[test]
fn row_follows_what_was_written_before() {
    let world = HittableList::new();
    let mut out = b"above\n".to_vec();
    write_row(&mut out, &pinhole(), &world, 0, 4, 3, 2, 0);
    assert_eq!(String::from_utf8(out).unwrap(), "above\n0 0 0\n0 0 0\n0 0 0\n0 0 0\n");
    let mut out: Vec<u8> = Vec::new();
    write_row(&mut out, &pinhole(), &one_sphere(), 1, 5, 3, 8, 4);
    let text = String::from_utf8(out).unwrap();
    let lines: Vec<&str> = text.lines().collect();
    assert_eq!(lines.len(), 5);
    // The sphere in the middle is darker than the sky beside it.
    assert!(numbers(lines[2])[0] < numbers(lines[0])[0]);
}
