//! The path integrator: the light that arrives along a ray.

use vstd::prelude::*;
use crate::camera::Camera;
use crate::fixed::{Fixed, ONE_RAW};
use crate::hittable::Hittable;
use crate::hittable_list::{HittableList, hits_alone, is_nearest, spec_scan};
use crate::material::{Material, Sample};
use crate::ray::Ray;
use crate::sphere::Sphere;
use crate::util::random_f64;
use crate::vector3::{Vector3, lemma_zero_inside_unit_ball};

verus! {

/// The raw value of the smallest ray parameter at which a hit counts
/// (about `0.001`). It keeps a scattered ray from hitting the surface that
/// it leaves.
pub const T_MIN_RAW: i64 = 4294967;

/// The raw value of one half.
pub const HALF_RAW: i64 = 0x8000_0000;

/// The raw value of the green part of the sky's blue (about `0.7`).
pub const SKY_GREEN_RAW: i64 = 3006477107;

pub open spec fn black() -> Vector3 {
    Vector3 { x: Fixed::of(0), y: Fixed::of(0), z: Fixed::of(0) }
}

pub open spec fn white() -> Vector3 {
    Vector3 { x: Fixed::of(ONE_RAW as int), y: Fixed::of(ONE_RAW as int), z: Fixed::of(ONE_RAW as int) }
}

pub open spec fn sky_blue() -> Vector3 {
    Vector3 {
        x: Fixed::of(HALF_RAW as int),
        y: Fixed::of(SKY_GREEN_RAW as int),
        z: Fixed::of(ONE_RAW as int),
    }
}

/// The colour of the sky in a direction: white at the bottom, blue at the
/// top, blended by the height of the direction. No light comes from no
/// direction.
pub open spec fn spec_sky(direction: Vector3) -> Vector3 {
    if direction.is_zero() {
        black()
    } else {
        let one = Fixed::of(ONE_RAW as int);
        let t = Fixed::of(HALF_RAW as int).spec_times(direction.spec_unit().y.spec_plus(one));
        white().spec_scaled(one.spec_minus(t)).spec_plus(sky_blue().spec_scaled(t))
    }
}

pub open spec fn all_valid(samples: Seq<Sample>) -> bool {
    forall|i: int| 0 <= i < samples.len() ==> (#[trigger] samples[i]).valid()
}

/// The light that arrives along the ray `r`, where the surfaces that the
/// ray meets one after another scatter it with the given samples. A ray
/// scattered `depth` times brings no light.
pub open spec fn spec_ray_color(r: Ray, world: Seq<Sphere>, depth: nat, samples: Seq<Sample>) -> Vector3
    decreases depth,
{
    if depth == 0 {
        black()
    } else {
        match spec_scan(world, r, Fixed::of(T_MIN_RAW as int), Fixed::of(i64::MAX as int)) {
            Some(hit) => match hit.material.spec_scatter_with(
                r,
                hit.p,
                hit.normal,
                hit.front_face,
                samples[0],
            ) {
                Some(scatter) => scatter.attenuation.spec_hadamard(
                    spec_ray_color(
                        scatter.scattered_ray,
                        world,
                        (depth - 1) as nat,
                        samples.drop_first(),
                    ),
                ),
                None => black(),
            },
            None => spec_sky(r.direction),
        }
    }
}

/// A ray that may not be scattered brings no light, whatever the scene.
pub proof fn lemma_no_depth_no_light(r: Ray, world: Seq<Sphere>, samples: Seq<Sample>)
    ensures
        spec_ray_color(r, world, 0, samples) == black(),
{
}

/// In a scene without objects every ray brings the light of the sky.
pub proof fn lemma_empty_scene_shows_sky(r: Ray, depth: nat, samples: Seq<Sample>)
    requires
        depth > 0,
    ensures
        spec_ray_color(r, Seq::<Sphere>::empty(), depth, samples) == spec_sky(r.direction),
{
}

/// A ray that hits a sphere has a direction.
pub proof fn lemma_hit_has_direction(s: Sphere, r: Ray, t_min: Fixed, t_max: Fixed)
    requires
        s.spec_hit(r, t_min, t_max) is Some,
    ensures
        !r.direction.is_zero(),
{
    if r.direction.is_zero() {
        assert(r.direction.dot_exact(r.direction) == 0) by (nonlinear_arith)
            requires
                r.direction.x@ == 0 && r.direction.y@ == 0 && r.direction.z@ == 0,
        ;
    }
}

/// A ray that hits anything in a scene has a direction.
pub proof fn lemma_scene_hit_has_direction(world: Seq<Sphere>, r: Ray, t_min: Fixed, t_max: Fixed)
    requires
        is_nearest(world, r, t_min, t_max, spec_scan(world, r, t_min, t_max)),
        spec_scan(world, r, t_min, t_max) is Some,
    ensures
        !r.direction.is_zero(),
{
    let hits = hits_alone(world, r, t_min, t_max);
    let h = spec_scan(world, r, t_min, t_max)->0;
    let j = choose|j: int| 0 <= j < hits.len() && #[trigger] hits[j] == Some(h);
    lemma_hit_has_direction(world[j], r, t_min, t_max);
}

/// The colour of the sky in a direction.
pub fn sky_color(direction: &Vector3) -> (c: Vector3)
    ensures
        c == spec_sky(*direction),
{
    if direction.all_zero() {
        return Vector3::zero();
    }
    let one = Fixed::one();
    let unit_direction = direction.unit();
    let t = Fixed::from_raw(HALF_RAW).times(unit_direction.y.plus(one));
    let white = Vector3::new(one, one, one);
    let blue = Vector3::new(Fixed::from_raw(HALF_RAW), Fixed::from_raw(SKY_GREEN_RAW), one);
    white.scaled(one.minus(t)).plus(&blue.scaled(t))
}

/// The light that arrives along the ray `r`, where the surfaces that the
/// ray meets scatter it with the samples from `samples[start]` on.
pub fn ray_color_from(
    r: &Ray,
    world: &HittableList,
    depth: u8,
    samples: &Vec<Sample>,
    start: usize,
) -> (c: Vector3)
    requires
        start + depth <= samples.len(),
    ensures
        c == spec_ray_color(*r, world@, depth as nat, samples@.skip(start as int)),
    decreases depth,
{
    // If we've exceeded the ray bounce limit, no more light is gathered.
    if depth == 0 {
        return Vector3::zero();
    }
    let hit_rec = world.hit(r, Fixed::from_raw(T_MIN_RAW), Fixed::largest());
    match hit_rec {
        Some(hit) => {
            proof {
                lemma_scene_hit_has_direction(
                    world@,
                    *r,
                    Fixed::of(T_MIN_RAW as int),
                    Fixed::of(i64::MAX as int),
                );
                assert(samples@.skip(start as int)[0] == samples@[start as int]);
                assert(samples@.skip(start as int).drop_first() =~= samples@.skip(start + 1));
            }
            let scatter_rec = hit.material.scatter_with(
                r,
                &hit.p,
                &hit.normal,
                hit.front_face,
                &samples[start],
            );
            match scatter_rec {
                Some(scatter) => {
                    let rest = ray_color_from(&scatter.scattered_ray, world, depth - 1, samples, start + 1);
                    scatter.attenuation.hadamard(&rest)
                },
                None => Vector3::zero(),
            }
        },
        None => sky_color(&r.direction),
    }
}

/// The light that arrives along the ray `r`, where the surfaces that the
/// ray meets scatter it with the given samples, one for each time the ray
/// may be scattered.
pub fn ray_color_with(r: &Ray, world: &HittableList, depth: u8, samples: &Vec<Sample>) -> (c:
    Vector3)
    requires
        depth <= samples.len(),
    ensures
        c == spec_ray_color(*r, world@, depth as nat, samples@),
{
    assert(samples@.skip(0) =~= samples@);
    ray_color_from(r, world, depth, samples, 0)
}

/// The light that arrives along the ray `r`, where the surfaces that the
/// ray meets scatter it at random. A ray scattered `depth` times brings no
/// light, and a ray that meets nothing brings the light of the sky.
pub fn ray_color(r: &Ray, world: &HittableList, depth: u8) -> (c: Vector3)
    ensures
        exists|samples: Seq<Sample>| #[trigger]
            all_valid(samples) && samples.len() == depth && c == spec_ray_color(
                *r,
                world@,
                depth as nat,
                samples,
            ),
        depth == 0 ==> c == black(),
        depth > 0 && world@.len() == 0 ==> c == spec_sky(r.direction),
    decreases depth,
{
    let ghost filler = Sample { point: black(), draw: Fixed::of(0) };
    proof {
        lemma_zero_inside_unit_ball();
        assert(filler.valid());
    }
    // If we've exceeded the ray bounce limit, no more light is gathered.
    if depth == 0 {
        proof {
            let samples = Seq::<Sample>::empty();
            assert(all_valid(samples) && samples.len() == depth && black()
                == spec_ray_color(*r, world@, depth as nat, samples));
        }
        return Vector3::zero();
    }
    let hit_rec = world.hit(r, Fixed::from_raw(T_MIN_RAW), Fixed::largest());
    match hit_rec {
        Some(hit) => {
            proof {
                lemma_scene_hit_has_direction(
                    world@,
                    *r,
                    Fixed::of(T_MIN_RAW as int),
                    Fixed::of(i64::MAX as int),
                );
            }
            let scatter_rec = hit.material.scatter(r, &hit.p, &hit.normal, hit.front_face);
            let ghost first = choose|sample: Sample| #[trigger]
                sample.valid() && scatter_rec == hit.material.spec_scatter_with(
                    *r,
                    hit.p,
                    hit.normal,
                    hit.front_face,
                    sample,
                );
            match scatter_rec {
                Some(scatter) => {
                    let rest = ray_color(&scatter.scattered_ray, world, depth - 1);
                    let c = scatter.attenuation.hadamard(&rest);
                    proof {
                        let later = choose|samples: Seq<Sample>| #[trigger]
                            all_valid(samples) && samples.len() == depth - 1 && rest
                                == spec_ray_color(
                                scatter.scattered_ray,
                                world@,
                                (depth - 1) as nat,
                                samples,
                            );
                        let samples = seq![first] + later;
                        assert(samples[0] == first);
                        assert(samples.drop_first() =~= later);
                        assert(all_valid(samples));
                        assert(all_valid(samples) && samples.len() == depth && c == spec_ray_color(
                            *r,
                            world@,
                            depth as nat,
                            samples,
                        ));
                    }
                    c
                },
                None => {
                    proof {
                        let samples = seq![first] + Seq::new((depth - 1) as nat, |i: int| filler);
                        assert(samples[0] == first);
                        assert(all_valid(samples));
                        assert(all_valid(samples) && samples.len() == depth && black()
                            == spec_ray_color(*r, world@, depth as nat, samples));
                    }
                    Vector3::zero()
                },
            }
        },
        None => {
            let c = sky_color(&r.direction);
            proof {
                let samples = Seq::new(depth as nat, |i: int| filler);
                assert(all_valid(samples));
                assert(all_valid(samples) && samples.len() == depth && c == spec_ray_color(
                    *r,
                    world@,
                    depth as nat,
                    samples,
                ));
            }
            c
        },
    }
}

/// Where in the image a sample lies along one axis, from zero to one: the
/// pixel's index plus the jitter, over the number of pixels.
pub open spec fn spec_coordinate(pixel: i32, jitter: Fixed, extent: i32) -> Fixed {
    Fixed::of(pixel * ONE_RAW).spec_plus(jitter).spec_divided_by(Fixed::of(extent * ONE_RAW))
}

/// Where in the image a sample lies along one axis.
pub fn sample_coordinate(pixel: i32, jitter: Fixed, extent: i32) -> (c: Fixed)
    requires
        extent != 0,
    ensures
        c == spec_coordinate(pixel, jitter, extent),
{
    Fixed::from_int(pixel).plus(jitter).divided_by(Fixed::from_int(extent))
}

/// What one sample of a pixel needs from chance: the jitter within the
/// pixel, a point of the lens, and a sample for each time the ray may be scattered.
pub struct PixelSample {
    pub jitter_x: Fixed,
    pub jitter_y: Fixed,
    pub lens: Vector3,
    pub bounces: Vec<Sample>,
}

/// A [`PixelSample`] as a mathematical value.
pub struct PixelDraws {
    pub jitter_x: Fixed,
    pub jitter_y: Fixed,
    pub lens: Vector3,
    pub bounces: Seq<Sample>,
}

impl PixelDraws {
    /// Whether these could have been drawn for a ray scattered up to `depth` times.
    pub open spec fn valid(self, depth: nat) -> bool {
        &&& 0 <= self.jitter_x@ < ONE_RAW
        &&& 0 <= self.jitter_y@ < ONE_RAW
        &&& self.lens.inside_unit_ball()
        &&& self.lens.z@ == 0
        &&& all_valid(self.bounces)
        &&& self.bounces.len() == depth
    }
}

impl View for PixelSample {
    type V = PixelDraws;

    open spec fn view(&self) -> PixelDraws {
        PixelDraws {
            jitter_x: self.jitter_x,
            jitter_y: self.jitter_y,
            lens: self.lens,
            bounces: self.bounces@,
        }
    }
}

/// The image to render and the pixel in question.
#[derive(Clone, Copy, Debug, PartialEq, Eq, Structural)]
pub struct Pixel {
    pub x: i32,
    pub y: i32,
    pub width: i32,
    pub height: i32,
}

/// The ray of one sample of a pixel.
pub open spec fn spec_sample_ray(camera: Camera, pixel: Pixel, draws: PixelDraws) -> Ray {
    camera.spec_get_ray_with(
        spec_coordinate(pixel.x, draws.jitter_x, pixel.width),
        spec_coordinate(pixel.y, draws.jitter_y, pixel.height),
        draws.lens,
    )
}

/// The colour of one sample of a pixel.
pub open spec fn spec_sample_color(
    camera: Camera,
    world: Seq<Sphere>,
    pixel: Pixel,
    depth: nat,
    draws: PixelDraws,
) -> Vector3 {
    spec_ray_color(spec_sample_ray(camera, pixel, draws), world, depth, draws.bounces)
}

/// The sum of the colours of the samples of a pixel.
pub open spec fn spec_pixel_color(
    camera: Camera,
    world: Seq<Sphere>,
    pixel: Pixel,
    depth: nat,
    draws: Seq<PixelDraws>,
) -> Vector3
    decreases draws.len(),
{
    if draws.len() == 0 {
        black()
    } else {
        spec_pixel_color(camera, world, pixel, depth, draws.drop_last()).spec_plus(
            spec_sample_color(camera, world, pixel, depth, draws.last()),
        )
    }
}

/// The views of the samples.
pub open spec fn draws_of(samples: Seq<PixelSample>) -> Seq<PixelDraws> {
    Seq::new(samples.len(), |i: int| samples[i]@)
}

/// The colour of one sample of a pixel, for given draws.
pub fn sample_color_with(
    camera: &Camera,
    world: &HittableList,
    pixel: Pixel,
    depth: u8,
    sample: &PixelSample,
) -> (c: Vector3)
    requires
        pixel.width != 0,
        pixel.height != 0,
        depth <= sample.bounces.len(),
    ensures
        c == spec_sample_color(*camera, world@, pixel, depth as nat, sample@),
{
    let u = sample_coordinate(pixel.x, sample.jitter_x, pixel.width);
    let v = sample_coordinate(pixel.y, sample.jitter_y, pixel.height);
    let r = camera.get_ray_with(u, v, &sample.lens);
    ray_color_with(&r, world, depth, &sample.bounces)
}

/// The colour of one sample of a pixel, drawn at random.
pub fn sample_color(camera: &Camera, world: &HittableList, pixel: Pixel, depth: u8) -> (c: Vector3)
    requires
        pixel.width != 0,
        pixel.height != 0,
    ensures
        exists|draws: PixelDraws| #[trigger]
            draws.valid(depth as nat) && c == spec_sample_color(
                *camera,
                world@,
                pixel,
                depth as nat,
                draws,
            ),
{
    let jitter_x = random_f64();
    let jitter_y = random_f64();
    let u = sample_coordinate(pixel.x, jitter_x, pixel.width);
    let v = sample_coordinate(pixel.y, jitter_y, pixel.height);
    let r = camera.get_ray(u, v);
    let c = ray_color(&r, world, depth);
    proof {
        let lens = choose|lens: Vector3| #[trigger]
            lens.inside_unit_ball() && lens.z@ == 0 && r == camera.spec_get_ray_with(u, v, lens);
        let bounces = choose|samples: Seq<Sample>| #[trigger]
            all_valid(samples) && samples.len() == depth && c == spec_ray_color(
                r,
                world@,
                depth as nat,
                samples,
            );
        let draws = PixelDraws { jitter_x, jitter_y, lens, bounces };
        assert(draws.valid(depth as nat) && c == spec_sample_color(
            *camera,
            world@,
            pixel,
            depth as nat,
            draws,
        ));
    }
    c
}

/// The sum of the colours of the samples of a pixel, for given draws.
pub fn pixel_color_with(
    camera: &Camera,
    world: &HittableList,
    pixel: Pixel,
    depth: u8,
    samples: &Vec<PixelSample>,
) -> (c: Vector3)
    requires
        pixel.width != 0,
        pixel.height != 0,
        forall|i: int| 0 <= i < samples.len() ==> depth <= (#[trigger] samples[i]).bounces.len(),
    ensures
        c == spec_pixel_color(*camera, world@, pixel, depth as nat, draws_of(samples@)),
{
    let mut pixel_color = Vector3::zero();
    let mut i: usize = 0;
    while i < samples.len()
        invariant
            i <= samples.len(),
            pixel.width != 0,
            pixel.height != 0,
            forall|k: int| 0 <= k < samples.len() ==> depth <= (#[trigger] samples[k]).bounces.len(),
            pixel_color == spec_pixel_color(
                *camera,
                world@,
                pixel,
                depth as nat,
                draws_of(samples@).take(i as int),
            ),
        decreases samples.len() - i,
    {
        proof {
            let next = draws_of(samples@).take(i + 1);
            assert(next.drop_last() =~= draws_of(samples@).take(i as int));
            assert(next.last() == samples@[i as int]@);
        }
        let c = sample_color_with(camera, world, pixel, depth, &samples[i]);
        pixel_color = pixel_color.plus(&c);
        i += 1;
    }
    assert(draws_of(samples@).take(i as int) =~= draws_of(samples@));
    pixel_color
}

/// Whether `c` is the sum of the colours of `samples_per_pixel` samples of
/// the pixel, for some draws.
pub open spec fn is_pixel_color(
    camera: Camera,
    world: Seq<Sphere>,
    pixel: Pixel,
    samples_per_pixel: u16,
    depth: u8,
    c: Vector3,
) -> bool {
    exists|draws: Seq<PixelDraws>|
        {
            &&& draws.len() == samples_per_pixel
            &&& forall|i: int| 0 <= i < draws.len() ==> (#[trigger] draws[i]).valid(depth as nat)
            &&& c == #[trigger] spec_pixel_color(camera, world, pixel, depth as nat, draws)
        }
}

/// The sum of the colours of `samples_per_pixel` samples of a pixel, drawn
/// at random.
pub fn pixel_color(
    camera: &Camera,
    world: &HittableList,
    pixel: Pixel,
    samples_per_pixel: u16,
    depth: u8,
) -> (c: Vector3)
    requires
        pixel.width != 0,
        pixel.height != 0,
    ensures
        is_pixel_color(*camera, world@, pixel, samples_per_pixel, depth, c),
{
    let mut pixel_color = Vector3::zero();
    let mut n: u16 = 0;
    let ghost mut drawn = Seq::<PixelDraws>::empty();
    while n < samples_per_pixel
        invariant
            n <= samples_per_pixel,
            pixel.width != 0,
            pixel.height != 0,
            drawn.len() == n,
            forall|i: int| 0 <= i < drawn.len() ==> (#[trigger] drawn[i]).valid(depth as nat),
            pixel_color == spec_pixel_color(*camera, world@, pixel, depth as nat, drawn),
        decreases samples_per_pixel - n,
    {
        let c = sample_color(camera, world, pixel, depth);
        proof {
            let draws = choose|draws: PixelDraws| #[trigger]
                draws.valid(depth as nat) && c == spec_sample_color(
                    *camera,
                    world@,
                    pixel,
                    depth as nat,
                    draws,
                );
            let before = drawn;
            drawn = drawn.push(draws);
            assert(drawn.drop_last() =~= before);
            assert(drawn.last() == draws);
        }
        pixel_color = pixel_color.plus(&c);
        n += 1;
    }
    pixel_color
}

} // verus!
