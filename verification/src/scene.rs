//! A scene to render: a large sphere for the ground, three large spheres
//! on it, one of each material, and many small ones scattered around them.

use vstd::prelude::*;
use crate::fixed::{Fixed, ONE_RAW};
use crate::hittable_list::HittableList;
use crate::material::{Dielectric, Lambertian, Metal, Surface};
use crate::render::HALF_RAW;
use crate::sphere::Sphere;
use crate::util::{random_f64, random_range};
use crate::vector3::Vector3;

verus! {

/// About `0.1`.
pub const TENTH_RAW: i64 = 429496729;

/// About `0.2`: the radius of a small sphere, and the height of its centre.
pub const FIFTH_RAW: i64 = 858993459;

/// About `0.4`.
pub const TWO_FIFTHS_RAW: i64 = 1717986918;

/// About `0.6`.
pub const THREE_FIFTHS_RAW: i64 = 2576980377;

/// About `0.7`.
pub const SEVEN_TENTHS_RAW: i64 = 3006477107;

/// About `0.8`: below it, a small sphere is diffuse.
pub const FOUR_FIFTHS_RAW: i64 = 3435973836;

/// About `0.9`: how far a small sphere may lie from the corner of its
/// cell, and how near the large metal sphere none may lie.
pub const NINE_TENTHS_RAW: i64 = 3865470566;

/// About `0.95`: below it, a small sphere that is not diffuse is of metal.
pub const NINETEEN_TWENTIETHS_RAW: i64 = 4080218931;

/// `1.5`, the index of refraction of glass.
pub const GLASS_RAW: i64 = 0x1_8000_0000;

/// The cells of the small spheres run from `-GRID` to `GRID - 1` both ways.
pub const GRID: i32 = 11;

/// The number of cells.
pub const CELLS: usize = 484;

pub open spec fn point(x: int, y: int, z: int) -> Vector3 {
    Vector3 { x: Fixed::of(x), y: Fixed::of(y), z: Fixed::of(z) }
}

pub open spec fn glass() -> Surface {
    Surface::Dielectric(Dielectric::spec_new(Fixed::of(GLASS_RAW as int)))
}

/// The ground: a grey sphere of radius 1000 below the origin.
pub open spec fn ground() -> Sphere {
    Sphere::spec_new(
        point(0, -1000 * ONE_RAW, 0),
        Fixed::of(1000 * ONE_RAW),
        Surface::Lambertian(
            Lambertian { albedo: point(HALF_RAW as int, HALF_RAW as int, HALF_RAW as int) },
        ),
    )
}

/// The large glass sphere in the middle.
pub open spec fn large_glass() -> Sphere {
    Sphere::spec_new(point(0, ONE_RAW as int, 0), Fixed::of(ONE_RAW as int), glass())
}

/// The large brown sphere behind it.
pub open spec fn large_matte() -> Sphere {
    Sphere::spec_new(
        point(-4 * ONE_RAW, ONE_RAW as int, 0),
        Fixed::of(ONE_RAW as int),
        Surface::Lambertian(
            Lambertian {
                albedo: point(TWO_FIFTHS_RAW as int, FIFTH_RAW as int, TENTH_RAW as int),
            },
        ),
    )
}

/// The large metal sphere in front of it.
pub open spec fn large_metal() -> Sphere {
    Sphere::spec_new(
        point(4 * ONE_RAW, ONE_RAW as int, 0),
        Fixed::of(ONE_RAW as int),
        Surface::Metal(
            Metal {
                albedo: point(SEVEN_TENTHS_RAW as int, THREE_FIFTHS_RAW as int, HALF_RAW as int),
                fuzz: Fixed::of(0),
            },
        ),
    )
}

/// What a small sphere needs from chance: a number that picks its
/// material, where in its cell it lies, two tints and a fuzz.
#[derive(Clone, Copy, Debug, PartialEq, Eq, Structural)]
pub struct SphereDraws {
    pub choose_mat: Fixed,
    pub offset_x: Fixed,
    pub offset_z: Fixed,
    pub tint: Vector3,
    pub shade: Vector3,
    pub fuzz: Fixed,
}

impl SphereDraws {
    pub open spec fn valid(self) -> bool {
        &&& 0 <= self.choose_mat@ < ONE_RAW
        &&& 0 <= self.offset_x@ < ONE_RAW
        &&& 0 <= self.offset_z@ < ONE_RAW
        &&& self.tint.within(Fixed::of(0), Fixed::of(ONE_RAW as int))
        &&& self.shade.within(Fixed::of(0), Fixed::of(ONE_RAW as int))
        &&& 0 <= self.fuzz@ < HALF_RAW
        &&& self.choose_mat@ >= FOUR_FIFTHS_RAW ==> self.tint.within(
            Fixed::of(HALF_RAW as int),
            Fixed::of(ONE_RAW as int),
        )
    }
}

/// The centre of the small sphere of the cell `(a, b)`.
pub open spec fn spec_small_center(a: i32, b: i32, offset_x: Fixed, offset_z: Fixed) -> Vector3 {
    let spread = Fixed::of(NINE_TENTHS_RAW as int);
    Vector3 {
        x: Fixed::of(a * ONE_RAW).spec_plus(spread.spec_times(offset_x)),
        y: Fixed::of(FIFTH_RAW as int),
        z: Fixed::of(b * ONE_RAW).spec_plus(spread.spec_times(offset_z)),
    }
}

/// Whether the small sphere keeps clear of the large metal sphere.
pub open spec fn spec_keeps_clear(center: Vector3) -> bool {
    center.spec_minus(point(4 * ONE_RAW, FIFTH_RAW as int, 0)).spec_length()@ > NINE_TENTHS_RAW
}

/// The material of a small sphere: mostly diffuse, sometimes metal, rarely glass.
pub open spec fn spec_small_material(draws: SphereDraws) -> Surface {
    if draws.choose_mat@ < FOUR_FIFTHS_RAW {
        Surface::Lambertian(Lambertian { albedo: draws.tint.spec_hadamard(draws.shade) })
    } else if draws.choose_mat@ < NINETEEN_TWENTIETHS_RAW {
        Surface::Metal(Metal { albedo: draws.tint, fuzz: draws.fuzz })
    } else {
        glass()
    }
}

/// The small sphere of the cell `(a, b)`, or none where it would touch the
/// large metal sphere.
pub open spec fn spec_small_sphere(a: i32, b: i32, draws: SphereDraws) -> Option<Sphere> {
    let center = spec_small_center(a, b, draws.offset_x, draws.offset_z);
    if spec_keeps_clear(center) {
        Some(Sphere::spec_new(center, Fixed::of(FIFTH_RAW as int), spec_small_material(draws)))
    } else {
        None
    }
}

/// Whether the sphere could be the small sphere of some cell.
pub open spec fn is_small_sphere(s: Sphere) -> bool {
    exists|a: i32, b: i32, draws: SphereDraws|
        -GRID <= a < GRID && -GRID <= b < GRID && draws.valid() && #[trigger] spec_small_sphere(
            a,
            b,
            draws,
        ) == Some(s)
}

fn glass_surface() -> (m: Surface)
    ensures
        m == glass(),
{
    Surface::Dielectric(Dielectric::new(Fixed::from_raw(GLASS_RAW)))
}

/// The centre of the small sphere of the cell `(a, b)`.
pub fn small_center(a: i32, b: i32, offset_x: Fixed, offset_z: Fixed) -> (c: Vector3)
    ensures
        c == spec_small_center(a, b, offset_x, offset_z),
{
    let spread = Fixed::from_raw(NINE_TENTHS_RAW);
    Vector3::new(
        Fixed::from_int(a).plus(spread.times(offset_x)),
        Fixed::from_raw(FIFTH_RAW),
        Fixed::from_int(b).plus(spread.times(offset_z)),
    )
}

/// Whether the small sphere keeps clear of the large metal sphere.
pub fn keeps_clear(center: &Vector3) -> (b: bool)
    ensures
        b == spec_keeps_clear(*center),
{
    let metal = Vector3::new(Fixed::from_int(4), Fixed::from_raw(FIFTH_RAW), Fixed::zero());
    center.minus(&metal).length().gt(Fixed::from_raw(NINE_TENTHS_RAW))
}

/// The small sphere of the cell `(a, b)` for given draws.
pub fn small_sphere_with(a: i32, b: i32, draws: &SphereDraws) -> (s: Option<Sphere>)
    ensures
        s == spec_small_sphere(a, b, *draws),
{
    let center = small_center(a, b, draws.offset_x, draws.offset_z);
    if !keeps_clear(&center) {
        return None;
    }
    let material = if draws.choose_mat.lt(Fixed::from_raw(FOUR_FIFTHS_RAW)) {
        // diffuse
        Surface::Lambertian(Lambertian::new(draws.tint.hadamard(&draws.shade)))
    } else if draws.choose_mat.lt(Fixed::from_raw(NINETEEN_TWENTIETHS_RAW)) {
        // metal
        Surface::Metal(Metal::new(draws.tint, draws.fuzz))
    } else {
        // glass
        glass_surface()
    };
    Some(Sphere::new(center, Fixed::from_raw(FIFTH_RAW), material))
}

/// The small sphere of the cell `(a, b)`, drawn at random.
pub fn random_small_sphere(a: i32, b: i32) -> (s: Option<Sphere>)
    ensures
        exists|draws: SphereDraws| draws.valid() && s == #[trigger] spec_small_sphere(a, b, draws),
{
    let zero = Fixed::zero();
    let half = Fixed::from_raw(HALF_RAW);
    let one = Fixed::one();
    let choose_mat = random_f64();
    let offset_x = random_f64();
    let offset_z = random_f64();
    let center = small_center(a, b, offset_x, offset_z);
    let nothing = Vector3::zero();
    if !keeps_clear(&center) {
        let ghost draws = SphereDraws {
            choose_mat: zero,
            offset_x,
            offset_z,
            tint: nothing,
            shade: nothing,
            fuzz: zero,
        };
        assert(draws.valid() && spec_small_sphere(a, b, draws) == None::<Sphere>);
        return None;
    }
    let draws = if choose_mat.lt(Fixed::from_raw(FOUR_FIFTHS_RAW)) {
        let tint = Vector3::new_random(zero, one);
        let shade = Vector3::new_random(zero, one);
        SphereDraws { choose_mat, offset_x, offset_z, tint, shade, fuzz: zero }
    } else if choose_mat.lt(Fixed::from_raw(NINETEEN_TWENTIETHS_RAW)) {
        let tint = Vector3::new_random(half, one);
        let fuzz = random_range(zero, half);
        SphereDraws { choose_mat, offset_x, offset_z, tint, shade: nothing, fuzz }
    } else {
        SphereDraws {
            choose_mat,
            offset_x,
            offset_z,
            tint: Vector3::new(half, half, half),
            shade: nothing,
            fuzz: zero,
        }
    };
    assert(draws.valid());
    small_sphere_with(a, b, &draws)
}

/// The scene: the ground first, then the small spheres that keep clear of
/// the large metal one, then the three large spheres.
pub fn random_scene() -> (world: HittableList)
    ensures
        4 <= world@.len() <= 4 + CELLS,
        world@[0] == ground(),
        world@[world@.len() - 3] == large_glass(),
        world@[world@.len() - 2] == large_matte(),
        world@[world@.len() - 1] == large_metal(),
        forall|i: int| 1 <= i < world@.len() - 3 ==> is_small_sphere(#[trigger] world@[i]),
{
    let half = Fixed::from_raw(HALF_RAW);
    let one = Fixed::one();
    let zero = Fixed::zero();
    let mut world = HittableList::new();

    let ground_material = Lambertian::new(Vector3::new(half, half, half));
    world.add_sphere(
        Sphere::new(
            Vector3::new(zero, Fixed::from_int(-1000), zero),
            Fixed::from_int(1000),
            Surface::Lambertian(ground_material),
        ),
    );

    let mut a: i32 = -GRID;
    while a < GRID
        invariant
            -GRID <= a <= GRID,
            1 <= world@.len() <= 1 + 22 * (a + 11),
            world@[0] == ground(),
            forall|i: int| 1 <= i < world@.len() ==> is_small_sphere(#[trigger] world@[i]),
        decreases GRID - a,
    {
        let mut b: i32 = -GRID;
        while b < GRID
            invariant
                -GRID <= a < GRID,
                -GRID <= b <= GRID,
                1 <= world@.len() <= 1 + 22 * (a + 11) + (b + 11),
                world@[0] == ground(),
                forall|i: int| 1 <= i < world@.len() ==> is_small_sphere(#[trigger] world@[i]),
            decreases GRID - b,
        {
            if let Some(sphere) = random_small_sphere(a, b) {
                world.add_sphere(sphere);
            }
            b += 1;
        }
        a += 1;
    }

    world.add_sphere(Sphere::new(Vector3::new(zero, one, zero), one, glass_surface()));

    let material2 = Lambertian::new(
        Vector3::new(
            Fixed::from_raw(TWO_FIFTHS_RAW),
            Fixed::from_raw(FIFTH_RAW),
            Fixed::from_raw(TENTH_RAW),
        ),
    );
    world.add_sphere(
        Sphere::new(Vector3::new(Fixed::from_int(-4), one, zero), one, Surface::Lambertian(material2)),
    );

    let material3 = Metal::new(
        Vector3::new(Fixed::from_raw(SEVEN_TENTHS_RAW), Fixed::from_raw(THREE_FIFTHS_RAW), half),
        zero,
    );
    world.add_sphere(
        Sphere::new(Vector3::new(Fixed::from_int(4), one, zero), one, Surface::Metal(material3)),
    );

    world
}

} // verus!
