//! Spheres.

use vstd::prelude::*;
use crate::fixed::{
    Fixed, ONE_RAW, fx_mul, isqrt, lemma_isqrt_monotonic, lemma_isqrt_unique, lemma_times_one,
    lemma_trunc_div_by_one, lemma_whole_multiple, magnitude,
};
use crate::hittable::{HitRecord, Hittable};
use crate::material::Surface;
use crate::ray::Ray;
use crate::vector3::Vector3;

verus! {

/// A sphere. Its radius is not zero; a negative radius turns the surface
/// inside out, which makes a hollow shell of a glass sphere.
#[derive(Clone, Copy, Debug, PartialEq, Eq, Structural)]
pub struct Sphere {
    center: Vector3,
    radius: Fixed,
    material: Surface,
}

impl Sphere {
    #[verifier::type_invariant]
    pub closed spec fn has_radius(self) -> bool {
        self.radius@ != 0
    }

    pub closed spec fn spec_center(self) -> Vector3 {
        self.center
    }

    pub closed spec fn spec_radius(self) -> Fixed {
        self.radius
    }

    pub closed spec fn spec_material(self) -> Surface {
        self.material
    }

    /// The sphere with the given centre, radius and material.
    pub closed spec fn spec_new(center: Vector3, radius: Fixed, material: Surface) -> Sphere {
        Sphere { center, radius, material }
    }

    /// A sphere is its centre, its radius and its material.
    pub proof fn lemma_spec_new(center: Vector3, radius: Fixed, material: Surface)
        ensures
            Sphere::spec_new(center, radius, material).spec_center() == center,
            Sphere::spec_new(center, radius, material).spec_radius() == radius,
            Sphere::spec_new(center, radius, material).spec_material() == material,
    {
    }

    pub fn new(center: Vector3, radius: Fixed, material: Surface) -> (s: Sphere)
        requires
            radius@ != 0,
        ensures
            s == Sphere::spec_new(center, radius, material),
            s.spec_center() == center,
            s.spec_radius() == radius,
            s.spec_material() == material,
    {
        Sphere { center, radius, material }
    }

    pub fn center(&self) -> (c: Vector3)
        ensures
            c == self.spec_center(),
    {
        self.center
    }

    pub fn radius(&self) -> (r: Fixed)
        ensures
            r == self.spec_radius(),
            r@ != 0,
    {
        proof {
            use_type_invariant(self);
        }
        self.radius
    }

    pub fn material(&self) -> (m: Surface)
        ensures
            m == self.spec_material(),
    {
        self.material
    }

    /// The first coefficient of the quadratic in the ray parameter: the
    /// squared length of the ray's direction.
    pub open spec fn quad_a(self, r: Ray) -> Fixed {
        r.direction.spec_length_squared()
    }

    /// Half the second coefficient.
    pub open spec fn quad_half_b(self, r: Ray) -> Fixed {
        r.origin.spec_minus(self.spec_center()).spec_dot(r.direction)
    }

    /// The third coefficient.
    pub open spec fn quad_c(self, r: Ray) -> Fixed {
        r.origin.spec_minus(self.spec_center()).spec_length_squared().spec_minus(
            self.spec_radius().spec_times(self.spec_radius()),
        )
    }

    /// `half_b^2 - a * c`
    pub open spec fn discriminant(self, r: Ray) -> Fixed {
        let half_b = self.quad_half_b(r);
        half_b.spec_times(half_b).spec_minus(self.quad_a(r).spec_times(self.quad_c(r)))
    }

    /// Whether the line of the ray meets the sphere at all.
    pub open spec fn meets(self, r: Ray) -> bool {
        self.quad_a(r)@ > 0 && self.discriminant(r)@ >= 0
    }

    /// The smaller root: `(-half_b - sqrt(discriminant)) / a`
    pub open spec fn near_root(self, r: Ray) -> Fixed {
        self.quad_half_b(r).spec_negated().spec_minus(
            self.discriminant(r).spec_sqrt(),
        ).spec_divided_by(self.quad_a(r))
    }

    /// The larger root: `(-half_b + sqrt(discriminant)) / a`
    pub open spec fn far_root(self, r: Ray) -> Fixed {
        self.quad_half_b(r).spec_negated().spec_plus(
            self.discriminant(r).spec_sqrt(),
        ).spec_divided_by(self.quad_a(r))
    }

    /// The record of the hit at the ray parameter `root`.
    pub open spec fn record_at(self, r: Ray, root: Fixed) -> HitRecord {
        let p = r.spec_at(root);
        let outward_normal = p.spec_minus(self.spec_center()).spec_divided_by(self.spec_radius());
        HitRecord::spec_from_normal(p, root, r, outward_normal, self.spec_material())
    }
}

/// Which hit a sphere reports. A ray whose line misses the sphere hits
/// nothing. A ray that meets it hits at the nearer of the two crossings where
/// that one lies in the window; where the window begins beyond the nearer
/// crossing, as it does for a ray from inside, the ray hits at the farther one.
pub proof fn lemma_which_crossing(s: Sphere, r: Ray, t_min: Fixed, t_max: Fixed)
    ensures
        !s.meets(r) ==> s.spec_hit(r, t_min, t_max) is None,
        s.meets(r) && t_min@ <= s.near_root(r)@ <= t_max@ ==> s.spec_hit(r, t_min, t_max) == Some(
            s.record_at(r, s.near_root(r)),
        ),
        s.meets(r) && s.near_root(r)@ < t_min@ <= s.far_root(r)@ <= t_max@ ==> s.spec_hit(
            r,
            t_min,
            t_max,
        ) == Some(s.record_at(r, s.far_root(r))),
        s.spec_hit(r, t_min, t_max) matches Some(h) ==> h.p == r.spec_at(h.t) && h.material
            == s.spec_material(),
{
}

/// The largest distance and radius of which
/// [`lemma_aimed_ray_hits_at_distance_less_radius`] speaks: `2^47` raw
/// units, which is 32768.
pub const AIM_BOUND_RAW: i64 = 0x8000_0000_0000;

/// Whether the ray has a direction of length one and is aimed at the
/// centre of the sphere: the centre lies ahead of the origin, and the line of
/// the ray passes it at no distance.
pub open spec fn aims_at_center(s: Sphere, r: Ray) -> bool {
    let oc = r.origin.spec_minus(s.spec_center());
    let half_b = s.quad_half_b(r);
    &&& s.quad_a(r)@ == ONE_RAW
    &&& half_b@ < 0
    &&& oc.spec_length_squared() == half_b.spec_times(half_b)
}

/// The distance from the origin of a ray of unit length to the point of
/// its line that is nearest to the centre of the sphere.
pub open spec fn distance_along(s: Sphere, r: Ray) -> int {
    -s.quad_half_b(r)@
}

/// The root of the square of a number of at least one half, both rounded
/// down, is the number or one raw unit less.
proof fn lemma_root_of_square(x: int)
    requires
        0x8000_0000 <= x <= AIM_BOUND_RAW,
    ensures
        fx_mul(x, x) >= 0,
        x - 1 <= isqrt((fx_mul(x, x) * ONE_RAW) as nat) <= x,
{
    let n: int = 0x1_0000_0000;
    let square = x * x;
    assert(0 <= square <= 0x4000_0000_0000_0000_0000_0000) by (nonlinear_arith)
        requires
            square == x * x,
            0 <= x <= 0x8000_0000_0000,
    ;
    lemma_trunc_div_by_one(square);
    let q = fx_mul(x, x);
    assert(q == square / n);
    let below = q * n;
    assert(below <= square < below + n);
    let lower = (x - 1) * (x - 1);
    assert(lower == square - 2 * x + 1) by (nonlinear_arith)
        requires
            lower == (x - 1) * (x - 1),
            square == x * x,
    ;
    assert(x * x < (x + 1) * (x + 1)) by (nonlinear_arith)
        requires
            x >= 0,
    ;
    assert((x - 1) * (x - 1) < x * x) by (nonlinear_arith)
        requires
            x >= 1,
    ;
    lemma_isqrt_unique(square as nat, x as nat);
    lemma_isqrt_unique(lower as nat, (x - 1) as nat);
    lemma_isqrt_monotonic(below as nat, square as nat);
    lemma_isqrt_monotonic(lower as nat, below as nat);
}

/// A ray of unit length that is aimed at the centre of a sphere from
/// outside hits the sphere at the distance to the centre less the radius, or
/// one raw unit beyond. This holds for a radius of at least one half, and for
/// a distance and a radius of at most `AIM_BOUND_RAW`.
pub proof fn lemma_aimed_ray_hits_at_distance_less_radius(
    s: Sphere,
    r: Ray,
    t_min: Fixed,
    t_max: Fixed,
)
    requires
        aims_at_center(s, r),
        0x8000_0000 <= magnitude(s.spec_radius()@) <= AIM_BOUND_RAW,
        distance_along(s, r) <= AIM_BOUND_RAW,
        t_min@ <= distance_along(s, r) - magnitude(s.spec_radius()@),
        distance_along(s, r) - magnitude(s.spec_radius()@) + 1 <= t_max@,
    ensures
        s.spec_hit(r, t_min, t_max) is Some,
        distance_along(s, r) - magnitude(s.spec_radius()@) <= s.spec_hit(r, t_min, t_max)->0.t@
            <= distance_along(s, r) - magnitude(s.spec_radius()@) + 1,
{
    let radius = magnitude(s.spec_radius()@);
    let distance = distance_along(s, r);
    let half_b = s.quad_half_b(r);
    let oc = r.origin.spec_minus(s.spec_center());
    // The coefficients of the quadratic.
    assert(half_b@ * half_b@ == distance * distance) by (nonlinear_arith)
        requires
            distance == -half_b@,
    ;
    assert(s.spec_radius()@ * s.spec_radius()@ == radius * radius) by (nonlinear_arith)
        requires
            radius == s.spec_radius()@ || radius == -s.spec_radius()@,
    ;
    assert(0 <= distance * distance <= 0x4000_0000_0000_0000_0000_0000) by (nonlinear_arith)
        requires
            0 <= distance <= 0x8000_0000_0000,
    ;
    lemma_trunc_div_by_one(distance * distance);
    let far_squared = half_b.spec_times(half_b);
    assert(0 <= far_squared@ <= 0x4000_0000_0000_0000);
    lemma_root_of_square(radius);
    let radius_squared = s.spec_radius().spec_times(s.spec_radius());
    assert(radius_squared@ == fx_mul(radius, radius));
    assert(radius * radius <= 0x4000_0000_0000_0000_0000_0000) by (nonlinear_arith)
        requires
            0 <= radius <= 0x8000_0000_0000,
    ;
    lemma_trunc_div_by_one(radius * radius);
    assert(0 <= radius_squared@ <= 0x4000_0000_0000_0000);
    let c = s.quad_c(r);
    assert(c@ == far_squared@ - radius_squared@);
    lemma_times_one(c);
    assert(s.quad_a(r) == Fixed::of(ONE_RAW as int));
    assert(s.quad_a(r).spec_times(c) == c);
    assert(s.discriminant(r)@ == radius_squared@);
    assert(s.meets(r));
    // The nearer crossing.
    let root = s.discriminant(r).spec_sqrt();
    assert(radius - 1 <= root@ <= radius);
    lemma_whole_multiple(distance - root@);
    assert(s.near_root(r)@ == distance - root@);
}

impl Hittable for Sphere {
    /// The hit at the smaller root where it lies in the window, else at the
    /// larger root where that one does.
    open spec fn spec_hit(&self, r: Ray, t_min: Fixed, t_max: Fixed) -> Option<HitRecord> {
        if !self.meets(r) {
            None
        } else if t_min@ <= self.near_root(r)@ <= t_max@ {
            Some(self.record_at(r, self.near_root(r)))
        } else if t_min@ <= self.far_root(r)@ <= t_max@ {
            Some(self.record_at(r, self.far_root(r)))
        } else {
            None
        }
    }

    fn hit(&self, r: &Ray, t_min: Fixed, t_max: Fixed) -> (out: Option<HitRecord>)
        ensures
            out matches Some(h) ==> t_min@ <= h.t@ <= t_max@ && h.material == self.spec_material(),
    {
        let radius = self.radius();
        let oc = r.origin.minus(&self.center);
        let a = r.direction.length_squared();
        let half_b = oc.dot(&r.direction);
        let c = oc.length_squared().minus(radius.times(radius));

        let discriminant = half_b.times(half_b).minus(a.times(c));
        if !a.gt(Fixed::zero()) || discriminant.lt(Fixed::zero()) {
            return None;
        }
        let sqrtd = discriminant.sqrt();

        // Find the nearest root that lies in the acceptable range.
        let mut root = half_b.negated().minus(sqrtd).divided_by(a);
        if root.lt(t_min) || t_max.lt(root) {
            root = half_b.negated().plus(sqrtd).divided_by(a);
            if root.lt(t_min) || t_max.lt(root) {
                return None;
            }
        }
        let p = r.at(root);
        let outward_normal = p.minus(&self.center).divided_by(radius);
        Some(HitRecord::from_normal(p, root, r, outward_normal, self.material))
    }
}

} // verus!
