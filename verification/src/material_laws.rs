//! What holds of the materials whatever the sample.

use vstd::prelude::*;
use crate::fixed::{
    Fixed, ONE_RAW, lemma_isqrt_unique, lemma_times_minus_one, lemma_times_one,
    lemma_trunc_div_by_one,
};
use crate::material::{Dielectric, Lambertian, Material, Sample, ScatterRecord, spec_reflectance};
use crate::ray::Ray;
use crate::render::white;
use crate::vector3::Vector3;
use crate::vector_laws::{
    lemma_direction_has_length_one, lemma_nearly_unit_is_not_small, lemma_unit_has_length_one,
};

verus! {

/// A diffuse surface scatters every ray, weakens it by its albedo, and
/// sends it on from the point of the hit in a direction that is not zero,
/// nor near it.
pub proof fn lemma_lambertian_always_scatters(
    m: Lambertian,
    r_in: Ray,
    p: Vector3,
    normal: Vector3,
    front_face: bool,
    sample: Sample,
)
    ensures
        m.spec_scatter_with(r_in, p, normal, front_face, sample) is Some,
        m.spec_scatter_with(r_in, p, normal, front_face, sample)->0.attenuation == m.albedo,
        m.spec_scatter_with(r_in, p, normal, front_face, sample)->0.scattered_ray.origin == p,
        !m.spec_scatter_with(
            r_in,
            p,
            normal,
            front_face,
            sample,
        )->0.scattered_ray.direction.spec_near_zero(),
        !m.spec_scatter_with(
            r_in,
            p,
            normal,
            front_face,
            sample,
        )->0.scattered_ray.direction.is_zero(),
{
    let u = sample.point.spec_direction_of();
    lemma_direction_has_length_one(sample.point);
    lemma_nearly_unit_is_not_small(u);
}

/// A surface that is as dense as what surrounds it reflects none of the
/// light that falls on it head-on.
proof fn lemma_no_reflectance_head_on()
    ensures
        spec_reflectance(Fixed::of(ONE_RAW as int), Fixed::of(ONE_RAW as int))@ == 0,
{
    let one = Fixed::of(ONE_RAW as int);
    let zero = Fixed::of(0);
    assert(one.spec_minus(one) == zero);
    assert(one.spec_plus(one)@ == 0x2_0000_0000);
    assert(zero@ * ONE_RAW == 0);
    assert(zero.spec_divided_by(one.spec_plus(one)) == zero);
    assert(zero@ * zero@ == 0);
    assert(zero.spec_times(zero) == zero);
    lemma_times_one(zero);
    assert(one.spec_minus(zero) == one);
}

/// Glass with the index of refraction of what surrounds it lets a ray
/// that falls on it head-on go straight through: the scattered ray has the
/// direction of the incoming one, at length one. This holds where the normal
/// is not shorter than one.
pub proof fn lemma_matching_medium_goes_straight(
    m: Dielectric,
    r_in: Ray,
    p: Vector3,
    normal: Vector3,
    front_face: bool,
    sample: Sample,
)
    requires
        m.refraction_index()@ == ONE_RAW,
        sample.draw@ >= 0,
        !r_in.direction.is_zero(),
        normal == r_in.direction.spec_unit().spec_negated(),
        normal.spec_length_squared()@ >= ONE_RAW,
    ensures
        m.spec_scatter_with(r_in, p, normal, front_face, sample) == Some(
            ScatterRecord {
                attenuation: white(),
                scattered_ray: Ray { origin: p, direction: r_in.direction.spec_unit() },
            },
        ),
{
    let one = Fixed::of(ONE_RAW as int);
    let zero = Fixed::of(0);
    let ud = r_in.direction.spec_unit();
    lemma_unit_has_length_one(r_in.direction);
    assert(ud.spec_negated() == normal);
    assert(normal.spec_negated() == ud);
    // The ratio of the indices is one.
    let ratio = m.spec_ratio(front_face);
    assert(m.refraction_index() == one);
    lemma_trunc_div_by_one(0x1_0000_0000_0000_0000);
    assert(one@ * ONE_RAW == 0x1_0000_0000_0000_0000);
    assert(one.spec_divided_by(one) == one);
    assert(ratio == one);
    // The ray falls on the surface head-on.
    let cos_theta = ud.spec_negated().spec_dot(normal).spec_min(one);
    assert(cos_theta == one);
    lemma_times_one(one);
    assert(one.spec_minus(one.spec_times(one)) == zero);
    assert(zero@ * ONE_RAW == 0);
    assert(zero.spec_sqrt() == zero);
    assert(Dielectric::spec_sine(cos_theta) == zero);
    lemma_times_one(zero);
    lemma_no_reflectance_head_on();
    assert(!m.spec_reflects(ud, normal, front_face, sample.draw));
    // The refracted direction.
    lemma_times_one(normal.x);
    lemma_times_one(normal.y);
    lemma_times_one(normal.z);
    assert(normal.spec_scaled(one) == normal);
    let nothing = Vector3 { x: zero, y: zero, z: zero };
    assert(ud.spec_plus(normal) == nothing);
    assert(nothing.spec_scaled(one) == nothing);
    assert(nothing.dot_exact(nothing) == 0) by (nonlinear_arith)
        requires
            nothing.x@ == 0 && nothing.y@ == 0 && nothing.z@ == 0,
    ;
    assert(nothing.spec_length_squared() == zero);
    assert(one.spec_minus(zero).spec_abs() == one);
    assert(0x1_0000_0000nat * 0x1_0000_0000nat == 0x1_0000_0000_0000_0000nat) by (nonlinear_arith);
    assert((0x1_0000_0000nat + 1) * (0x1_0000_0000nat + 1) > 0x1_0000_0000_0000_0000nat)
        by (nonlinear_arith);
    lemma_isqrt_unique(0x1_0000_0000_0000_0000, 0x1_0000_0000);
    assert(one.spec_sqrt() == one);
    assert(one.spec_negated() == Fixed::of(-ONE_RAW));
    lemma_times_minus_one(normal.x);
    lemma_times_minus_one(normal.y);
    lemma_times_minus_one(normal.z);
    assert(normal.spec_scaled(Fixed::of(-ONE_RAW)) == ud);
    assert(nothing.spec_plus(ud) == ud);
    assert(ud.spec_refract(normal, one) == ud);
}

} // verus!
