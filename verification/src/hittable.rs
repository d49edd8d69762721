//! What a ray can hit, and the record of a hit.

use vstd::prelude::*;
use crate::fixed::{Fixed, lemma_trunc_div_by_one};
use crate::material::Surface;
use crate::ray::Ray;
use crate::vector3::Vector3;

verus! {

/// Where and how a ray met a surface: the point, the normal turned against
/// the ray, the material, the ray parameter, and whether the ray came from outside.
#[derive(Clone, Copy, Debug, PartialEq, Eq, Structural)]
pub struct HitRecord {
    pub p: Vector3,
    pub normal: Vector3,
    pub material: Surface,
    pub t: Fixed,
    pub front_face: bool,
}

impl HitRecord {
    pub open spec fn spec_from_normal(
        p: Vector3,
        t: Fixed,
        r: Ray,
        outward_normal: Vector3,
        material: Surface,
    ) -> HitRecord {
        let front_face = r.direction.spec_dot(outward_normal)@ < 0;
        HitRecord {
            p,
            normal: if front_face {
                outward_normal
            } else {
                outward_normal.spec_negated()
            },
            material,
            t,
            front_face,
        }
    }

    /// The record of a hit at `p` with the given outward normal. The ray
    /// came from outside where it runs against that normal; the record keeps
    /// the normal then, and its negation otherwise.
    pub fn from_normal(
        p: Vector3,
        t: Fixed,
        r: &Ray,
        outward_normal: Vector3,
        material: Surface,
    ) -> (h: HitRecord)
        ensures
            h == HitRecord::spec_from_normal(p, t, *r, outward_normal, material),
    {
        let front_face = r.direction.dot(&outward_normal).lt(Fixed::zero());
        let mut normal = outward_normal;
        if !front_face {
            normal = normal.negated();
        }
        HitRecord { p, t, front_face, normal, material }
    }
}

/// The normal of a hit record does not point along the ray.
pub proof fn lemma_normal_opposes_ray(
    p: Vector3,
    t: Fixed,
    r: Ray,
    outward_normal: Vector3,
    material: Surface,
)
    requires
        outward_normal.x@ > i64::MIN,
        outward_normal.y@ > i64::MIN,
        outward_normal.z@ > i64::MIN,
    ensures
        r.direction.spec_dot(
            HitRecord::spec_from_normal(p, t, r, outward_normal, material).normal,
        )@ <= 0,
        HitRecord::spec_from_normal(p, t, r, outward_normal, material).front_face
            ==> r.direction.spec_dot(
            HitRecord::spec_from_normal(p, t, r, outward_normal, material).normal,
        )@ < 0,
{
    let back = outward_normal.spec_negated();
    let d = r.direction;
    assert(d.dot_exact(back) == -d.dot_exact(outward_normal)) by (nonlinear_arith)
        requires
            back.x@ == -outward_normal.x@,
            back.y@ == -outward_normal.y@,
            back.z@ == -outward_normal.z@,
            d.dot_exact(back) == d.x@ * back.x@ + d.y@ * back.y@ + d.z@ * back.z@,
            d.dot_exact(outward_normal) == d.x@ * outward_normal.x@ + d.y@ * outward_normal.y@
                + d.z@ * outward_normal.z@,
    ;
    lemma_trunc_div_by_one(d.dot_exact(back));
    lemma_trunc_div_by_one(d.dot_exact(outward_normal));
}

pub trait Hittable {
    /// The hit of the ray with parameter in `[t_min, t_max]`, if there is one.
    spec fn spec_hit(&self, r: Ray, t_min: Fixed, t_max: Fixed) -> Option<HitRecord>;

    fn hit(&self, r: &Ray, t_min: Fixed, t_max: Fixed) -> (out: Option<HitRecord>)
        ensures
            out == self.spec_hit(*r, t_min, t_max),
    ;
}

} // verus!
