//! Surface materials: how a ray that hits a surface is sent on.

use vstd::prelude::*;
use crate::fixed::{Fixed, ONE_RAW, fx_div};
use crate::material_laws::lemma_lambertian_always_scatters;
use crate::ray::Ray;
use crate::util::random_f64;
use crate::vector3::{Vector3, lemma_zero_inside_unit_ball};

verus! {

/// What a material needs from chance to scatter one ray: a point of the unit
/// ball and a number in `[0, 1)`.
#[derive(Clone, Copy, Debug, PartialEq, Eq, Structural)]
pub struct Sample {
    pub point: Vector3,
    pub draw: Fixed,
}

impl Sample {
    pub open spec fn valid(self) -> bool {
        &&& self.point.inside_unit_ball()
        &&& 0 <= self.draw@ < ONE_RAW
    }

    /// A sample drawn at random: a point of the unit ball found by
    /// rejection sampling, and a number in `[0, 1)`.
    pub fn new_random() -> (s: Sample)
        ensures
            s.valid(),
            s.point.sampled_in_unit_ball(),
    {
        Sample { point: Vector3::new_random_in_unit_sphere(), draw: random_f64() }
    }
}

/// A scattered ray and the colour by which its light is weakened.
#[derive(Clone, Copy, Debug, PartialEq, Eq, Structural)]
pub struct ScatterRecord {
    pub attenuation: Vector3,
    pub scattered_ray: Ray,
}

pub trait Material {
    /// The scattered ray for a given sample, or `None` where the ray is absorbed.
    spec fn spec_scatter_with(
        &self,
        r_in: Ray,
        p: Vector3,
        normal: Vector3,
        front_face: bool,
        sample: Sample,
    ) -> Option<ScatterRecord>;

    /// Scatters the ray `r_in`, which hit the surface at `p`, with the given sample.
    fn scatter_with(
        &self,
        r_in: &Ray,
        p: &Vector3,
        normal: &Vector3,
        front_face: bool,
        sample: &Sample,
    ) -> (out: Option<ScatterRecord>)
        requires
            !r_in.direction.is_zero(),
        ensures
            out == self.spec_scatter_with(*r_in, *p, *normal, front_face, *sample),
    ;

    /// Scatters the ray `r_in`, which hit the surface at `p`, with a sample
    /// drawn at random.
    fn scatter(&self, r_in: &Ray, p: &Vector3, normal: &Vector3, front_face: bool) -> (out: Option<
        ScatterRecord,
    >)
        requires
            !r_in.direction.is_zero(),
        ensures
            exists|sample: Sample| #[trigger]
                sample.valid() && out == self.spec_scatter_with(
                    *r_in,
                    *p,
                    *normal,
                    front_face,
                    sample,
                ),
    ;
}

/// A diffuse surface.
#[derive(Clone, Copy, Debug, PartialEq, Eq, Structural)]
pub struct Lambertian {
    pub albedo: Vector3,
}

impl Lambertian {
    pub fn new(color: Vector3) -> (m: Lambertian)
        ensures
            m.albedo == color,
    {
        Lambertian { albedo: color }
    }

    /// The direction in which a diffuse surface sends a ray on: the normal
    /// plus a random direction, or the normal alone where the two cancel.
    pub open spec fn spec_direction(normal: Vector3, sample: Sample) -> Vector3 {
        let sum = normal.spec_plus(sample.point.spec_direction_of());
        if sum.spec_near_zero() {
            normal
        } else {
            sum
        }
    }
}

impl Material for Lambertian {
    open spec fn spec_scatter_with(
        &self,
        r_in: Ray,
        p: Vector3,
        normal: Vector3,
        front_face: bool,
        sample: Sample,
    ) -> Option<ScatterRecord> {
        Some(
            ScatterRecord {
                attenuation: self.albedo,
                scattered_ray: Ray {
                    origin: p,
                    direction: Lambertian::spec_direction(normal, sample),
                },
            },
        )
    }

    fn scatter_with(
        &self,
        r_in: &Ray,
        p: &Vector3,
        normal: &Vector3,
        front_face: bool,
        sample: &Sample,
    ) -> (out: Option<ScatterRecord>) {
        let attenuation = self.albedo;
        let mut scatter_direction = normal.plus(&sample.point.direction_of());
        if scatter_direction.near_zero() {
            scatter_direction = *normal;
        }
        let scattered_ray = Ray::new(*p, scatter_direction);
        Some(ScatterRecord { attenuation, scattered_ray })
    }

    /// A diffuse surface absorbs no ray.
    fn scatter(&self, r_in: &Ray, p: &Vector3, normal: &Vector3, front_face: bool) -> (out: Option<
        ScatterRecord,
    >)
        ensures
            out is Some,
            out->0.attenuation == self.albedo,
            out->0.scattered_ray.origin == *p,
            !out->0.scattered_ray.direction.spec_near_zero(),
    {
        let sample = Sample { point: Vector3::new_random_in_unit_sphere(), draw: Fixed::zero() };
        proof {
            assert(sample.valid());
            lemma_lambertian_always_scatters(*self, *r_in, *p, *normal, front_face, sample);
        }
        self.scatter_with(r_in, p, normal, front_face, &sample)
    }
}

/// A reflective surface; `fuzz` blurs the reflection.
#[derive(Clone, Copy, Debug, PartialEq, Eq, Structural)]
pub struct Metal {
    pub albedo: Vector3,
    pub fuzz: Fixed,
}

impl Metal {
    pub fn new(color: Vector3, fuzz: Fixed) -> (m: Metal)
        ensures
            m.albedo == color,
            m.fuzz == fuzz,
    {
        Metal { albedo: color, fuzz }
    }

    /// The mirror direction of the incoming ray, moved by `fuzz` times a
    /// point of the unit ball.
    pub open spec fn spec_direction(self, r_in: Ray, normal: Vector3, sample: Sample) -> Vector3 {
        r_in.direction.spec_unit().spec_reflect(normal).spec_plus(
            sample.point.spec_scaled(self.fuzz),
        )
    }
}

impl Material for Metal {
    open spec fn spec_scatter_with(
        &self,
        r_in: Ray,
        p: Vector3,
        normal: Vector3,
        front_face: bool,
        sample: Sample,
    ) -> Option<ScatterRecord> {
        let direction = self.spec_direction(r_in, normal, sample);
        if direction.spec_dot(normal)@ > 0 {
            Some(
                ScatterRecord {
                    attenuation: self.albedo,
                    scattered_ray: Ray { origin: p, direction },
                },
            )
        } else {
            None
        }
    }

    fn scatter_with(
        &self,
        r_in: &Ray,
        p: &Vector3,
        normal: &Vector3,
        front_face: bool,
        sample: &Sample,
    ) -> (out: Option<ScatterRecord>) {
        let attenuation = self.albedo;
        let reflected = r_in.direction.unit().reflect(normal);
        let scattered_ray = Ray::new(*p, reflected.plus(&sample.point.scaled(self.fuzz)));
        if scattered_ray.direction.dot(normal).gt(Fixed::zero()) {
            Some(ScatterRecord { attenuation, scattered_ray })
        } else {
            None
        }
    }

    fn scatter(&self, r_in: &Ray, p: &Vector3, normal: &Vector3, front_face: bool) -> (out: Option<
        ScatterRecord,
    >) {
        let sample = Sample { point: Vector3::new_random_in_unit_sphere(), draw: Fixed::zero() };
        assert(sample.valid());
        self.scatter_with(r_in, p, normal, front_face, &sample)
    }
}

/// `x` to the fifth power.
pub open spec fn spec_pow5(x: Fixed) -> Fixed {
    let x2 = x.spec_times(x);
    x2.spec_times(x2).spec_times(x)
}

/// Schlick's approximation of the share of light that a clear surface reflects.
pub open spec fn spec_reflectance(cosine: Fixed, ref_idx: Fixed) -> Fixed {
    let one = Fixed::of(ONE_RAW as int);
    let r = one.spec_minus(ref_idx).spec_divided_by(one.spec_plus(ref_idx));
    let r0 = r.spec_times(r);
    r0.spec_plus(one.spec_minus(r0).spec_times(spec_pow5(one.spec_minus(cosine))))
}

/// Schlick's approximation of the share of light that a clear surface
/// reflects, for the cosine of the angle of incidence and the ratio of the
/// refractive indices.
pub fn reflectance(cosine: Fixed, ref_idx: Fixed) -> (r: Fixed)
    requires
        ref_idx@ != -ONE_RAW,
    ensures
        r == spec_reflectance(cosine, ref_idx),
{
    let one = Fixed::one();
    let q = one.minus(ref_idx).divided_by(one.plus(ref_idx));
    let r0 = q.times(q);
    let x = one.minus(cosine);
    let x2 = x.times(x);
    let x5 = x2.times(x2).times(x);
    r0.plus(one.minus(r0).times(x5))
}

/// A clear surface such as glass, which refracts or reflects.
#[derive(Clone, Copy, Debug, PartialEq, Eq, Structural)]
pub struct Dielectric {
    ir: Fixed,
}

impl Dielectric {
    #[verifier::type_invariant]
    pub closed spec fn positive(self) -> bool {
        self.ir@ > 0
    }

    /// The index of refraction, which is positive.
    pub closed spec fn refraction_index(self) -> Fixed {
        self.ir
    }

    /// The material with the given index of refraction.
    pub closed spec fn spec_new(ir: Fixed) -> Dielectric {
        Dielectric { ir }
    }

    /// The material keeps its index of refraction.
    pub proof fn lemma_spec_new(ir: Fixed)
        ensures
            Dielectric::spec_new(ir).refraction_index() == ir,
    {
    }

    pub fn new(ir: Fixed) -> (m: Dielectric)
        requires
            ir@ > 0,
        ensures
            m == Dielectric::spec_new(ir),
            m.refraction_index() == ir,
    {
        Dielectric { ir }
    }

    /// The index of refraction.
    pub fn index(&self) -> (ir: Fixed)
        ensures
            ir == self.refraction_index(),
            ir@ > 0,
    {
        proof {
            use_type_invariant(self);
        }
        self.ir
    }

    /// The ratio of the refractive indices across the surface: into the
    /// material from outside, out of it from inside.
    pub open spec fn spec_ratio(self, front_face: bool) -> Fixed {
        if front_face {
            Fixed::of(ONE_RAW as int).spec_divided_by(self.refraction_index())
        } else {
            self.refraction_index()
        }
    }

    /// The sine of the angle of incidence, from its cosine.
    pub open spec fn spec_sine(cos_theta: Fixed) -> Fixed {
        let s2 = Fixed::of(ONE_RAW as int).spec_minus(cos_theta.spec_times(cos_theta));
        if s2@ < 0 {
            Fixed::of(0)
        } else {
            s2.spec_sqrt()
        }
    }

    /// Whether the ray is reflected: always where Snell's law has no
    /// solution, else with the probability that Schlick's approximation gives.
    pub open spec fn spec_reflects(self, unit_direction: Vector3, normal: Vector3, front_face: bool, draw: Fixed) -> bool {
        let ratio = self.spec_ratio(front_face);
        let cos_theta = unit_direction.spec_negated().spec_dot(normal).spec_min(
            Fixed::of(ONE_RAW as int),
        );
        let sin_theta = Dielectric::spec_sine(cos_theta);
        ratio.spec_times(sin_theta)@ > ONE_RAW || spec_reflectance(cos_theta, ratio)@ > draw@
    }

    pub open spec fn spec_direction(self, r_in: Ray, normal: Vector3, front_face: bool, sample: Sample) -> Vector3 {
        let unit_direction = r_in.direction.spec_unit();
        if self.spec_reflects(unit_direction, normal, front_face, sample.draw) {
            unit_direction.spec_reflect(normal)
        } else {
            unit_direction.spec_refract(normal, self.spec_ratio(front_face))
        }
    }
}

impl Material for Dielectric {
    open spec fn spec_scatter_with(
        &self,
        r_in: Ray,
        p: Vector3,
        normal: Vector3,
        front_face: bool,
        sample: Sample,
    ) -> Option<ScatterRecord> {
        Some(
            ScatterRecord {
                attenuation: Vector3 {
                    x: Fixed::of(ONE_RAW as int),
                    y: Fixed::of(ONE_RAW as int),
                    z: Fixed::of(ONE_RAW as int),
                },
                scattered_ray: Ray {
                    origin: p,
                    direction: self.spec_direction(r_in, normal, front_face, sample),
                },
            },
        )
    }

    fn scatter_with(
        &self,
        r_in: &Ray,
        p: &Vector3,
        normal: &Vector3,
        front_face: bool,
        sample: &Sample,
    ) -> (out: Option<ScatterRecord>) {
        let one = Fixed::one();
        let attenuation = Vector3::new(one, one, one);
        let ir = self.index();
        let refraction_ratio = if front_face {
            one.divided_by(ir)
        } else {
            ir
        };
        proof {
            lemma_ratio_not_negative(ir@);
        }
        let unit_direction = r_in.direction.unit();
        let cos_theta = unit_direction.negated().dot(normal).min(one);
        let s2 = one.minus(cos_theta.times(cos_theta));
        let sin_theta = if s2.lt(Fixed::zero()) {
            Fixed::zero()
        } else {
            s2.sqrt()
        };
        let cannot_refract = refraction_ratio.times(sin_theta).gt(one);
        let direction = if cannot_refract || reflectance(cos_theta, refraction_ratio).gt(
            sample.draw,
        ) {
            unit_direction.reflect(normal)
        } else {
            unit_direction.refract(normal, refraction_ratio)
        };
        let scattered_ray = Ray::new(*p, direction);
        Some(ScatterRecord { attenuation, scattered_ray })
    }

    /// A clear surface absorbs no ray and takes no light from it.
    fn scatter(&self, r_in: &Ray, p: &Vector3, normal: &Vector3, front_face: bool) -> (out: Option<
        ScatterRecord,
    >)
        ensures
            out is Some,
            out->0.attenuation == (Vector3 {
                x: Fixed::of(ONE_RAW as int),
                y: Fixed::of(ONE_RAW as int),
                z: Fixed::of(ONE_RAW as int),
            }),
            out->0.scattered_ray.origin == *p,
    {
        let sample = Sample { point: Vector3::zero(), draw: random_f64() };
        proof {
            lemma_zero_inside_unit_ball();
            assert(sample.valid());
        }
        self.scatter_with(r_in, p, normal, front_face, &sample)
    }
}

/// Any one of the three materials.
#[derive(Clone, Copy, Debug, PartialEq, Eq, Structural)]
pub enum Surface {
    Lambertian(Lambertian),
    Metal(Metal),
    Dielectric(Dielectric),
}

impl Material for Surface {
    open spec fn spec_scatter_with(
        &self,
        r_in: Ray,
        p: Vector3,
        normal: Vector3,
        front_face: bool,
        sample: Sample,
    ) -> Option<ScatterRecord> {
        match *self {
            Surface::Lambertian(m) => m.spec_scatter_with(r_in, p, normal, front_face, sample),
            Surface::Metal(m) => m.spec_scatter_with(r_in, p, normal, front_face, sample),
            Surface::Dielectric(m) => m.spec_scatter_with(r_in, p, normal, front_face, sample),
        }
    }

    fn scatter_with(
        &self,
        r_in: &Ray,
        p: &Vector3,
        normal: &Vector3,
        front_face: bool,
        sample: &Sample,
    ) -> (out: Option<ScatterRecord>) {
        match self {
            Surface::Lambertian(m) => m.scatter_with(r_in, p, normal, front_face, sample),
            Surface::Metal(m) => m.scatter_with(r_in, p, normal, front_face, sample),
            Surface::Dielectric(m) => m.scatter_with(r_in, p, normal, front_face, sample),
        }
    }

    fn scatter(&self, r_in: &Ray, p: &Vector3, normal: &Vector3, front_face: bool) -> (out: Option<
        ScatterRecord,
    >) {
        match self {
            Surface::Lambertian(m) => m.scatter(r_in, p, normal, front_face),
            Surface::Metal(m) => m.scatter(r_in, p, normal, front_face),
            Surface::Dielectric(m) => m.scatter(r_in, p, normal, front_face),
        }
    }
}

/// One over a positive number is not negative.
pub proof fn lemma_ratio_not_negative(ir: int)
    requires
        ir > 0,
    ensures
        fx_div(ONE_RAW as int, ir) >= 0,
{
    assert((ONE_RAW * ONE_RAW) / ir >= 0) by (nonlinear_arith)
        requires
            ir > 0,
    ;
}

} // verus!
