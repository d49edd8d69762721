//! Three-component vectors, used as points, directions and colours.

use vstd::prelude::*;
use crate::fixed::{
    Fixed, ONE_RAW, isqrt, isqrt_u128, lemma_isqrt_bounds, magnitude, saturate, saturate_i128,
    sum3_div, trunc_div, trunc_div_i128, wide_mul,
};
use crate::util::random_range;
use crate::vector_laws::{lemma_direction_has_length_one, lemma_toward_faces_normal, nearly_unit};

verus! {

/// Components below this raw magnitude count as zero (about `1e-8`).
pub const NEAR_ZERO_RAW: i64 = 43;

/// Vectors whose raw components all stay below this magnitude are widened by
/// `2^32` before they are normalised, so that short vectors keep their precision.
pub const WIDEN_BELOW_RAW: i64 = 0x8000_0000;

/// How often a random point is drawn before the sampler settles for the centre.
pub const SAMPLE_ATTEMPTS: u32 = 128;

/// The exact sum of the squares of three integers.
pub open spec fn sum_sq(x: int, y: int, z: int) -> int {
    x * x + y * y + z * z
}

/// The exact sum of the squares of three raw values.
pub fn sum_sq_u128(x: i64, y: i64, z: i64) -> (s: u128)
    ensures
        s == sum_sq(x as int, y as int, z as int),
{
    let px = wide_mul(x, x);
    let py = wide_mul(y, y);
    let pz = wide_mul(z, z);
    assert(x * x >= 0 && y * y >= 0 && z * z >= 0) by (nonlinear_arith);
    px as u128 + py as u128 + pz as u128
}

#[derive(Clone, Copy, Debug, PartialEq, Eq, Structural)]
pub struct Vector3 {
    pub x: Fixed,
    pub y: Fixed,
    pub z: Fixed,
}

impl Vector3 {
    /// The exact dot product of the raw components, at scale `2^64`.
    pub open spec fn dot_exact(self, v: Vector3) -> int {
        self.x@ * v.x@ + self.y@ * v.y@ + self.z@ * v.z@
    }

    pub open spec fn spec_dot(self, v: Vector3) -> Fixed {
        Fixed::of(saturate(trunc_div(self.dot_exact(v), ONE_RAW as int)))
    }

    pub open spec fn spec_length_squared(self) -> Fixed {
        self.spec_dot(self)
    }

    /// The exact length of the raw components, rounded down.
    pub open spec fn length_exact(self) -> nat {
        isqrt(sum_sq(self.x@, self.y@, self.z@) as nat)
    }

    pub open spec fn spec_length(self) -> Fixed {
        Fixed::of(saturate(self.length_exact() as int))
    }

    pub open spec fn is_zero(self) -> bool {
        self.x@ == 0 && self.y@ == 0 && self.z@ == 0
    }

    pub open spec fn spec_plus(self, v: Vector3) -> Vector3 {
        Vector3 { x: self.x.spec_plus(v.x), y: self.y.spec_plus(v.y), z: self.z.spec_plus(v.z) }
    }

    pub open spec fn spec_minus(self, v: Vector3) -> Vector3 {
        Vector3 {
            x: self.x.spec_minus(v.x),
            y: self.y.spec_minus(v.y),
            z: self.z.spec_minus(v.z),
        }
    }

    pub open spec fn spec_negated(self) -> Vector3 {
        Vector3 { x: self.x.spec_negated(), y: self.y.spec_negated(), z: self.z.spec_negated() }
    }

    pub open spec fn spec_scaled(self, t: Fixed) -> Vector3 {
        Vector3 { x: self.x.spec_times(t), y: self.y.spec_times(t), z: self.z.spec_times(t) }
    }

    pub open spec fn spec_hadamard(self, v: Vector3) -> Vector3 {
        Vector3 {
            x: self.x.spec_times(v.x),
            y: self.y.spec_times(v.y),
            z: self.z.spec_times(v.z),
        }
    }

    pub open spec fn spec_divided_by(self, t: Fixed) -> Vector3 {
        Vector3 {
            x: self.x.spec_divided_by(t),
            y: self.y.spec_divided_by(t),
            z: self.z.spec_divided_by(t),
        }
    }

    pub open spec fn spec_cross(self, v: Vector3) -> Vector3 {
        Vector3 {
            x: Fixed::of(
                saturate(trunc_div(self.y@ * v.z@ - self.z@ * v.y@, ONE_RAW as int)),
            ),
            y: Fixed::of(
                saturate(trunc_div(self.z@ * v.x@ - self.x@ * v.z@, ONE_RAW as int)),
            ),
            z: Fixed::of(
                saturate(trunc_div(self.x@ * v.y@ - self.y@ * v.x@, ONE_RAW as int)),
            ),
        }
    }

    pub open spec fn spec_near_zero(self) -> bool {
        &&& magnitude(self.x@) < NEAR_ZERO_RAW
        &&& magnitude(self.y@) < NEAR_ZERO_RAW
        &&& magnitude(self.z@) < NEAR_ZERO_RAW
    }

    /// The factor by which a vector is widened before it is normalised.
    pub open spec fn widening(self) -> int {
        if magnitude(self.x@) < WIDEN_BELOW_RAW && magnitude(self.y@) < WIDEN_BELOW_RAW
            && magnitude(self.z@) < WIDEN_BELOW_RAW {
            ONE_RAW as int
        } else {
            1
        }
    }

    /// The exact length of the widened vector, rounded down.
    pub open spec fn widened_length(self) -> nat {
        let k = self.widening();
        isqrt(sum_sq(self.x@ * k, self.y@ * k, self.z@ * k) as nat)
    }

    pub open spec fn spec_unit(self) -> Vector3 {
        let k = self.widening();
        let len = self.widened_length() as int;
        Vector3 {
            x: Fixed::of(saturate(trunc_div(self.x@ * k * ONE_RAW, len))),
            y: Fixed::of(saturate(trunc_div(self.y@ * k * ONE_RAW, len))),
            z: Fixed::of(saturate(trunc_div(self.z@ * k * ONE_RAW, len))),
        }
    }

    /// `v - 2 * dot(v, n) * n`
    pub open spec fn spec_reflect(self, n: Vector3) -> Vector3 {
        self.spec_minus(n.spec_scaled(Fixed::of(2 * ONE_RAW).spec_times(self.spec_dot(n))))
    }

    /// Snell's law: the part of the refracted ray across the normal, plus
    /// the part along it.
    pub open spec fn spec_refract(self, n: Vector3, etai_over_etat: Fixed) -> Vector3 {
        let one = Fixed::of(ONE_RAW as int);
        let cos_theta = self.spec_negated().spec_dot(n).spec_min(one);
        let r_out_perp = self.spec_plus(n.spec_scaled(cos_theta)).spec_scaled(etai_over_etat);
        let r_out_parallel = n.spec_scaled(
            one.spec_minus(r_out_perp.spec_length_squared()).spec_abs().spec_sqrt().spec_negated(),
        );
        r_out_perp.spec_plus(r_out_parallel)
    }

    pub fn new(x: Fixed, y: Fixed, z: Fixed) -> (v: Vector3)
        ensures
            v == (Vector3 { x, y, z }),
    {
        Vector3 { x, y, z }
    }

    pub fn zero() -> (v: Vector3)
        ensures
            v.is_zero(),
    {
        Vector3 { x: Fixed::zero(), y: Fixed::zero(), z: Fixed::zero() }
    }

    pub fn plus(&self, v: &Vector3) -> (r: Vector3)
        ensures
            r == self.spec_plus(*v),
    {
        Vector3 { x: self.x.plus(v.x), y: self.y.plus(v.y), z: self.z.plus(v.z) }
    }

    pub fn minus(&self, v: &Vector3) -> (r: Vector3)
        ensures
            r == self.spec_minus(*v),
    {
        Vector3 { x: self.x.minus(v.x), y: self.y.minus(v.y), z: self.z.minus(v.z) }
    }

    pub fn negated(&self) -> (r: Vector3)
        ensures
            r == self.spec_negated(),
    {
        Vector3 { x: self.x.negated(), y: self.y.negated(), z: self.z.negated() }
    }

    /// The vector times a number.
    pub fn scaled(&self, t: Fixed) -> (r: Vector3)
        ensures
            r == self.spec_scaled(t),
    {
        Vector3 { x: self.x.times(t), y: self.y.times(t), z: self.z.times(t) }
    }

    /// The component-wise product, used to tint colours.
    pub fn hadamard(&self, v: &Vector3) -> (r: Vector3)
        ensures
            r == self.spec_hadamard(*v),
    {
        Vector3 { x: self.x.times(v.x), y: self.y.times(v.y), z: self.z.times(v.z) }
    }

    pub fn divided_by(&self, t: Fixed) -> (r: Vector3)
        requires
            t@ != 0,
        ensures
            r == self.spec_divided_by(t),
    {
        Vector3 { x: self.x.divided_by(t), y: self.y.divided_by(t), z: self.z.divided_by(t) }
    }

    pub fn dot(&self, v: &Vector3) -> (d: Fixed)
        ensures
            d == self.spec_dot(*v),
    {
        let xx = wide_mul(self.x.raw, v.x.raw);
        let yy = wide_mul(self.y.raw, v.y.raw);
        let zz = wide_mul(self.z.raw, v.z.raw);
        Fixed { raw: sum3_div(xx, yy, zz) }
    }

    pub fn length_squared(&self) -> (d: Fixed)
        ensures
            d == self.spec_length_squared(),
    {
        self.dot(self)
    }

    pub fn length(&self) -> (d: Fixed)
        ensures
            d == self.spec_length(),
    {
        let s = isqrt_u128(sum_sq_u128(self.x.raw, self.y.raw, self.z.raw));
        if s > 0x7fff_ffff_ffff_ffff {
            Fixed { raw: i64::MAX }
        } else {
            Fixed { raw: s as i64 }
        }
    }

    /// Whether every component is exactly zero.
    pub fn all_zero(&self) -> (b: bool)
        ensures
            b == self.is_zero(),
    {
        self.x.raw == 0 && self.y.raw == 0 && self.z.raw == 0
    }

    /// The vector of length one that points the same way.
    pub fn unit(&self) -> (r: Vector3)
        requires
            !self.is_zero(),
        ensures
            r == self.spec_unit(),
    {
        let w = WIDEN_BELOW_RAW;
        let k: i64 = if -w < self.x.raw && self.x.raw < w && -w < self.y.raw && self.y.raw < w
            && -w < self.z.raw && self.z.raw < w {
            ONE_RAW
        } else {
            1
        };
        assert(k == self.widening());
        let wx: i64 = self.x.raw * k;
        let wy: i64 = self.y.raw * k;
        let wz: i64 = self.z.raw * k;
        let total = sum_sq_u128(wx, wy, wz);
        let len = isqrt_u128(total);
        proof {
            lemma_isqrt_bounds(total as nat);
            assert(total >= 1) by (nonlinear_arith)
                requires
                    total == wx * wx + wy * wy + wz * wz,
                    wx != 0 || wy != 0 || wz != 0,
            ;
            assert(len >= 1) by (nonlinear_arith)
                requires
                    total >= 1,
                    total < (len + 1) * (len + 1),
                    len >= 0,
            ;
        }
        let d = len as i128;
        Vector3 {
            x: Fixed { raw: saturate_i128(trunc_div_i128((wx as i128) * 0x1_0000_0000, d)) },
            y: Fixed { raw: saturate_i128(trunc_div_i128((wy as i128) * 0x1_0000_0000, d)) },
            z: Fixed { raw: saturate_i128(trunc_div_i128((wz as i128) * 0x1_0000_0000, d)) },
        }
    }

    pub fn cross(&self, v: &Vector3) -> (r: Vector3)
        ensures
            r == self.spec_cross(*v),
    {
        let yz = wide_mul(self.y.raw, v.z.raw);
        let zy = wide_mul(self.z.raw, v.y.raw);
        let zx = wide_mul(self.z.raw, v.x.raw);
        let xz = wide_mul(self.x.raw, v.z.raw);
        let xy = wide_mul(self.x.raw, v.y.raw);
        let yx = wide_mul(self.y.raw, v.x.raw);
        Vector3 {
            x: Fixed { raw: sum3_div(yz, -zy, 0) },
            y: Fixed { raw: sum3_div(zx, -xz, 0) },
            z: Fixed { raw: sum3_div(xy, -yx, 0) },
        }
    }

    pub fn near_zero(&self) -> (b: bool)
        ensures
            b == self.spec_near_zero(),
    {
        let s = NEAR_ZERO_RAW;
        -s < self.x.raw && self.x.raw < s && -s < self.y.raw && self.y.raw < s && -s < self.z.raw
            && self.z.raw < s
    }

    pub fn reflect(&self, n: &Vector3) -> (r: Vector3)
        ensures
            r == self.spec_reflect(*n),
    {
        let twice = Fixed::from_int(2).times(self.dot(n));
        self.minus(&n.scaled(twice))
    }

    pub fn refract(&self, n: &Vector3, etai_over_etat: Fixed) -> (r: Vector3)
        ensures
            r == self.spec_refract(*n, etai_over_etat),
    {
        let cos_theta = self.negated().dot(n).min(Fixed::one());
        let r_out_perp = self.plus(&n.scaled(cos_theta)).scaled(etai_over_etat);
        let along = Fixed::one().minus(r_out_perp.length_squared()).abs().sqrt().negated();
        let r_out_parallel = n.scaled(along);
        r_out_perp.plus(&r_out_parallel)
    }

    /// Whether every component lies in `[min, max)`.
    pub open spec fn within(self, min: Fixed, max: Fixed) -> bool {
        &&& min@ <= self.x@ < max@
        &&& min@ <= self.y@ < max@
        &&& min@ <= self.z@ < max@
    }

    /// Whether the point lies strictly inside the unit ball.
    pub open spec fn inside_unit_ball(self) -> bool {
        self.spec_length_squared()@ < ONE_RAW
    }

    /// The first of the candidates inside the unit ball, or the centre.
    pub open spec fn spec_first_inside(candidates: Seq<Vector3>) -> Vector3
        decreases candidates.len(),
    {
        if candidates.len() == 0 {
            Vector3 { x: Fixed::of(0), y: Fixed::of(0), z: Fixed::of(0) }
        } else if candidates[0].inside_unit_ball() {
            candidates[0]
        } else {
            Vector3::spec_first_inside(candidates.drop_first())
        }
    }

    /// The direction of a point of the unit ball; the x axis for the centre,
    /// which has none.
    pub open spec fn spec_direction_of(self) -> Vector3 {
        if self.is_zero() {
            Vector3 { x: Fixed::of(ONE_RAW as int), y: Fixed::of(0), z: Fixed::of(0) }
        } else {
            self.spec_unit()
        }
    }

    /// The point itself or its mirror image, whichever lies on the side of `normal`.
    pub open spec fn spec_toward(self, normal: Vector3) -> Vector3 {
        if self.spec_dot(normal)@ > 0 {
            self
        } else {
            self.spec_negated()
        }
    }

    /// A vector with each component drawn from `[min, max)`.
    pub fn new_random(min: Fixed, max: Fixed) -> (v: Vector3)
        requires
            min@ < max@,
        ensures
            v.within(min, max),
    {
        Vector3 { x: random_range(min, max), y: random_range(min, max), z: random_range(min, max) }
    }

    /// Whether the point lies strictly inside the unit ball.
    pub fn is_inside_unit_ball(&self) -> (b: bool)
        ensures
            b == self.inside_unit_ball(),
    {
        self.length_squared().lt(Fixed::one())
    }

    /// The first of the candidates inside the unit ball, or the centre where
    /// none is.
    pub fn first_inside_unit_ball(candidates: &Vec<Vector3>) -> (p: Vector3)
        ensures
            p == Vector3::spec_first_inside(candidates@),
            p.inside_unit_ball(),
    {
        let mut i: usize = 0;
        assert(candidates@.skip(0) =~= candidates@);
        while i < candidates.len()
            invariant
                i <= candidates.len(),
                Vector3::spec_first_inside(candidates@) == Vector3::spec_first_inside(
                    candidates@.skip(i as int),
                ),
            decreases candidates.len() - i,
        {
            let c = candidates[i];
            proof {
                let rest = candidates@.skip(i as int);
                assert(rest[0] == c);
                assert(rest.drop_first() =~= candidates@.skip(i + 1));
            }
            if c.is_inside_unit_ball() {
                return c;
            }
            i += 1;
        }
        proof {
            assert(candidates@.skip(i as int).len() == 0);
            lemma_zero_inside_unit_ball();
        }
        Vector3::zero()
    }

    /// Whether the point could have come out of rejection sampling in the
    /// cube around the unit ball: it is the first point inside the ball
    /// among at most `SAMPLE_ATTEMPTS` points of the cube, or the centre
    /// where none of them is inside.
    pub open spec fn sampled_in_unit_ball(self) -> bool {
        exists|candidates: Seq<Vector3>|
            {
                &&& candidates.len() <= SAMPLE_ATTEMPTS
                &&& forall|i: int|
                    0 <= i < candidates.len() ==> (#[trigger] candidates[i]).within(
                        Fixed::of(-ONE_RAW),
                        Fixed::of(ONE_RAW as int),
                    )
                &&& self == #[trigger] Vector3::spec_first_inside(candidates)
            }
    }

    /// A random point inside the unit ball, by rejection: points of the cube
    /// around it are drawn until one falls inside. After `SAMPLE_ATTEMPTS`
    /// rejections in a row the centre is returned.
    pub fn new_random_in_unit_sphere() -> (p: Vector3)
        ensures
            p.inside_unit_ball(),
            p.sampled_in_unit_ball(),
            p.is_zero() || p.within(Fixed::of(-ONE_RAW), Fixed::of(ONE_RAW as int)),
    {
        let mut attempts: u32 = 0;
        let ghost mut rejected = Seq::<Vector3>::empty();
        while attempts < SAMPLE_ATTEMPTS
            invariant
                attempts <= SAMPLE_ATTEMPTS,
                rejected.len() == attempts,
                forall|i: int|
                    0 <= i < rejected.len() ==> (#[trigger] rejected[i]).within(
                        Fixed::of(-ONE_RAW),
                        Fixed::of(ONE_RAW as int),
                    ) && !rejected[i].inside_unit_ball(),
            decreases SAMPLE_ATTEMPTS - attempts,
        {
            let p = Vector3::new_random(Fixed::from_int(-1), Fixed::one());
            if p.is_inside_unit_ball() {
                proof {
                    lemma_first_inside_after_rejected(rejected, seq![p]);
                    assert(Vector3::spec_first_inside(seq![p]) == p);
                    let candidates = rejected + seq![p];
                    assert(p == Vector3::spec_first_inside(candidates));
                }
                return p;
            }
            proof {
                rejected = rejected.push(p);
            }
            attempts += 1;
        }
        proof {
            lemma_zero_inside_unit_ball();
            lemma_first_inside_after_rejected(rejected, Seq::<Vector3>::empty());
            assert(rejected + Seq::<Vector3>::empty() =~= rejected);
            assert(Vector3 { x: Fixed::of(0), y: Fixed::of(0), z: Fixed::of(0) }
                == Vector3::spec_first_inside(rejected));
        }
        Vector3::zero()
    }

    /// A random point inside the unit disk of the xy plane, by rejection as
    /// in [`Vector3::new_random_in_unit_sphere`].
    pub fn new_random_in_unit_disk() -> (p: Vector3)
        ensures
            p.inside_unit_ball(),
            p.sampled_in_unit_ball(),
            p.z@ == 0,
            p.is_zero() || p.within(Fixed::of(-ONE_RAW), Fixed::of(ONE_RAW as int)),
    {
        let mut attempts: u32 = 0;
        let ghost mut rejected = Seq::<Vector3>::empty();
        while attempts < SAMPLE_ATTEMPTS
            invariant
                attempts <= SAMPLE_ATTEMPTS,
                rejected.len() == attempts,
                forall|i: int|
                    0 <= i < rejected.len() ==> (#[trigger] rejected[i]).within(
                        Fixed::of(-ONE_RAW),
                        Fixed::of(ONE_RAW as int),
                    ) && !rejected[i].inside_unit_ball(),
            decreases SAMPLE_ATTEMPTS - attempts,
        {
            let x = random_range(Fixed::from_int(-1), Fixed::one());
            let y = random_range(Fixed::from_int(-1), Fixed::one());
            let p = Vector3 { x, y, z: Fixed::zero() };
            if p.is_inside_unit_ball() {
                proof {
                    lemma_first_inside_after_rejected(rejected, seq![p]);
                    assert(Vector3::spec_first_inside(seq![p]) == p);
                    let candidates = rejected + seq![p];
                    assert(p == Vector3::spec_first_inside(candidates));
                }
                return p;
            }
            proof {
                rejected = rejected.push(p);
            }
            attempts += 1;
        }
        proof {
            lemma_zero_inside_unit_ball();
            lemma_first_inside_after_rejected(rejected, Seq::<Vector3>::empty());
            assert(rejected + Seq::<Vector3>::empty() =~= rejected);
            assert(Vector3 { x: Fixed::of(0), y: Fixed::of(0), z: Fixed::of(0) }
                == Vector3::spec_first_inside(rejected));
        }
        Vector3::zero()
    }

    /// The direction of a point of the unit ball; the x axis for the centre.
    pub fn direction_of(&self) -> (u: Vector3)
        ensures
            u == self.spec_direction_of(),
    {
        if self.all_zero() {
            Vector3 { x: Fixed::one(), y: Fixed::zero(), z: Fixed::zero() }
        } else {
            self.unit()
        }
    }

    /// A random direction: the direction of a random point of the unit ball.
    pub fn new_random_unit_vector() -> (u: Vector3)
        ensures
            exists|p: Vector3| #[trigger] p.inside_unit_ball() && u == p.spec_direction_of(),
            nearly_unit(u),
    {
        let p = Vector3::new_random_in_unit_sphere();
        proof {
            lemma_direction_has_length_one(p);
        }
        p.direction_of()
    }

    /// The point itself or its mirror image, whichever lies on the side of `normal`.
    pub fn toward(&self, normal: &Vector3) -> (r: Vector3)
        ensures
            r == self.spec_toward(*normal),
    {
        if self.dot(normal).gt(Fixed::zero()) {
            *self
        } else {
            self.negated()
        }
    }

    /// A random point of the unit ball on the side of `normal`.
    pub fn new_random_in_hemisphere(normal: &Vector3) -> (r: Vector3)
        ensures
            exists|p: Vector3| #[trigger] p.inside_unit_ball() && r == p.spec_toward(*normal),
            r.spec_dot(*normal)@ >= 0,
    {
        let in_unit_sphere = Vector3::new_random_in_unit_sphere();
        proof {
            lemma_toward_faces_normal(in_unit_sphere, *normal);
        }
        in_unit_sphere.toward(normal)
    }
}

/// Candidates outside the unit ball are passed over.
pub proof fn lemma_first_inside_after_rejected(rejected: Seq<Vector3>, rest: Seq<Vector3>)
    requires
        forall|i: int| 0 <= i < rejected.len() ==> !(#[trigger] rejected[i]).inside_unit_ball(),
    ensures
        Vector3::spec_first_inside(rejected + rest) == Vector3::spec_first_inside(rest),
    decreases rejected.len(),
{
    if rejected.len() == 0 {
        assert(rejected + rest =~= rest);
    } else {
        let all = rejected + rest;
        assert(all[0] == rejected[0]);
        assert(all.drop_first() =~= rejected.drop_first() + rest);
        assert forall|i: int| 0 <= i < rejected.drop_first().len() implies !(
        #[trigger] rejected.drop_first()[i]).inside_unit_ball() by {
            assert(rejected.drop_first()[i] == rejected[i + 1]);
        }
        lemma_first_inside_after_rejected(rejected.drop_first(), rest);
    }
}

/// The centre lies inside the unit ball.
pub proof fn lemma_zero_inside_unit_ball()
    ensures
        (Vector3 { x: Fixed::of(0), y: Fixed::of(0), z: Fixed::of(0) }).inside_unit_ball(),
{
    let z = Vector3 { x: Fixed::of(0), y: Fixed::of(0), z: Fixed::of(0) };
    assert(z.dot_exact(z) == 0) by (nonlinear_arith)
        requires
            z.x@ == 0 && z.y@ == 0 && z.z@ == 0,
    ;
}

} // verus!
