//! What holds of lengths and of normalised vectors.

use vstd::prelude::*;
use crate::fixed::{
    Fixed, ONE_RAW, fx_mul, lemma_isqrt_bounds, lemma_isqrt_monotonic, lemma_isqrt_unique,
    lemma_trunc_div_by_one, lemma_trunc_div_monotonic, magnitude, trunc_div,
};
use crate::vector3::{Vector3, sum_sq};

verus! {

/// How far, in raw units, the squared length of a normalised vector may lie from one.
pub const UNIT_TOLERANCE_RAW: i64 = 7;

/// Whether the squared length of the vector is one, up to `UNIT_TOLERANCE_RAW`.
pub open spec fn nearly_unit(u: Vector3) -> bool {
    magnitude(u.spec_length_squared()@ - ONE_RAW) <= UNIT_TOLERANCE_RAW
}

proof fn lemma_square_le(a: int, b: int)
    requires
        0 <= a <= b,
    ensures
        a * a <= b * b,
{
    assert(a * a <= b * b) by (nonlinear_arith)
        requires
            0 <= a <= b,
    ;
}

proof fn lemma_square_lt(a: int, b: int)
    requires
        0 <= a < b,
    ensures
        a * a < b * b,
{
    assert(a * a < b * b) by (nonlinear_arith)
        requires
            0 <= a < b,
    ;
}

/// A component of a vector is no longer than the vector.
proof fn lemma_component_within_length(m: int, rest: int, len: int)
    requires
        m >= 0,
        rest >= 0,
        len >= 0,
        m * m + rest < (len + 1) * (len + 1),
    ensures
        m <= len,
{
    if m >= len + 1 {
        lemma_square_le(len + 1, m);
    }
}

/// One component, divided by the length: the quotient `q` of `m * n` by
/// `len`, where `m <= len`.
proof fn lemma_quotient(m: int, n: int, len: int, q: int)
    requires
        0 <= m <= len,
        len >= 1,
        n >= 1,
        q == (m * n) / len,
    ensures
        0 <= q <= n,
        (q * len) * (q * len) <= (m * n) * (m * n),
        (m * n) * (m * n) < ((q + 1) * len) * ((q + 1) * len),
{
    let x = m * n;
    assert(x >= 0) by (nonlinear_arith)
        requires
            x == m * n,
            m >= 0,
            n >= 1,
    ;
    vstd::arithmetic::div_mod::lemma_fundamental_div_mod(x, len);
    vstd::arithmetic::div_mod::lemma_mod_bound(x, len);
    assert(len * q == q * len) by (nonlinear_arith);
    assert(q * len <= x < q * len + len);
    assert(q >= 0) by (nonlinear_arith)
        requires
            x >= 0,
            len >= 1,
            x < q * len + len,
    ;
    assert(x <= len * n) by (nonlinear_arith)
        requires
            x == m * n,
            m <= len,
            n >= 1,
    ;
    assert(q <= n) by (nonlinear_arith)
        requires
            q * len <= x,
            x <= len * n,
            len >= 1,
            q >= 0,
            n >= 1,
    ;
    assert(q * len >= 0) by (nonlinear_arith)
        requires
            q >= 0,
            len >= 1,
    ;
    assert((q + 1) * len == q * len + len) by (nonlinear_arith);
    lemma_square_le(q * len, x);
    lemma_square_lt(x, (q + 1) * len);
}

/// The squares of the three quotients of a vector of length at least
/// `2^31` add up to `2^64`, nearly.
proof fn lemma_normalised_length(m1: int, m2: int, m3: int, len: int, q1: int, q2: int, q3: int)
    requires
        m1 >= 0,
        m2 >= 0,
        m3 >= 0,
        len >= 0x8000_0000,
        len * len <= m1 * m1 + m2 * m2 + m3 * m3,
        m1 * m1 + m2 * m2 + m3 * m3 < (len + 1) * (len + 1),
        q1 == (m1 * 0x1_0000_0000) / len,
        q2 == (m2 * 0x1_0000_0000) / len,
        q3 == (m3 * 0x1_0000_0000) / len,
    ensures
        0 <= q1 <= 0x1_0000_0000,
        0 <= q2 <= 0x1_0000_0000,
        0 <= q3 <= 0x1_0000_0000,
        0x1_0000_0000 - 7 <= (q1 * q1 + q2 * q2 + q3 * q3) / 0x1_0000_0000 <= 0x1_0000_0000 + 4,
{
    let n: int = 0x1_0000_0000;
    let s = m1 * m1 + m2 * m2 + m3 * m3;
    let z = len * len;
    let q = q1 * q1 + q2 * q2 + q3 * q3;
    assert(m1 * m1 >= 0 && m2 * m2 >= 0 && m3 * m3 >= 0) by (nonlinear_arith);
    lemma_component_within_length(m1, m2 * m2 + m3 * m3, len);
    lemma_component_within_length(m2, m1 * m1 + m3 * m3, len);
    lemma_component_within_length(m3, m1 * m1 + m2 * m2, len);
    lemma_quotient(m1, n, len, q1);
    lemma_quotient(m2, n, len, q2);
    lemma_quotient(m3, n, len, q3);
    // The squares, written as products of squares.
    assert((m1 * n) * (m1 * n) == (n * n) * (m1 * m1)) by (nonlinear_arith);
    assert((m2 * n) * (m2 * n) == (n * n) * (m2 * m2)) by (nonlinear_arith);
    assert((m3 * n) * (m3 * n) == (n * n) * (m3 * m3)) by (nonlinear_arith);
    assert((q1 * len) * (q1 * len) == (len * len) * (q1 * q1)) by (nonlinear_arith);
    assert((q2 * len) * (q2 * len) == (len * len) * (q2 * q2)) by (nonlinear_arith);
    assert((q3 * len) * (q3 * len) == (len * len) * (q3 * q3)) by (nonlinear_arith);
    assert(((q1 + 1) * len) * ((q1 + 1) * len) == (len * len) * (q1 * q1 + 2 * q1 + 1))
        by (nonlinear_arith);
    assert(((q2 + 1) * len) * ((q2 + 1) * len) == (len * len) * (q2 * q2 + 2 * q2 + 1))
        by (nonlinear_arith);
    assert(((q3 + 1) * len) * ((q3 + 1) * len) == (len * len) * (q3 * q3 + 2 * q3 + 1))
        by (nonlinear_arith);
    let t = q + 2 * (q1 + q2 + q3) + 3;
    assert(z * q == z * (q1 * q1) + z * (q2 * q2) + z * (q3 * q3)) by (nonlinear_arith)
        requires
            q == q1 * q1 + q2 * q2 + q3 * q3,
    ;
    assert(z * t == z * (q1 * q1 + 2 * q1 + 1) + z * (q2 * q2 + 2 * q2 + 1) + z * (q3 * q3 + 2
        * q3 + 1)) by (nonlinear_arith)
        requires
            t == (q1 * q1 + q2 * q2 + q3 * q3) + 2 * (q1 + q2 + q3) + 3,
    ;
    assert((n * n) * s == (n * n) * (m1 * m1) + (n * n) * (m2 * m2) + (n * n) * (m3 * m3))
        by (nonlinear_arith)
        requires
            s == m1 * m1 + m2 * m2 + m3 * m3,
    ;
    assert(z * q <= (n * n) * s);
    assert((n * n) * s < z * t);
    // From above: the square of the length is at most the sum of squares.
    assert(z >= 0x8000_0000 * len) by (nonlinear_arith)
        requires
            z == len * len,
            len >= 0x8000_0000,
    ;
    assert((len + 1) * (len + 1) == z + 2 * len + 1) by (nonlinear_arith)
        requires
            z == len * len,
    ;
    assert(n * n == 0x1_0000_0000_0000_0000);
    if q >= n * n + 4 * n + 4 {
        assert(z * q >= z * (n * n + 4 * n + 4)) by (nonlinear_arith)
            requires
                q >= n * n + 4 * n + 4,
                z >= 0,
        ;
        assert(z * (n * n + 4 * n + 4) == (n * n) * z + (4 * n + 4) * z) by (nonlinear_arith);
        assert((n * n) * s <= (n * n) * (z + 2 * len)) by (nonlinear_arith)
            requires
                s <= z + 2 * len,
                n * n >= 0,
        ;
        assert((n * n) * (z + 2 * len) == (n * n) * z + (2 * (n * n)) * len) by (nonlinear_arith);
        assert(false);
    }
    if t <= n * n {
        assert(z * t <= z * (n * n)) by (nonlinear_arith)
            requires
                t <= n * n,
                z >= 0,
        ;
        assert((n * n) * s >= (n * n) * z) by (nonlinear_arith)
            requires
                s >= z,
                n * n >= 0,
        ;
        assert(z * (n * n) == (n * n) * z) by (nonlinear_arith);
        assert(false);
    }
    assert(q >= 0);
}

/// The widened vector of a vector that is not zero has a length of at least `2^31`.
proof fn lemma_widened_length(v: Vector3)
    requires
        !v.is_zero(),
    ensures
        v.widened_length() >= 0x8000_0000,
{
    let k = v.widening();
    let wx = v.x@ * k;
    let wy = v.y@ * k;
    let wz = v.z@ * k;
    let s = sum_sq(wx, wy, wz);
    assert(wx * wx >= 0 && wy * wy >= 0 && wz * wz >= 0) by (nonlinear_arith);
    let bound: int = if k == 1 {
        0x8000_0000
    } else {
        0x1_0000_0000
    };
    if k == 1 {
        assert(wx == v.x@ && wy == v.y@ && wz == v.z@);
    } else {
        assert(wx == v.x@ * 0x1_0000_0000 && wy == v.y@ * 0x1_0000_0000 && wz == v.z@
            * 0x1_0000_0000);
    }
    assert(magnitude(wx) >= bound || magnitude(wy) >= bound || magnitude(wz) >= bound);
    assert(s >= bound * bound) by (nonlinear_arith)
        requires
            s == wx * wx + wy * wy + wz * wz,
            bound >= 0,
            (wx >= bound || -wx >= bound) || (wy >= bound || -wy >= bound) || (wz >= bound || -wz
                >= bound),
    ;
    assert(bound * bound < (bound + 1) * (bound + 1)) by (nonlinear_arith)
        requires
            bound >= 0,
    ;
    lemma_isqrt_unique((bound * bound) as nat, bound as nat);
    lemma_isqrt_monotonic((bound * bound) as nat, s as nat);
}

/// The square of a number is the square of its magnitude.
proof fn lemma_square_of_magnitude(x: int)
    ensures
        x * x == magnitude(x) * magnitude(x),
{
    assert(x * x == (-x) * (-x)) by (nonlinear_arith);
}

/// Normalising brings a vector that is not zero to length one: no
/// component of the result exceeds one, and its squared length is one up to
/// `UNIT_TOLERANCE_RAW` raw units.
pub proof fn lemma_unit_has_length_one(v: Vector3)
    requires
        !v.is_zero(),
    ensures
        nearly_unit(v.spec_unit()),
        ONE_RAW - UNIT_TOLERANCE_RAW <= v.spec_unit().spec_length_squared()@ <= ONE_RAW + 4,
        magnitude(v.spec_unit().x@) <= ONE_RAW,
        magnitude(v.spec_unit().y@) <= ONE_RAW,
        magnitude(v.spec_unit().z@) <= ONE_RAW,
{
    let k = v.widening();
    let wx = v.x@ * k;
    let wy = v.y@ * k;
    let wz = v.z@ * k;
    let s = sum_sq(wx, wy, wz);
    let len = v.widened_length() as int;
    let u = v.spec_unit();
    lemma_widened_length(v);
    lemma_square_of_magnitude(wx);
    lemma_square_of_magnitude(wy);
    lemma_square_of_magnitude(wz);
    assert(s >= 0) by (nonlinear_arith)
        requires
            s == wx * wx + wy * wy + wz * wz,
    ;
    lemma_isqrt_bounds(s as nat);
    let n: int = 0x1_0000_0000;
    let q1 = (magnitude(wx) * n) / len;
    let q2 = (magnitude(wy) * n) / len;
    let q3 = (magnitude(wz) * n) / len;
    lemma_normalised_length(magnitude(wx), magnitude(wy), magnitude(wz), len, q1, q2, q3);
    assert(magnitude(wx * n) == magnitude(wx) * n);
    assert(magnitude(wy * n) == magnitude(wy) * n);
    assert(magnitude(wz * n) == magnitude(wz) * n);
    assert(wx * ONE_RAW == wx * n && wy * ONE_RAW == wy * n && wz * ONE_RAW == wz * n);
    assert(magnitude(trunc_div(wx * n, len)) == q1);
    assert(magnitude(trunc_div(wy * n, len)) == q2);
    assert(magnitude(trunc_div(wz * n, len)) == q3);
    assert(magnitude(u.x@) == q1 && magnitude(u.y@) == q2 && magnitude(u.z@) == q3);
    lemma_square_of_magnitude(u.x@);
    lemma_square_of_magnitude(u.y@);
    lemma_square_of_magnitude(u.z@);
    let q = q1 * q1 + q2 * q2 + q3 * q3;
    assert(u.dot_exact(u) == q);
    assert(q >= 0) by (nonlinear_arith)
        requires
            q == q1 * q1 + q2 * q2 + q3 * q3,
    ;
    assert(trunc_div(q, ONE_RAW as int) == q / n);
}

/// The direction of a point has length one, up to `UNIT_TOLERANCE_RAW` raw units.
pub proof fn lemma_direction_has_length_one(p: Vector3)
    ensures
        nearly_unit(p.spec_direction_of()),
{
    if p.is_zero() {
        let axis = p.spec_direction_of();
        assert(axis.dot_exact(axis) == 0x1_0000_0000_0000_0000) by (nonlinear_arith)
            requires
                axis.x@ == 0x1_0000_0000 && axis.y@ == 0 && axis.z@ == 0,
        ;
        lemma_trunc_div_by_one(0x1_0000_0000_0000_0000);
    } else {
        lemma_unit_has_length_one(p);
    }
}

/// A vector of nearly unit length has a component of some size.
pub proof fn lemma_nearly_unit_is_not_small(u: Vector3)
    requires
        nearly_unit(u),
    ensures
        magnitude(u.x@) >= 0x1_0000 || magnitude(u.y@) >= 0x1_0000 || magnitude(u.z@) >= 0x1_0000,
{
    let total = u.dot_exact(u);
    lemma_trunc_div_by_one(total);
    if magnitude(u.x@) < 0x1_0000 && magnitude(u.y@) < 0x1_0000 && magnitude(u.z@) < 0x1_0000 {
        lemma_product_bound(u.x@, u.x@, 0x1_0000, 0x1_0000);
        lemma_product_bound(u.y@, u.y@, 0x1_0000, 0x1_0000);
        lemma_product_bound(u.z@, u.z@, 0x1_0000, 0x1_0000);
        assert(total <= 3 * 0x1_0000_0000);
        assert(total >= 0) by (nonlinear_arith)
            requires
                total == u.x@ * u.x@ + u.y@ * u.y@ + u.z@ * u.z@,
        ;
        assert(false);
    }
}

/// A point turned towards a normal lies on the side of the normal.
pub proof fn lemma_toward_faces_normal(p: Vector3, normal: Vector3)
    requires
        p.x@ > i64::MIN,
        p.y@ > i64::MIN,
        p.z@ > i64::MIN,
    ensures
        p.spec_toward(normal).spec_dot(normal)@ >= 0,
{
    let q = p.spec_negated();
    assert(q.dot_exact(normal) == -p.dot_exact(normal)) by (nonlinear_arith)
        requires
            q.x@ == -p.x@,
            q.y@ == -p.y@,
            q.z@ == -p.z@,
            q.dot_exact(normal) == q.x@ * normal.x@ + q.y@ * normal.y@ + q.z@ * normal.z@,
            p.dot_exact(normal) == p.x@ * normal.x@ + p.y@ * normal.y@ + p.z@ * normal.z@,
    ;
    lemma_trunc_div_by_one(p.dot_exact(normal));
    lemma_trunc_div_by_one(q.dot_exact(normal));
}

/// The length and the squared length agree: the squared length lies
/// between the square of the length and the square of the next number above it.
pub proof fn lemma_length_squared_is_square_of_length(v: Vector3)
    ensures
        fx_mul(v.spec_length()@, v.spec_length()@) <= v.spec_length_squared()@,
        v.spec_length_squared()@ <= fx_mul(v.spec_length()@ + 1, v.spec_length()@ + 1),
{
    let total = sum_sq(v.x@, v.y@, v.z@);
    assert(total >= 0) by (nonlinear_arith)
        requires
            total == v.x@ * v.x@ + v.y@ * v.y@ + v.z@ * v.z@,
    ;
    assert(v.dot_exact(v) == total);
    lemma_isqrt_bounds(total as nat);
    let exact = v.length_exact() as int;
    let len = v.spec_length()@;
    assert(0 <= len <= exact);
    lemma_square_le(len, exact);
    lemma_trunc_div_monotonic(len * len, total, ONE_RAW as int);
    if exact <= i64::MAX {
        assert(len == exact);
        lemma_trunc_div_monotonic(total, (len + 1) * (len + 1), ONE_RAW as int);
    } else {
        assert(len + 1 == 0x8000_0000_0000_0000);
        assert((len + 1) * (len + 1) == 0x4000_0000_0000_0000_0000_0000_0000_0000)
            by (nonlinear_arith)
            requires
                len + 1 == 0x8000_0000_0000_0000,
        ;
        lemma_trunc_div_by_one((len + 1) * (len + 1));
        assert(fx_mul(len + 1, len + 1) == i64::MAX);
    }
}

/// The product of two bounded numbers is bounded by the product of the bounds.
proof fn lemma_product_bound(a: int, b: int, bound_a: int, bound_b: int)
    requires
        -bound_a <= a <= bound_a,
        -bound_b <= b <= bound_b,
    ensures
        -(bound_a * bound_b) <= a * b <= bound_a * bound_b,
{
    assert(-(bound_a * bound_b) <= a * b <= bound_a * bound_b) by (nonlinear_arith)
        requires
            -bound_a <= a <= bound_a,
            -bound_b <= b <= bound_b,
    ;
}

/// One term of the reflected vector's dot product with the normal: `s` is
/// `n * t` over the raw one, rounded, and `f` is what the rounding left.
proof fn lemma_scaled_term(n: int, t: int, s: int, f: int)
    requires
        n * t == 0x1_0000_0000 * s + f,
    ensures
        (n * n) * t == 0x1_0000_0000 * (s * n) + f * n,
{
    assert((n * n) * t == 0x1_0000_0000 * (s * n) + f * n) by (nonlinear_arith)
        requires
            n * t == 0x1_0000_0000 * s + f,
    ;
}

/// What rounding towards zero leaves over is less than the divisor, and
/// the quotient is no larger than the exact one.
proof fn lemma_trunc_remainder(x: int)
    ensures
        -0x1_0000_0000 < x - 0x1_0000_0000 * trunc_div(x, 0x1_0000_0000) < 0x1_0000_0000,
        magnitude(trunc_div(x, 0x1_0000_0000)) == magnitude(x) / 0x1_0000_0000,
{
    assert(magnitude(0x1_0000_0000) == 0x1_0000_0000);
}

/// The arithmetic of reflecting about a normal of nearly unit length.
proof fn lemma_reflect_arith(v1: int, v2: int, v3: int, n1: int, n2: int, n3: int)
    requires
        magnitude(v1) <= 0x100_0000_0000_0000,
        magnitude(v2) <= 0x100_0000_0000_0000,
        magnitude(v3) <= 0x100_0000_0000_0000,
        0x1_0000_0000 * (0x1_0000_0000 - 7) <= n1 * n1 + n2 * n2 + n3 * n3,
        n1 * n1 + n2 * n2 + n3 * n3 <= 0x1_0000_0000 * (0x1_0000_0000 + 8),
    ensures
        ({
            let d = trunc_div(v1 * n1 + v2 * n2 + v3 * n3, 0x1_0000_0000);
            let s1 = trunc_div(n1 * (2 * d), 0x1_0000_0000);
            let s2 = trunc_div(n2 * (2 * d), 0x1_0000_0000);
            let s3 = trunc_div(n3 * (2 * d), 0x1_0000_0000);
            let back = trunc_div(
                (v1 - s1) * n1 + (v2 - s2) * n2 + (v3 - s3) * n3,
                0x1_0000_0000,
            );
            &&& magnitude(d) < 0x1000_0000_0000_0000
            &&& magnitude(s1) < 0x4000_0000_0000_0000
            &&& magnitude(s2) < 0x4000_0000_0000_0000
            &&& magnitude(s3) < 0x4000_0000_0000_0000
            &&& magnitude(back) < 0x4000_0000_0000_0000
            &&& magnitude(back + d) <= 22 + 16 * (magnitude(d) / 0x1_0000_0000)
        }),
{
    let n: int = 0x1_0000_0000;
    let big: int = 0x100_0000_0000_0000;
    let nn = n1 * n1 + n2 * n2 + n3 * n3;
    let delta = nn - n * n;
    assert(n1 * n1 >= 0 && n2 * n2 >= 0 && n3 * n3 >= 0) by (nonlinear_arith);
    // No component of the normal exceeds one by more than four raw units.
    let cap = n + 4;
    assert(cap * cap > n * (n + 8));
    assert(-cap <= n1 <= cap) by (nonlinear_arith)
        requires
            n1 * n1 <= n * (n + 8),
            cap * cap > n * (n + 8),
            cap >= 0,
    ;
    assert(-cap <= n2 <= cap) by (nonlinear_arith)
        requires
            n2 * n2 <= n * (n + 8),
            cap * cap > n * (n + 8),
            cap >= 0,
    ;
    assert(-cap <= n3 <= cap) by (nonlinear_arith)
        requires
            n3 * n3 <= n * (n + 8),
            cap * cap > n * (n + 8),
            cap >= 0,
    ;
    // The dot product.
    let p = v1 * n1 + v2 * n2 + v3 * n3;
    lemma_product_bound(v1, n1, big, cap);
    lemma_product_bound(v2, n2, big, cap);
    lemma_product_bound(v3, n3, big, cap);
    let d = trunc_div(p, n);
    let e1 = p - n * d;
    lemma_trunc_remainder(p);
    assert(-n < e1 < n);
    assert(magnitude(d) < 0x1000_0000_0000_0000);
    let t = 2 * d;
    // The normal, scaled.
    let limit: int = 0x2000_0000_0000_0000;
    lemma_product_bound(n1, t, cap, limit);
    lemma_product_bound(n2, t, cap, limit);
    lemma_product_bound(n3, t, cap, limit);
    let s1 = trunc_div(n1 * t, n);
    let s2 = trunc_div(n2 * t, n);
    let s3 = trunc_div(n3 * t, n);
    lemma_trunc_remainder(n1 * t);
    lemma_trunc_remainder(n2 * t);
    lemma_trunc_remainder(n3 * t);
    let f1 = n1 * t - n * s1;
    let f2 = n2 * t - n * s2;
    let f3 = n3 * t - n * s3;
    assert(-n < f1 < n && -n < f2 < n && -n < f3 < n);
    assert(magnitude(s1) < 0x4000_0000_0000_0000);
    assert(magnitude(s2) < 0x4000_0000_0000_0000);
    assert(magnitude(s3) < 0x4000_0000_0000_0000);
    lemma_scaled_term(n1, t, s1, f1);
    lemma_scaled_term(n2, t, s2, f2);
    lemma_scaled_term(n3, t, s3, f3);
    let sn = s1 * n1 + s2 * n2 + s3 * n3;
    let f = f1 * n1 + f2 * n2 + f3 * n3;
    assert(nn * t == (n1 * n1) * t + (n2 * n2) * t + (n3 * n3) * t) by (nonlinear_arith)
        requires
            nn == n1 * n1 + n2 * n2 + n3 * n3,
    ;
    assert(nn * t == n * sn + f);
    assert(nn * t == (n * n) * t + delta * t) by (nonlinear_arith)
        requires
            nn == n * n + delta,
    ;
    lemma_product_bound(f1, n1, n, cap);
    lemma_product_bound(f2, n2, n, cap);
    lemma_product_bound(f3, n3, n, cap);
    assert(-(3 * (n * cap)) <= f <= 3 * (n * cap));
    // The reflected vector's dot product with the normal.
    let r = (v1 - s1) * n1 + (v2 - s2) * n2 + (v3 - s3) * n3;
    assert(r == p - sn) by (nonlinear_arith)
        requires
            r == (v1 - s1) * n1 + (v2 - s2) * n2 + (v3 - s3) * n3,
            p == v1 * n1 + v2 * n2 + v3 * n3,
            sn == s1 * n1 + s2 * n2 + s3 * n3,
    ;
    // n * r == -n^2 * d + n * e1 - delta * t + f
    assert(n * r == n * e1 - (n * n) * d - delta * t + f);
    let a = magnitude(d) / n;
    assert(magnitude(d) < n * (a + 1));
    assert(-(8 * n) <= delta <= 8 * n);
    lemma_product_bound(delta, t, 8 * n, 2 * (n * (a + 1)));
    assert((8 * n) * (2 * (n * (a + 1))) == 16 * (n * n) * (a + 1)) by (nonlinear_arith);
    let back = trunc_div(r, n);
    lemma_trunc_remainder(r);
    let e2 = r - n * back;
    assert(-n < e2 < n);
    // n^2 * (back + d) == n * e1 - delta * t + f - n * e2
    let g = back + d;
    assert((n * n) * g == n * e1 - delta * t + f - n * e2);
    assert(-((n * n) * (22 + 16 * a)) < (n * n) * g < (n * n) * (22 + 16 * a));
    assert(magnitude(g) <= 22 + 16 * a) by (nonlinear_arith)
        requires
            -((n * n) * (22 + 16 * a)) < (n * n) * g < (n * n) * (22 + 16 * a),
            n * n > 0,
            a >= 0,
            magnitude(g) == g || magnitude(g) == -g,
    ;
    assert(a <= 0x1000_0000);
    assert(magnitude(back) < 0x4000_0000_0000_0000);
}

/// The largest raw magnitude of a component for which
/// [`lemma_reflect_turns_normal_part`] speaks: `2^56`, about sixteen million.
pub const REFLECT_BOUND_RAW: i64 = 0x100_0000_0000_0000;

/// Whether no component of the vector exceeds `REFLECT_BOUND_RAW`.
pub open spec fn within_reflect_bound(v: Vector3) -> bool {
    &&& magnitude(v.x@) <= REFLECT_BOUND_RAW
    &&& magnitude(v.y@) <= REFLECT_BOUND_RAW
    &&& magnitude(v.z@) <= REFLECT_BOUND_RAW
}

/// Reflecting about a normal of unit length turns the part of the vector
/// along the normal around: `dot(reflect(v, n), n) == -dot(v, n)`, up to a
/// tolerance of 22 raw units and 16 more for each whole unit of the dot product.
pub proof fn lemma_reflect_turns_normal_part(v: Vector3, n: Vector3)
    requires
        nearly_unit(n),
        within_reflect_bound(v),
    ensures
        magnitude(v.spec_reflect(n).spec_dot(n)@ + v.spec_dot(n)@) <= 22 + 16 * (magnitude(
            v.spec_dot(n)@,
        ) / (ONE_RAW as int)),
{
    let one: int = 0x1_0000_0000;
    let nn = n.dot_exact(n);
    assert(nn >= 0) by (nonlinear_arith)
        requires
            nn == n.x@ * n.x@ + n.y@ * n.y@ + n.z@ * n.z@,
    ;
    lemma_trunc_div_by_one(nn);
    assert(one * (one - 7) <= nn <= one * (one + 8));
    lemma_reflect_arith(v.x@, v.y@, v.z@, n.x@, n.y@, n.z@);
    let d = trunc_div(v.dot_exact(n), one);
    assert(v.spec_dot(n)@ == d);
    let twice = Fixed::of(2 * ONE_RAW).spec_times(v.spec_dot(n));
    let two = Fixed::of(2 * ONE_RAW);
    assert(two@ == 0x2_0000_0000);
    assert(two@ * d == 0x2_0000_0000 * d) by (nonlinear_arith)
        requires
            two@ == 0x2_0000_0000,
    ;
    lemma_trunc_div_by_one(0x2_0000_0000 * d);
    assert(twice@ == 2 * d);
    let s1 = trunc_div(n.x@ * (2 * d), one);
    let s2 = trunc_div(n.y@ * (2 * d), one);
    let s3 = trunc_div(n.z@ * (2 * d), one);
    let scaled = n.spec_scaled(twice);
    assert(scaled.x@ == s1 && scaled.y@ == s2 && scaled.z@ == s3);
    let r = v.spec_reflect(n);
    assert(r.x@ == v.x@ - s1 && r.y@ == v.y@ - s2 && r.z@ == v.z@ - s3);
    let back = trunc_div((v.x@ - s1) * n.x@ + (v.y@ - s2) * n.y@ + (v.z@ - s3) * n.z@, one);
    assert(r.dot_exact(n) == (v.x@ - s1) * n.x@ + (v.y@ - s2) * n.y@ + (v.z@ - s3) * n.z@);
    assert(r.spec_dot(n)@ == back);
}

} // verus!
