//! Fixed-point real numbers.
//!
//! A [`Fixed`] holds a signed 64-bit integer `raw` and stands for the real
//! number `raw / 2^32`. Every operation computes the exact result, rounds it
//! once towards zero and saturates at the ends of the 64-bit range.

use vstd::prelude::*;

verus! {

/// The raw value of the number one.
pub const ONE_RAW: i64 = 0x1_0000_0000;

/// The absolute value of an integer.
pub open spec fn magnitude(x: int) -> int {
    if x >= 0 {
        x
    } else {
        -x
    }
}

/// `x` brought into the range of a raw value.
pub open spec fn saturate(x: int) -> int {
    if x > i64::MAX {
        i64::MAX as int
    } else if x < i64::MIN {
        i64::MIN as int
    } else {
        x
    }
}

/// The quotient `x / d` rounded towards zero.
pub open spec fn trunc_div(x: int, d: int) -> int {
    if (x >= 0) == (d > 0) {
        magnitude(x) / magnitude(d)
    } else {
        -(magnitude(x) / magnitude(d))
    }
}

/// The raw value of the product of two numbers given by their raw values.
pub open spec fn fx_mul(a: int, b: int) -> int {
    saturate(trunc_div(a * b, ONE_RAW as int))
}

/// The raw value of the quotient of two numbers given by their raw values.
pub open spec fn fx_div(a: int, b: int) -> int {
    saturate(trunc_div(a * ONE_RAW, b))
}

/// The largest natural number whose square is at most `n`.
pub open spec fn isqrt(n: nat) -> nat
    decreases n,
{
    if n == 0 {
        0
    } else {
        let s = isqrt((n - 1) as nat);
        if (s + 1) * (s + 1) <= n {
            s + 1
        } else {
            s
        }
    }
}

/// The raw value of the square root of a non-negative number given by its raw value.
pub open spec fn fx_sqrt(a: int) -> int {
    isqrt((a * ONE_RAW) as nat) as int
}

/// `isqrt(n)` is a root of `n` rounded down.
pub proof fn lemma_isqrt_bounds(n: nat)
    ensures
        isqrt(n) * isqrt(n) <= n,
        n < (isqrt(n) + 1) * (isqrt(n) + 1),
    decreases n,
{
    if n == 0 {
        assert(isqrt(n) == 0);
        assert(0 * 0 == 0 && (0 + 1) * (0 + 1) == 1) by (nonlinear_arith);
    } else {
        lemma_isqrt_bounds((n - 1) as nat);
        let s = isqrt((n - 1) as nat);
        let t = isqrt(n);
        if (s + 1) * (s + 1) <= n {
            assert(t == s + 1);
            assert((t + 1) * (t + 1) > t * t) by (nonlinear_arith);
            assert(t * t == n);
        } else {
            assert(t == s);
        }
    }
}

/// Only one natural number is a root of `n` rounded down.
pub proof fn lemma_isqrt_unique(n: nat, s: nat)
    requires
        s * s <= n,
        n < (s + 1) * (s + 1),
    ensures
        s == isqrt(n),
{
    lemma_isqrt_bounds(n);
    let t = isqrt(n);
    if s < t {
        assert((s + 1) * (s + 1) <= t * t) by (nonlinear_arith)
            requires
                s + 1 <= t,
        ;
    } else if t < s {
        assert((t + 1) * (t + 1) <= s * s) by (nonlinear_arith)
            requires
                t + 1 <= s,
        ;
    }
}

/// A larger number has no smaller root.
pub proof fn lemma_isqrt_monotonic(m: nat, n: nat)
    requires
        m <= n,
    ensures
        isqrt(m) <= isqrt(n),
{
    lemma_isqrt_bounds(m);
    lemma_isqrt_bounds(n);
    let s = isqrt(m);
    let t = isqrt(n);
    if t < s {
        assert((t + 1) * (t + 1) <= s * s) by (nonlinear_arith)
            requires
                t + 1 <= s,
        ;
    }
}

/// The root of `n`, rounded down.
pub fn isqrt_u128(n: u128) -> (s: u64)
    ensures
        s == isqrt(n as nat),
{
    let mut lo: u128 = 0;
    let mut hi: u128 = 0x1_0000_0000_0000_0000;
    while hi - lo > 1
        invariant
            lo < hi <= 0x1_0000_0000_0000_0000,
            lo * lo <= n,
            n < hi * hi,
        decreases hi - lo,
    {
        let mid: u128 = lo + (hi - lo) / 2;
        assert(mid * mid <= 0xffff_ffff_ffff_ffffu128 * 0xffff_ffff_ffff_ffffu128) by (nonlinear_arith)
            requires
                0 <= mid <= 0xffff_ffff_ffff_ffff,
        ;
        if mid * mid <= n {
            lo = mid;
        } else {
            hi = mid;
        }
    }
    proof {
        lemma_isqrt_unique(n as nat, lo as nat);
    }
    lo as u64
}

/// The root of a raw value fits in 48 bits.
pub proof fn lemma_fx_sqrt_bounds(a: int)
    requires
        0 <= a <= i64::MAX,
    ensures
        0 <= fx_sqrt(a) < 0x1_0000_0000_0000,
{
    let n = (a * ONE_RAW) as nat;
    lemma_isqrt_bounds(n);
    let s = isqrt(n);
    assert(s < 0x1_0000_0000_0000) by (nonlinear_arith)
        requires
            s * s <= n,
            n < 0x8000_0000_0000_0000_0000_0000,
    ;
}

/// A product of two raw values stays within 2^126.
pub proof fn lemma_wide_product(a: int, b: int)
    requires
        i64::MIN <= a <= i64::MAX,
        i64::MIN <= b <= i64::MAX,
    ensures
        -0x4000_0000_0000_0000_0000_0000_0000_0000 <= a * b
            <= 0x4000_0000_0000_0000_0000_0000_0000_0000,
{
    assert(-0x4000_0000_0000_0000_0000_0000_0000_0000 <= a * b
        <= 0x4000_0000_0000_0000_0000_0000_0000_0000) by (nonlinear_arith)
        requires
            -0x8000_0000_0000_0000 <= a <= 0x7fff_ffff_ffff_ffff,
            -0x8000_0000_0000_0000 <= b <= 0x7fff_ffff_ffff_ffff,
    ;
}

/// The exact product of two raw values.
pub fn wide_mul(a: i64, b: i64) -> (p: i128)
    ensures
        p == a * b,
        -0x4000_0000_0000_0000_0000_0000_0000_0000 <= p
            <= 0x4000_0000_0000_0000_0000_0000_0000_0000,
{
    proof {
        lemma_wide_product(a as int, b as int);
    }
    (a as i128) * (b as i128)
}

/// A wide integer brought into the range of a raw value.
pub fn saturate_i128(x: i128) -> (r: i64)
    ensures
        r == saturate(x as int),
{
    if x > 0x7fff_ffff_ffff_ffff {
        i64::MAX
    } else if x < -0x8000_0000_0000_0000 {
        i64::MIN
    } else {
        x as i64
    }
}

/// Division by the raw one, written with a literal divisor.
pub proof fn lemma_trunc_div_by_one(x: int)
    ensures
        trunc_div(x, ONE_RAW as int) == if x >= 0 {
            x / 0x1_0000_0000
        } else {
            -((-x) / 0x1_0000_0000)
        },
{
    assert(magnitude(ONE_RAW as int) == 0x1_0000_0000);
}

/// Rounded division by a positive number keeps the order of the dividends.
pub proof fn lemma_trunc_div_monotonic(x: int, y: int, d: int)
    requires
        x <= y,
        d > 0,
    ensures
        trunc_div(x, d) <= trunc_div(y, d),
{
    if x >= 0 {
        vstd::arithmetic::div_mod::lemma_div_is_ordered(x, y, d);
    } else if y < 0 {
        vstd::arithmetic::div_mod::lemma_div_is_ordered(-y, -x, d);
    } else {
        vstd::arithmetic::div_mod::lemma_div_is_ordered(0, y, d);
        vstd::arithmetic::div_mod::lemma_div_is_ordered(0, -x, d);
    }
}

/// Division by a positive number keeps the order of the dividends.
pub proof fn lemma_fx_div_monotonic(a: int, b: int, d: int)
    requires
        a <= b,
        d > 0,
    ensures
        fx_div(a, d) <= fx_div(b, d),
{
    assert(a * ONE_RAW <= b * ONE_RAW);
    lemma_trunc_div_monotonic(a * ONE_RAW, b * ONE_RAW, d);
}

/// The quotient of two wide integers, rounded towards zero.
pub fn trunc_div_i128(n: i128, d: i128) -> (t: i128)
    requires
        d != 0,
        n > i128::MIN,
        d > i128::MIN,
    ensures
        t == trunc_div(n as int, d as int),
{
    let mn: u128 = if n >= 0 {
        n as u128
    } else {
        (-n) as u128
    };
    let md: u128 = if d >= 0 {
        d as u128
    } else {
        (-d) as u128
    };
    let q: u128 = mn / md;
    assert(q <= mn) by (nonlinear_arith)
        requires
            q == mn / md,
            md >= 1,
            mn >= 0,
    ;
    if (n >= 0) == (d > 0) {
        q as i128
    } else {
        -(q as i128)
    }
}

/// The sum of three wide products, divided by the raw one, rounded towards
/// zero and saturated. The sum itself may not fit in 128 bits, so each
/// product is split into quotient and remainder first.
pub fn sum3_div(a: i128, b: i128, c: i128) -> (r: i64)
    requires
        -0x4000_0000_0000_0000_0000_0000_0000_0000 <= a
            <= 0x4000_0000_0000_0000_0000_0000_0000_0000,
        -0x4000_0000_0000_0000_0000_0000_0000_0000 <= b
            <= 0x4000_0000_0000_0000_0000_0000_0000_0000,
        -0x4000_0000_0000_0000_0000_0000_0000_0000 <= c
            <= 0x4000_0000_0000_0000_0000_0000_0000_0000,
    ensures
        r == saturate(trunc_div(a + b + c, ONE_RAW as int)),
{
    let q: i128 = a / 0x1_0000_0000 + b / 0x1_0000_0000 + c / 0x1_0000_0000;
    let m: i128 = a % 0x1_0000_0000 + b % 0x1_0000_0000 + c % 0x1_0000_0000;
    let q2: i128 = q + m / 0x1_0000_0000;
    let m2: i128 = m % 0x1_0000_0000;
    let t: i128 = if q2 > 0 && m2 < 0 {
        q2 - 1
    } else if q2 < 0 && m2 > 0 {
        q2 + 1
    } else {
        q2
    };
    proof {
        let total = a + b + c;
        assert(total == q2 * 0x1_0000_0000 + m2);
        assert(-0x1_0000_0000 < m2 < 0x1_0000_0000);
        lemma_trunc_div_by_one(total);
        if total >= 0 {
            assert(t >= 0);
            assert(total == t * 0x1_0000_0000 + (total - t * 0x1_0000_0000));
            assert(0 <= total - t * 0x1_0000_0000 < 0x1_0000_0000);
            assert(total / 0x1_0000_0000 == t);
        } else {
            assert(t <= 0);
            assert(0 <= (-total) - (-t) * 0x1_0000_0000 < 0x1_0000_0000);
            assert((-total) / 0x1_0000_0000 == -t);
        }
    }
    saturate_i128(t)
}

/// A real number in fixed point: `raw / 2^32`.
#[derive(Clone, Copy, Debug, PartialEq, Eq, Structural)]
pub struct Fixed {
    pub raw: i64,
}

impl View for Fixed {
    type V = int;

    open spec fn view(&self) -> int {
        self.raw as int
    }
}

impl Fixed {
    /// The number with the given raw value.
    pub open spec fn of(raw: int) -> Fixed {
        Fixed { raw: raw as i64 }
    }

    pub open spec fn spec_plus(self, rhs: Fixed) -> Fixed {
        Fixed::of(saturate(self@ + rhs@))
    }

    pub open spec fn spec_minus(self, rhs: Fixed) -> Fixed {
        Fixed::of(saturate(self@ - rhs@))
    }

    pub open spec fn spec_negated(self) -> Fixed {
        Fixed::of(saturate(-self@))
    }

    pub open spec fn spec_abs(self) -> Fixed {
        Fixed::of(saturate(magnitude(self@)))
    }

    pub open spec fn spec_times(self, rhs: Fixed) -> Fixed {
        Fixed::of(fx_mul(self@, rhs@))
    }

    pub open spec fn spec_divided_by(self, rhs: Fixed) -> Fixed {
        Fixed::of(fx_div(self@, rhs@))
    }

    pub open spec fn spec_sqrt(self) -> Fixed {
        Fixed::of(fx_sqrt(self@))
    }

    pub open spec fn spec_min(self, rhs: Fixed) -> Fixed {
        if self@ <= rhs@ {
            self
        } else {
            rhs
        }
    }

    pub open spec fn spec_max(self, rhs: Fixed) -> Fixed {
        if self@ >= rhs@ {
            self
        } else {
            rhs
        }
    }

    /// The number with the given raw value.
    pub fn from_raw(raw: i64) -> (r: Fixed)
        ensures
            r@ == raw,
    {
        Fixed { raw }
    }

    /// The whole number `n`.
    pub fn from_int(n: i32) -> (r: Fixed)
        ensures
            r@ == n * ONE_RAW,
    {
        Fixed { raw: (n as i64) * 0x1_0000_0000 }
    }

    /// The fraction `num / den`, rounded towards zero.
    pub fn from_ratio(num: i32, den: i32) -> (r: Fixed)
        requires
            den != 0,
        ensures
            r@ == saturate(trunc_div(num * ONE_RAW, den as int)),
    {
        let t = trunc_div_i128((num as i128) * 0x1_0000_0000, den as i128);
        Fixed { raw: saturate_i128(t) }
    }

    pub fn zero() -> (r: Fixed)
        ensures
            r@ == 0,
    {
        Fixed { raw: 0 }
    }

    pub fn one() -> (r: Fixed)
        ensures
            r@ == ONE_RAW,
    {
        Fixed { raw: ONE_RAW }
    }

    /// The largest number; it stands for an unbounded distance.
    pub fn largest() -> (r: Fixed)
        ensures
            r@ == i64::MAX,
    {
        Fixed { raw: i64::MAX }
    }

    pub fn plus(self, rhs: Fixed) -> (r: Fixed)
        ensures
            r == self.spec_plus(rhs),
    {
        Fixed { raw: saturate_i128(self.raw as i128 + rhs.raw as i128) }
    }

    pub fn minus(self, rhs: Fixed) -> (r: Fixed)
        ensures
            r == self.spec_minus(rhs),
    {
        Fixed { raw: saturate_i128(self.raw as i128 - rhs.raw as i128) }
    }

    pub fn negated(self) -> (r: Fixed)
        ensures
            r == self.spec_negated(),
    {
        Fixed { raw: saturate_i128(-(self.raw as i128)) }
    }

    pub fn abs(self) -> (r: Fixed)
        ensures
            r == self.spec_abs(),
    {
        if self.raw >= 0 {
            self
        } else {
            self.negated()
        }
    }

    pub fn times(self, rhs: Fixed) -> (r: Fixed)
        ensures
            r == self.spec_times(rhs),
    {
        let p = wide_mul(self.raw, rhs.raw);
        proof {
            lemma_trunc_div_by_one(p as int);
        }
        Fixed { raw: saturate_i128(p / 0x1_0000_0000) }
    }

    pub fn divided_by(self, rhs: Fixed) -> (r: Fixed)
        requires
            rhs@ != 0,
        ensures
            r == self.spec_divided_by(rhs),
    {
        let t = trunc_div_i128((self.raw as i128) * 0x1_0000_0000, rhs.raw as i128);
        Fixed { raw: saturate_i128(t) }
    }

    /// The square root, rounded down.
    pub fn sqrt(self) -> (r: Fixed)
        requires
            self@ >= 0,
        ensures
            r == self.spec_sqrt(),
    {
        let n: u128 = (self.raw as u128) * 0x1_0000_0000;
        let s = isqrt_u128(n);
        proof {
            lemma_isqrt_bounds(n as nat);
            assert(s < 0x1_0000_0000_0000) by (nonlinear_arith)
                requires
                    s * s <= n,
                    n < 0x8000_0000_0000_0000_0000_0000,
                    s >= 0,
            ;
        }
        Fixed { raw: s as i64 }
    }

    pub fn min(self, rhs: Fixed) -> (r: Fixed)
        ensures
            r == self.spec_min(rhs),
    {
        if self.raw <= rhs.raw {
            self
        } else {
            rhs
        }
    }

    pub fn max(self, rhs: Fixed) -> (r: Fixed)
        ensures
            r == self.spec_max(rhs),
    {
        if self.raw >= rhs.raw {
            self
        } else {
            rhs
        }
    }

    pub fn lt(self, rhs: Fixed) -> (b: bool)
        ensures
            b == (self@ < rhs@),
    {
        self.raw < rhs.raw
    }

    pub fn le(self, rhs: Fixed) -> (b: bool)
        ensures
            b == (self@ <= rhs@),
    {
        self.raw <= rhs.raw
    }

    pub fn gt(self, rhs: Fixed) -> (b: bool)
        ensures
            b == (self@ > rhs@),
    {
        self.raw > rhs.raw
    }

    pub fn ge(self, rhs: Fixed) -> (b: bool)
        ensures
            b == (self@ >= rhs@),
    {
        self.raw >= rhs.raw
    }
}

/// A whole multiple of the raw one, divided by it.
pub proof fn lemma_whole_multiple(x: int)
    ensures
        trunc_div(x * 0x1_0000_0000, ONE_RAW as int) == x,
{
    let y = x * 0x1_0000_0000;
    lemma_trunc_div_by_one(y);
    if x >= 0 {
        vstd::arithmetic::div_mod::lemma_div_by_multiple(x, 0x1_0000_0000);
    } else {
        vstd::arithmetic::div_mod::lemma_div_by_multiple(-x, 0x1_0000_0000);
        assert(-y == (-x) * 0x1_0000_0000);
    }
}

/// A number times one is the number.
pub proof fn lemma_times_one(x: Fixed)
    ensures
        x.spec_times(Fixed::of(ONE_RAW as int)) == x,
        Fixed::of(ONE_RAW as int).spec_times(x) == x,
{
    let one = Fixed::of(ONE_RAW as int);
    assert(x@ * one@ == x@ * 0x1_0000_0000) by (nonlinear_arith)
        requires
            one@ == 0x1_0000_0000,
    ;
    assert(one@ * x@ == x@ * 0x1_0000_0000) by (nonlinear_arith)
        requires
            one@ == 0x1_0000_0000,
    ;
    lemma_whole_multiple(x@);
    assert(trunc_div(x@ * 0x1_0000_0000, ONE_RAW as int) == x@);
    assert(fx_mul(x@, one@) == x@);
    assert(fx_mul(one@, x@) == x@);
}

/// A number times minus one is its negation.
pub proof fn lemma_times_minus_one(x: Fixed)
    ensures
        x.spec_times(Fixed::of(-ONE_RAW)) == x.spec_negated(),
{
    let minus_one = Fixed::of(-ONE_RAW);
    assert(x@ * minus_one@ == -(x@ * 0x1_0000_0000)) by (nonlinear_arith)
        requires
            minus_one@ == -0x1_0000_0000,
    ;
    lemma_whole_multiple(-x@);
    assert(-(x@ * 0x1_0000_0000) == (-x@) * 0x1_0000_0000);
    assert(trunc_div(-(x@ * 0x1_0000_0000), ONE_RAW as int) == -x@);
    assert(fx_mul(x@, minus_one@) == saturate(-x@));
}

} // verus!
