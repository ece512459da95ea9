//! Signed fixed-point scalars with 32 fractional bits.
//!
//! A [`Fixed`] stands for the rational number `raw / 2^32`. Every operation is
//! total: results whose magnitude would pass `2^62` raw units (about `1.07e9`)
//! stop at that bound, which doubles as positive and negative infinity.
//! Contracts speak of a scalar through its view, the raw count as an `int`.
use vstd::prelude::*;

verus! {

/// Raw count of the scalar one.
pub const ONE_RAW: i64 = 0x1_0000_0000;

/// Largest magnitude a raw count can have; the raw count of infinity.
pub const LIMIT_RAW: i64 = 0x4000_0000_0000_0000;

/// The nearest raw count within `[-LIMIT_RAW, LIMIT_RAW]`.
pub open spec fn clamp(v: int) -> int {
    if v > LIMIT_RAW {
        LIMIT_RAW as int
    } else if v < -LIMIT_RAW {
        -(LIMIT_RAW as int)
    } else {
        v
    }
}

/// Division that rounds toward zero; zero when the divisor is zero.
pub open spec fn tdiv(a: int, b: int) -> int {
    if b == 0 {
        0
    } else if a >= 0 && b > 0 {
        a / b
    } else if a >= 0 {
        -(a / (-b))
    } else if b > 0 {
        -((-a) / b)
    } else {
        (-a) / (-b)
    }
}

/// Division that rounds to the nearest integer, halves away from zero; zero
/// when the divisor is zero.
pub open spec fn rdiv(a: int, b: int) -> int {
    if b == 0 {
        0
    } else {
        let x = if a < 0 { -a } else { a };
        let y = if b < 0 { -b } else { b };
        if (a < 0) == (b < 0) {
            (2 * x + y) / (2 * y)
        } else {
            -((2 * x + y) / (2 * y))
        }
    }
}

/// `r` is the integer square root of `n`.
pub open spec fn is_isqrt(n: int, r: int) -> bool {
    0 <= r && r * r <= n && n < (r + 1) * (r + 1)
}

/// The integer square root of `n`, for `n >= 0`.
pub open spec fn isqrt(n: int) -> int {
    choose|r: int| is_isqrt(n, r)
}

/// An integer has at most one integer square root.
pub proof fn lemma_isqrt_unique(n: int, r: int)
    requires
        is_isqrt(n, r),
    ensures
        isqrt(n) == r,
{
    let c = isqrt(n);
    assert(is_isqrt(n, c));
    if c < r {
        assert((c + 1) * (c + 1) <= r * r) by (nonlinear_arith)
            requires
                0 <= c + 1 <= r,
        ;
    } else if c > r {
        assert((r + 1) * (r + 1) <= c * c) by (nonlinear_arith)
            requires
                0 <= r + 1 <= c,
        ;
    }
}

/// Truncating division is odd in its numerator.
pub proof fn lemma_tdiv_neg(a: int, b: int)
    ensures
        tdiv(-a, b) == -tdiv(a, b),
{
}

/// Truncating division by a positive number keeps the order of numerators.
pub proof fn lemma_tdiv_monotone(a: int, b: int, d: int)
    requires
        a <= b,
        d > 0,
    ensures
        tdiv(a, d) <= tdiv(b, d),
{
    if a >= 0 {
        vstd::arithmetic::div_mod::lemma_div_is_ordered(a, b, d);
    } else if b >= 0 {
        vstd::arithmetic::div_mod::lemma_div_pos_is_pos(-a, d);
        vstd::arithmetic::div_mod::lemma_div_pos_is_pos(b, d);
    } else {
        vstd::arithmetic::div_mod::lemma_div_is_ordered(-b, -a, d);
    }
}

/// Truncating division by a negative number reverses the order of numerators.
pub proof fn lemma_tdiv_antitone(a: int, b: int, d: int)
    requires
        a <= b,
        d < 0,
    ensures
        tdiv(a, d) >= tdiv(b, d),
{
    if a >= 0 {
        vstd::arithmetic::div_mod::lemma_div_is_ordered(a, b, -d);
    } else if b >= 0 {
        vstd::arithmetic::div_mod::lemma_div_pos_is_pos(-a, -d);
        vstd::arithmetic::div_mod::lemma_div_pos_is_pos(b, -d);
    } else {
        vstd::arithmetic::div_mod::lemma_div_is_ordered(-b, -a, -d);
    }
}

/// The sign of a truncated quotient is that of the exact one.
pub proof fn lemma_tdiv_sign(a: int, b: int)
    ensures
        (a >= 0 && b > 0) || (a <= 0 && b < 0) ==> tdiv(a, b) >= 0,
        (a >= 0 && b < 0) || (a <= 0 && b > 0) ==> tdiv(a, b) <= 0,
{
    if b != 0 {
        let x = if a >= 0 { a } else { -a };
        let y = if b > 0 { b } else { -b };
        vstd::arithmetic::div_mod::lemma_div_pos_is_pos(x, y);
    }
}

/// Division of machine integers that rounds toward zero.
pub fn trunc_div(a: i128, b: i128) -> (q: i128)
    requires
        b != 0,
        a != i128::MIN,
        b != i128::MIN,
    ensures
        q == tdiv(a as int, b as int),
{
    let x: i128 = if a < 0 { -a } else { a };
    let y: i128 = if b < 0 { -b } else { b };
    let m: i128 = x / y;
    if (a < 0) == (b < 0) {
        m
    } else {
        -m
    }
}

/// Integer square root by bisection.
pub fn isqrt_u128(n: u128) -> (r: u128)
    ensures
        is_isqrt(n as int, r as int),
        r < 0x1_0000_0000_0000_0000,
{
    let mut lo: u128 = 0;
    let mut hi: u128 = 0x1_0000_0000_0000_0000;
    assert(0x1_0000_0000_0000_0000int * 0x1_0000_0000_0000_0000int
        == 0x1_0000_0000_0000_0000_0000_0000_0000_0000int) by (nonlinear_arith);
    while hi - lo > 1
        invariant
            lo < hi <= 0x1_0000_0000_0000_0000,
            lo * lo <= n,
            n < hi * hi,
        decreases hi - lo,
    {
        let mid: u128 = lo + (hi - lo) / 2;
        assert(mid * mid <= 0xffff_ffff_ffff_ffffint * 0xffff_ffff_ffff_ffffint)
            by (nonlinear_arith)
            requires
                0 <= mid <= 0xffff_ffff_ffff_ffff,
        ;
        assert(0xffff_ffff_ffff_ffffint * 0xffff_ffff_ffff_ffffint
            < 0x1_0000_0000_0000_0000_0000_0000_0000_0000int) by (nonlinear_arith);
        if mid * mid <= n {
            lo = mid;
        } else {
            hi = mid;
        }
    }
    lo
}

/// A fixed-point scalar. Raw counts beyond the limit read as the limit.
#[derive(Clone, Copy, Debug)]
pub struct Fixed {
    pub raw: i64,
}

impl View for Fixed {
    type V = int;

    open spec fn view(&self) -> int {
        clamp(self.raw as int)
    }
}

impl Fixed {
    /// The scalar whose raw count is `clamp(v)`.
    pub open spec fn of(v: int) -> Fixed {
        Fixed { raw: clamp(v) as i64 }
    }

    /// The raw count is stored as it reads.
    pub open spec fn normal_form(self) -> bool {
        self.raw == self@
    }

    pub open spec fn spec_zero() -> Fixed {
        Fixed { raw: 0 }
    }

    pub open spec fn spec_one() -> Fixed {
        Fixed { raw: ONE_RAW }
    }

    pub open spec fn spec_infinity() -> Fixed {
        Fixed { raw: LIMIT_RAW }
    }

    pub open spec fn spec_neg_infinity() -> Fixed {
        Fixed { raw: (-LIMIT_RAW) as i64 }
    }

    pub open spec fn spec_half() -> Fixed {
        Fixed { raw: 0x8000_0000 }
    }

    pub open spec fn spec_pi() -> Fixed {
        Fixed { raw: 13493037705 }
    }

    #[verifier::when_used_as_spec(spec_zero)]
    pub fn zero() -> (r: Fixed)
        ensures
            r == Fixed::spec_zero(),
    {
        Fixed { raw: 0 }
    }

    #[verifier::when_used_as_spec(spec_one)]
    pub fn one() -> (r: Fixed)
        ensures
            r == Fixed::spec_one(),
    {
        Fixed { raw: ONE_RAW }
    }

    /// The upper limit, which stands for positive infinity.
    #[verifier::when_used_as_spec(spec_infinity)]
    pub fn infinity() -> (r: Fixed)
        ensures
            r == Fixed::spec_infinity(),
    {
        Fixed { raw: LIMIT_RAW }
    }

    /// The lower limit, which stands for negative infinity.
    #[verifier::when_used_as_spec(spec_neg_infinity)]
    pub fn neg_infinity() -> (r: Fixed)
        ensures
            r == Fixed::spec_neg_infinity(),
    {
        Fixed { raw: -LIMIT_RAW }
    }

    /// One half.
    #[verifier::when_used_as_spec(spec_half)]
    pub fn half() -> (r: Fixed)
        ensures
            r == Fixed::spec_half(),
    {
        Fixed { raw: 0x8000_0000 }
    }

    /// The circle constant, rounded to the nearest raw count.
    #[verifier::when_used_as_spec(spec_pi)]
    pub fn pi() -> (r: Fixed)
        ensures
            r == Fixed::spec_pi(),
    {
        Fixed { raw: 13493037705 }
    }

    pub open spec fn spec_from_raw(raw: i64) -> Fixed {
        Fixed::of(raw as int)
    }

    /// The scalar with the given raw count, brought within the limits.
    #[verifier::when_used_as_spec(spec_from_raw)]
    pub fn from_raw(raw: i64) -> (r: Fixed)
        ensures
            r == Fixed::spec_from_raw(raw),
    {
        if raw > LIMIT_RAW {
            Fixed { raw: LIMIT_RAW }
        } else if raw < -LIMIT_RAW {
            Fixed { raw: -LIMIT_RAW }
        } else {
            Fixed { raw }
        }
    }

    pub open spec fn spec_from_wide_raw(w: i128) -> Fixed {
        Fixed::of(w as int)
    }

    /// The scalar with the given raw count, brought within the limits.
    #[verifier::when_used_as_spec(spec_from_wide_raw)]
    pub fn from_wide_raw(w: i128) -> (r: Fixed)
        ensures
            r == Fixed::spec_from_wide_raw(w),
    {
        if w > LIMIT_RAW as i128 {
            Fixed { raw: LIMIT_RAW }
        } else if w < -(LIMIT_RAW as i128) {
            Fixed { raw: -LIMIT_RAW }
        } else {
            Fixed { raw: w as i64 }
        }
    }

    pub open spec fn spec_to_raw(self) -> i64 {
        self@ as i64
    }

    /// The raw count, within the limits.
    #[verifier::when_used_as_spec(spec_to_raw)]
    pub fn to_raw(self) -> (r: i64)
        ensures
            r == self@,
            r == self.spec_to_raw(),
    {
        if self.raw > LIMIT_RAW {
            LIMIT_RAW
        } else if self.raw < -LIMIT_RAW {
            -LIMIT_RAW
        } else {
            self.raw
        }
    }

    pub open spec fn spec_from_int(n: i32) -> Fixed {
        Fixed::of(n * ONE_RAW)
    }

    /// The scalar that stands for the integer `n`.
    #[verifier::when_used_as_spec(spec_from_int)]
    pub fn from_int(n: i32) -> (r: Fixed)
        ensures
            r == Fixed::spec_from_int(n),
    {
        Fixed::from_wide_raw((n as i128) * 0x1_0000_0000i128)
    }

    pub open spec fn spec_from_ratio(num: i64, den: i64) -> Fixed {
        if den == 0 {
            if num > 0 {
                Fixed::spec_infinity()
            } else if num < 0 {
                Fixed::spec_neg_infinity()
            } else {
                Fixed::spec_zero()
            }
        } else {
            Fixed::of(tdiv(num * ONE_RAW, den as int))
        }
    }

    /// The quotient `num / den`, rounded toward zero. A zero denominator gives
    /// the infinity of the numerator's sign, and zero for zero.
    #[verifier::when_used_as_spec(spec_from_ratio)]
    pub fn from_ratio(num: i64, den: i64) -> (r: Fixed)
        ensures
            r == Fixed::spec_from_ratio(num, den),
    {
        if den == 0 {
            if num > 0 {
                Fixed::infinity()
            } else if num < 0 {
                Fixed::neg_infinity()
            } else {
                Fixed::zero()
            }
        } else {
            let n: i128 = (num as i128) * 0x1_0000_0000i128;
            Fixed::from_wide_raw(trunc_div(n, den as i128))
        }
    }

    pub open spec fn spec_floor(self) -> i64 {
        (self@ / (ONE_RAW as int)) as i64
    }

    /// The largest integer that is not above the scalar.
    #[verifier::when_used_as_spec(spec_floor)]
    pub fn floor(self) -> (r: i64)
        ensures
            r == self@ / (ONE_RAW as int),
            r == self.spec_floor(),
            -0x4000_0000 <= r <= 0x4000_0000,
    {
        let a: i64 = self.to_raw();
        if a >= 0 {
            a / ONE_RAW
        } else {
            let m: i64 = -a;
            let q: i64 = m / ONE_RAW;
            if m % ONE_RAW == 0 {
                -q
            } else {
                -q - 1
            }
        }
    }

    pub open spec fn spec_trunc(self) -> i64 {
        tdiv(self@, ONE_RAW as int) as i64
    }

    /// The integer part, rounded toward zero.
    #[verifier::when_used_as_spec(spec_trunc)]
    pub fn trunc(self) -> (r: i64)
        ensures
            r == tdiv(self@, ONE_RAW as int),
            r == self.spec_trunc(),
            -0x4000_0000 <= r <= 0x4000_0000,
    {
        let a: i64 = self.to_raw();
        if a >= 0 {
            a / ONE_RAW
        } else {
            -((-a) / ONE_RAW)
        }
    }

    pub open spec fn spec_add(self, rhs: Fixed) -> Fixed {
        Fixed::of(self@ + rhs@)
    }

    /// Sum, stopped at the limits.
    #[verifier::when_used_as_spec(spec_add)]
    pub fn add(self, rhs: Fixed) -> (r: Fixed)
        ensures
            r == self.spec_add(rhs),
    {
        Fixed::from_wide_raw((self.to_raw() as i128) + (rhs.to_raw() as i128))
    }

    pub open spec fn spec_sub(self, rhs: Fixed) -> Fixed {
        Fixed::of(self@ - rhs@)
    }

    /// Difference, stopped at the limits.
    #[verifier::when_used_as_spec(spec_sub)]
    pub fn sub(self, rhs: Fixed) -> (r: Fixed)
        ensures
            r == self.spec_sub(rhs),
    {
        Fixed::from_wide_raw((self.to_raw() as i128) - (rhs.to_raw() as i128))
    }

    pub open spec fn spec_neg(self) -> Fixed {
        Fixed::of(-self@)
    }

    /// The opposite scalar.
    #[verifier::when_used_as_spec(spec_neg)]
    pub fn neg(self) -> (r: Fixed)
        ensures
            r == self.spec_neg(),
            r@ == -self@,
    {
        Fixed { raw: -self.to_raw() }
    }

    pub open spec fn spec_abs(self) -> Fixed {
        Fixed::of(if self@ < 0 { -self@ } else { self@ })
    }

    /// The magnitude.
    #[verifier::when_used_as_spec(spec_abs)]
    pub fn abs(self) -> (r: Fixed)
        ensures
            r == self.spec_abs(),
    {
        let a: i64 = self.to_raw();
        if a < 0 {
            Fixed { raw: -a }
        } else {
            Fixed { raw: a }
        }
    }

    /// The exact product of two scalars, in units of `2^-64`.
    pub open spec fn spec_wide_mul(self, rhs: Fixed) -> int {
        self@ * rhs@
    }

    /// The exact product of two scalars, in units of `2^-64`.
    pub fn wide_mul(self, rhs: Fixed) -> (w: i128)
        ensures
            w == self.spec_wide_mul(rhs),
            -0x1000_0000_0000_0000_0000_0000_0000_0000 <= w
                <= 0x1000_0000_0000_0000_0000_0000_0000_0000,
    {
        let a: i64 = self.to_raw();
        let b: i64 = rhs.to_raw();
        assert(-0x1000_0000_0000_0000_0000_0000_0000_0000 <= a * b
            <= 0x1000_0000_0000_0000_0000_0000_0000_0000) by (nonlinear_arith)
            requires
                -0x4000_0000_0000_0000 <= a <= 0x4000_0000_0000_0000,
                -0x4000_0000_0000_0000 <= b <= 0x4000_0000_0000_0000,
        ;
        (a as i128) * (b as i128)
    }

    /// The scalar nearest to zero-ward of a value given in units of `2^-64`.
    pub open spec fn spec_from_wide(w: int) -> Fixed {
        Fixed::of(tdiv(w, ONE_RAW as int))
    }

    /// Rounds a value given in units of `2^-64` toward zero.
    pub fn from_wide(w: i128) -> (r: Fixed)
        ensures
            r == Fixed::spec_from_wide(w as int),
    {
        if w == i128::MIN {
            Fixed { raw: -LIMIT_RAW }
        } else {
            Fixed::from_wide_raw(trunc_div(w, 0x1_0000_0000i128))
        }
    }

    pub open spec fn spec_mul(self, rhs: Fixed) -> Fixed {
        Fixed::spec_from_wide(self@ * rhs@)
    }

    /// Product, rounded toward zero and stopped at the limits.
    #[verifier::when_used_as_spec(spec_mul)]
    pub fn mul(self, rhs: Fixed) -> (r: Fixed)
        ensures
            r == self.spec_mul(rhs),
    {
        Fixed::from_wide(self.wide_mul(rhs))
    }

    pub open spec fn spec_div(self, rhs: Fixed) -> Fixed {
        if rhs@ == 0 {
            if self@ > 0 {
                Fixed::spec_infinity()
            } else if self@ < 0 {
                Fixed::spec_neg_infinity()
            } else {
                Fixed::spec_zero()
            }
        } else {
            Fixed::of(tdiv(self@ * ONE_RAW, rhs@))
        }
    }

    /// Quotient, rounded toward zero and stopped at the limits. Division by
    /// zero gives the infinity of the dividend's sign, and zero for zero.
    #[verifier::when_used_as_spec(spec_div)]
    pub fn div(self, rhs: Fixed) -> (r: Fixed)
        ensures
            r == self.spec_div(rhs),
    {
        let a: i64 = self.to_raw();
        let b: i64 = rhs.to_raw();
        if b == 0 {
            if a > 0 {
                Fixed::infinity()
            } else if a < 0 {
                Fixed::neg_infinity()
            } else {
                Fixed::zero()
            }
        } else {
            let n: i128 = (a as i128) * 0x1_0000_0000i128;
            Fixed::from_wide_raw(trunc_div(n, b as i128))
        }
    }

    pub open spec fn spec_div_nearest(self, rhs: Fixed) -> Fixed {
        if rhs@ == 0 {
            self.spec_div(rhs)
        } else {
            Fixed::of(rdiv(self@ * ONE_RAW, rhs@))
        }
    }

    /// Quotient, rounded to the nearest raw count, halves away from zero, and
    /// stopped at the limits. Division by zero is as for [`Fixed::div`].
    #[verifier::when_used_as_spec(spec_div_nearest)]
    pub fn div_nearest(self, rhs: Fixed) -> (r: Fixed)
        ensures
            r == self.spec_div_nearest(rhs),
    {
        let a: i64 = self.to_raw();
        let b: i64 = rhs.to_raw();
        if b == 0 {
            self.div(rhs)
        } else {
            let n: i128 = (a as i128) * 0x1_0000_0000i128;
            let x: i128 = if n < 0 { -n } else { n };
            let y: i128 = if b < 0 { -(b as i128) } else { b as i128 };
            let m: i128 = (2 * x + y) / (2 * y);
            if (n < 0) == (b < 0) {
                Fixed::from_wide_raw(m)
            } else {
                Fixed::from_wide_raw(-m)
            }
        }
    }

    pub open spec fn spec_sqrt(self) -> Fixed {
        if self@ <= 0 {
            Fixed::spec_zero()
        } else {
            Fixed::of(isqrt(self@ * ONE_RAW))
        }
    }

    /// Square root, rounded down; zero for a negative scalar.
    #[verifier::when_used_as_spec(spec_sqrt)]
    pub fn sqrt(self) -> (r: Fixed)
        ensures
            r == self.spec_sqrt(),
            r@ >= 0,
            self@ > 0 ==> is_isqrt(self@ * ONE_RAW, r@),
    {
        let a: i64 = self.to_raw();
        if a <= 0 {
            Fixed::zero()
        } else {
            let n: u128 = (a as u128) * 0x1_0000_0000u128;
            let s: u128 = isqrt_u128(n);
            proof {
                lemma_isqrt_unique(n as int, s as int);
                if s > LIMIT_RAW {
                    assert(s * s >= 0x4000_0000_0000_0000int * 0x4000_0000_0000_0000int)
                        by (nonlinear_arith)
                        requires
                            s >= 0x4000_0000_0000_0000int,
                    ;
                }
            }
            Fixed { raw: s as i64 }
        }
    }

    /// The square root of a value given in units of `2^-64`.
    pub open spec fn spec_sqrt_wide(w: int) -> Fixed {
        if w <= 0 {
            Fixed::spec_zero()
        } else {
            Fixed::of(isqrt(w))
        }
    }

    /// Square root of a value given in units of `2^-64`, rounded down and
    /// stopped at the limit; zero for a negative value.
    pub fn sqrt_wide(w: i128) -> (r: Fixed)
        ensures
            r == Fixed::spec_sqrt_wide(w as int),
            r@ >= 0,
            w > 0 && r@ < LIMIT_RAW ==> is_isqrt(w as int, r@),
    {
        if w <= 0 {
            Fixed::zero()
        } else {
            let s: u128 = isqrt_u128(w as u128);
            proof {
                lemma_isqrt_unique(w as int, s as int);
            }
            if s > LIMIT_RAW as u128 {
                Fixed { raw: LIMIT_RAW }
            } else {
                Fixed { raw: s as i64 }
            }
        }
    }

    pub open spec fn spec_lt(self, rhs: Fixed) -> bool {
        self@ < rhs@
    }

    #[verifier::when_used_as_spec(spec_lt)]
    pub fn lt(self, rhs: Fixed) -> (r: bool)
        ensures
            r == (self@ < rhs@),
    {
        self.to_raw() < rhs.to_raw()
    }

    pub open spec fn spec_le(self, rhs: Fixed) -> bool {
        self@ <= rhs@
    }

    #[verifier::when_used_as_spec(spec_le)]
    pub fn le(self, rhs: Fixed) -> (r: bool)
        ensures
            r == (self@ <= rhs@),
    {
        self.to_raw() <= rhs.to_raw()
    }

    pub open spec fn spec_gt(self, rhs: Fixed) -> bool {
        self@ > rhs@
    }

    #[verifier::when_used_as_spec(spec_gt)]
    pub fn gt(self, rhs: Fixed) -> (r: bool)
        ensures
            r == (self@ > rhs@),
    {
        self.to_raw() > rhs.to_raw()
    }

    pub open spec fn spec_ge(self, rhs: Fixed) -> bool {
        self@ >= rhs@
    }

    #[verifier::when_used_as_spec(spec_ge)]
    pub fn ge(self, rhs: Fixed) -> (r: bool)
        ensures
            r == (self@ >= rhs@),
    {
        self.to_raw() >= rhs.to_raw()
    }

    pub open spec fn spec_same(self, rhs: Fixed) -> bool {
        self@ == rhs@
    }

    /// Whether two scalars read the same.
    #[verifier::when_used_as_spec(spec_same)]
    pub fn same(self, rhs: Fixed) -> (r: bool)
        ensures
            r == (self@ == rhs@),
    {
        self.to_raw() == rhs.to_raw()
    }

    pub open spec fn spec_min(self, rhs: Fixed) -> Fixed {
        Fixed::of(if self@ <= rhs@ { self@ } else { rhs@ })
    }

    /// The smaller of two scalars.
    #[verifier::when_used_as_spec(spec_min)]
    pub fn min(self, rhs: Fixed) -> (r: Fixed)
        ensures
            r == self.spec_min(rhs),
    {
        let a: i64 = self.to_raw();
        let b: i64 = rhs.to_raw();
        if a <= b {
            Fixed { raw: a }
        } else {
            Fixed { raw: b }
        }
    }

    pub open spec fn spec_max(self, rhs: Fixed) -> Fixed {
        Fixed::of(if self@ >= rhs@ { self@ } else { rhs@ })
    }

    /// The larger of two scalars.
    #[verifier::when_used_as_spec(spec_max)]
    pub fn max(self, rhs: Fixed) -> (r: Fixed)
        ensures
            r == self.spec_max(rhs),
    {
        let a: i64 = self.to_raw();
        let b: i64 = rhs.to_raw();
        if a >= b {
            Fixed { raw: a }
        } else {
            Fixed { raw: b }
        }
    }
}

/// A product has the sign that the signs of its factors give.
pub proof fn lemma_mul_sign(a: Fixed, b: Fixed)
    ensures
        (a@ >= 0 && b@ >= 0) || (a@ <= 0 && b@ <= 0) ==> a.spec_mul(b)@ >= 0,
        (a@ >= 0 && b@ <= 0) || (a@ <= 0 && b@ >= 0) ==> a.spec_mul(b)@ <= 0,
{
    assert((a@ >= 0 && b@ >= 0) || (a@ <= 0 && b@ <= 0) ==> a@ * b@ >= 0) by (nonlinear_arith);
    assert((a@ >= 0 && b@ <= 0) || (a@ <= 0 && b@ >= 0) ==> a@ * b@ <= 0) by (nonlinear_arith);
    lemma_tdiv_sign(a@ * b@, ONE_RAW as int);
}

/// A quotient has the sign that the signs of its terms give.
pub proof fn lemma_div_sign(a: Fixed, b: Fixed)
    ensures
        (a@ >= 0 && b@ >= 0) || (a@ <= 0 && b@ < 0) ==> a.spec_div(b)@ >= 0,
        (a@ >= 0 && b@ < 0) || (a@ <= 0 && b@ >= 0) ==> a.spec_div(b)@ <= 0,
{
    assert(a@ >= 0 ==> a@ * ONE_RAW >= 0) by (nonlinear_arith);
    assert(a@ <= 0 ==> a@ * ONE_RAW <= 0) by (nonlinear_arith);
    lemma_tdiv_sign(a@ * ONE_RAW, b@);
}

/// Dividing by a positive scalar keeps the order of the dividends; dividing
/// by a negative one reverses it.
pub proof fn lemma_div_monotone(a: Fixed, b: Fixed, d: Fixed)
    requires
        a@ <= b@,
        d@ != 0,
    ensures
        d@ > 0 ==> a.spec_div(d)@ <= b.spec_div(d)@,
        d@ < 0 ==> a.spec_div(d)@ >= b.spec_div(d)@,
{
    assert(a@ * ONE_RAW <= b@ * ONE_RAW) by (nonlinear_arith)
        requires
            a@ <= b@,
    ;
    if d@ > 0 {
        lemma_tdiv_monotone(a@ * ONE_RAW, b@ * ONE_RAW, d@);
    } else {
        lemma_tdiv_antitone(a@ * ONE_RAW, b@ * ONE_RAW, d@);
    }
}

/// Every natural number has an integer square root.
pub proof fn lemma_isqrt_exists(n: int)
    requires
        n >= 0,
    ensures
        is_isqrt(n, isqrt(n)),
    decreases n,
{
    if n == 0 {
        assert(is_isqrt(0, 0));
    } else {
        lemma_isqrt_exists(n - 1);
        let p = isqrt(n - 1);
        if (p + 1) * (p + 1) <= n {
            assert((p + 2) * (p + 2) > n) by (nonlinear_arith)
                requires
                    n - 1 < (p + 1) * (p + 1),
                    p >= 0,
            ;
            assert(is_isqrt(n, p + 1));
        } else {
            assert(is_isqrt(n, p));
        }
    }
}

} // verus!
