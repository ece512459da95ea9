//! Random scalars and angle conversion.
use vstd::prelude::*;
use crate::fixed::{Fixed, ONE_RAW, tdiv};

verus! {

/// Thirty-two random bits from `rand::random` of the `rand` crate. Nothing
/// is claimed of them, and two calls may differ; the body is taken on trust.
#[verifier::external_body]
fn random_bits() -> (bits: u32) {
    rand::random::<u32>()
}

/// Whether `s` can come out of [`random_double`]: zero up to, not including, one.
pub open spec fn is_unit_sample(s: Fixed) -> bool {
    0 <= s@ < ONE_RAW && s.normal_form()
}

/// The scalar in `[0, 1)` whose fractional bits are `bits`.
pub fn unit_sample(bits: u32) -> (r: Fixed)
    ensures
        r == Fixed::of(bits as int),
        is_unit_sample(r),
{
    Fixed::from_raw(bits as i64)
}

/// A random scalar in `[0, 1)`.
pub fn random_double() -> (r: Fixed)
    ensures
        is_unit_sample(r),
{
    unit_sample(random_bits())
}

/// The point of `[min, max)` that the unit sample `s` selects.
pub open spec fn spec_double_in_range(min: Fixed, max: Fixed, s: Fixed) -> Fixed {
    min.add(max.sub(min).mul(s))
}

/// The point of `[min, max)` that the unit sample `s` selects.
#[verifier::when_used_as_spec(spec_double_in_range)]
pub fn double_in_range(min: Fixed, max: Fixed, s: Fixed) -> (r: Fixed)
    ensures
        r == spec_double_in_range(min, max, s),
{
    min.add(max.sub(min).mul(s))
}

/// A unit sample never carries a scalar past the end it started from.
pub proof fn lemma_double_in_range_bounds(min: Fixed, max: Fixed, s: Fixed)
    requires
        is_unit_sample(s),
        min@ <= max@,
    ensures
        min@ <= spec_double_in_range(min, max, s)@ <= max@,
{
    let w = max.sub(min)@;
    assert(0 <= w);
    assert(0 <= w * s@ <= w * ONE_RAW) by (nonlinear_arith)
        requires
            0 <= w,
            0 <= s@ <= ONE_RAW,
    ;
    vstd::arithmetic::div_mod::lemma_div_is_ordered(w * s@, w * ONE_RAW, ONE_RAW as int);
    vstd::arithmetic::div_mod::lemma_div_multiples_vanish(w, ONE_RAW as int);
    vstd::arithmetic::div_mod::lemma_div_pos_is_pos(w * s@, ONE_RAW as int);
    assert(w * ONE_RAW == ONE_RAW * w) by (nonlinear_arith);
    assert(0 <= tdiv(w * s@, ONE_RAW as int) <= w);
}

/// A random scalar between `min` and `max`.
pub fn random_double_range(min: Fixed, max: Fixed) -> (r: Fixed)
    ensures
        exists|s: Fixed| is_unit_sample(s) && r == spec_double_in_range(min, max, s),
        min@ <= max@ ==> min@ <= r@ <= max@,
{
    let s = random_double();
    proof {
        if min@ <= max@ {
            lemma_double_in_range_bounds(min, max, s);
        }
    }
    double_in_range(min, max, s)
}

/// The integer that the unit sample `s` selects among `min..=max`: the sample
/// is stretched over `[min, max + 1)` and rounded down.
pub open spec fn spec_int_in_range(min: i32, max: i32, s: Fixed) -> i64 {
    spec_double_in_range(Fixed::from_int(min), Fixed::from_int(max).add(Fixed::one()), s).floor()
}

/// The integer that the unit sample `s` selects among `min..=max`. It lies
/// among them when `min` is not above `max`, both are within `2^30` of zero,
/// whatever their signs, and they are less than `2^30` apart.
#[verifier::when_used_as_spec(spec_int_in_range)]
pub fn int_in_range(min: i32, max: i32, s: Fixed) -> (r: i64)
    ensures
        r == spec_int_in_range(min, max, s),
        is_unit_sample(s) && -0x4000_0000 < min <= max < 0x4000_0000 && max - min < 0x4000_0000 ==> min <= r <= max,
        min == max && is_unit_sample(s) && -0x4000_0000 < min < 0x4000_0000 ==> r == min,
{
    let lo = Fixed::from_int(min);
    let hi = Fixed::from_int(max).add(Fixed::one());
    let x = double_in_range(lo, hi, s);
    proof {
        if is_unit_sample(s) && -0x4000_0000 < min <= max < 0x4000_0000 && max - min < 0x4000_0000 {
            assert(min * ONE_RAW == min * 0x1_0000_0000);
            assert(max * ONE_RAW == max * 0x1_0000_0000);
            assert((max + 1) * ONE_RAW == (max + 1) * 0x1_0000_0000);
            assert(lo@ == min * ONE_RAW);
            assert(hi@ == (max + 1) * ONE_RAW);
            let w = (max + 1 - min) as int;
            assert(hi.sub(lo)@ == w * ONE_RAW) by (nonlinear_arith)
                requires
                    hi.sub(lo)@ == (max + 1) * ONE_RAW - min * ONE_RAW,
                    w == max + 1 - min,
            ;
            let m = hi.sub(lo).mul(s)@;
            assert((w * ONE_RAW) * s@ == (w * s@) * ONE_RAW) by (nonlinear_arith);
            vstd::arithmetic::div_mod::lemma_div_multiples_vanish(w * s@, ONE_RAW as int);
            assert(((w * s@) * ONE_RAW) / (ONE_RAW as int) == w * s@) by {
                assert((w * s@) * ONE_RAW == ONE_RAW * (w * s@)) by (nonlinear_arith);
            }
            assert(0 <= w * s@ <= w * (ONE_RAW - 1)) by (nonlinear_arith)
                requires
                    0 <= w,
                    0 <= s@ <= ONE_RAW - 1,
            ;
            assert(w * (ONE_RAW - 1) == w * ONE_RAW - w) by (nonlinear_arith);
            assert(w * ONE_RAW <= 0x8000_0000 * ONE_RAW) by (nonlinear_arith)
                requires
                    w <= 0x8000_0000,
            ;
            assert(m == w * s@);
            assert(x@ == min * ONE_RAW + w * s@);
            assert(min * ONE_RAW <= x@ < (max + 1) * ONE_RAW) by (nonlinear_arith)
                requires
                    x@ == min * ONE_RAW + w * s@,
                    0 <= w * s@ <= w * ONE_RAW - w,
                    w == max + 1 - min,
                    w >= 1,
            ;
            vstd::arithmetic::div_mod::lemma_div_is_ordered(min * ONE_RAW, x@, ONE_RAW as int);
            vstd::arithmetic::div_mod::lemma_div_multiples_vanish(min as int, ONE_RAW as int);
            assert(min * ONE_RAW == ONE_RAW * min) by (nonlinear_arith);
            vstd::arithmetic::div_mod::lemma_div_by_multiple_is_strongly_ordered(
                x@,
                (max + 1) * ONE_RAW,
                (max + 1) as int,
                ONE_RAW as int,
            );
            vstd::arithmetic::div_mod::lemma_div_multiples_vanish((max + 1) as int, ONE_RAW as int);
            assert((max + 1) * ONE_RAW == ONE_RAW * (max + 1)) by (nonlinear_arith);
        }
    }
    x.floor()
}

/// A random integer among `min..=max`: a unit sample stretched over
/// `[min, max + 1)` and rounded down. It lies among them when `min` is not
/// above `max`, both are within `2^30` of zero, whatever their signs, and
/// they are less than `2^30` apart.
pub fn random_int(min: i32, max: i32) -> (r: i32)
    ensures
        exists|s: Fixed| is_unit_sample(s) && r == spec_int_in_range(min, max, s),
        -0x4000_0000 < min <= max < 0x4000_0000 && max - min < 0x4000_0000 ==> min <= r <= max,
        min == max && -0x4000_0000 < min < 0x4000_0000 ==> r == min,
{
    let s = random_double();
    let v: i64 = int_in_range(min, max, s);
    v as i32
}

/// Degrees to radians: `degrees * pi / 180`.
pub open spec fn spec_degrees_to_radians(degrees: Fixed) -> Fixed {
    degrees.mul(Fixed::pi()).div(Fixed::from_int(180))
}

/// Degrees to radians: `degrees * pi / 180`.
#[verifier::when_used_as_spec(spec_degrees_to_radians)]
pub fn degrees_to_radians(degrees: Fixed) -> (r: Fixed)
    ensures
        r == spec_degrees_to_radians(degrees),
{
    degrees.mul(Fixed::pi()).div(Fixed::from_int(180))
}

} // verus!
