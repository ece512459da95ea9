//! Circular functions and the logarithm on fixed-point scalars.
//!
//! Sine, cosine and the arc tangent are computed by coordinate rotation:
//! thirty-two shift-and-add steps, the step of divisor `d = 2^i` turning by
//! `atan(1 / d)`. The logarithm is computed bit by bit by repeated squaring.
//! The contracts state each result through the recurrence that defines it;
//! the results approximate the real functions to a few raw counts.
use vstd::prelude::*;
use crate::fixed::{Fixed, ONE_RAW, tdiv, trunc_div, lemma_tdiv_sign};

verus! {

/// Raw count of pi.
pub const PI_RAW: i64 = 13493037705;

/// Raw count of two pi: twice that of pi, so that a whole turn is two half
/// turns.
pub const TWO_PI_RAW: i64 = 26986075410;

/// Raw count of half of pi.
pub const HALF_PI_RAW: i64 = 6746518852;

/// Raw count of the factor that undoes the stretch of thirty-two rotation steps.
pub const GAIN_RAW: i64 = 2608131496;

/// Raw count of the natural logarithm of two.
pub const LN2_RAW: i64 = 2977044472;

/// Raw count of `atan(1 / d)`, for `d` a power of two up to `2^31`.
pub open spec fn spec_step_angle(d: int) -> int {
    if d == 1 {
        3373259426
    } else if d == 2 {
        1991351318
    } else if d == 4 {
        1052175346
    } else if d == 8 {
        534100635
    } else if d == 16 {
        268086748
    } else if d == 32 {
        134174063
    } else if d == 64 {
        67103403
    } else if d == 128 {
        33553749
    } else if d == 256 {
        16777131
    } else if d == 512 {
        8388597
    } else if d == 1024 {
        4194303
    } else if d > 0 {
        0x1_0000_0000int / d
    } else {
        0
    }
}

/// Raw count of `atan(1 / d)`, for `d` a power of two up to `2^31`.
fn step_angle(d: i128) -> (a: i128)
    requires
        1 <= d <= 0x1_0000_0000,
    ensures
        a == spec_step_angle(d as int),
        0 <= a <= 0x1_0000_0000,
{
    if d == 1 {
        3373259426
    } else if d == 2 {
        1991351318
    } else if d == 4 {
        1052175346
    } else if d == 8 {
        534100635
    } else if d == 16 {
        268086748
    } else if d == 32 {
        134174063
    } else if d == 64 {
        67103403
    } else if d == 128 {
        33553749
    } else if d == 256 {
        16777131
    } else if d == 512 {
        8388597
    } else if d == 1024 {
        4194303
    } else {
        0x1_0000_0000i128 / d
    }
}

/// A quotient is no larger than the bound on its numerator allows.
proof fn lemma_tdiv_bound(y: int, d: int, c: int)
    requires
        d >= 1,
        c >= 0,
        -c * d <= y <= c * d,
    ensures
        -c <= tdiv(y, d) <= c,
{
    let m = if y >= 0 { y } else { -y };
    assert(-c * d == -(c * d)) by (nonlinear_arith);
    assert(0 <= c * d) by (nonlinear_arith)
        requires
            d >= 1,
            c >= 0,
    ;
    vstd::arithmetic::div_mod::lemma_div_is_ordered(m, c * d, d);
    vstd::arithmetic::div_mod::lemma_div_multiples_vanish(c, d);
    assert(c * d == d * c) by (nonlinear_arith);
    vstd::arithmetic::div_mod::lemma_div_pos_is_pos(m, d);
}

/// The vector `(x, y)` after the rotation steps of divisors `d, 2d, ..`
/// below `2^32`, each turning toward the angle `z` that is left.
pub open spec fn rotate_steps(x: int, y: int, z: int, d: int) -> (int, int)
    decreases 0x2_0000_0000 - d,
{
    if d >= 0x1_0000_0000 || d <= 0 {
        (x, y)
    } else if z >= 0 {
        rotate_steps(x - tdiv(y, d), y + tdiv(x, d), z - spec_step_angle(d), 2 * d)
    } else {
        rotate_steps(x + tdiv(y, d), y - tdiv(x, d), z + spec_step_angle(d), 2 * d)
    }
}

/// Raw count of `atan(1 / d)` as a part of a whole turn, for `d` a power of
/// two up to `2^31`. The first, an eighth of a turn, is exact.
pub open spec fn spec_step_turn(d: int) -> int {
    if d == 1 {
        536870912
    } else if d == 2 {
        316933406
    } else if d == 4 {
        167458907
    } else if d == 8 {
        85004756
    } else if d == 16 {
        42667331
    } else if d == 32 {
        21354465
    } else if d == 64 {
        10679838
    } else if d == 128 {
        5340245
    } else if d == 256 {
        2670163
    } else if d == 512 {
        1335087
    } else if d > 0 {
        (683565276int + d / 2) / d
    } else {
        0
    }
}

/// Raw count of `atan(1 / d)` as a part of a whole turn.
fn step_turn(d: i128) -> (a: i128)
    requires
        1 <= d <= 0x1_0000_0000,
    ensures
        a == spec_step_turn(d as int),
        0 <= a <= 0x1_0000_0000,
{
    if d == 1 {
        536870912
    } else if d == 2 {
        316933406
    } else if d == 4 {
        167458907
    } else if d == 8 {
        85004756
    } else if d == 16 {
        42667331
    } else if d == 32 {
        21354465
    } else if d == 64 {
        10679838
    } else if d == 128 {
        5340245
    } else if d == 256 {
        2670163
    } else if d == 512 {
        1335087
    } else {
        (683565276i128 + d / 2) / d
    }
}

/// The angle, in parts of a turn, gathered by the steps of divisors
/// `d, 2d, ..` below `2^32`, each turning the vector `(x, y)` toward the x
/// axis.
pub open spec fn vector_steps(x: int, y: int, z: int, d: int) -> int
    decreases 0x2_0000_0000 - d,
{
    if d >= 0x1_0000_0000 || d <= 0 {
        z
    } else if y >= 0 {
        vector_steps(x + tdiv(y, d), y - tdiv(x, d), z + spec_step_turn(d), 2 * d)
    } else {
        vector_steps(x - tdiv(y, d), y + tdiv(x, d), z - spec_step_turn(d), 2 * d)
    }
}

/// The angle with whole turns dropped, within `[-pi, pi]`.
pub open spec fn principal_angle(a: int) -> int {
    let r0 = a - tdiv(a, TWO_PI_RAW as int) * TWO_PI_RAW;
    if r0 > PI_RAW {
        r0 - TWO_PI_RAW
    } else if r0 < -PI_RAW {
        r0 + TWO_PI_RAW
    } else {
        r0
    }
}

/// Sine and cosine, as raw counts, of an angle that lies on an axis: within
/// one raw count of no turn, of a quarter turn either way, or of a half
/// turn. They are exact there: `(0, 1)`, `(1, 0)`, `(-1, 0)` and `(0, -1)`.
pub open spec fn on_axis(r1: int) -> Option<(int, int)> {
    if -1 <= r1 <= 1 {
        Some((0int, ONE_RAW as int))
    } else if HALF_PI_RAW - 1 <= r1 <= HALF_PI_RAW + 1 {
        Some((ONE_RAW as int, 0int))
    } else if -HALF_PI_RAW - 1 <= r1 <= -HALF_PI_RAW + 1 {
        Some((-(ONE_RAW as int), 0int))
    } else if r1 >= PI_RAW - 1 || r1 <= -PI_RAW + 1 {
        Some((0int, -(ONE_RAW as int)))
    } else {
        None
    }
}

/// The angle brought into `[-pi/2, pi/2]`, and whether the cosine changes
/// sign on the way: whole turns are dropped, then the angle is mirrored
/// about the y axis when it lies beyond a quarter turn.
pub open spec fn reduce_angle(a: int) -> (int, bool) {
    let r1 = principal_angle(a);
    if r1 > HALF_PI_RAW {
        (PI_RAW - r1, true)
    } else if r1 < -HALF_PI_RAW {
        (-PI_RAW - r1, true)
    } else {
        (r1, false)
    }
}

/// The nearest raw count within `[-1, 1]`.
pub open spec fn unit_clamp(v: int) -> int {
    if v > ONE_RAW {
        ONE_RAW as int
    } else if v < -ONE_RAW {
        -(ONE_RAW as int)
    } else {
        v
    }
}

/// Sine and cosine of an angle in radians, in that order: exact for an
/// angle on an axis, and by rotation steps for every other.
pub open spec fn spec_sin_cos(theta: Fixed) -> (Fixed, Fixed) {
    match on_axis(principal_angle(theta@)) {
        Some(exact) => (Fixed::of(exact.0), Fixed::of(exact.1)),
        None => {
            let (z, flip) = reduce_angle(theta@);
            let (x, y) = rotate_steps(GAIN_RAW as int, 0, z, 1);
            (Fixed::of(unit_clamp(y)), Fixed::of(unit_clamp(if flip { -x } else { x })))
        },
    }
}

/// The sine of no turn is zero and its cosine is one.
pub proof fn lemma_sin_cos_of_zero()
    ensures
        spec_sin_cos(Fixed::spec_zero()) == (Fixed::spec_zero(), Fixed::spec_one()),
{
}

/// Sine and cosine of an angle in radians, in that order. Both lie in `[-1, 1]`.
#[verifier::when_used_as_spec(spec_sin_cos)]
pub fn sin_cos(theta: Fixed) -> (r: (Fixed, Fixed))
    ensures
        r == spec_sin_cos(theta),
        -ONE_RAW <= r.0@ <= ONE_RAW,
        -ONE_RAW <= r.1@ <= ONE_RAW,
{
    let a: i128 = theta.to_raw() as i128;
    let q: i128 = trunc_div(a, TWO_PI_RAW as i128);
    proof {
        lemma_tdiv_bound(a as int, TWO_PI_RAW as int, 0x4000_0000_0000_0000);
    }
    let r0: i128 = a - q * (TWO_PI_RAW as i128);
    let r1: i128 = if r0 > PI_RAW as i128 {
        r0 - TWO_PI_RAW as i128
    } else if r0 < -(PI_RAW as i128) {
        r0 + TWO_PI_RAW as i128
    } else {
        r0
    };
    if -1 <= r1 && r1 <= 1 {
        return (Fixed::zero(), Fixed::one());
    } else if HALF_PI_RAW as i128 - 1 <= r1 && r1 <= HALF_PI_RAW as i128 + 1 {
        return (Fixed::one(), Fixed::zero());
    } else if -(HALF_PI_RAW as i128) - 1 <= r1 && r1 <= -(HALF_PI_RAW as i128) + 1 {
        return (Fixed::one().neg(), Fixed::zero());
    } else if r1 >= PI_RAW as i128 - 1 || r1 <= -(PI_RAW as i128) + 1 {
        return (Fixed::zero(), Fixed::one().neg());
    }
    let flip: bool = r1 > HALF_PI_RAW as i128 || r1 < -(HALF_PI_RAW as i128);
    let z0: i128 = if r1 > HALF_PI_RAW as i128 {
        PI_RAW as i128 - r1
    } else if r1 < -(HALF_PI_RAW as i128) {
        -(PI_RAW as i128) - r1
    } else {
        r1
    };
    let mut x: i128 = GAIN_RAW as i128;
    let mut y: i128 = 0;
    let mut z: i128 = z0;
    let mut d: i128 = 1;
    while d < 0x1_0000_0000
        invariant
            1 <= d <= 0x2_0000_0000,
            -0x1_0000_0000 * d <= x <= 0x1_0000_0000 * d,
            -0x1_0000_0000 * d <= y <= 0x1_0000_0000 * d,
            -0x4000_0000_0000_0000_0000 * d <= z <= 0x4000_0000_0000_0000_0000 * d,
            rotate_steps(x as int, y as int, z as int, d as int) == rotate_steps(
                GAIN_RAW as int,
                0,
                z0 as int,
                1,
            ),
        decreases 0x2_0000_0000 - d,
    {
        proof {
            lemma_tdiv_bound(x as int, d as int, 0x1_0000_0000);
            lemma_tdiv_bound(y as int, d as int, 0x1_0000_0000);
        }
        let dx: i128 = trunc_div(y, d);
        let dy: i128 = trunc_div(x, d);
        let a: i128 = step_angle(d);
        if z >= 0 {
            x = x - dx;
            y = y + dy;
            z = z - a;
        } else {
            x = x + dx;
            y = y - dy;
            z = z + a;
        }
        d = 2 * d;
    }
    let c: i128 = if flip { -x } else { x };
    (unit_clamp_raw(y), unit_clamp_raw(c))
}

/// The scalar nearest to a raw count within `[-1, 1]`.
fn unit_clamp_raw(v: i128) -> (r: Fixed)
    ensures
        r == Fixed::of(unit_clamp(v as int)),
        -ONE_RAW <= r@ <= ONE_RAW,
{
    if v > ONE_RAW as i128 {
        Fixed::from_raw(ONE_RAW)
    } else if v < -(ONE_RAW as i128) {
        Fixed::from_raw(-ONE_RAW)
    } else {
        Fixed::from_raw(v as i64)
    }
}

pub open spec fn spec_sin(theta: Fixed) -> Fixed {
    spec_sin_cos(theta).0
}

/// Sine of an angle in radians.
#[verifier::when_used_as_spec(spec_sin)]
pub fn sin(theta: Fixed) -> (r: Fixed)
    ensures
        r == spec_sin(theta),
        -ONE_RAW <= r@ <= ONE_RAW,
{
    sin_cos(theta).0
}

pub open spec fn spec_cos(theta: Fixed) -> Fixed {
    spec_sin_cos(theta).1
}

/// Cosine of an angle in radians.
#[verifier::when_used_as_spec(spec_cos)]
pub fn cos(theta: Fixed) -> (r: Fixed)
    ensures
        r == spec_cos(theta),
        -ONE_RAW <= r@ <= ONE_RAW,
{
    sin_cos(theta).1
}

pub open spec fn spec_tan(theta: Fixed) -> Fixed {
    spec_sin_cos(theta).0.div(spec_sin_cos(theta).1)
}

/// Tangent of an angle in radians: sine over cosine.
#[verifier::when_used_as_spec(spec_tan)]
pub fn tan(theta: Fixed) -> (r: Fixed)
    ensures
        r == spec_tan(theta),
{
    let sc = sin_cos(theta);
    sc.0.div(sc.1)
}

/// Raw count of a quarter of a turn, when angles are counted in turns.
pub const QUARTER_TURN_RAW: i64 = 0x4000_0000;

/// Raw count of half a turn, when angles are counted in turns.
pub const HALF_TURN_RAW: i64 = 0x8000_0000;

/// The angle of the vector `(x, y)` as a part of a whole turn, within
/// `[-1/2, 1/2]`; zero for the zero vector. Along the axes it is exact: no
/// turn, a quarter turn either way, or half a turn.
pub open spec fn spec_atan2_turns(y: Fixed, x: Fixed) -> Fixed {
    if y@ == 0 {
        if x@ >= 0 {
            Fixed::zero()
        } else {
            Fixed::of(HALF_TURN_RAW as int)
        }
    } else if x@ == 0 {
        if y@ > 0 {
            Fixed::of(QUARTER_TURN_RAW as int)
        } else {
            Fixed::of(-(QUARTER_TURN_RAW as int))
        }
    } else if x@ > 0 {
        Fixed::of(vector_steps(x@, y@, 0, 1))
    } else if y@ > 0 {
        Fixed::of(HALF_TURN_RAW - vector_steps(-x@, y@, 0, 1))
    } else {
        Fixed::of(-HALF_TURN_RAW - vector_steps(-x@, y@, 0, 1))
    }
}

/// The angle of the vector `(x, y)` in radians, within `[-pi, pi]`; zero for
/// the zero vector: its part of a turn, times two pi.
pub open spec fn spec_atan2(y: Fixed, x: Fixed) -> Fixed {
    spec_atan2_turns(y, x).mul(Fixed::from_raw(TWO_PI_RAW))
}

/// The angle gathered in turning `(x, y)` onto the x axis.
fn vector_angle(x0: i128, y0: i128) -> (z: i128)
    requires
        -0x4000_0000_0000_0000 <= x0 <= 0x4000_0000_0000_0000,
        -0x4000_0000_0000_0000 <= y0 <= 0x4000_0000_0000_0000,
    ensures
        z == vector_steps(x0 as int, y0 as int, 0, 1),
        -0x8000_0000_0000_0000_0000_0000_0000 <= z <= 0x8000_0000_0000_0000_0000_0000_0000,
{
    let mut x: i128 = x0;
    let mut y: i128 = y0;
    let mut z: i128 = 0;
    let mut d: i128 = 1;
    while d < 0x1_0000_0000
        invariant
            1 <= d <= 0x2_0000_0000,
            -0x4000_0000_0000_0000 * d <= x <= 0x4000_0000_0000_0000 * d,
            -0x4000_0000_0000_0000 * d <= y <= 0x4000_0000_0000_0000 * d,
            -0x4000_0000_0000_0000_0000 * d <= z <= 0x4000_0000_0000_0000_0000 * d,
            vector_steps(x as int, y as int, z as int, d as int) == vector_steps(
                x0 as int,
                y0 as int,
                0,
                1,
            ),
        decreases 0x2_0000_0000 - d,
    {
        proof {
            lemma_tdiv_bound(x as int, d as int, 0x4000_0000_0000_0000);
            lemma_tdiv_bound(y as int, d as int, 0x4000_0000_0000_0000);
        }
        let dx: i128 = trunc_div(y, d);
        let dy: i128 = trunc_div(x, d);
        let a: i128 = step_turn(d);
        if y >= 0 {
            x = x + dx;
            y = y - dy;
            z = z + a;
        } else {
            x = x - dx;
            y = y + dy;
            z = z - a;
        }
        d = 2 * d;
    }
    z
}

/// The angle of the vector `(x, y)` as a part of a whole turn; zero for the
/// zero vector, and exact along the axes.
#[verifier::when_used_as_spec(spec_atan2_turns)]
pub fn atan2_turns(y: Fixed, x: Fixed) -> (r: Fixed)
    ensures
        r == spec_atan2_turns(y, x),
{
    let a: i128 = x.to_raw() as i128;
    let b: i128 = y.to_raw() as i128;
    if b == 0 {
        if a >= 0 {
            Fixed::zero()
        } else {
            Fixed::from_raw(HALF_TURN_RAW)
        }
    } else if a == 0 {
        if b > 0 {
            Fixed::from_raw(QUARTER_TURN_RAW)
        } else {
            Fixed::from_raw(-QUARTER_TURN_RAW)
        }
    } else if a > 0 {
        Fixed::from_wide_raw(vector_angle(a, b))
    } else if b > 0 {
        Fixed::from_wide_raw(HALF_TURN_RAW as i128 - vector_angle(-a, b))
    } else {
        Fixed::from_wide_raw(-(HALF_TURN_RAW as i128) - vector_angle(-a, b))
    }
}

/// The angle of the vector `(x, y)` in radians; zero for the zero vector.
#[verifier::when_used_as_spec(spec_atan2)]
pub fn atan2(y: Fixed, x: Fixed) -> (r: Fixed)
    ensures
        r == spec_atan2(y, x),
{
    atan2_turns(y, x).mul(Fixed::from_raw(TWO_PI_RAW))
}

/// The angle, as a part of a whole turn within `[0, 1/2]`, whose cosine is
/// `c`, for `c` brought into `[-1, 1]`: the angle of the vector
/// `(c, sqrt(1 - c^2))`. It is exact where the cosine is one, zero or minus
/// one: no turn, a quarter turn, half a turn.
pub open spec fn spec_acos_turns(c: Fixed) -> Fixed {
    let k = Fixed::of(unit_clamp(c@));
    if k@ == ONE_RAW {
        Fixed::zero()
    } else if k@ == 0 {
        Fixed::of(QUARTER_TURN_RAW as int)
    } else if k@ == -ONE_RAW {
        Fixed::of(HALF_TURN_RAW as int)
    } else {
        spec_atan2_turns(Fixed::spec_sqrt_wide(ONE_RAW * ONE_RAW - k@ * k@), k)
    }
}

/// The angle, as a part of a whole turn, whose cosine is `c`.
#[verifier::when_used_as_spec(spec_acos_turns)]
pub fn acos_turns(c: Fixed) -> (r: Fixed)
    ensures
        r == spec_acos_turns(c),
{
    let k = unit_clamp_raw(c.to_raw() as i128);
    if k.same(Fixed::one()) {
        Fixed::zero()
    } else if k.same(Fixed::zero()) {
        Fixed::from_raw(QUARTER_TURN_RAW)
    } else if k.same(Fixed::one().neg()) {
        Fixed::from_raw(HALF_TURN_RAW)
    } else {
        assert(ONE_RAW * ONE_RAW == 0x1_0000_0000_0000_0000) by (nonlinear_arith);
        let w: i128 = 0x1_0000_0000_0000_0000i128 - k.wide_mul(k);
        atan2_turns(Fixed::sqrt_wide(w), k)
    }
}

/// The angle in `[0, pi]` whose cosine is `c`, for `c` brought into
/// `[-1, 1]`: its part of a turn, times two pi.
pub open spec fn spec_acos(c: Fixed) -> Fixed {
    spec_acos_turns(c).mul(Fixed::from_raw(TWO_PI_RAW))
}

/// The angle in `[0, pi]` whose cosine is `c`, for `c` brought into `[-1, 1]`.
#[verifier::when_used_as_spec(spec_acos)]
pub fn acos(c: Fixed) -> (r: Fixed)
    ensures
        r == spec_acos(c),
{
    acos_turns(c).mul(Fixed::from_raw(TWO_PI_RAW))
}

/// Doubles `m` until it reaches `2^32`, counting each doubling down from `e`.
pub open spec fn scale_up(m: int, e: int) -> (int, int)
    decreases 0x2_0000_0000 - m,
{
    if m <= 0 || m >= 0x1_0000_0000 {
        (m, e)
    } else {
        scale_up(2 * m, e - 1)
    }
}

/// Halves `m` until it is below `2^33`, counting each halving up from `e`.
pub open spec fn scale_down(m: int, e: int) -> (int, int)
    decreases m,
{
    if m < 0x2_0000_0000 {
        (m, e)
    } else {
        scale_down(m / 2, e + 1)
    }
}

/// The fractional bits, from the one worth `bit` downward, of the binary
/// logarithm of `m / 2^32`, for `m` in `[2^32, 2^33)`: squaring doubles the
/// logarithm, and the bit is set when the square reaches two.
pub open spec fn log2_fraction(m: int, bit: int) -> int
    decreases bit,
{
    if bit <= 0 {
        0
    } else {
        let sq = (m * m) / 0x1_0000_0000;
        if sq >= 0x2_0000_0000 {
            bit + log2_fraction(sq / 2, bit / 2)
        } else {
            log2_fraction(sq, bit / 2)
        }
    }
}

/// The binary logarithm; minus infinity for zero and below.
pub open spec fn spec_log2(x: Fixed) -> Fixed {
    if x@ <= 0 {
        Fixed::neg_infinity()
    } else {
        let up = scale_up(x@, 0);
        let down = scale_down(up.0, up.1);
        Fixed::of(down.1 * ONE_RAW + log2_fraction(down.0, 0x8000_0000))
    }
}

/// Doubling up to `2^32` ends in `[2^32, 2^33)` without raising the count.
proof fn lemma_scale_up(m: int, e: int)
    requires
        0 < m,
    ensures
        scale_up(m, e).0 >= 0x1_0000_0000,
        m < 0x1_0000_0000 ==> scale_up(m, e).0 < 0x2_0000_0000 && scale_up(m, e).1 < e,
        m >= 0x1_0000_0000 ==> scale_up(m, e) == (m, e),
    decreases 0x2_0000_0000 - m,
{
    if m < 0x1_0000_0000 {
        lemma_scale_up(2 * m, e - 1);
    }
}

/// The binary logarithm, by normalising the scalar into `[1, 2)` and then
/// squaring it for each fractional bit; minus infinity for zero and below.
#[verifier::when_used_as_spec(spec_log2)]
pub fn log2(x: Fixed) -> (r: Fixed)
    ensures
        r == spec_log2(x),
        x@ <= ONE_RAW ==> r@ <= 0,
{
    let a: i64 = x.to_raw();
    if a <= 0 {
        return Fixed::neg_infinity();
    }
    let mut m: i128 = a as i128;
    let mut e: i128 = 0;
    while m < 0x1_0000_0000
        invariant
            0 < m <= 0x4000_0000_0000_0000,
            e <= 0,
            e + m >= 1,
            scale_up(m as int, e as int) == scale_up(a as int, 0),
            a < 0x1_0000_0000 ==> m < 0x2_0000_0000 && (e < 0 || m == a),
            a >= 0x1_0000_0000 ==> m == a && e == 0,
        decreases 0x2_0000_0000 - m,
    {
        m = 2 * m;
        e = e - 1;
    }
    proof {
        lemma_scale_up(a as int, 0);
    }
    let ghost up = (m as int, e as int);
    while m >= 0x2_0000_0000
        invariant
            0x1_0000_0000 <= m <= 0x4000_0000_0000_0000,
            up.1 <= e,
            e + m <= up.1 + up.0,
            up.1 <= 0,
            -0x2_0000_0000 <= up.1,
            up.0 <= 0x4000_0000_0000_0000,
            scale_down(m as int, e as int) == scale_down(up.0, up.1),
            a <= 0x1_0000_0000 ==> m == up.0 && e == up.1 && up.0 < 0x2_0000_0000,
        decreases m,
    {
        m = m / 2;
        e = e + 1;
    }
    let ghost down = (m as int, e as int);
    let mut f: i128 = 0;
    let mut bit: i128 = 0x8000_0000;
    while bit > 0
        invariant
            0x1_0000_0000 <= m < 0x2_0000_0000,
            0 <= bit <= 0x8000_0000,
            0 <= f,
            f + 2 * bit <= 0x1_0000_0000,
            f + log2_fraction(m as int, bit as int) == log2_fraction(down.0, 0x8000_0000),
            a == 0x1_0000_0000 ==> m == 0x1_0000_0000 && f == 0,
        decreases bit,
    {
        assert(0x1_0000_0000_0000_0000 <= m * m < 0x4_0000_0000_0000_0000) by (nonlinear_arith)
            requires
                0x1_0000_0000 <= m < 0x2_0000_0000,
        ;
        assert(a == 0x1_0000_0000 ==> m * m == 0x1_0000_0000_0000_0000) by (nonlinear_arith)
            requires
                a == 0x1_0000_0000 ==> m == 0x1_0000_0000,
        ;
        let sq: i128 = (m * m) / 0x1_0000_0000;
        if sq >= 0x2_0000_0000 {
            m = sq / 2;
            f = f + bit;
        } else {
            m = sq;
        }
        bit = bit / 2;
    }
    Fixed::from_wide_raw(e * 0x1_0000_0000 + f)
}

pub open spec fn spec_ln(x: Fixed) -> Fixed {
    if x@ <= 0 {
        Fixed::neg_infinity()
    } else {
        spec_log2(x).mul(Fixed::from_raw(LN2_RAW))
    }
}

/// The natural logarithm: the binary logarithm times the logarithm of two;
/// minus infinity for zero and below. It is not above zero for a scalar that
/// is not above one.
#[verifier::when_used_as_spec(spec_ln)]
pub fn ln(x: Fixed) -> (r: Fixed)
    ensures
        r == spec_ln(x),
        x@ <= ONE_RAW ==> r@ <= 0,
{
    if x.le(Fixed::zero()) {
        return Fixed::neg_infinity();
    }
    let l = log2(x);
    proof {
        lemma_tdiv_sign(l@ * LN2_RAW, ONE_RAW as int);
        assert(l@ <= 0 ==> l@ * LN2_RAW <= 0) by (nonlinear_arith)
            requires
                LN2_RAW > 0,
        ;
    }
    l.mul(Fixed::from_raw(LN2_RAW))
}

} // verus!
