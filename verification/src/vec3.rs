//! Three-component vectors of fixed-point scalars: points, directions, colors.
use vstd::prelude::*;
use crate::fixed::{Fixed, ONE_RAW, lemma_div_sign, lemma_mul_sign, lemma_tdiv_neg};
use crate::rtweekend::{
    double_in_range, is_unit_sample, random_double, random_double_range, spec_double_in_range,
};

verus! {

#[derive(Clone, Copy, Debug)]
pub struct Vec3 {
    pub x: Fixed,
    pub y: Fixed,
    pub z: Fixed,
}

/// A position in space.
pub type Point3 = Vec3;

/// How many candidates a rejection sampler draws before it gives up.
pub const MAX_ATTEMPTS: u32 = 64;

impl Vec3 {
    pub open spec fn spec_new(x: Fixed, y: Fixed, z: Fixed) -> Vec3 {
        Vec3 { x, y, z }
    }

    #[verifier::when_used_as_spec(spec_new)]
    pub fn new(x: Fixed, y: Fixed, z: Fixed) -> (r: Vec3)
        ensures
            r == Vec3::spec_new(x, y, z),
    {
        Vec3 { x, y, z }
    }

    pub open spec fn spec_zero() -> Vec3 {
        Vec3 { x: Fixed::zero(), y: Fixed::zero(), z: Fixed::zero() }
    }

    /// The zero vector.
    #[verifier::when_used_as_spec(spec_zero)]
    pub fn zero() -> (r: Vec3)
        ensures
            r == Vec3::spec_zero(),
    {
        Vec3 { x: Fixed::zero(), y: Fixed::zero(), z: Fixed::zero() }
    }

    pub open spec fn spec_from_ints(x: i32, y: i32, z: i32) -> Vec3 {
        Vec3 { x: Fixed::from_int(x), y: Fixed::from_int(y), z: Fixed::from_int(z) }
    }

    /// The vector with the given whole-number components.
    #[verifier::when_used_as_spec(spec_from_ints)]
    pub fn from_ints(x: i32, y: i32, z: i32) -> (r: Vec3)
        ensures
            r == Vec3::spec_from_ints(x, y, z),
    {
        Vec3 { x: Fixed::from_int(x), y: Fixed::from_int(y), z: Fixed::from_int(z) }
    }

    pub open spec fn spec_x(&self) -> Fixed {
        self.x
    }

    #[verifier::when_used_as_spec(spec_x)]
    pub fn x(&self) -> (r: Fixed)
        ensures
            r == self.x,
    {
        self.x
    }

    pub open spec fn spec_y(&self) -> Fixed {
        self.y
    }

    #[verifier::when_used_as_spec(spec_y)]
    pub fn y(&self) -> (r: Fixed)
        ensures
            r == self.y,
    {
        self.y
    }

    pub open spec fn spec_z(&self) -> Fixed {
        self.z
    }

    #[verifier::when_used_as_spec(spec_z)]
    pub fn z(&self) -> (r: Fixed)
        ensures
            r == self.z,
    {
        self.z
    }

    /// The component on axis `axis`: 0 is x, 1 is y, anything else is z.
    pub open spec fn spec_get(&self, axis: usize) -> Fixed {
        if axis == 0 {
            self.x
        } else if axis == 1 {
            self.y
        } else {
            self.z
        }
    }

    /// The component on axis `axis`: 0 is x, 1 is y, 2 is z.
    #[verifier::when_used_as_spec(spec_get)]
    pub fn get(&self, axis: usize) -> (r: Fixed)
        requires
            axis < 3,
        ensures
            r == self.spec_get(axis),
    {
        if axis == 0 {
            self.x
        } else if axis == 1 {
            self.y
        } else {
            self.z
        }
    }

    pub open spec fn spec_add(self, rhs: Vec3) -> Vec3 {
        Vec3 { x: self.x.add(rhs.x), y: self.y.add(rhs.y), z: self.z.add(rhs.z) }
    }

    #[verifier::when_used_as_spec(spec_add)]
    pub fn add(self, rhs: Vec3) -> (r: Vec3)
        ensures
            r == self.spec_add(rhs),
    {
        Vec3 { x: self.x.add(rhs.x), y: self.y.add(rhs.y), z: self.z.add(rhs.z) }
    }

    pub open spec fn spec_sub(self, rhs: Vec3) -> Vec3 {
        Vec3 { x: self.x.sub(rhs.x), y: self.y.sub(rhs.y), z: self.z.sub(rhs.z) }
    }

    #[verifier::when_used_as_spec(spec_sub)]
    pub fn sub(self, rhs: Vec3) -> (r: Vec3)
        ensures
            r == self.spec_sub(rhs),
    {
        Vec3 { x: self.x.sub(rhs.x), y: self.y.sub(rhs.y), z: self.z.sub(rhs.z) }
    }

    pub open spec fn spec_neg(self) -> Vec3 {
        Vec3 { x: self.x.neg(), y: self.y.neg(), z: self.z.neg() }
    }

    #[verifier::when_used_as_spec(spec_neg)]
    pub fn neg(self) -> (r: Vec3)
        ensures
            r == self.spec_neg(),
    {
        Vec3 { x: self.x.neg(), y: self.y.neg(), z: self.z.neg() }
    }

    pub open spec fn spec_scale(self, t: Fixed) -> Vec3 {
        Vec3 { x: self.x.mul(t), y: self.y.mul(t), z: self.z.mul(t) }
    }

    /// Each component times `t`.
    #[verifier::when_used_as_spec(spec_scale)]
    pub fn scale(self, t: Fixed) -> (r: Vec3)
        ensures
            r == self.spec_scale(t),
    {
        Vec3 { x: self.x.mul(t), y: self.y.mul(t), z: self.z.mul(t) }
    }

    pub open spec fn spec_div(self, t: Fixed) -> Vec3 {
        Vec3 { x: self.x.div(t), y: self.y.div(t), z: self.z.div(t) }
    }

    /// Each component divided by `t`.
    #[verifier::when_used_as_spec(spec_div)]
    pub fn div(self, t: Fixed) -> (r: Vec3)
        ensures
            r == self.spec_div(t),
    {
        Vec3 { x: self.x.div(t), y: self.y.div(t), z: self.z.div(t) }
    }

    pub open spec fn spec_mul(self, rhs: Vec3) -> Vec3 {
        Vec3 { x: self.x.mul(rhs.x), y: self.y.mul(rhs.y), z: self.z.mul(rhs.z) }
    }

    /// Component by component product, as for the attenuation of a color.
    #[verifier::when_used_as_spec(spec_mul)]
    pub fn mul(self, rhs: Vec3) -> (r: Vec3)
        ensures
            r == self.spec_mul(rhs),
    {
        Vec3 { x: self.x.mul(rhs.x), y: self.y.mul(rhs.y), z: self.z.mul(rhs.z) }
    }

    /// The exact squared length, in units of `2^-64`.
    pub open spec fn spec_length_squared_wide(self) -> int {
        spec_dot_wide(self, self)
    }

    pub open spec fn spec_length_squared(self) -> Fixed {
        dot(self, self)
    }

    #[verifier::when_used_as_spec(spec_length_squared)]
    pub fn length_squared(self) -> (r: Fixed)
        ensures
            r == self.spec_length_squared(),
    {
        dot(self, self)
    }

    pub open spec fn spec_length(self) -> Fixed {
        Fixed::spec_sqrt_wide(spec_dot_wide(self, self))
    }

    /// The length: the square root, rounded down, of the exact squared length.
    #[verifier::when_used_as_spec(spec_length)]
    pub fn length(self) -> (r: Fixed)
        ensures
            r == self.spec_length(),
    {
        Fixed::sqrt_wide(dot_wide(self, self))
    }

    /// Every component is zero or above.
    pub open spec fn non_negative(self) -> bool {
        self.x@ >= 0 && self.y@ >= 0 && self.z@ >= 0
    }

    /// The vector whose components the unit samples of `s` select between
    /// `min` and `max`.
    pub open spec fn spec_stretched(min: Fixed, max: Fixed, s: Vec3) -> Vec3 {
        Vec3 {
            x: spec_double_in_range(min, max, s.x),
            y: spec_double_in_range(min, max, s.y),
            z: spec_double_in_range(min, max, s.z),
        }
    }

    /// Every component is a unit sample.
    pub open spec fn is_unit_samples(self) -> bool {
        is_unit_sample(self.x) && is_unit_sample(self.y) && is_unit_sample(self.z)
    }

    /// A vector whose components are random scalars between `min` and `max`:
    /// each is a unit sample stretched over the range.
    pub fn random_range(min: Fixed, max: Fixed) -> (r: Vec3)
        ensures
            exists|s: Vec3| s.is_unit_samples() && r == #[trigger] Vec3::spec_stretched(min, max, s),
            min@ <= max@ ==> min@ <= r.x@ <= max@ && min@ <= r.y@ <= max@ && min@ <= r.z@
                <= max@,
    {
        let s = random();
        proof {
            if min@ <= max@ {
                crate::rtweekend::lemma_double_in_range_bounds(min, max, s.x);
                crate::rtweekend::lemma_double_in_range_bounds(min, max, s.y);
                crate::rtweekend::lemma_double_in_range_bounds(min, max, s.z);
            }
        }
        let r = Vec3 {
            x: double_in_range(min, max, s.x),
            y: double_in_range(min, max, s.y),
            z: double_in_range(min, max, s.z),
        };
        assert(r == Vec3::spec_stretched(min, max, s));
        r
    }
}

/// The exact dot product, in units of `2^-64`.
pub open spec fn spec_dot_wide(a: Vec3, b: Vec3) -> int {
    a.x@ * b.x@ + a.y@ * b.y@ + a.z@ * b.z@
}

/// The exact dot product, in units of `2^-64`.
pub fn dot_wide(a: Vec3, b: Vec3) -> (w: i128)
    ensures
        w == spec_dot_wide(a, b),
        -0x3000_0000_0000_0000_0000_0000_0000_0000 <= w
            <= 0x3000_0000_0000_0000_0000_0000_0000_0000,
{
    let p: i128 = a.x.wide_mul(b.x);
    let q: i128 = a.y.wide_mul(b.y);
    let s: i128 = a.z.wide_mul(b.z);
    p + q + s
}

pub open spec fn spec_dot(a: Vec3, b: Vec3) -> Fixed {
    Fixed::spec_from_wide(spec_dot_wide(a, b))
}

/// The dot product: the exact sum of products, rounded toward zero once.
#[verifier::when_used_as_spec(spec_dot)]
pub fn dot(a: Vec3, b: Vec3) -> (r: Fixed)
    ensures
        r == spec_dot(a, b),
{
    Fixed::from_wide(dot_wide(a, b))
}

pub open spec fn spec_cross(a: Vec3, b: Vec3) -> Vec3 {
    Vec3 {
        x: Fixed::spec_from_wide(a.y@ * b.z@ - a.z@ * b.y@),
        y: Fixed::spec_from_wide(a.z@ * b.x@ - a.x@ * b.z@),
        z: Fixed::spec_from_wide(a.x@ * b.y@ - a.y@ * b.x@),
    }
}

/// The cross product; each component is an exact difference of products,
/// rounded toward zero once.
#[verifier::when_used_as_spec(spec_cross)]
pub fn cross(a: Vec3, b: Vec3) -> (r: Vec3)
    ensures
        r == spec_cross(a, b),
{
    let x: i128 = a.y.wide_mul(b.z) - a.z.wide_mul(b.y);
    let y: i128 = a.z.wide_mul(b.x) - a.x.wide_mul(b.z);
    let z: i128 = a.x.wide_mul(b.y) - a.y.wide_mul(b.x);
    Vec3 { x: Fixed::from_wide(x), y: Fixed::from_wide(y), z: Fixed::from_wide(z) }
}

pub open spec fn spec_unit_vector(v: Vec3) -> Vec3 {
    Vec3 {
        x: v.x.div_nearest(v.length()),
        y: v.y.div_nearest(v.length()),
        z: v.z.div_nearest(v.length()),
    }
}

/// The vector divided by its length, each component rounded to the nearest
/// raw count. The zero vector stays zero.
#[verifier::when_used_as_spec(spec_unit_vector)]
pub fn unit_vector(v: Vec3) -> (r: Vec3)
    ensures
        r == spec_unit_vector(v),
{
    let len = v.length();
    Vec3 { x: v.x.div_nearest(len), y: v.y.div_nearest(len), z: v.z.div_nearest(len) }
}

pub open spec fn spec_reflect(v: Vec3, n: Vec3) -> Vec3 {
    v.sub(n.scale(dot(v, n).add(dot(v, n))))
}

/// The mirror image of `v` about the plane with normal `n`: `v - 2 (v . n) n`.
#[verifier::when_used_as_spec(spec_reflect)]
pub fn reflect(v: Vec3, n: Vec3) -> (r: Vec3)
    ensures
        r == spec_reflect(v, n),
{
    let d = dot(v, n);
    v.sub(n.scale(d.add(d)))
}

pub open spec fn spec_refract(uv: Vec3, n: Vec3, etai_over_etat: Fixed) -> Vec3 {
    let cos_theta = dot(uv.neg(), n).min(Fixed::one());
    let r_out_perp = uv.add(n.scale(cos_theta)).scale(etai_over_etat);
    let r_out_parallel = n.scale(
        Fixed::one().sub(r_out_perp.length_squared()).abs().sqrt().neg(),
    );
    r_out_perp.add(r_out_parallel)
}

/// The direction of `uv` bent by Snell's law on entering a medium whose index
/// stands in the ratio `etai_over_etat` to the one it leaves.
#[verifier::when_used_as_spec(spec_refract)]
pub fn refract(uv: Vec3, n: Vec3, etai_over_etat: Fixed) -> (r: Vec3)
    ensures
        r == spec_refract(uv, n, etai_over_etat),
{
    let cos_theta = dot(uv.neg(), n).min(Fixed::one());
    let r_out_perp = uv.add(n.scale(cos_theta)).scale(etai_over_etat);
    let r_out_parallel = n.scale(
        Fixed::one().sub(r_out_perp.length_squared()).abs().sqrt().neg(),
    );
    r_out_perp.add(r_out_parallel)
}

/// The dot product does not depend on the order of its arguments.
pub proof fn lemma_dot_symmetric(a: Vec3, b: Vec3)
    ensures
        spec_dot_wide(a, b) == spec_dot_wide(b, a),
        spec_dot(a, b) == spec_dot(b, a),
{
    assert(a.x@ * b.x@ == b.x@ * a.x@) by (nonlinear_arith);
    assert(a.y@ * b.y@ == b.y@ * a.y@) by (nonlinear_arith);
    assert(a.z@ * b.z@ == b.z@ * a.z@) by (nonlinear_arith);
}

/// Turning one argument around turns the dot product around.
pub proof fn lemma_dot_neg(a: Vec3, b: Vec3)
    ensures
        spec_dot_wide(a.neg(), b) == -spec_dot_wide(a, b),
        spec_dot(a.neg(), b)@ == -spec_dot(a, b)@,
{
    assert((-a.x@) * b.x@ == -(a.x@ * b.x@)) by (nonlinear_arith);
    assert((-a.y@) * b.y@ == -(a.y@ * b.y@)) by (nonlinear_arith);
    assert((-a.z@) * b.z@ == -(a.z@ * b.z@)) by (nonlinear_arith);
    lemma_tdiv_neg(spec_dot_wide(a, b), ONE_RAW as int);
}

/// A vector of length at most one, of random direction: candidates in the cube
/// are drawn until one lies in the unit ball away from its centre, and that one
/// is divided by its length. When no candidate is accepted the x axis is
/// returned.
pub fn random_unit_vector() -> (r: Vec3)
    ensures
        r == Vec3::from_ints(1, 0, 0) || exists|p: Vec3| accepts_in_ball(p) && r == unit_vector(p),
{
    let mut attempt: u32 = 0;
    while attempt < MAX_ATTEMPTS
        invariant
            attempt <= MAX_ATTEMPTS,
        decreases MAX_ATTEMPTS - attempt,
    {
        let p = Vec3::random_range(Fixed::from_int(-1), Fixed::one());
        if in_ball(p) {
            return unit_vector(p);
        }
        attempt += 1;
    }
    Vec3::from_ints(1, 0, 0)
}

/// Whether a candidate lies in the unit ball and away from its centre.
pub open spec fn accepts_in_ball(p: Vec3) -> bool {
    0 < spec_dot_wide(p, p) <= ONE_RAW * ONE_RAW
}

/// Whether a candidate lies in the unit ball and away from its centre.
#[verifier::when_used_as_spec(accepts_in_ball)]
pub fn in_ball(p: Vec3) -> (r: bool)
    ensures
        r == accepts_in_ball(p),
{
    let w: i128 = dot_wide(p, p);
    assert(ONE_RAW * ONE_RAW == 0x1_0000_0000_0000_0000) by (nonlinear_arith);
    0 < w && w <= 0x1_0000_0000_0000_0000i128
}

/// Whether a candidate lies strictly inside the unit disk of the xy plane.
pub open spec fn accepts_in_disk(p: Vec3) -> bool {
    p.z@ == 0 && spec_dot_wide(p, p) < ONE_RAW * ONE_RAW
}

/// Whether a candidate lies strictly inside the unit disk of the xy plane.
#[verifier::when_used_as_spec(accepts_in_disk)]
pub fn in_disk(p: Vec3) -> (r: bool)
    ensures
        r == accepts_in_disk(p),
{
    let w: i128 = dot_wide(p, p);
    assert(ONE_RAW * ONE_RAW == 0x1_0000_0000_0000_0000) by (nonlinear_arith);
    p.z.same(Fixed::zero()) && w < 0x1_0000_0000_0000_0000i128
}

/// A random point strictly inside the unit disk of the xy plane: candidates in
/// the square are drawn, two unit samples each, until one lies in the disk.
/// When none is accepted the centre is returned, the candidate of two halves.
pub fn random_in_unit_disk() -> (r: Vec3)
    ensures
        accepts_in_disk(r),
        exists|sx: Fixed, sy: Fixed|
            is_unit_sample(sx) && is_unit_sample(sy) && r == #[trigger] spec_disk_candidate(sx, sy),
{
    let mut attempt: u32 = 0;
    while attempt < MAX_ATTEMPTS
        invariant
            attempt <= MAX_ATTEMPTS,
        decreases MAX_ATTEMPTS - attempt,
    {
        let sx = random_double();
        let sy = random_double();
        let p = disk_candidate(sx, sy);
        if in_disk(p) {
            return p;
        }
        attempt += 1;
    }
    proof {
        lemma_centre_is_candidate();
    }
    Vec3::zero()
}

/// The point of the square about the unit disk that two unit samples
/// select: each coordinate is its sample stretched over `[-1, 1)`, and the
/// point lies in the xy plane.
pub open spec fn spec_disk_candidate(sx: Fixed, sy: Fixed) -> Vec3 {
    Vec3 {
        x: spec_double_in_range(Fixed::from_int(-1i32), Fixed::one(), sx),
        y: spec_double_in_range(Fixed::from_int(-1i32), Fixed::one(), sy),
        z: Fixed::zero(),
    }
}

/// The point of the square about the unit disk that two unit samples
/// select, a candidate for a point of the disk.
#[verifier::when_used_as_spec(spec_disk_candidate)]
pub fn disk_candidate(sx: Fixed, sy: Fixed) -> (p: Vec3)
    ensures
        p == spec_disk_candidate(sx, sy),
{
    Vec3 {
        x: double_in_range(Fixed::from_int(-1), Fixed::one(), sx),
        y: double_in_range(Fixed::from_int(-1), Fixed::one(), sy),
        z: Fixed::zero(),
    }
}

/// A random unit sample for each component.
pub fn random() -> (r: Vec3)
    ensures
        r.is_unit_samples(),
{
    let x = random_double();
    let y = random_double();
    let z = random_double();
    Vec3 { x, y, z }
}

/// A vector whose components are random scalars between `min` and `max`:
/// each is a unit sample stretched over the range.
pub fn random_range(min: Fixed, max: Fixed) -> (r: Vec3)
    ensures
        exists|s: Vec3| s.is_unit_samples() && r == #[trigger] Vec3::spec_stretched(min, max, s),
        min@ <= max@ ==> min@ <= r.x@ <= max@ && min@ <= r.y@ <= max@ && min@ <= r.z@ <= max@,
{
    Vec3::random_range(min, max)
}

/// The point of the upper unit hemisphere that stands above the disk point
/// `(x, y)`: its height is `sqrt(1 - x^2 - y^2)`.
pub open spec fn spec_lift_to_hemisphere(p: Vec3) -> Vec3 {
    Vec3 { x: p.x, y: p.y, z: Fixed::spec_sqrt_wide(ONE_RAW * ONE_RAW - spec_dot_wide(p, p)) }
}

/// The point of the upper unit hemisphere that stands above a disk point.
#[verifier::when_used_as_spec(spec_lift_to_hemisphere)]
pub fn lift_to_hemisphere(p: Vec3) -> (r: Vec3)
    ensures
        r == spec_lift_to_hemisphere(p),
        r.z@ >= 0,
{
    assert(ONE_RAW * ONE_RAW == 0x1_0000_0000_0000_0000) by (nonlinear_arith);
    let w: i128 = 0x1_0000_0000_0000_0000i128 - dot_wide(p, p);
    Vec3 { x: p.x, y: p.y, z: Fixed::sqrt_wide(w) }
}

/// A random direction on the upper unit hemisphere about the z axis, with
/// density proportional to the cosine of the angle to that axis: a uniform
/// point of the unit disk, lifted onto the hemisphere.
pub fn random_cosine_direction() -> (r: Vec3)
    ensures
        exists|p: Vec3| accepts_in_disk(p) && r == spec_lift_to_hemisphere(p),
        exists|sx: Fixed, sy: Fixed|
            is_unit_sample(sx) && is_unit_sample(sy) && accepts_in_disk(
                #[trigger] spec_disk_candidate(sx, sy),
            ) && r == spec_lift_to_hemisphere(spec_disk_candidate(sx, sy)),
        r.z@ >= 0,
{
    let p = random_in_unit_disk();
    lift_to_hemisphere(p)
}

/// The centre of the unit disk is the candidate that two samples of one half
/// select.
pub proof fn lemma_centre_is_candidate()
    ensures
        is_unit_sample(Fixed::spec_half()),
        spec_disk_candidate(Fixed::spec_half(), Fixed::spec_half()) == Vec3::spec_zero(),
{
    let lo = Fixed::spec_from_int(-1i32);
    let width = Fixed::spec_one().spec_sub(lo);
    assert(lo@ == -ONE_RAW);
    assert(width@ == 2 * ONE_RAW);
    assert(width@ * Fixed::spec_half()@ == ONE_RAW * ONE_RAW) by (nonlinear_arith)
        requires
            width@ == 2 * ONE_RAW,
            Fixed::spec_half()@ == 0x8000_0000,
            ONE_RAW == 0x1_0000_0000,
    ;
    vstd::arithmetic::div_mod::lemma_div_multiples_vanish(ONE_RAW as int, ONE_RAW as int);
    assert(width.spec_mul(Fixed::spec_half())@ == ONE_RAW);
}

/// Sums, products, multiples and shares of vectors without negative
/// components have no negative components.
pub proof fn lemma_non_negative_closed(a: Vec3, b: Vec3, t: Fixed)
    requires
        a.non_negative(),
        b.non_negative(),
        t@ >= 0,
    ensures
        a.spec_add(b).non_negative(),
        a.spec_mul(b).non_negative(),
        a.spec_scale(t).non_negative(),
        a.spec_div(t).non_negative(),
        Vec3::spec_zero().non_negative(),
{
    lemma_mul_sign(a.x, b.x);
    lemma_mul_sign(a.y, b.y);
    lemma_mul_sign(a.z, b.z);
    lemma_mul_sign(a.x, t);
    lemma_mul_sign(a.y, t);
    lemma_mul_sign(a.z, t);
    lemma_div_sign(a.x, t);
    lemma_div_sign(a.y, t);
    lemma_div_sign(a.z, t);
}

/// The squared length of a vector is not negative.
pub proof fn lemma_length_squared_sign(v: Vec3)
    ensures
        v.length_squared()@ >= 0,
{
    assert(v.x@ * v.x@ >= 0) by (nonlinear_arith);
    assert(v.y@ * v.y@ >= 0) by (nonlinear_arith);
    assert(v.z@ * v.z@ >= 0) by (nonlinear_arith);
    crate::fixed::lemma_tdiv_sign(spec_dot_wide(v, v), ONE_RAW as int);
}

/// The cosine of the angle between two vectors: their exact dot product
/// over the product of their lengths, rounded toward zero once and kept
/// within `[-1, 1]`. It is zero when one of the vectors has no length.
pub open spec fn spec_cosine_between(a: Vec3, b: Vec3) -> Fixed {
    if a.length().spec_mul(b.length())@ == 0 {
        Fixed::spec_zero()
    } else {
        Fixed::of(
            spec_unit_range(
                crate::fixed::tdiv(spec_dot_wide(a, b), a.length().spec_mul(b.length())@),
            ),
        )
    }
}

/// The nearest raw count within `[-1, 1]`.
pub open spec fn spec_unit_range(v: int) -> int {
    if v > ONE_RAW {
        ONE_RAW as int
    } else if v < -ONE_RAW {
        -(ONE_RAW as int)
    } else {
        v
    }
}

/// The cosine of the angle between two vectors, within `[-1, 1]`; zero when
/// one of them has no length.
#[verifier::when_used_as_spec(spec_cosine_between)]
pub fn cosine_between(a: Vec3, b: Vec3) -> (c: Fixed)
    ensures
        c == spec_cosine_between(a, b),
        -ONE_RAW <= c@ <= ONE_RAW,
{
    let lengths: i64 = a.length().mul(b.length()).to_raw();
    if lengths == 0 {
        return Fixed::zero();
    }
    let q: i128 = crate::fixed::trunc_div(dot_wide(a, b), lengths as i128);
    if q > ONE_RAW as i128 {
        Fixed::from_raw(ONE_RAW)
    } else if q < -(ONE_RAW as i128) {
        Fixed::from_raw(-ONE_RAW)
    } else {
        Fixed::from_raw(q as i64)
    }
}

} // verus!
