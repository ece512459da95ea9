//! Colors, gamma correction and the text of a pixel.
use vstd::prelude::*;
use crate::fixed::{Fixed, ONE_RAW, tdiv};
use crate::interval::Interval;
use crate::vec3::Vec3;

verus! {

/// Red, green and blue, each nominally within `[0, 1]`.
pub type Color = Vec3;

pub open spec fn spec_linear_to_gamma(linear_component: Fixed) -> Fixed {
    if linear_component@ > 0 {
        linear_component.sqrt()
    } else {
        Fixed::zero()
    }
}

/// Gamma 2: the square root of a positive component, zero otherwise.
#[verifier::when_used_as_spec(spec_linear_to_gamma)]
pub fn linear_to_gamma(linear_component: Fixed) -> (r: Fixed)
    ensures
        r == spec_linear_to_gamma(linear_component),
        r@ >= 0,
{
    if linear_component.gt(Fixed::zero()) {
        linear_component.sqrt()
    } else {
        Fixed::zero()
    }
}

/// The range that a component is brought into before it is scaled to a byte.
pub open spec fn spec_intensity() -> Interval {
    Interval { min: Fixed::zero(), max: Fixed::from_ratio(999, 1000) }
}

/// The byte that stands for a linear component: gamma corrected, brought
/// into `[0, 0.999]`, times 256, rounded down.
pub open spec fn spec_component_byte(c: Fixed) -> u8 {
    tdiv(spec_intensity().clamp(spec_linear_to_gamma(c)).mul(Fixed::from_int(256))@, ONE_RAW as int) as u8
}

/// The byte that stands for a linear component: gamma corrected, brought
/// into `[0, 0.999]`, times 256, rounded down. Whatever the component, the
/// result is a byte: a negative component gives 0, a large one 255.
#[verifier::when_used_as_spec(spec_component_byte)]
pub fn component_byte(c: Fixed) -> (b: u8)
    ensures
        b == spec_component_byte(c),
        b as int == tdiv(
            spec_intensity().clamp(spec_linear_to_gamma(c)).mul(Fixed::from_int(256))@,
            ONE_RAW as int,
        ),
        c@ <= 0 ==> b == 0,
{
    let intensity = Interval::new(Fixed::zero(), Fixed::from_ratio(999, 1000));
    let g = intensity.clamp(linear_to_gamma(c));
    let scaled = g.mul(Fixed::from_int(256));
    proof {
        assert(999 * ONE_RAW == 4290672328704);
        assert(4290672328704int / 1000 == 4290672328);
        assert(Fixed::from_ratio(999, 1000)@ == 4290672328);
        assert(0 <= g@ <= 4290672328);
        assert(Fixed::from_int(256)@ == 256 * ONE_RAW);
        assert(g@ * (256 * ONE_RAW) == (g@ * 256) * ONE_RAW) by (nonlinear_arith);
        vstd::arithmetic::div_mod::lemma_div_multiples_vanish(g@ * 256, ONE_RAW as int);
        assert((g@ * 256) * ONE_RAW == ONE_RAW * (g@ * 256)) by (nonlinear_arith);
        assert(scaled@ == g@ * 256);
    }
    let v: i64 = scaled.trunc();
    v as u8
}

/// The decimal digits of `n`, as ASCII.
pub open spec fn decimal(n: nat) -> Seq<u8>
    decreases n,
{
    if n < 10 {
        seq![(48 + n) as u8]
    } else {
        decimal(n / 10).push((48 + n % 10) as u8)
    }
}

/// Appends the decimal digits of a byte.
pub fn push_decimal(out: &mut Vec<u8>, n: u8)
    ensures
        final(out)@ == old(out)@ + decimal(n as nat),
{
    reveal_with_fuel(decimal, 3);
    if n >= 100 {
        out.push(48 + n / 100);
        out.push(48 + (n / 10) % 10);
        out.push(48 + n % 10);
        assert(decimal(n as nat) =~= seq![
            (48 + n / 100) as u8,
            (48 + (n / 10) % 10) as u8,
            (48 + n % 10) as u8,
        ]);
        assert(out@ =~= old(out)@ + decimal(n as nat));
    } else if n >= 10 {
        out.push(48 + n / 10);
        out.push(48 + n % 10);
        assert(decimal(n as nat) =~= seq![(48 + n / 10) as u8, (48 + n % 10) as u8]);
        assert(out@ =~= old(out)@ + decimal(n as nat));
    } else {
        out.push(48 + n);
        assert(out@ =~= old(out)@ + decimal(n as nat));
    }
}

/// The text of one pixel: its three bytes in decimal, a space after each.
pub open spec fn spec_pixel_text(pixel_color: Color) -> Seq<u8> {
    decimal(spec_component_byte(pixel_color.x) as nat).push(32u8) + decimal(
        spec_component_byte(pixel_color.y) as nat,
    ).push(32u8) + decimal(spec_component_byte(pixel_color.z) as nat).push(32u8)
}

impl Color {
    /// Appends the text of the pixel `pixel_color` to `out`: the bytes of
    /// its red, green and blue components in decimal, a space after each.
    /// The color the method is called on plays no part.
    pub fn write_color(&self, out: &mut Vec<u8>, pixel_color: Color)
        ensures
            final(out)@ == old(out)@ + spec_pixel_text(pixel_color),
    {
        let r: u8 = component_byte(pixel_color.x());
        let g: u8 = component_byte(pixel_color.y());
        let b: u8 = component_byte(pixel_color.z());
        push_decimal(out, r);
        out.push(32);
        push_decimal(out, g);
        out.push(32);
        push_decimal(out, b);
        out.push(32);
        assert(out@ =~= old(out)@ + spec_pixel_text(pixel_color));
    }
}

} // verus!
