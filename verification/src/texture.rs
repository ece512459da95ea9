//! Textures: the color of a surface at given surface coordinates and point.
use vstd::prelude::*;
use std::sync::Arc;
use crate::color::Color;
use crate::fixed::{Fixed, ONE_RAW, lemma_mul_sign};
use crate::interval::Interval;
use crate::perlin::Perlin;
use crate::rtw_image::RtwImage;
use crate::trig::sin;
use crate::vec3::{Point3, Vec3};

verus! {

/// One color everywhere.
#[derive(Debug, Clone, Copy)]
pub struct SolidColor {
    pub albedo: Color,
}

impl SolidColor {
    pub fn new(albedo: Color) -> (r: Self)
        ensures
            r.albedo == albedo,
    {
        SolidColor { albedo }
    }

    pub fn new_color(red: Fixed, green: Fixed, blue: Fixed) -> (r: Self)
        ensures
            r.albedo == Vec3::new(red, green, blue),
    {
        SolidColor { albedo: Vec3::new(red, green, blue) }
    }

    pub fn value(&self, _u: Fixed, _v: Fixed, _p: Point3) -> (c: Color)
        ensures
            c == self.albedo,
    {
        self.albedo
    }
}

/// Two textures that alternate over the cells of a cubic grid.
#[derive(Clone)]
pub struct CheckerTexture {
    pub inv_scale: Fixed,
    pub even: Arc<Texture>,
    pub odd: Arc<Texture>,
}

impl CheckerTexture {
    /// A grid of cells of side `scale`.
    pub fn new(scale: Fixed, even: Arc<Texture>, odd: Arc<Texture>) -> (r: Self)
        ensures
            r.inv_scale == Fixed::one().div(scale),
            r.even == even,
            r.odd == odd,
    {
        CheckerTexture { inv_scale: Fixed::one().div(scale), even, odd }
    }

    /// A grid of cells of side `scale` in two colors.
    pub fn new_color(scale: Fixed, c1: Color, c2: Color) -> (r: Self)
        ensures
            r.inv_scale == Fixed::one().div(scale),
            *r.even == Texture::Solid(SolidColor { albedo: c1 }),
            *r.odd == Texture::Solid(SolidColor { albedo: c2 }),
    {
        CheckerTexture {
            inv_scale: Fixed::one().div(scale),
            even: Arc::new(Texture::Solid(SolidColor::new(c1))),
            odd: Arc::new(Texture::Solid(SolidColor::new(c2))),
        }
    }

    /// Whether `p` lies in a cell of the even texture: the whole parts of its
    /// scaled coordinates add up to an even number.
    pub open spec fn spec_is_even(&self, p: Point3) -> bool {
        (self.inv_scale.mul(p.x).floor() + self.inv_scale.mul(p.y).floor() + self.inv_scale.mul(
            p.z,
        ).floor()) % 2 == 0
    }

    /// Whether `p` lies in a cell of the even texture.
    #[verifier::when_used_as_spec(spec_is_even)]
    pub fn is_even(&self, p: Point3) -> (r: bool)
        ensures
            r == self.spec_is_even(p),
    {
        let x_integer: i64 = self.inv_scale.mul(p.x()).floor();
        let y_integer: i64 = self.inv_scale.mul(p.y()).floor();
        let z_integer: i64 = self.inv_scale.mul(p.z()).floor();
        (x_integer + y_integer + z_integer) % 2 == 0
    }
}

/// The colors of a decoded image, addressed by surface coordinates.
#[derive(Debug)]
pub struct ImageTexture {
    pub image: RtwImage,
}

impl ImageTexture {
    pub fn new(image: RtwImage) -> (r: Self)
        ensures
            r.image == image,
    {
        ImageTexture { image }
    }

    /// The column that the surface coordinate `u` selects.
    pub open spec fn spec_column(&self, u: Fixed) -> usize {
        Interval::new(Fixed::zero(), Fixed::one()).clamp(u).mul(
            Fixed::of(self.image.spec_width() * ONE_RAW),
        ).trunc() as usize
    }

    /// The row that the surface coordinate `v` selects; `v` runs upward, rows
    /// run downward.
    pub open spec fn spec_row(&self, v: Fixed) -> usize {
        Fixed::one().sub(Interval::new(Fixed::zero(), Fixed::one()).clamp(v)).mul(
            Fixed::of(self.image.spec_height() * ONE_RAW),
        ).trunc() as usize
    }

    /// The color at `(u, v)`: each byte of the pixel over 255. Cyan when the
    /// image holds no pixels.
    pub open spec fn spec_value(&self, u: Fixed, v: Fixed) -> Color {
        if self.image.spec_height() <= 0 {
            Vec3::from_ints(0, 1, 1)
        } else {
            let px = self.image.spec_pixel_data(self.spec_column(u), self.spec_row(v));
            Vec3 {
                x: Fixed::from_ratio(px[0] as i64, 255),
                y: Fixed::from_ratio(px[1] as i64, 255),
                z: Fixed::from_ratio(px[2] as i64, 255),
            }
        }
    }

    /// The color at `(u, v)`: each byte of the pixel over 255. Cyan when the
    /// image holds no pixels.
    pub fn value(&self, u: Fixed, v: Fixed, _p: Point3) -> (c: Color)
        ensures
            c == self.spec_value(u, v),
            c.non_negative(),
    {
        let height: i32 = self.image.height();
        if height <= 0 {
            return Vec3::from_ints(0, 1, 1);
        }
        let width: i32 = self.image.width();
        let unit = Interval::new(Fixed::zero(), Fixed::one());
        let u = unit.clamp(u);
        let v = Fixed::one().sub(unit.clamp(v));
        proof {
            lemma_mul_sign(u, Fixed::from_int(width));
            lemma_mul_sign(v, Fixed::from_int(height));
            crate::fixed::lemma_tdiv_sign(u.mul(Fixed::from_int(width))@, ONE_RAW as int);
            crate::fixed::lemma_tdiv_sign(v.mul(Fixed::from_int(height))@, ONE_RAW as int);
            assert(width * ONE_RAW == width * 0x1_0000_0000);
            assert(height * ONE_RAW == height * 0x1_0000_0000);
        }
        let i: usize = u.mul(Fixed::from_int(width)).trunc() as usize;
        let j: usize = v.mul(Fixed::from_int(height)).trunc() as usize;
        let pixel = self.image.pixel_data(i, j);
        proof {
            crate::fixed::lemma_tdiv_sign(pixel[0] * ONE_RAW, 255);
            crate::fixed::lemma_tdiv_sign(pixel[1] * ONE_RAW, 255);
            crate::fixed::lemma_tdiv_sign(pixel[2] * ONE_RAW, 255);
        }
        Vec3::new(
            Fixed::from_ratio(pixel[0] as i64, 255),
            Fixed::from_ratio(pixel[1] as i64, 255),
            Fixed::from_ratio(pixel[2] as i64, 255),
        )
    }
}

/// Marble-like bands of grey driven by turbulent noise.
#[derive(Debug)]
pub struct NoiseTexture {
    pub noise: Perlin,
    pub scale: Fixed,
}

impl NoiseTexture {
    /// A texture over a fresh random lattice.
    pub fn new(scale: Fixed) -> (r: Self)
        ensures
            r.scale == scale,
    {
        NoiseTexture { scale, noise: Perlin::default() }
    }

    /// Grey of brightness `(1 + sin(scale * z + 10 * turbulence)) / 2`.
    pub open spec fn spec_value(&self, p: Point3) -> Color {
        Vec3::new(Fixed::half(), Fixed::half(), Fixed::half()).scale(
            Fixed::one().add(
                sin(self.scale.mul(p.z).add(Fixed::from_int(10).mul(self.noise.spec_turb(p, 7)))),
            ),
        )
    }

    /// Grey of brightness `(1 + sin(scale * z + 10 * turbulence)) / 2`.
    pub fn value(&self, _u: Fixed, _v: Fixed, p: Point3) -> (c: Color)
        ensures
            c == self.spec_value(p),
            c.non_negative(),
    {
        let s = sin(self.scale.mul(p.z()).add(Fixed::from_int(10).mul(self.noise.turb(p, 7))));
        let k = Fixed::one().add(s);
        proof {
            lemma_mul_sign(Fixed::half(), k);
        }
        Vec3::new(Fixed::half(), Fixed::half(), Fixed::half()).scale(k)
    }
}

/// A texture of one of the kinds this library knows.
pub enum Texture {
    Solid(SolidColor),
    Checker(CheckerTexture),
    Image(ImageTexture),
    Noise(NoiseTexture),
}

impl Texture {
    /// The color at surface coordinates `(u, v)` and point `p`.
    pub open spec fn spec_value(&self, u: Fixed, v: Fixed, p: Point3) -> Color
        decreases self,
    {
        match self {
            Texture::Solid(s) => s.albedo,
            Texture::Checker(c) => if c.spec_is_even(p) {
                c.even.spec_value(u, v, p)
            } else {
                c.odd.spec_value(u, v, p)
            },
            Texture::Image(i) => i.spec_value(u, v),
            Texture::Noise(n) => n.spec_value(p),
        }
    }

    /// No color that the texture gives has a negative component.
    pub open spec fn non_negative(&self) -> bool
        decreases self,
    {
        match self {
            Texture::Solid(s) => s.albedo.non_negative(),
            Texture::Checker(c) => c.even.non_negative() && c.odd.non_negative(),
            Texture::Image(_) => true,
            Texture::Noise(_) => true,
        }
    }

    /// The color at surface coordinates `(u, v)` and point `p`.
    pub fn value(&self, u: Fixed, v: Fixed, p: Point3) -> (c: Color)
        ensures
            c == self.spec_value(u, v, p),
            self.non_negative() ==> c.non_negative(),
        decreases self,
    {
        match self {
            Texture::Solid(s) => s.value(u, v, p),
            Texture::Checker(c) => if c.is_even(p) {
                c.even.value(u, v, p)
            } else {
                c.odd.value(u, v, p)
            },
            Texture::Image(i) => i.value(u, v, p),
            Texture::Noise(n) => n.value(u, v, p),
        }
    }
}

} // verus!
