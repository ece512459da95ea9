//! The camera: rays through pixels, the radiance they bring back, and the
//! text of the image.
use vstd::prelude::*;
use std::sync::Arc;
use crate::color::{Color, decimal, spec_pixel_text};
use crate::fixed::{Fixed, lemma_mul_sign};
use crate::hittable::{HitRecord, Hittable, is_outcome, share};
use crate::interval::Interval;
use crate::material::ScatterRecord;
use crate::pdf::{HittablePdf, MixturePdf, Pdf, spec_mixture_value};
use crate::ray::Ray;
use crate::rtweekend::{degrees_to_radians, is_unit_sample, random_double};
use crate::sort::{is_stable_order, stable_order};
use crate::trig::tan;
use crate::vec3::{
    Point3, Vec3, accepts_in_disk, cross, lemma_non_negative_closed, random_in_unit_disk,
    unit_vector,
};

verus! {

/// What a ray sees when it hits nothing.
#[derive(Debug, Clone, Copy)]
pub enum Background {
    /// One color in every direction.
    Solid(Color),
    /// A blend from `bottom`, seen straight down, to `top`, seen straight up.
    Gradient { bottom: Color, top: Color },
}

impl Background {
    /// The share of the top color in the blend for a ray: half of one plus
    /// the height of its unit direction, kept within zero and one.
    #[verifier::opaque]
    pub open spec fn spec_blend(r: &Ray) -> Fixed {
        Interval::new(Fixed::zero(), Fixed::one()).clamp(
            Fixed::half().mul(unit_vector(r.dir).y.add(Fixed::one())),
        )
    }

    /// The color seen along the ray: the one color, or `(1 - a) bottom + a top`
    /// for the share `a` of the top.
    pub open spec fn spec_color(&self, r: &Ray) -> Color {
        match self {
            Background::Solid(c) => *c,
            Background::Gradient { bottom, top } => bottom.scale(
                Fixed::one().sub(Background::spec_blend(r)),
            ).add(top.scale(Background::spec_blend(r))),
        }
    }

    /// No color of the background has a negative component.
    pub open spec fn non_negative(&self) -> bool {
        match self {
            Background::Solid(c) => c.non_negative(),
            Background::Gradient { bottom, top } => bottom.non_negative() && top.non_negative(),
        }
    }

    /// The color seen along the ray.
    pub fn color(&self, r: &Ray) -> (c: Color)
        ensures
            c == self.spec_color(r),
            self.non_negative() ==> c.non_negative(),
    {
        match self {
            Background::Solid(c) => *c,
            Background::Gradient { bottom, top } => {
                reveal(Background::spec_blend);
                let a = Interval::new(Fixed::zero(), Fixed::one()).clamp(
                    Fixed::half().mul(unit_vector(r.direction()).y().add(Fixed::one())),
                );
                let rest = Fixed::one().sub(a);
                proof {
                    if self.non_negative() {
                        lemma_non_negative_closed(*bottom, *top, rest);
                        lemma_non_negative_closed(*top, *bottom, a);
                        lemma_non_negative_closed(bottom.scale(rest), top.scale(a), a);
                    }
                }
                bottom.scale(rest).add(top.scale(a))
            },
        }
    }
}

/// Densities at or below this count as zero: `1 / 100000000`.
pub open spec fn spec_density_floor() -> Fixed {
    Fixed::from_ratio(1, 100000000)
}

/// The radiance that leaves a surface: what it emits, plus what comes in
/// along the sampled direction, weighed by the attenuation and the
/// scattering density of the material over the density the direction was
/// drawn with. A density at or below the floor adds nothing.
#[verifier::opaque]
pub open spec fn spec_radiance(
    emitted: Color,
    attenuation: Color,
    scattering_pdf: Fixed,
    incoming: Color,
    pdf_value: Fixed,
) -> Color {
    if pdf_value@ <= spec_density_floor()@ {
        emitted
    } else {
        emitted.add(attenuation.scale(scattering_pdf).mul(incoming).div(pdf_value))
    }
}

/// The radiance that leaves a surface: `emitted + attenuation *
/// scattering_pdf * incoming / pdf_value`, and `emitted` alone when
/// `pdf_value` is at or below the floor. It has no negative component when
/// none of its terms has.
#[verifier::when_used_as_spec(spec_radiance)]
pub fn radiance(
    emitted: Color,
    attenuation: Color,
    scattering_pdf: Fixed,
    incoming: Color,
    pdf_value: Fixed,
) -> (c: Color)
    ensures
        c == spec_radiance(emitted, attenuation, scattering_pdf, incoming, pdf_value),
        emitted.non_negative() && attenuation.non_negative() && scattering_pdf@ >= 0
            && incoming.non_negative() ==> c.non_negative(),
{
    reveal(spec_radiance);
    if pdf_value.le(Fixed::from_ratio(1, 100000000)) {
        emitted
    } else {
        proof {
            if emitted.non_negative() && attenuation.non_negative() && scattering_pdf@ >= 0
                && incoming.non_negative() {
                lemma_non_negative_closed(attenuation, incoming, scattering_pdf);
                lemma_non_negative_closed(attenuation.scale(scattering_pdf), incoming, pdf_value);
                lemma_non_negative_closed(
                    attenuation.scale(scattering_pdf).mul(incoming),
                    incoming,
                    pdf_value,
                );
                lemma_non_negative_closed(
                    emitted,
                    attenuation.scale(scattering_pdf).mul(incoming).div(pdf_value),
                    pdf_value,
                );
            }
        }
        emitted.add(attenuation.scale(scattering_pdf).mul(incoming).div(pdf_value))
    }
}

/// The radiance added up so far with the radiance `sample` that came back
/// along `ray`.
pub open spec fn spec_with_sample(before: Color, ray: Ray, sample: Color) -> Color {
    before.add(sample)
}

/// The given texts one after the other, a line feed after each.
pub open spec fn spec_lines(rows: Seq<Seq<u8>>) -> Seq<u8>
    decreases rows.len(),
{
    if rows.len() == 0 {
        Seq::empty()
    } else {
        spec_lines(rows.drop_last()) + rows.last() + seq![10u8]
    }
}

/// The text of a row of pixels: the text of each pixel in turn.
pub open spec fn spec_row_text(colors: Seq<Color>) -> Seq<u8>
    decreases colors.len(),
{
    if colors.len() == 0 {
        Seq::empty()
    } else {
        spec_row_text(colors.drop_last()) + spec_pixel_text(colors.last())
    }
}

/// The text of a run of numbers from 0 to 255: each in decimal, a space
/// after it.
pub open spec fn spec_numbers_text(bytes: Seq<u8>) -> Seq<u8>
    decreases bytes.len(),
{
    if bytes.len() == 0 {
        Seq::empty()
    } else {
        spec_numbers_text(bytes.drop_last()) + decimal(bytes.last() as nat).push(32u8)
    }
}

/// The three numbers of each color of a row, one color after the other.
pub open spec fn spec_row_bytes(colors: Seq<Color>) -> Seq<u8>
    decreases colors.len(),
{
    if colors.len() == 0 {
        Seq::empty()
    } else {
        spec_row_bytes(colors.drop_last()) + seq![
            crate::color::spec_component_byte(colors.last().x),
            crate::color::spec_component_byte(colors.last().y),
            crate::color::spec_component_byte(colors.last().z),
        ]
    }
}

/// The text of a row holds numbers from 0 to 255 and nothing else: it is
/// the text of three such numbers for each of its colors.
pub proof fn lemma_row_text_is_numbers(colors: Seq<Color>)
    ensures
        spec_row_text(colors) == spec_numbers_text(spec_row_bytes(colors)),
        spec_row_bytes(colors).len() == 3 * colors.len(),
    decreases colors.len(),
{
    if colors.len() > 0 {
        let before = colors.drop_last();
        let c = colors.last();
        lemma_row_text_is_numbers(before);
        let r = crate::color::spec_component_byte(c.x);
        let g = crate::color::spec_component_byte(c.y);
        let b = crate::color::spec_component_byte(c.z);
        let head = spec_row_bytes(before);
        let one = head.push(r);
        let two = one.push(g);
        let three = two.push(b);
        assert(three =~= head + seq![r, g, b]);
        assert(three.drop_last() =~= two && three.last() == b);
        assert(two.drop_last() =~= one && two.last() == g);
        assert(one.drop_last() =~= head && one.last() == r);
        assert(spec_numbers_text(one) == spec_numbers_text(head) + decimal(r as nat).push(32u8));
        assert(spec_numbers_text(two) == spec_numbers_text(one) + decimal(g as nat).push(32u8));
        assert(spec_numbers_text(three) == spec_numbers_text(two) + decimal(b as nat).push(32u8));
        assert(spec_row_text(colors) =~= spec_numbers_text(three));
    }
}

/// The decimal digits of an integer, with a minus sign when it is negative.
pub open spec fn signed_decimal(n: int) -> Seq<u8> {
    if n < 0 {
        seq![45u8] + decimal((-n) as nat)
    } else {
        decimal(n as nat)
    }
}

/// The head of a plain-text pixmap of the given width and height with 255
/// levels per component: the mark of the format, the width and the height,
/// and `255`, each on a line.
pub open spec fn spec_header(image_width: i32, image_height: i32) -> Seq<u8> {
    seq![80u8, 51u8, 10u8] + signed_decimal(image_width as int) + seq![32u8] + signed_decimal(
        image_height as int,
    ) + seq![10u8, 50u8, 53u8, 53u8, 10u8]
}

/// The number each row goes by.
pub open spec fn spec_row_keys(rows: Seq<(i32, Vec<u8>)>) -> Seq<i64> {
    Seq::new(rows.len(), |i: int| rows[i].0 as i64)
}

/// The text of the first `n` rows in the listed order, a line feed after
/// each.
pub open spec fn spec_rows_text(rows: Seq<(i32, Vec<u8>)>, order: Seq<usize>, n: nat) -> Seq<u8>
    decreases n,
{
    if n == 0 {
        Seq::empty()
    } else {
        spec_rows_text(rows, order, (n - 1) as nat) + rows[order[n - 1] as int].1@ + seq![10u8]
    }
}

/// Appends the decimal digits of a natural number.
fn push_digits(out: &mut Vec<u8>, n: u32)
    ensures
        final(out)@ == old(out)@ + decimal(n as nat),
    decreases n,
{
    if n >= 10 {
        push_digits(out, n / 10);
    }
    out.push(48 + (n % 10) as u8);
    assert(out@ =~= old(out)@ + decimal(n as nat));
}

/// Appends the decimal digits of an integer.
fn push_signed(out: &mut Vec<u8>, n: i32)
    ensures
        final(out)@ == old(out)@ + signed_decimal(n as int),
{
    if n < 0 {
        out.push(45);
        let m: u32 = (-(n as i64)) as u32;
        push_digits(out, m);
        assert(out@ =~= old(out)@ + signed_decimal(n as int));
    } else {
        push_digits(out, n as u32);
    }
}

/// Appends the head of an image.
fn push_header(out: &mut Vec<u8>, image_width: i32, image_height: i32)
    ensures
        final(out)@ == old(out)@ + spec_header(image_width, image_height),
{
    out.push(80);
    out.push(51);
    out.push(10);
    push_signed(out, image_width);
    out.push(32);
    push_signed(out, image_height);
    out.push(10);
    out.push(50);
    out.push(53);
    out.push(53);
    out.push(10);
    assert(out@ =~= old(out)@ + spec_header(image_width, image_height));
}

/// Appends bytes.
fn push_all(out: &mut Vec<u8>, bytes: &Vec<u8>)
    ensures
        final(out)@ == old(out)@ + bytes@,
{
    let mut i: usize = 0;
    while i < bytes.len()
        invariant
            i <= bytes@.len(),
            out@ == old(out)@ + bytes@.subrange(0, i as int),
        decreases bytes@.len() - i,
    {
        out.push(bytes[i]);
        assert(out@ =~= old(out)@ + bytes@.subrange(0, i + 1));
        i += 1;
    }
    assert(bytes@.subrange(0, bytes@.len() as int) =~= bytes@);
}

/// The text of an image from its rows, which may come in any order: the
/// head, then the rows by ascending number, a line feed after each. Rows of
/// the same number keep the order they came in.
pub fn assemble(image_width: i32, image_height: i32, rows: &Vec<(i32, Vec<u8>)>) -> (out: Vec<u8>)
    ensures
        exists|order: Seq<usize>|
            is_stable_order(spec_row_keys(rows@), order) && out@ == spec_header(
                image_width,
                image_height,
            ) + spec_rows_text(rows@, order, rows@.len()),
{
    let mut keys: Vec<i64> = Vec::with_capacity(rows.len());
    let mut i: usize = 0;
    while i < rows.len()
        invariant
            i <= rows@.len(),
            keys@ == spec_row_keys(rows@).subrange(0, i as int),
        decreases rows@.len() - i,
    {
        keys.push(rows[i].0 as i64);
        assert(keys@ =~= spec_row_keys(rows@).subrange(0, i + 1));
        i += 1;
    }
    assert(keys@ =~= spec_row_keys(rows@));
    let order = stable_order(&keys);
    let mut out: Vec<u8> = Vec::new();
    push_header(&mut out, image_width, image_height);
    assert(out@ =~= spec_header(image_width, image_height));
    let mut k: usize = 0;
    while k < order.len()
        invariant
            k <= order@.len(),
            order@.len() == rows@.len(),
            forall|p: int| 0 <= p < order@.len() ==> 0 <= #[trigger] order@[p] < rows@.len(),
            out@ == spec_header(image_width, image_height) + spec_rows_text(
                rows@,
                order@,
                k as nat,
            ),
        decreases order@.len() - k,
    {
        let from: usize = order[k];
        push_all(&mut out, &rows[from].1);
        out.push(10);
        assert(out@ =~= spec_header(image_width, image_height) + spec_rows_text(
            rows@,
            order@,
            (k + 1) as nat,
        ));
        k += 1;
    }
    out
}

/// A pinhole or thin-lens camera and the image it takes.
#[derive(Debug, Clone, Copy)]
pub struct Camera {
    /// Width of the image over its height.
    pub aspect_ratio: Fixed,
    /// Width of the image in pixels.
    pub image_width: i32,
    /// Rays per pixel.
    pub samples_per_pixel: i32,
    /// How many times a ray may scatter.
    pub max_depth: i32,
    /// Vertical field of view in degrees.
    pub vfov: Fixed,
    /// Where the camera stands.
    pub lookfrom: Point3,
    /// The point the camera looks at.
    pub lookat: Point3,
    /// The direction that is up for the camera.
    pub vup: Vec3,
    /// The angle, in degrees, of the cone of rays through each pixel.
    pub defocus_angle: Fixed,
    /// Distance from the camera to the plane of perfect focus.
    pub focus_dist: Fixed,
    /// What a ray sees when it hits nothing.
    pub background: Background,
    /// Height of the image in pixels.
    pub image_height: i32,
    /// Strata per pixel along each axis.
    pub sqrt_spp: i32,
    /// One over `sqrt_spp`.
    pub recip_sqrt_spp: Fixed,
    /// The centre of the camera.
    pub center: Point3,
    /// The centre of pixel (0, 0).
    pub pixel00_loc: Point3,
    /// From one pixel to the next along a row.
    pub pixel_delta_u: Vec3,
    /// From one pixel to the next along a column.
    pub pixel_delta_v: Vec3,
    /// The weight of one ray in the color of its pixel.
    pub pixel_samples_scale: Fixed,
    /// The frame of the camera: right, up, and against the view.
    pub u: Vec3,
    pub v: Vec3,
    pub w: Vec3,
    /// The radii of the defocus disk, along `u` and along `v`.
    pub defocus_disk_u: Vec3,
    pub defocus_disk_v: Vec3,
}

impl Default for Camera {
    /// A square image of 100 pixels, ten rays per pixel, ten scatterings,
    /// a field of view of 90 degrees from the origin toward `-z`, no defocus,
    /// and a black background.
    fn default() -> (r: Self)
        ensures
            r == Camera::spec_default(),
    {
        Camera {
            aspect_ratio: Fixed::one(),
            image_width: 100,
            samples_per_pixel: 10,
            max_depth: 10,
            vfov: Fixed::from_int(90),
            lookfrom: Vec3::zero(),
            lookat: Vec3::from_ints(0, 0, -1),
            vup: Vec3::from_ints(0, 1, 0),
            defocus_angle: Fixed::zero(),
            focus_dist: Fixed::from_int(10),
            background: Background::Solid(Vec3::zero()),
            image_height: 0,
            sqrt_spp: 0,
            recip_sqrt_spp: Fixed::zero(),
            center: Vec3::zero(),
            pixel00_loc: Vec3::zero(),
            pixel_delta_u: Vec3::zero(),
            pixel_delta_v: Vec3::zero(),
            pixel_samples_scale: Fixed::from_ratio(1, 10),
            u: Vec3::zero(),
            v: Vec3::zero(),
            w: Vec3::zero(),
            defocus_disk_u: Vec3::zero(),
            defocus_disk_v: Vec3::zero(),
        }
    }
}

impl Camera {
    pub open spec fn spec_default() -> Camera {
        Camera {
            aspect_ratio: Fixed::one(),
            image_width: 100,
            samples_per_pixel: 10,
            max_depth: 10,
            vfov: Fixed::from_int(90),
            lookfrom: Vec3::zero(),
            lookat: Vec3::from_ints(0, 0, -1i32),
            vup: Vec3::from_ints(0, 1, 0),
            defocus_angle: Fixed::zero(),
            focus_dist: Fixed::from_int(10),
            background: Background::Solid(Vec3::zero()),
            image_height: 0,
            sqrt_spp: 0,
            recip_sqrt_spp: Fixed::zero(),
            center: Vec3::zero(),
            pixel00_loc: Vec3::zero(),
            pixel_delta_u: Vec3::zero(),
            pixel_delta_v: Vec3::zero(),
            pixel_samples_scale: Fixed::from_ratio(1, 10),
            u: Vec3::zero(),
            v: Vec3::zero(),
            w: Vec3::zero(),
            defocus_disk_u: Vec3::zero(),
            defocus_disk_v: Vec3::zero(),
        }
    }

    /// The height of the image: the width over the aspect ratio, rounded
    /// toward zero, and one at least.
    pub open spec fn spec_image_height(&self) -> i32 {
        if Fixed::from_int(self.image_width).div(self.aspect_ratio).trunc() < 1 {
            1
        } else {
            Fixed::from_int(self.image_width).div(self.aspect_ratio).trunc() as i32
        }
    }

    /// The strata per pixel along each axis: the square root of the rays per
    /// pixel, rounded down.
    pub open spec fn spec_sqrt_spp(&self) -> i32 {
        Fixed::from_int(self.samples_per_pixel).sqrt().trunc() as i32
    }

    /// The camera made ready to cast rays: the values that follow from its
    /// settings are worked out.
    /// - The image height and the strata per pixel are as
    ///   [`Camera::spec_image_height`] and [`Camera::spec_sqrt_spp`] state; a
    ///   ray weighs one over the number of strata.
    /// - The frame is `w` from `lookat` to `lookfrom`, `u` across `vup` and
    ///   `w`, and `v` across `w` and `u`, the first two at unit length.
    /// - The viewport stands at the focus distance; its height is twice this
    ///   distance times the tangent of half the field of view, and its width
    ///   follows the shape of the image.
    /// - The pixel steps divide the viewport by the pixel counts; pixel
    ///   (0, 0) lies half a step inside the upper left corner.
    /// - The radius of the defocus disk is the focus distance times the
    ///   tangent of half the defocus angle.
    pub open spec fn spec_initialized(self) -> Camera {
        let image_height = self.spec_image_height();
        let sqrt_spp = self.spec_sqrt_spp();
        let theta = degrees_to_radians(self.vfov);
        let h = tan(theta.mul(Fixed::half()));
        let viewport_height = Fixed::from_int(2).mul(h).mul(self.focus_dist);
        let viewport_width = viewport_height.mul(
            Fixed::from_int(self.image_width).div(Fixed::from_int(image_height)),
        );
        let w = unit_vector(self.lookfrom.sub(self.lookat));
        let u = unit_vector(cross(self.vup, w));
        let v = cross(w, u);
        let viewport_u = u.scale(viewport_width);
        let viewport_v = v.neg().scale(viewport_height);
        let pixel_delta_u = viewport_u.div(Fixed::from_int(self.image_width));
        let pixel_delta_v = viewport_v.div(Fixed::from_int(image_height));
        let viewport_upper_left = self.lookfrom.sub(w.scale(self.focus_dist)).sub(
            viewport_u.scale(Fixed::half()),
        ).sub(viewport_v.scale(Fixed::half()));
        let defocus_radius = self.focus_dist.mul(
            tan(degrees_to_radians(self.defocus_angle.mul(Fixed::half()))),
        );
        Camera {
            image_height,
            sqrt_spp,
            pixel_samples_scale: Fixed::one().div(
                Fixed::from_int(sqrt_spp).mul(Fixed::from_int(sqrt_spp)),
            ),
            recip_sqrt_spp: Fixed::one().div(Fixed::from_int(sqrt_spp)),
            center: self.lookfrom,
            w,
            u,
            v,
            pixel_delta_u,
            pixel_delta_v,
            pixel00_loc: viewport_upper_left.add(
                pixel_delta_u.add(pixel_delta_v).scale(Fixed::half()),
            ),
            defocus_disk_u: u.scale(defocus_radius),
            defocus_disk_v: v.scale(defocus_radius),
            ..self
        }
    }

    /// Makes the camera ready to cast rays: works out the values that follow
    /// from its settings. The image is one pixel high at least.
    pub fn initialize(&mut self)
        ensures
            *final(self) == old(self).spec_initialized(),
            final(self).image_height >= 1,
            final(self).pixel_samples_scale@ >= 0,
    {
        let height: i64 = Fixed::from_int(self.image_width).div(self.aspect_ratio).trunc();
        self.image_height = if height < 1 { 1 } else { height as i32 };
        self.sqrt_spp = Fixed::from_int(self.samples_per_pixel).sqrt().trunc() as i32;
        let strata = Fixed::from_int(self.sqrt_spp).mul(Fixed::from_int(self.sqrt_spp));
        proof {
            lemma_mul_sign(Fixed::from_int(self.sqrt_spp), Fixed::from_int(self.sqrt_spp));
            crate::fixed::lemma_div_sign(Fixed::one(), strata);
        }
        self.pixel_samples_scale = Fixed::one().div(strata);
        self.recip_sqrt_spp = Fixed::one().div(Fixed::from_int(self.sqrt_spp));
        self.center = self.lookfrom;
        let theta = degrees_to_radians(self.vfov);
        let h = tan(theta.mul(Fixed::half()));
        let viewport_height = Fixed::from_int(2).mul(h).mul(self.focus_dist);
        let viewport_width = viewport_height.mul(
            Fixed::from_int(self.image_width).div(Fixed::from_int(self.image_height)),
        );
        self.w = unit_vector(self.lookfrom.sub(self.lookat));
        self.u = unit_vector(cross(self.vup, self.w));
        self.v = cross(self.w, self.u);
        let viewport_u = self.u.scale(viewport_width);
        let viewport_v = self.v.neg().scale(viewport_height);
        self.pixel_delta_u = viewport_u.div(Fixed::from_int(self.image_width));
        self.pixel_delta_v = viewport_v.div(Fixed::from_int(self.image_height));
        let viewport_upper_left = self.center.sub(self.w.scale(self.focus_dist)).sub(
            viewport_u.scale(Fixed::half()),
        ).sub(viewport_v.scale(Fixed::half()));
        self.pixel00_loc = viewport_upper_left.add(
            self.pixel_delta_u.add(self.pixel_delta_v).scale(Fixed::half()),
        );
        let defocus_radius = self.focus_dist.mul(
            tan(degrees_to_radians(self.defocus_angle.mul(Fixed::half()))),
        );
        self.defocus_disk_u = self.u.scale(defocus_radius);
        self.defocus_disk_v = self.v.scale(defocus_radius);
    }

    /// The range in which surfaces are looked for along a ray: from
    /// `1 / 1000` on, without end.
    pub open spec fn spec_visible_range() -> Interval {
        Interval { min: Fixed::from_ratio(1, 1000), max: Fixed::infinity() }
    }

    /// The density toward the lights from `origin`.
    pub open spec fn spec_light_pdf(lights: Arc<Hittable>, origin: Point3) -> Pdf {
        Pdf::Hittable(HittablePdf { objects: lights, origin })
    }

    /// Whether the radiance `c` can come back along the ray, followed
    /// through at most `depth` scatterings: black once the depth is used up,
    /// else what [`Camera::can_shade`] allows for something that testing
    /// `world` within the visible range can give.
    pub open spec fn can_ray_color(
        &self,
        r: &Ray,
        depth: int,
        world: Arc<Hittable>,
        lights: Arc<Hittable>,
        c: Color,
    ) -> bool
        decreases depth, 3nat,
    {
        if depth <= 0 {
            c == Vec3::zero()
        } else {
            exists|found: Option<HitRecord>| #[trigger]
                is_outcome(found) && world.can_hit(r, &Camera::spec_visible_range(), found)
                    && self.can_shade(r, depth, world, lights, found, c)
        }
    }

    /// Whether the radiance `c` can come back along a ray for which the
    /// test of the world gave `found`: the background for a miss, and for a
    /// hit what [`Camera::can_scatter_on`] allows for what the material can
    /// make of the ray, with some point of the unit disk and some unit
    /// sample.
    pub open spec fn can_shade(
        &self,
        r: &Ray,
        depth: int,
        world: Arc<Hittable>,
        lights: Arc<Hittable>,
        found: Option<HitRecord>,
        c: Color,
    ) -> bool
        decreases depth, 2nat,
    {
        match found {
            None => c == self.background.spec_color(r),
            Some(h) => match h.mat {
                None => c == Vec3::zero(),
                Some(m) => exists|disk: Vec3, sample: Fixed|
                    accepts_in_disk(disk) && is_unit_sample(sample) && self.can_scatter_on(
                        r,
                        depth,
                        world,
                        lights,
                        h,
                        #[trigger] m.spec_scatter_with(r, &h, disk, sample),
                        c,
                    ),
            },
        }
    }

    /// Whether the radiance `c` can come back from the hit `h`, whose
    /// material made `scattered` of the ray, with `depth` scatterings left,
    /// this one counted:
    /// - from a hit without a material, nothing;
    /// - when nothing is scattered, what the material emits;
    /// - when the ray goes on in a set direction, what the material emits
    ///   plus the attenuated radiance that can come back along that
    ///   direction;
    /// - else what [`radiance`] makes of the radiance that can come back
    ///   along a direction `d` that the light density or the density of the
    ///   material can give, weighed by the scattering density of the
    ///   material over the even mixture of the two densities at `d`.
    pub open spec fn can_scatter_on(
        &self,
        r: &Ray,
        depth: int,
        world: Arc<Hittable>,
        lights: Arc<Hittable>,
        h: HitRecord,
        scattered: Option<ScatterRecord>,
        c: Color,
    ) -> bool
        decreases depth, 1nat,
    {
        match (h.mat, scattered) {
            (None, _) => c == Vec3::zero(),
            (Some(m), None) => c == m.spec_emitted(&h, h.u, h.v, h.p),
            (Some(m), Some(sr)) => if sr.skip_pdf {
                exists|incoming: Color|
                    (if depth > 0 {
                        self.can_ray_color(&sr.skip_pdf_ray, depth - 1, world, lights, incoming)
                    } else {
                        incoming == Vec3::zero()
                    }) && c == #[trigger] m.spec_emitted(&h, h.u, h.v, h.p).add(
                        sr.attenuation.mul(incoming),
                    )
            } else {
                exists|d: Vec3, incoming: Color|
                    (Camera::spec_light_pdf(lights, h.p).can_generate(d) || sr.pdf.can_generate(d))
                        && (if depth > 0 {
                        self.can_ray_color(
                            &Ray::new_time(h.p, d, r.tm),
                            depth - 1,
                            world,
                            lights,
                            incoming,
                        )
                    } else {
                        incoming == Vec3::zero()
                    }) && c == #[trigger] spec_radiance(
                        m.spec_emitted(&h, h.u, h.v, h.p),
                        sr.attenuation,
                        m.spec_scattering_pdf(&h, &Ray::new_time(h.p, d, r.tm)),
                        incoming,
                        spec_mixture_value(
                            Camera::spec_light_pdf(lights, h.p).spec_value(d),
                            sr.pdf.spec_value(d),
                        ),
                    )
            },
        }
    }

    /// The radiance that the ray brings back, following it through at most
    /// `depth` scatterings:
    /// - nothing, once the depth is used up;
    /// - the background, when the ray hits nothing in `world`;
    /// - what the material emits, when it scatters nothing;
    /// - for a ray that goes on in a set direction, what the material emits
    ///   plus the attenuated radiance along that direction;
    /// - else what [`radiance`] makes of the radiance along a direction drawn
    ///   from the even mixture of the density toward `lights` and the density
    ///   of the material.
    ///
    /// The outcome depends on random draws; it is one that
    /// [`Camera::can_ray_color`] allows. Whatever the draws, it is black at
    /// depth zero or below, and it has no negative component when neither
    /// the background nor any material of `world` has. In a world without a
    /// medium, where the hit draws on nothing random, a ray that hits nothing
    /// brings back the background, and a ray that hits a material that
    /// scatters nothing brings back what that material emits.
    pub fn ray_color(&self, r: &Ray, depth: i32, world: &Arc<Hittable>, lights: &Arc<Hittable>) -> (c:
        Color)
        ensures
            self.can_ray_color(r, depth as int, *world, *lights, c),
            depth <= 0 ==> c == Vec3::zero(),
            depth > 0 && world.deterministic() ==> match world.spec_hit(
                r,
                &Camera::spec_visible_range(),
            ) {
                None => c == self.background.spec_color(r),
                Some(h) => match h.mat {
                    None => c == Vec3::zero(),
                    Some(m) => m.scatters_nothing() ==> c == m.spec_emitted(&h, h.u, h.v, h.p),
                },
            },
            self.background.non_negative() && world.non_negative() ==> c.non_negative(),
        decreases depth, 3nat,
    {
        if depth <= 0 {
            return Vec3::zero();
        }
        let range = Interval::new(Fixed::from_ratio(1, 1000), Fixed::infinity());
        let found = world.hit(r, &range);
        assert(is_outcome(found));
        self.shade(r, depth, world, lights, &found)
    }

    /// The radiance that the ray brings back when the test of the world
    /// gave `found`: the background for a miss, and for a hit what the
    /// material emits and what comes back along the way the material sends
    /// the ray on. It is an outcome that [`Camera::can_shade`] allows.
    pub fn shade(
        &self,
        r: &Ray,
        depth: i32,
        world: &Arc<Hittable>,
        lights: &Arc<Hittable>,
        found: &Option<HitRecord>,
    ) -> (c: Color)
        ensures
            self.can_shade(r, depth as int, *world, *lights, *found, c),
            match *found {
                None => c == self.background.spec_color(r),
                Some(h) => match h.mat {
                    None => c == Vec3::zero(),
                    Some(m) => m.scatters_nothing() ==> c == m.spec_emitted(&h, h.u, h.v, h.p),
                },
            },
            self.background.non_negative() && world.non_negative() && (*found matches Some(h)
                ==> (h.mat matches Some(m) ==> m.non_negative())) ==> c.non_negative(),
        decreases depth, 2nat,
    {
        let rec = match found {
            None => {
                return self.background.color(r);
            },
            Some(h) => h,
        };
        let mat = match &rec.mat {
            None => {
                return Vec3::zero();
            },
            Some(m) => m,
        };
        let scattered = mat.scatter(r, rec);
        let c = self.follow(r, depth, world, lights, rec, scattered);
        proof {
            let (disk, sample) = choose|disk: Vec3, sample: Fixed|
                accepts_in_disk(disk) && is_unit_sample(sample) && scattered
                    == mat.spec_scatter_with(r, rec, disk, sample);
            assert(self.can_scatter_on(
                r,
                depth as int,
                *world,
                *lights,
                *rec,
                mat.spec_scatter_with(r, rec, disk, sample),
                c,
            ));
        }
        c
    }

    /// The radiance that comes back from the hit `rec`, whose material made
    /// `scattered` of the ray: what the material emits, plus what comes
    /// back along the way the ray is sent on, if it is, through the
    /// `depth - 1` scatterings that are left. It is an outcome that
    /// [`Camera::can_scatter_on`] allows.
    pub fn follow(
        &self,
        r: &Ray,
        depth: i32,
        world: &Arc<Hittable>,
        lights: &Arc<Hittable>,
        rec: &HitRecord,
        scattered: Option<ScatterRecord>,
    ) -> (c: Color)
        ensures
            self.can_scatter_on(r, depth as int, *world, *lights, *rec, scattered, c),
            rec.mat is None ==> c == Vec3::zero(),
            scattered is None ==> (rec.mat matches Some(m) ==> c == m.spec_emitted(
                rec,
                rec.u,
                rec.v,
                rec.p,
            )),
            self.background.non_negative() && world.non_negative() && (rec.mat matches Some(m)
                ==> m.non_negative()) && (scattered matches Some(sr)
                ==> sr.attenuation.non_negative()) ==> c.non_negative(),
        decreases depth, 1nat,
    {
        let mat = match &rec.mat {
            None => {
                return Vec3::zero();
            },
            Some(m) => m,
        };
        let emitted = mat.emitted(r, rec, rec.u, rec.v, rec.p);
        let srec = match scattered {
            None => {
                return emitted;
            },
            Some(s) => s,
        };
        let ScatterRecord { attenuation, pdf, skip_pdf, skip_pdf_ray } = srec;
        if skip_pdf {
            let incoming = if depth > 0 {
                self.ray_color(&skip_pdf_ray, depth - 1, world, lights)
            } else {
                Vec3::zero()
            };
            proof {
                if self.background.non_negative() && world.non_negative() && mat.non_negative()
                    && attenuation.non_negative() {
                    lemma_non_negative_closed(attenuation, incoming, Fixed::zero());
                    lemma_non_negative_closed(emitted, attenuation.mul(incoming), Fixed::zero());
                }
            }
            return emitted.add(attenuation.mul(incoming));
        }
        let ghost own_pdf = pdf;
        let light_pdf = Arc::new(Pdf::Hittable(HittablePdf::new(share(lights), rec.p)));
        let mixture = MixturePdf::new(light_pdf, Arc::new(pdf));
        let scattered_ray = Ray::new_time(rec.p, mixture.generate(), r.time());
        let pdf_value = mixture.value(scattered_ray.direction());
        let scattering_pdf = mat.scattering_pdf(r, rec, &scattered_ray);
        let incoming = if depth > 0 {
            self.ray_color(&scattered_ray, depth - 1, world, lights)
        } else {
            Vec3::zero()
        };
        let c = radiance(emitted, attenuation, scattering_pdf, incoming, pdf_value);
        proof {
            let d = scattered_ray.dir;
            assert(*mixture.p.0 == Camera::spec_light_pdf(*lights, rec.p));
            assert(*mixture.p.1 == own_pdf);
            assert(Camera::spec_light_pdf(*lights, rec.p).can_generate(d) || own_pdf.can_generate(
                d,
            ));
            assert(c == spec_radiance(
                mat.spec_emitted(rec, rec.u, rec.v, rec.p),
                attenuation,
                mat.spec_scattering_pdf(rec, &Ray::new_time(rec.p, d, r.tm)),
                incoming,
                spec_mixture_value(
                    Camera::spec_light_pdf(*lights, rec.p).spec_value(d),
                    own_pdf.spec_value(d),
                ),
            ));
        }
        c
    }

    /// Where in its pixel the ray of stratum `(s_i, s_j)` passes, for the
    /// unit samples `r1` and `r2`: `((s + r) / strata) - 1/2` on each axis.
    pub open spec fn spec_stratified_offset(&self, s_i: i32, s_j: i32, r1: Fixed, r2: Fixed)
        -> Vec3 {
        Vec3 {
            x: Fixed::from_int(s_i).add(r1).mul(self.recip_sqrt_spp).sub(Fixed::half()),
            y: Fixed::from_int(s_j).add(r2).mul(self.recip_sqrt_spp).sub(Fixed::half()),
            z: Fixed::zero(),
        }
    }

    /// Where in its pixel the ray of stratum `(s_i, s_j)` passes, for the
    /// unit samples `r1` and `r2`.
    pub fn stratified_offset(&self, s_i: i32, s_j: i32, r1: Fixed, r2: Fixed) -> (o: Vec3)
        ensures
            o == self.spec_stratified_offset(s_i, s_j, r1, r2),
    {
        Vec3 {
            x: Fixed::from_int(s_i).add(r1).mul(self.recip_sqrt_spp).sub(Fixed::half()),
            y: Fixed::from_int(s_j).add(r2).mul(self.recip_sqrt_spp).sub(Fixed::half()),
            z: Fixed::zero(),
        }
    }

    /// A random place in the pixel within stratum `(s_i, s_j)`.
    pub fn samples_square_stratified(&self, s_i: i32, s_j: i32) -> (o: Vec3)
        ensures
            exists|r1: Fixed, r2: Fixed|
                is_unit_sample(r1) && is_unit_sample(r2) && o == self.spec_stratified_offset(
                    s_i,
                    s_j,
                    r1,
                    r2,
                ),
    {
        let r1 = random_double();
        let r2 = random_double();
        self.stratified_offset(s_i, s_j, r1, r2)
    }

    /// The place in the unit square about the origin that two unit samples
    /// select: each less one half.
    pub open spec fn spec_square_offset(r1: Fixed, r2: Fixed) -> Vec3 {
        Vec3 { x: r1.sub(Fixed::half()), y: r2.sub(Fixed::half()), z: Fixed::zero() }
    }

    /// A random place in the unit square about the origin.
    pub fn sample_square(&self) -> (o: Vec3)
        ensures
            exists|r1: Fixed, r2: Fixed|
                is_unit_sample(r1) && is_unit_sample(r2) && o == #[trigger] Camera::spec_square_offset(
                    r1,
                    r2,
                ),
            -Fixed::half()@ <= o.x@ < Fixed::half()@,
            -Fixed::half()@ <= o.y@ < Fixed::half()@,
            o.z@ == 0,
    {
        let r1 = random_double();
        let r2 = random_double();
        let o = Vec3 { x: r1.sub(Fixed::half()), y: r2.sub(Fixed::half()), z: Fixed::zero() };
        assert(o == Camera::spec_square_offset(r1, r2));
        o
    }

    /// The point of the defocus disk that the unit disk point `p` selects.
    pub open spec fn spec_lens_point(&self, p: Vec3) -> Point3 {
        self.center.add(self.defocus_disk_u.scale(p.x)).add(self.defocus_disk_v.scale(p.y))
    }

    /// A random point of the defocus disk.
    pub fn defocus_disk_sample(&self) -> (o: Point3)
        ensures
            exists|p: Vec3| accepts_in_disk(p) && o == self.spec_lens_point(p),
    {
        let p = random_in_unit_disk();
        let o = self.center.add(self.defocus_disk_u.scale(p.x())).add(
            self.defocus_disk_v.scale(p.y()),
        );
        assert(accepts_in_disk(p) && o == self.spec_lens_point(p));
        o
    }

    /// The ray through pixel `(i, j)` that passes the pixel at `offset` from
    /// its centre, leaves the camera at `origin` and is cast at `time`.
    pub open spec fn spec_ray_through(&self, i: i32, j: i32, offset: Vec3, origin: Point3, time: Fixed)
        -> Ray {
        Ray::new_time(
            origin,
            self.pixel00_loc.add(self.pixel_delta_u.scale(Fixed::from_int(i).add(offset.x))).add(
                self.pixel_delta_v.scale(Fixed::from_int(j).add(offset.y)),
            ).sub(origin),
            time,
        )
    }

    /// The ray through pixel `(i, j)` that passes the pixel at `offset` from
    /// its centre, leaves the camera at `origin` and is cast at `time`.
    pub fn ray_through(&self, i: i32, j: i32, offset: Vec3, origin: Point3, time: Fixed) -> (r: Ray)
        ensures
            r == self.spec_ray_through(i, j, offset, origin, time),
    {
        let pixel_sample = self.pixel00_loc.add(
            self.pixel_delta_u.scale(Fixed::from_int(i).add(offset.x())),
        ).add(self.pixel_delta_v.scale(Fixed::from_int(j).add(offset.y())));
        Ray::new_time(origin, pixel_sample.sub(origin), time)
    }

    /// Whether [`Camera::get_ray`] can give the ray `r` for stratum
    /// `(s_i, s_j)` of pixel `(i, j)`: it is cast at a time that is a unit
    /// sample; it leaves from the centre of the camera, or from a point of
    /// the defocus disk when there is a defocus angle; and it passes the
    /// pixel where two unit samples put it within the stratum.
    pub open spec fn can_get_ray(&self, i: i32, j: i32, s_i: i32, s_j: i32, r: Ray) -> bool {
        &&& is_unit_sample(r.tm)
        &&& (self.defocus_angle@ <= 0 ==> r.orig == self.center)
        &&& (self.defocus_angle@ > 0 ==> exists|p: Vec3|
            accepts_in_disk(p) && r.orig == #[trigger] self.spec_lens_point(p))
        &&& exists|r1: Fixed, r2: Fixed|
            is_unit_sample(r1) && is_unit_sample(r2) && r == self.spec_ray_through(
                i,
                j,
                #[trigger] self.spec_stratified_offset(s_i, s_j, r1, r2),
                r.orig,
                r.tm,
            )
    }

    /// A random ray through stratum `(s_i, s_j)` of pixel `(i, j)`: it
    /// leaves from the centre of the camera, or from a random point of the
    /// defocus disk when there is a defocus angle, at a random time.
    pub fn get_ray(&self, i: i32, j: i32, s_i: i32, s_j: i32) -> (r: Ray)
        ensures
            self.can_get_ray(i, j, s_i, s_j, r),
    {
        let r1 = random_double();
        let r2 = random_double();
        let offset = self.stratified_offset(s_i, s_j, r1, r2);
        let ray_origin = if self.defocus_angle.le(Fixed::zero()) {
            self.center
        } else {
            self.defocus_disk_sample()
        };
        let ray_time = random_double();
        let r = self.ray_through(i, j, offset, ray_origin, ray_time);
        assert(is_unit_sample(r1) && is_unit_sample(r2) && r == self.spec_ray_through(
            i,
            j,
            self.spec_stratified_offset(s_i, s_j, r1, r2),
            r.orig,
            r.tm,
        ));
        r
    }

    /// The strata along each axis of a pixel: `sqrt_spp`, or none when that
    /// is negative.
    pub open spec fn spec_strata(&self) -> int {
        if self.sqrt_spp > 0 {
            self.sqrt_spp as int
        } else {
            0
        }
    }

    /// Whether `sum` can be the radiance added up over the strata of pixel
    /// `(i, j)` in the rows before `s_j` and over the first `s_i` strata of
    /// row `s_j`: nothing before the first stratum, and with each stratum
    /// the radiance that can come back along a ray that
    /// [`Camera::get_ray`] can give for it.
    pub open spec fn can_sum_strata(
        &self,
        i: i32,
        j: i32,
        world: Arc<Hittable>,
        lights: Arc<Hittable>,
        s_j: int,
        s_i: int,
        sum: Color,
    ) -> bool
        decreases s_j, s_i,
    {
        if s_i > 0 && s_j >= 0 {
            exists|before: Color, ray: Ray, sample: Color|
                self.can_sum_strata(i, j, world, lights, s_j, s_i - 1, before) && self.can_get_ray(
                    i,
                    j,
                    (s_i - 1) as i32,
                    s_j as i32,
                    ray,
                ) && self.can_ray_color(&ray, self.max_depth as int, world, lights, sample) && sum
                    == #[trigger] spec_with_sample(before, ray, sample)
        } else if s_j > 0 {
            self.can_sum_strata(i, j, world, lights, s_j - 1, self.spec_strata(), sum)
        } else {
            sum == Vec3::zero()
        }
    }

    /// Whether [`Camera::pixel_color`] can give the color `c` for pixel
    /// `(i, j)`: the radiance added up over all strata of the pixel, times
    /// the weight of a ray.
    pub open spec fn can_pixel_color(
        &self,
        i: i32,
        j: i32,
        world: Arc<Hittable>,
        lights: Arc<Hittable>,
        c: Color,
    ) -> bool {
        exists|sum: Color|
            self.can_sum_strata(i, j, world, lights, self.spec_strata(), 0, sum) && c
                == #[trigger] sum.scale(self.pixel_samples_scale)
    }

    /// The color of pixel `(i, j)`: the radiance along one random ray
    /// through each stratum of the pixel, added up and weighed. It is an
    /// outcome that [`Camera::can_pixel_color`] allows. It has no negative
    /// component when neither the background nor any material of `world`
    /// has, and the weight of a ray is not negative.
    pub fn pixel_color(&self, i: i32, j: i32, world: &Arc<Hittable>, lights: &Arc<Hittable>) -> (c:
        Color)
        ensures
            self.can_pixel_color(i, j, *world, *lights, c),
            self.background.non_negative() && world.non_negative() && self.pixel_samples_scale@
                >= 0 ==> c.non_negative(),
    {
        let mut pixel_color = Vec3::zero();
        let mut s_j: i32 = 0;
        while s_j < self.sqrt_spp
            invariant
                0 <= s_j,
                s_j <= self.sqrt_spp || s_j == 0,
                self.can_sum_strata(i, j, *world, *lights, s_j as int, 0, pixel_color),
                self.background.non_negative() && world.non_negative()
                    ==> pixel_color.non_negative(),
            decreases self.sqrt_spp - s_j,
        {
            let mut s_i: i32 = 0;
            while s_i < self.sqrt_spp
                invariant
                    0 <= s_i <= self.sqrt_spp,
                    0 <= s_j < self.sqrt_spp,
                    self.can_sum_strata(i, j, *world, *lights, s_j as int, s_i as int, pixel_color),
                    self.background.non_negative() && world.non_negative()
                        ==> pixel_color.non_negative(),
                decreases self.sqrt_spp - s_i,
            {
                let r = self.get_ray(i, j, s_i, s_j);
                let sample = self.ray_color(&r, self.max_depth, world, lights);
                proof {
                    if self.background.non_negative() && world.non_negative() {
                        lemma_non_negative_closed(pixel_color, sample, Fixed::zero());
                    }
                }
                let ghost before = pixel_color;
                pixel_color = pixel_color.add(sample);
                assert(pixel_color == spec_with_sample(before, r, sample));
                s_i += 1;
            }
            s_j += 1;
        }
        proof {
            if self.background.non_negative() && world.non_negative() && self.pixel_samples_scale@
                >= 0 {
                lemma_non_negative_closed(pixel_color, pixel_color, self.pixel_samples_scale);
            }
        }
        let c = pixel_color.scale(self.pixel_samples_scale);
        assert(self.can_sum_strata(i, j, *world, *lights, self.spec_strata(), 0, pixel_color));
        c
    }

    /// The width of a row in pixels: `image_width`, or none when that is
    /// negative.
    pub open spec fn spec_row_width(&self) -> int {
        if self.image_width > 0 {
            self.image_width as int
        } else {
            0
        }
    }

    /// Whether [`Camera::render_row`] can give the text `row` for row `j`:
    /// the text of colors that [`Camera::pixel_color`] can give for the
    /// pixels of the row, from left to right.
    pub open spec fn can_render_row(
        &self,
        j: i32,
        world: Arc<Hittable>,
        lights: Arc<Hittable>,
        row: Seq<u8>,
    ) -> bool {
        exists|colors: Seq<Color>|
            colors.len() == self.spec_row_width() && (forall|i: int|
                0 <= i < colors.len() ==> self.can_pixel_color(
                    i as i32,
                    j,
                    world,
                    lights,
                    #[trigger] colors[i],
                )) && row == #[trigger] spec_row_text(colors)
    }

    /// The text of row `j` of the image: the text of the color of each of
    /// its pixels, from left to right. It holds three numbers from 0 to 255
    /// for each pixel, and nothing else.
    pub fn render_row(&self, j: i32, world: &Arc<Hittable>, lights: &Arc<Hittable>) -> (row: Vec<u8>)
        ensures
            self.can_render_row(j, *world, *lights, row@),
            exists|numbers: Seq<u8>|
                numbers.len() == 3 * self.spec_row_width() && row@ == #[trigger] spec_numbers_text(
                    numbers,
                ),
    {
        let mut row: Vec<u8> = Vec::new();
        let ghost mut colors: Seq<Color> = Seq::empty();
        let mut i: i32 = 0;
        while i < self.image_width
            invariant
                0 <= i,
                i <= self.image_width || i == 0,
                colors.len() == i,
                forall|k: int|
                    0 <= k < colors.len() ==> self.can_pixel_color(
                        k as i32,
                        j,
                        *world,
                        *lights,
                        #[trigger] colors[k],
                    ),
                row@ == spec_row_text(colors),
            decreases self.image_width - i,
        {
            let c = self.pixel_color(i, j, world, lights);
            c.write_color(&mut row, c);
            proof {
                let longer = colors.push(c);
                assert(longer.drop_last() =~= colors);
                assert(longer.last() == c);
                colors = longer;
            }
            i += 1;
        }
        assert(colors.len() == self.spec_row_width() && row@ == spec_row_text(colors));
        proof {
            lemma_row_text_is_numbers(colors);
        }
        row
    }

    /// Whether [`Camera::render`] can give the text `out`: the head of the
    /// image and then, for each row from the top down, a text that
    /// [`Camera::render_row`] can give for it and a line feed.
    pub open spec fn can_render(&self, world: Arc<Hittable>, lights: Arc<Hittable>, out: Seq<u8>)
        -> bool {
        exists|rows: Seq<Seq<u8>>|
            rows.len() == self.image_height && (forall|j: int|
                0 <= j < rows.len() ==> self.can_render_row(
                    j as i32,
                    world,
                    lights,
                    #[trigger] rows[j],
                )) && out == spec_header(self.image_width, self.image_height) + #[trigger] spec_lines(
                rows,
            )
    }

    /// Takes the image: makes the camera ready, renders each row from the
    /// top down, and returns the text of the image, the head and then the
    /// rows in order, a line feed after each.
    pub fn render(&mut self, world: Arc<Hittable>, lights: Arc<Hittable>) -> (out: Vec<u8>)
        ensures
            *final(self) == old(self).spec_initialized(),
            final(self).can_render(world, lights, out@),
    {
        self.initialize();
        let mut out: Vec<u8> = Vec::new();
        push_header(&mut out, self.image_width, self.image_height);
        let ghost mut rows: Seq<Seq<u8>> = Seq::empty();
        let mut j: i32 = 0;
        while j < self.image_height
            invariant
                0 <= j <= self.image_height,
                rows.len() == j,
                forall|k: int|
                    0 <= k < rows.len() ==> self.can_render_row(
                        k as i32,
                        world,
                        lights,
                        #[trigger] rows[k],
                    ),
                out@ == spec_header(self.image_width, self.image_height) + spec_lines(rows),
            decreases self.image_height - j,
        {
            let row = self.render_row(j, &world, &lights);
            push_all(&mut out, &row);
            out.push(10);
            proof {
                let longer = rows.push(row@);
                assert(longer.drop_last() =~= rows);
                assert(longer.last() == row@);
                assert(out@ =~= spec_header(self.image_width, self.image_height) + spec_lines(
                    longer,
                ));
                rows = longer;
            }
            j += 1;
        }
        assert(rows.len() == self.image_height && out@ == spec_header(
            self.image_width,
            self.image_height,
        ) + spec_lines(rows));
        out
    }
}

} // verus!
