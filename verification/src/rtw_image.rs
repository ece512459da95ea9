//! Decoded images: rows of pixels of three bytes each.
use vstd::prelude::*;

verus! {

/// Bytes that one pixel takes: red, green, blue.
pub const BYTES_PER_PIXEL: usize = 3;

/// A decoded image, or none. An image that holds pixels has a positive width
/// and height and exactly `3 * width * height` bytes, row after row.
#[derive(Debug)]
pub struct RtwImage {
    data: Vec<u8>,
    image_width: i32,
    image_height: i32,
    bytes_per_scanline: usize,
}

impl Default for RtwImage {
    /// The image that holds no pixels: its width and its height are zero.
    fn default() -> (r: Self)
        ensures
            r.pixels().len() == 0,
            r.spec_width() == 0,
            r.spec_height() == 0,
    {
        RtwImage { data: Vec::new(), image_width: 0, image_height: 0, bytes_per_scanline: 0 }
    }
}

impl RtwImage {
    #[verifier::type_invariant]
    spec fn well_formed(self) -> bool {
        self.data@.len() == 0 || {
            &&& self.image_width > 0
            &&& self.image_height > 0
            &&& self.bytes_per_scanline == 3 * self.image_width
            &&& self.data@.len() == self.image_height * self.bytes_per_scanline
        }
    }

    /// The bytes of the image, row after row.
    pub closed spec fn pixels(self) -> Seq<u8> {
        self.data@
    }

    /// The width in pixels; zero when the image holds none.
    pub closed spec fn spec_width(self) -> int {
        if self.data@.len() == 0 {
            0
        } else {
            self.image_width as int
        }
    }

    /// The height in pixels; zero when the image holds none.
    pub closed spec fn spec_height(self) -> int {
        if self.data@.len() == 0 {
            0
        } else {
            self.image_height as int
        }
    }

    /// Whether `data` holds an image of the given width, height and bytes
    /// per pixel that this type can keep.
    pub open spec fn accepts(data: Seq<u8>, width: usize, height: usize, depth: usize) -> bool {
        &&& depth == BYTES_PER_PIXEL
        &&& 0 < width <= i32::MAX
        &&& 0 < height <= i32::MAX
        &&& data.len() == 3 * width * height
    }

    /// The image of the given width and height whose pixels are `data`,
    /// three bytes each; the image without pixels when `data` is not the
    /// size of such an image.
    pub fn new(data: Vec<u8>, width: usize, height: usize) -> (image: Self)
        ensures
            RtwImage::accepts(data@, width, height, BYTES_PER_PIXEL) ==> image.pixels() == data@
                && image.spec_width() == width && image.spec_height() == height,
            !RtwImage::accepts(data@, width, height, BYTES_PER_PIXEL) ==> image.pixels().len()
                == 0 && image.spec_width() == 0 && image.spec_height() == 0,
    {
        let mut image = RtwImage::default();
        let _ = image.load(data, width, height, BYTES_PER_PIXEL);
        image
    }

    /// Takes over a decoded image. Returns whether it was taken: it is when
    /// `depth` is three, width and height are positive and fit in an `i32`,
    /// and `data` has `3 * width * height` bytes. Otherwise the image stays
    /// as it was.
    pub fn load(&mut self, data: Vec<u8>, width: usize, height: usize, depth: usize) -> (ok: bool)
        ensures
            ok == RtwImage::accepts(data@, width, height, depth),
            ok ==> final(self).pixels() == data@,
            ok ==> final(self).spec_width() == width,
            ok ==> final(self).spec_height() == height,
            !ok ==> *final(self) == *old(self),
    {
        if depth != BYTES_PER_PIXEL || width == 0 || height == 0 || width > 0x7fff_ffff || height
            > 0x7fff_ffff {
            return false;
        }
        let row: u128 = 3 * (width as u128);
        assert(row * height <= 0x1_7fff_fffd * 0x7fff_ffff) by (nonlinear_arith)
            requires
                0 <= row <= 0x1_7fff_fffd,
                0 <= height <= 0x7fff_ffff,
        ;
        assert(3 * width * height == row * height) by (nonlinear_arith)
            requires
                row == 3 * width,
        ;
        assert(row <= row * height) by (nonlinear_arith)
            requires
                0 <= row,
                1 <= height,
        ;
        let total: u128 = row * (height as u128);
        if data.len() as u128 != total {
            return false;
        }
        assert(height * row == row * height) by (nonlinear_arith);
        *self = RtwImage {
            data,
            image_width: width as i32,
            image_height: height as i32,
            bytes_per_scanline: row as usize,
        };
        true
    }

    /// The width in pixels; zero when the image holds none.
    pub fn width(&self) -> (w: i32)
        ensures
            w == self.spec_width(),
            w >= 0,
    {
        proof {
            use_type_invariant(self);
        }
        if self.data.len() == 0 {
            0
        } else {
            self.image_width
        }
    }

    /// The height in pixels; zero when the image holds none.
    pub fn height(&self) -> (h: i32)
        ensures
            h == self.spec_height(),
            h >= 0,
    {
        proof {
            use_type_invariant(self);
        }
        if self.data.len() == 0 {
            0
        } else {
            self.image_height
        }
    }

    /// The index among `low..high` nearest to `x`.
    pub open spec fn spec_clamp(x: int, low: int, high: int) -> int {
        if x < low {
            low
        } else if x < high {
            x
        } else {
            high - 1
        }
    }

    /// The index among `low..high` nearest to `x`.
    pub fn clamp(x: usize, low: usize, high: usize) -> (r: usize)
        requires
            high >= 1,
        ensures
            r == RtwImage::spec_clamp(x as int, low as int, high as int),
    {
        if x < low {
            return low;
        }
        if x < high {
            return x;
        }
        high - 1
    }

    /// Where the pixel in column `x` of row `y` starts among the bytes, both
    /// brought within the image.
    pub open spec fn spec_pixel_start(self, x: usize, y: usize) -> int {
        RtwImage::spec_clamp(y as int, 0, self.spec_height()) * (3 * self.spec_width())
            + RtwImage::spec_clamp(x as int, 0, self.spec_width()) * 3
    }

    /// The three bytes of the pixel in column `x` of row `y`, both brought
    /// within the image; magenta when the image holds no pixels.
    pub open spec fn spec_pixel_data(self, x: usize, y: usize) -> Seq<u8> {
        if self.pixels().len() == 0 {
            seq![255u8, 0u8, 255u8]
        } else {
            self.pixels().subrange(self.spec_pixel_start(x, y), self.spec_pixel_start(x, y) + 3)
        }
    }

    /// The three bytes of the pixel in column `x` of row `y`, both brought
    /// within the image; magenta when the image holds no pixels.
    pub fn pixel_data(&self, x: usize, y: usize) -> (px: [u8; 3])
        ensures
            px@ == self.spec_pixel_data(x, y),
            self.pixels().len() == 0 ==> px@ == seq![255u8, 0u8, 255u8],
            self.pixels().len() > 0 ==> {
                let at = self.spec_pixel_start(x, y);
                &&& 0 <= at
                &&& at + 3 <= self.pixels().len()
                &&& px@ == self.pixels().subrange(at, at + 3)
            },
    {
        proof {
            use_type_invariant(self);
        }
        if self.data.len() == 0 {
            let magenta: [u8; 3] = [255, 0, 255];
            assert(magenta@ =~= seq![255u8, 0u8, 255u8]);
            magenta
        } else {
            let cx: usize = Self::clamp(x, 0, self.image_width as usize);
            let cy: usize = Self::clamp(y, 0, self.image_height as usize);
            let w: usize = self.image_width as usize;
            let h: usize = self.image_height as usize;
            assert(cy * (3 * w) + cx * 3 + 3 <= h * (3 * w)) by (nonlinear_arith)
                requires
                    0 <= cx < w,
                    0 <= cy < h,
            ;
            assert(0 <= cy * (3 * w)) by (nonlinear_arith)
                requires
                    0 <= cy,
                    0 <= w,
            ;
            let at: usize = cy * self.bytes_per_scanline + cx * BYTES_PER_PIXEL;
            let px: [u8; 3] = [self.data[at], self.data[at + 1], self.data[at + 2]];
            assert(px@ =~= self.pixels().subrange(at as int, at + 3));
            px
        }
    }
}

} // verus!
