use pathtracer::fixed::Fixed;
use pathtracer::perlin::Perlin;
use pathtracer::rtw_image::RtwImage;
use pathtracer::rtweekend::{
    degrees_to_radians, double_in_range, int_in_range, random_double, random_double_range,
    random_int, unit_sample,
};
use pathtracer::texture::{CheckerTexture, ImageTexture, NoiseTexture, SolidColor, Texture};
use pathtracer::vec3::Vec3;
use std::sync::Arc;

fn fx(x: f64) -> Fixed {
    Fixed::from_raw((x * 4294967296.0).round() as i64)
}

fn to_f64(x: Fixed) -> f64 {
    x.to_raw() as f64 / 4294967296.0
}

fn v3(x: f64, y: f64, z: f64) -> Vec3 {
    Vec3::new(fx(x), fx(y), fx(z))
}

fn raw(v: Vec3) -> (i64, i64, i64) {
    (v.x.to_raw(), v.y.to_raw(), v.z.to_raw())
}

#[test]
fn unit_samples_lie_in_the_unit_range() {
    assert_eq!(unit_sample(0).to_raw(), 0);
    assert_eq!(unit_sample(1 << 31).to_raw(), 1 << 31);
    assert_eq!(unit_sample(u32::MAX).to_raw(), (1 << 32) - 1);
    let mut low = 0;
    for _ in 0..2000 {
        let r = random_double();
        assert!(r.to_raw() >= 0 && r.to_raw() < (1 << 32));
        if r.lt(Fixed::half()) {
            low += 1;
        }
    }
    assert!(low > 800 && low < 1200);
}

#[test]
fn samples_are_stretched_over_a_range() {
    assert_eq!(double_in_range(fx(2.0), fx(6.0), Fixed::zero()).to_raw(), fx(2.0).to_raw());
    assert_eq!(double_in_range(fx(2.0), fx(6.0), Fixed::half()).to_raw(), fx(4.0).to_raw());
    assert_eq!(double_in_range(fx(-1.0), fx(1.0), fx(0.25)).to_raw(), fx(-0.5).to_raw());
    for _ in 0..500 {
        let r = random_double_range(fx(-3.0), fx(5.0));
        assert!(to_f64(r) >= -3.0 && to_f64(r) < 5.0);
    }
    assert_eq!(random_double_range(fx(2.0), fx(2.0)).to_raw(), fx(2.0).to_raw());
}

#[test]
fn random_integers_cover_their_range_and_stay_in_it() {
    assert_eq!(int_in_range(0, 9, Fixed::zero()), 0);
    assert_eq!(int_in_range(0, 9, fx(0.05)), 0);
    assert_eq!(int_in_range(0, 9, fx(0.15)), 1);
    assert_eq!(int_in_range(0, 9, fx(0.55)), 5);
    assert_eq!(int_in_range(0, 9, unit_sample(u32::MAX)), 9);
    assert_eq!(int_in_range(3, 3, unit_sample(u32::MAX)), 3);
    assert_eq!(int_in_range(10, 12, fx(0.5)), 11);
    // below zero the integers are reached alike: the sample is rounded down
    assert_eq!(int_in_range(-3, -1, Fixed::zero()), -3);
    assert_eq!(int_in_range(-3, -1, fx(0.5)), -2);
    assert_eq!(int_in_range(-3, -1, unit_sample(u32::MAX)), -1);
    assert_eq!(int_in_range(-1, 1, fx(0.4)), 0);
    assert_eq!(int_in_range(-1, 1, fx(0.2)), -1);
    let mut below = [false; 5];
    for _ in 0..1000 {
        let r = random_int(-4, 0);
        assert!(r >= -4 && r <= 0);
        below[(r + 4) as usize] = true;
    }
    assert!(below.iter().all(|s| *s));
    let mut seen = [false; 6];
    for _ in 0..1000 {
        let r = random_int(0, 5);
        assert!(r >= 0 && r <= 5);
        seen[r as usize] = true;
    }
    assert!(seen.iter().all(|s| *s));
    for _ in 0..100 {
        assert_eq!(random_int(7, 7), 7);
    }
}

#[test]
fn degrees_turn_into_radians() {
    assert!((to_f64(degrees_to_radians(Fixed::from_int(180))) - std::f64::consts::PI).abs() < 1e-8);
    assert!((to_f64(degrees_to_radians(Fixed::from_int(-90))) + std::f64::consts::FRAC_PI_2).abs() < 1e-8);
    assert_eq!(degrees_to_radians(Fixed::zero()).to_raw(), 0);
    assert_eq!(
        degrees_to_radians(fx(40.0)).to_raw(),
        fx(40.0).mul(Fixed::pi()).div(Fixed::from_int(180)).to_raw()
    );
}

#[test]
fn solid_texture_is_the_same_everywhere() {
    let t = Texture::Solid(SolidColor::new(v3(0.1, 0.2, 0.3)));
    assert_eq!(raw(t.value(fx(0.0), fx(0.0), Vec3::zero())), raw(v3(0.1, 0.2, 0.3)));
    assert_eq!(raw(t.value(fx(0.7), fx(0.1), v3(9.0, -4.0, 2.0))), raw(v3(0.1, 0.2, 0.3)));
    let s = SolidColor::new_color(fx(1.0), fx(0.5), fx(0.25));
    assert_eq!(raw(s.value(Fixed::zero(), Fixed::zero(), Vec3::zero())), raw(v3(1.0, 0.5, 0.25)));
}

#[test]
fn checker_alternates_over_the_cells_of_a_grid() {
    let white = v3(1.0, 1.0, 1.0);
    let black = v3(0.0, 0.0, 0.0);
    let c = Texture::Checker(CheckerTexture::new_color(fx(1.0), white, black));
    let at = |x: f64, y: f64, z: f64| raw(c.value(Fixed::zero(), Fixed::zero(), v3(x, y, z)));
    assert_eq!(at(0.5, 0.5, 0.5), raw(white));
    assert_eq!(at(1.5, 0.5, 0.5), raw(black));
    assert_eq!(at(1.5, 1.5, 0.5), raw(white));
    assert_eq!(at(1.5, 1.5, 1.5), raw(black));
    // below zero the whole part is rounded down
    assert_eq!(at(-0.5, 0.5, 0.5), raw(black));
    assert_eq!(at(-0.5, -0.5, 0.5), raw(white));
    assert_eq!(at(-1.5, 0.5, 0.5), raw(white));
    // cells of side one half
    let fine = CheckerTexture::new_color(fx(0.5), white, black);
    assert_eq!(fine.inv_scale.to_raw(), 2 << 32);
    assert!(fine.is_even(v3(0.25, 0.25, 0.25)));
    assert!(!fine.is_even(v3(0.75, 0.25, 0.25)));
    assert!(fine.is_even(v3(1.25, 0.25, 0.25)));
}

#[test]
fn checker_of_textures_nests() {
    let red = Arc::new(Texture::Solid(SolidColor::new(v3(1.0, 0.0, 0.0))));
    let inner = Arc::new(Texture::Checker(CheckerTexture::new_color(
        fx(0.5),
        v3(0.0, 1.0, 0.0),
        v3(0.0, 0.0, 1.0),
    )));
    let outer = Texture::Checker(CheckerTexture::new(fx(1.0), red, inner));
    let at = |x: f64| raw(outer.value(Fixed::zero(), Fixed::zero(), v3(x, 0.1, 0.1)));
    assert_eq!(at(0.5), raw(v3(1.0, 0.0, 0.0)));
    assert_eq!(at(1.25), raw(v3(0.0, 1.0, 0.0)));
    assert_eq!(at(1.75), raw(v3(0.0, 0.0, 1.0)));
}

fn two_by_two() -> RtwImage {
    let mut image = RtwImage::default();
    // top row: red, green; bottom row: blue, grey
    let data = vec![255, 0, 0, 0, 255, 0, 0, 0, 255, 51, 102, 204];
    assert!(image.load(data, 2, 2, 3));
    image
}

#[test]
fn image_holds_what_was_loaded() {
    let image = two_by_two();
    assert_eq!(image.width(), 2);
    assert_eq!(image.height(), 2);
    assert_eq!(image.pixel_data(0, 0), [255, 0, 0]);
    assert_eq!(image.pixel_data(1, 0), [0, 255, 0]);
    assert_eq!(image.pixel_data(0, 1), [0, 0, 255]);
    assert_eq!(image.pixel_data(1, 1), [51, 102, 204]);
    // coordinates beyond the image are brought to its edge
    assert_eq!(image.pixel_data(2, 0), [0, 255, 0]);
    assert_eq!(image.pixel_data(0, 9), [0, 0, 255]);
    assert_eq!(image.pixel_data(usize::MAX, usize::MAX), [51, 102, 204]);
    assert_eq!(RtwImage::clamp(5, 0, 3), 2);
    assert_eq!(RtwImage::clamp(2, 0, 3), 2);
    assert_eq!(RtwImage::clamp(0, 1, 3), 1);
}

#[test]
fn image_is_made_from_decoded_pixels() {
    let image = RtwImage::new(vec![1, 2, 3, 4, 5, 6], 1, 2);
    assert_eq!(image.width(), 1);
    assert_eq!(image.height(), 2);
    assert_eq!(image.pixel_data(0, 1), [4, 5, 6]);
    let wrong = RtwImage::new(vec![1, 2, 3, 4, 5], 1, 2);
    assert_eq!(wrong.width(), 0);
    assert_eq!(wrong.pixel_data(0, 0), [255, 0, 255]);
}

#[test]
fn image_without_pixels_is_magenta() {
    let empty = RtwImage::default();
    assert_eq!(empty.width(), 0);
    assert_eq!(empty.height(), 0);
    assert_eq!(empty.pixel_data(0, 0), [255, 0, 255]);
    assert_eq!(empty.pixel_data(7, 3), [255, 0, 255]);
}

#[test]
fn image_refuses_data_of_the_wrong_size() {
    let mut image = two_by_two();
    assert!(!image.load(vec![0; 11], 2, 2, 3));
    assert!(!image.load(vec![0; 13], 2, 2, 3));
    assert!(!image.load(vec![0; 16], 2, 2, 4));
    assert!(!image.load(vec![], 0, 0, 3));
    assert!(!image.load(vec![0; 6], 0, 2, 3));
    assert!(!image.load(vec![], usize::MAX, 1, 3));
    // what was there stays
    assert_eq!(image.width(), 2);
    assert_eq!(image.pixel_data(1, 1), [51, 102, 204]);
    assert!(image.load(vec![9; 9], 3, 1, 3));
    assert_eq!(image.width(), 3);
    assert_eq!(image.height(), 1);
    assert_eq!(image.pixel_data(2, 0), [9, 9, 9]);
}

#[test]
fn image_texture_reads_pixels_by_surface_coordinates() {
    let t = Texture::Image(ImageTexture::new(two_by_two()));
    let at = |u: f64, v: f64| t.value(fx(u), fx(v), Vec3::zero());
    // v runs upward: v = 1 is the top row
    assert_eq!(raw(at(0.0, 1.0)), raw(Vec3::from_ints(1, 0, 0)));
    assert_eq!(raw(at(0.75, 0.75)), raw(Vec3::from_ints(0, 1, 0)));
    assert_eq!(raw(at(0.25, 0.25)), raw(Vec3::from_ints(0, 0, 1)));
    let grey = at(0.9, 0.1);
    assert_eq!(grey.x.to_raw(), Fixed::from_ratio(51, 255).to_raw());
    assert_eq!(grey.y.to_raw(), Fixed::from_ratio(102, 255).to_raw());
    assert_eq!(grey.z.to_raw(), Fixed::from_ratio(204, 255).to_raw());
    assert!((to_f64(grey.z) - 0.8).abs() < 1e-9);
    // coordinates outside the unit square are brought into it
    assert_eq!(raw(at(-3.0, 5.0)), raw(Vec3::from_ints(1, 0, 0)));
    assert_eq!(raw(at(7.0, -2.0)), raw(grey));
    assert_eq!(raw(at(1.0, 0.0)), raw(grey));
    let none = Texture::Image(ImageTexture::new(RtwImage::default()));
    assert_eq!(raw(none.value(fx(0.5), fx(0.5), Vec3::zero())), raw(Vec3::from_ints(0, 1, 1)));
}

#[test]
fn permutation_holds_every_index_once() {
    for _ in 0..5 {
        let p = Perlin::perlin_generate_perm();
        assert_eq!(p.len(), 256);
        let mut sorted = p.clone();
        sorted.sort();
        let identity: Vec<i32> = (0..256).collect();
        assert_eq!(sorted, identity);
    }
    let a = Perlin::perlin_generate_perm();
    let b = Perlin::perlin_generate_perm();
    assert_ne!(a, b);
}

#[test]
fn exchange_changes_the_places_of_two_entries() {
    let mut p: Vec<i32> = vec![10, 20, 30, 40];
    Perlin::exchange(&mut p, 0, 3);
    assert_eq!(p, vec![40, 20, 30, 10]);
    Perlin::exchange(&mut p, 2, 1);
    assert_eq!(p, vec![40, 30, 20, 10]);
    Perlin::exchange(&mut p, 1, 1);
    assert_eq!(p, vec![40, 30, 20, 10]);
}

#[test]
fn shuffle_moves_entries_and_leaves_the_first_alone_with_itself() {
    // of one entry nothing can change; of many, some order other than the first comes out
    let mut one: Vec<i32> = vec![7, 8, 9];
    Perlin::permute(&mut one, 1);
    assert_eq!(one, vec![7, 8, 9]);
    let start: Vec<i32> = (0..64).collect();
    let mut moved = 0;
    for _ in 0..20 {
        let mut p = start.clone();
        Perlin::permute(&mut p, 64);
        if p != start {
            moved += 1;
        }
    }
    assert!(moved >= 19);
}

#[test]
fn shuffle_keeps_the_entries_and_the_tail() {
    let mut p: Vec<i32> = vec![10, 20, 30, 40, 50, 60];
    Perlin::permute(&mut p, 4);
    assert_eq!(p.len(), 6);
    assert_eq!(&p[4..], &[50, 60]);
    let mut head = p[..4].to_vec();
    head.sort();
    assert_eq!(head, vec![10, 20, 30, 40]);
    let mut q: Vec<i32> = vec![1, 2, 3];
    Perlin::permute(&mut q, 0);
    assert_eq!(q, vec![1, 2, 3]);
}

#[test]
fn noise_vanishes_on_the_lattice_and_repeats() {
    let n = Perlin::default();
    for (x, y, z) in [(0, 0, 0), (1, 2, 3), (-4, 7, -2), (255, 256, 257)] {
        assert_eq!(n.noise(Vec3::from_ints(x, y, z)).to_raw(), 0);
    }
    let p = v3(0.3, 7.6, -2.2);
    assert_eq!(n.noise(p).to_raw(), n.noise(p).to_raw());
    // the lattice repeats every 256 cells
    let shifted = p.add(Vec3::from_ints(256, -512, 256));
    assert!((to_f64(n.noise(p)) - to_f64(n.noise(shifted))).abs() < 1e-6);
    let mut largest: f64 = 0.0;
    let mut k = 0.0;
    while k < 50.0 {
        let v = to_f64(n.noise(v3(k * 0.37, k * 0.11 - 3.0, 5.0 - k * 0.23)));
        largest = largest.max(v.abs());
        k += 1.0;
    }
    assert!(largest > 0.0 && largest <= 1.0);
}

#[test]
fn noise_interpolates_between_the_corner_vectors() {
    // every corner vector along x, at the centre of the cell: the nearer corners give
    // (1/2)(1/8) each and the farther ones (-1/2)(1/8) each
    let c: [Vec3; 8] = [Vec3::from_ints(1, 0, 0); 8];
    let mid = Perlin::trilinear_interp(&c, Fixed::half(), Fixed::half(), Fixed::half());
    assert_eq!(mid.to_raw(), 0);
    // at the near corner only corner 0 counts, and its offset is zero
    assert_eq!(Perlin::trilinear_interp(&c, Fixed::zero(), Fixed::zero(), Fixed::zero()).to_raw(), 0);
    // a quarter along x on the near edge: weights (1 - uu) and uu with uu = 5/32
    let q = Perlin::trilinear_interp(&c, fx(0.25), Fixed::zero(), Fixed::zero());
    let uu = 0.25 * 0.25 * (3.0 - 0.5);
    assert!((to_f64(q) - ((1.0 - uu) * 0.25 + uu * (0.25 - 1.0))).abs() < 1e-8);
}

#[test]
fn turbulence_is_not_negative() {
    let n = Perlin::default();
    let mut k = 0.0;
    while k < 30.0 {
        let p = v3(k * 0.41, 2.0 - k * 0.13, k * 0.29);
        assert!(n.turb(p, 7).to_raw() >= 0);
        assert_eq!(n.turb(p, 1).to_raw(), n.noise(p).abs().to_raw());
        assert_eq!(n.turb(p, 0).to_raw(), 0);
        k += 1.0;
    }
}

#[test]
fn noise_texture_is_a_shade_of_grey() {
    let t = Texture::Noise(NoiseTexture::new(fx(4.0)));
    let mut k = 0.0;
    while k < 30.0 {
        let c = t.value(Fixed::zero(), Fixed::zero(), v3(k * 0.3, k * 0.7, k * 0.2));
        assert_eq!(c.x.to_raw(), c.y.to_raw());
        assert_eq!(c.y.to_raw(), c.z.to_raw());
        assert!(c.x.to_raw() >= 0 && c.x.to_raw() <= 1 << 32);
        k += 1.0;
    }
    assert_eq!(NoiseTexture::new(fx(0.5)).scale.to_raw(), 1 << 31);
}
