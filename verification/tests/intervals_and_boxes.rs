use pathtracer::aabb::{clip_to_slab, Aabb};
use pathtracer::fixed::Fixed;
use pathtracer::interval::Interval;
use pathtracer::ray::Ray;
use pathtracer::vec3::Vec3;

fn fx(x: f64) -> Fixed {
    Fixed::from_raw((x * 4294967296.0).round() as i64)
}

fn v3(x: f64, y: f64, z: f64) -> Vec3 {
    Vec3::new(fx(x), fx(y), fx(z))
}

fn iv(a: f64, b: f64) -> Interval {
    Interval::new(fx(a), fx(b))
}

fn same(a: Interval, b: Interval) -> bool {
    a.min.to_raw() == b.min.to_raw() && a.max.to_raw() == b.max.to_raw()
}

fn unit_cube() -> Aabb {
    Aabb::new_point(&v3(-0.5, -0.5, -0.5), &v3(0.5, 0.5, 0.5))
}

fn far() -> Interval {
    Interval::new(Fixed::zero(), Fixed::infinity())
}

#[test]
fn interval_contains_its_ends_and_surrounds_its_inside() {
    let i = iv(1.0, 3.0);
    assert!(i.contains(fx(1.0)) && i.contains(fx(2.0)) && i.contains(fx(3.0)));
    assert!(!i.contains(fx(0.999)) && !i.contains(fx(3.001)));
    assert!(i.surrounds(fx(2.0)));
    assert!(!i.surrounds(fx(1.0)) && !i.surrounds(fx(3.0)));
    assert_eq!(i.size().to_raw(), 2 << 32);
}

#[test]
fn interval_clamp_takes_the_nearest_scalar() {
    let i = iv(0.0, 0.999);
    assert_eq!(i.clamp(fx(-5.0)).to_raw(), 0);
    assert_eq!(i.clamp(fx(0.5)).to_raw(), fx(0.5).to_raw());
    assert_eq!(i.clamp(fx(7.0)).to_raw(), fx(0.999).to_raw());
    assert_eq!(i.clamp(Fixed::infinity()).to_raw(), fx(0.999).to_raw());
    assert_eq!(i.clamp(Fixed::neg_infinity()).to_raw(), 0);
}

#[test]
fn interval_union_and_padding() {
    assert!(same(Interval::new_interval(iv(1.0, 2.0), iv(-1.0, 1.5)), iv(-1.0, 2.0)));
    assert!(same(Interval::new_interval(iv(1.0, 2.0), Interval::empty()), iv(1.0, 2.0)));
    assert!(same(iv(1.0, 2.0).expand(fx(0.5)), iv(0.75, 2.25)));
    assert!(same(iv(1.0, 2.0).shift(fx(-3.0)), iv(-2.0, -1.0)));
}

#[test]
fn empty_interval_holds_nothing_and_universe_everything() {
    let e = Interval::empty();
    let d = Interval::default();
    let u = Interval::universe();
    assert!(same(e, d));
    assert!(!e.contains(Fixed::zero()));
    assert!(e.size().to_raw() < 0);
    assert!(u.contains(Fixed::zero()) && u.surrounds(fx(1e9)) && u.contains(Fixed::infinity()));
    // an empty interval is not widened by clamping or containment queries
    assert!(same(e, Interval::empty()));
}

#[test]
fn box_is_hit_along_each_axis_through_its_centre() {
    let b = unit_cube();
    let dirs = [(1, 0, 0), (-1, 0, 0), (0, 1, 0), (0, -1, 0), (0, 0, 1), (0, 0, -1)];
    for (x, y, z) in dirs {
        let d = Vec3::from_ints(x, y, z);
        let o = d.scale(Fixed::from_int(-5));
        assert!(b.hit(&Ray::new(o, d), far()), "direction {:?}", (x, y, z));
        // the same ray with a direction that is not of unit length
        assert!(b.hit(&Ray::new(o, d.scale(fx(0.001))), far()));
        assert!(b.hit(&Ray::new(o, d.scale(fx(250.0))), far()));
    }
}

#[test]
fn box_is_missed_by_a_ray_outside_all_its_slabs() {
    let b = unit_cube();
    let dirs = [(1, 0, 0), (-1, 0, 0), (0, 1, 0), (0, -1, 0), (0, 0, 1), (0, 0, -1)];
    for (x, y, z) in dirs {
        let d = Vec3::from_ints(x, y, z);
        let o = d.scale(Fixed::from_int(-5)).add(Vec3::from_ints(2, 2, 2));
        assert!(!b.hit(&Ray::new(o, d), far()), "direction {:?}", (x, y, z));
    }
    // pointing away from the box
    assert!(!b.hit(&Ray::new(Vec3::from_ints(-5, 0, 0), Vec3::from_ints(-1, 0, 0)), far()));
    // the box lies beyond the end of the range
    assert!(!b.hit(&Ray::new(Vec3::from_ints(-5, 0, 0), Vec3::from_ints(1, 0, 0)), iv(0.0, 4.0)));
    // and before its start
    assert!(!b.hit(&Ray::new(Vec3::from_ints(-5, 0, 0), Vec3::from_ints(1, 0, 0)), iv(6.0, 9.0)));
}

#[test]
fn box_cuts_the_range_to_the_passage_of_the_ray() {
    let b = unit_cube();
    let along_x = Ray::new(v3(-5.0, 0.0, 0.0), v3(1.0, 0.0, 0.0));
    assert!(same(b.clip(&along_x, far()).unwrap(), iv(4.5, 5.5)));
    assert!(same(b.clip(&along_x, iv(5.0, 9.0)).unwrap(), iv(5.0, 5.5)));
    assert!(b.clip(&along_x, iv(0.0, 4.5)).is_none());
    let diagonal = Ray::new(v3(-1.0, -1.0, -1.0), v3(1.0, 1.0, 1.0));
    assert!(same(b.clip(&diagonal, far()).unwrap(), iv(0.5, 1.5)));
    let skew = Ray::new(v3(-1.0, 0.0, 0.25), v3(2.0, 1.0, 0.0));
    // x: [0.25, 0.75], y: [-0.5, 0.5]
    assert!(same(b.clip(&skew, far()).unwrap(), iv(0.25, 0.5)));
}

#[test]
fn box_is_hit_by_a_slanted_ray() {
    let b = unit_cube();
    let r = Ray::new(v3(-2.0, -2.0, -2.0), v3(1.0, 1.0, 1.0));
    assert!(b.hit(&r, far()));
    let grazing = Ray::new(v3(-2.0, -2.0, 0.0), v3(1.0, 0.2, 0.0));
    assert!(!b.hit(&grazing, far()));
    // a ray that starts inside
    assert!(b.hit(&Ray::new(Vec3::zero(), v3(0.3, -0.2, 0.9)), far()));
}

#[test]
fn flat_box_is_hit_by_a_ray_in_its_plane() {
    // no thickness along z
    let b = Aabb::new_point(&v3(-0.5, -0.5, 0.0), &v3(0.5, 0.5, 0.0));
    assert_eq!(b.z.size().to_raw(), 0);
    // the ray stays in the plane z = 0 and crosses the x and y slabs
    assert!(b.hit(&Ray::new(v3(-5.0, 0.0, 0.0), v3(1.0, 0.0, 0.0)), far()));
    assert!(b.hit(&Ray::new(v3(0.0, 5.0, 0.0), v3(0.0, -1.0, 0.0)), far()));
    assert!(b.hit(&Ray::new(v3(-5.0, -5.0, 0.0), v3(1.0, 1.0, 0.0)), far()));
    // in the plane but beside the box: the other two slabs decide
    assert!(!b.hit(&Ray::new(v3(-5.0, 2.0, 0.0), v3(1.0, 0.0, 0.0)), far()));
    assert!(!b.hit(&Ray::new(v3(2.0, 5.0, 0.0), v3(0.0, -1.0, 0.0)), far()));
    // parallel to the plane but off it
    assert!(!b.hit(&Ray::new(v3(-5.0, 0.0, 0.1), v3(1.0, 0.0, 0.0)), far()));
}

#[test]
fn flat_box_is_hit_by_a_ray_that_crosses_it() {
    let flat = Aabb::new_point(&v3(-0.5, -0.5, 0.0), &v3(0.5, 0.5, 0.0));
    let across = Ray::new(v3(0.0, 0.0, -5.0), v3(0.0, 0.0, 1.0));
    assert!(flat.hit(&across, far()));
    // the ray is in the box at the one parameter of the crossing
    assert!(same(flat.clip(&across, far()).unwrap(), iv(5.0, 5.0)));
    let slanted = Ray::new(v3(-1.0, 0.25, -2.0), v3(0.5, 0.0, 1.0));
    assert!(same(flat.clip(&slanted, far()).unwrap(), iv(2.0, 2.0)));
    // across the plane but beside the box
    assert!(!flat.hit(&Ray::new(v3(2.0, 0.0, -5.0), v3(0.0, 0.0, 1.0)), far()));
    assert!(!flat.hit(&Ray::new(v3(-3.0, 0.25, -2.0), v3(0.5, 0.0, 1.0)), far()));
    // the crossing lies beyond the range, before it, or at its end
    assert!(!flat.hit(&across, iv(0.0, 4.0)));
    assert!(!flat.hit(&across, iv(6.0, 9.0)));
    assert!(!flat.hit(&across, iv(0.0, 5.0)));
    assert!(flat.hit(&across, iv(0.0, 5.001)));
    // pointing away from the plane
    assert!(!flat.hit(&Ray::new(v3(0.0, 0.0, -5.0), v3(0.0, 0.0, -1.0)), far()));
    // a box of no thickness on two axes is a line, which no ray is said to cross
    let line = Aabb::new_point(&v3(0.0, -0.5, 0.0), &v3(0.0, 0.5, 0.0));
    assert!(!line.hit(&Ray::new(v3(-1.0, 0.0, -1.0), v3(1.0, 0.0, 1.0)), far()));
    // padding gives such a box thickness
    let padded = flat.pad();
    assert!(padded.hit(&across, far()));
    assert!(same(padded.x, flat.x) && same(padded.y, flat.y));
    assert!(same(padded.z, iv(0.0, 0.0).expand(Fixed::from_ratio(1, 10000))));
}

#[test]
fn zero_direction_component_passes_or_misses_the_whole_slab() {
    let slab_x = iv(-1.0, 1.0);
    let t = iv(0.0, 10.0);
    // origin inside, bounds included
    for o in [-1.0, 0.0, 1.0] {
        let left = clip_to_slab(slab_x, fx(o), Fixed::zero(), t);
        assert!(left.is_some());
        assert!(same(left.unwrap(), t));
    }
    // origin outside
    assert!(clip_to_slab(slab_x, fx(1.5), Fixed::zero(), t).is_none());
    assert!(clip_to_slab(slab_x, fx(-1.5), Fixed::zero(), t).is_none());
    // nothing is left of a range without length
    assert!(clip_to_slab(slab_x, fx(0.0), Fixed::zero(), iv(3.0, 3.0)).is_none());
}

#[test]
fn slab_cuts_the_running_range() {
    let slab_x = iv(-1.0, 1.0);
    // moving right from -5: inside for t in [4, 6]
    let a = clip_to_slab(slab_x, fx(-5.0), fx(1.0), iv(0.0, 10.0)).unwrap();
    assert!(same(a, iv(4.0, 6.0)));
    // moving left from 5 at double speed: inside for t in [2, 3]
    let b = clip_to_slab(slab_x, fx(5.0), fx(-2.0), iv(0.0, 10.0)).unwrap();
    assert!(same(b, iv(2.0, 3.0)));
    // the range already cut short
    let c = clip_to_slab(slab_x, fx(-5.0), fx(1.0), iv(5.0, 5.5)).unwrap();
    assert!(same(c, iv(5.0, 5.5)));
    assert!(clip_to_slab(slab_x, fx(-5.0), fx(1.0), iv(0.0, 4.0)).is_none());
    assert!(clip_to_slab(slab_x, fx(-5.0), fx(1.0), iv(6.0, 9.0)).is_none());
}

#[test]
fn longest_axis_prefers_x_then_y_among_equals() {
    let b = |x: f64, y: f64, z: f64| Aabb::new_point(&v3(0.0, 0.0, 0.0), &v3(x, y, z));
    assert_eq!(b(3.0, 2.0, 1.0).longest_axis(), 0);
    assert_eq!(b(1.0, 3.0, 2.0).longest_axis(), 1);
    assert_eq!(b(1.0, 2.0, 3.0).longest_axis(), 2);
    assert_eq!(b(2.0, 2.0, 2.0).longest_axis(), 0);
    assert_eq!(b(2.0, 2.0, 1.0).longest_axis(), 0);
    assert_eq!(b(2.0, 1.0, 2.0).longest_axis(), 0);
    assert_eq!(b(1.0, 2.0, 2.0).longest_axis(), 1);
    assert_eq!(b(0.0, 0.0, 0.0).longest_axis(), 0);
}

#[test]
fn boxes_union_move_and_list_their_axes() {
    let a = Aabb::new_point(&v3(0.0, 0.0, 0.0), &v3(1.0, 1.0, 1.0));
    let b = Aabb::new_point(&v3(2.0, -1.0, 0.5), &v3(3.0, 0.5, 0.75));
    let u = Aabb::new_aabb(&a, &b);
    assert!(same(u.x, iv(0.0, 3.0)) && same(u.y, iv(-1.0, 1.0)) && same(u.z, iv(0.0, 1.0)));
    assert!(same(*u.axis_interval(0), u.x));
    assert!(same(*u.axis_interval(1), u.y));
    assert!(same(*u.axis_interval(2), u.z));
    let moved = a.offset(v3(1.0, -2.0, 0.5));
    assert!(same(moved.x, iv(1.0, 2.0)) && same(moved.y, iv(-2.0, -1.0)) && same(moved.z, iv(0.5, 1.5)));
    // corners in any order
    let c = Aabb::new_point(&v3(1.0, 0.0, 1.0), &v3(0.0, 1.0, 0.0));
    assert!(same(c.x, a.x) && same(c.y, a.y) && same(c.z, a.z));
    // the empty box adds nothing to a union
    let e = Aabb::new_aabb(&Aabb::empty(), &b);
    assert!(same(e.x, b.x) && same(e.y, b.y) && same(e.z, b.z));
    assert!(same(Aabb::default().x, Interval::empty()));
    assert!(same(Aabb::universe().y, Interval::universe()));
}

#[test]
fn padding_leaves_thick_axes_alone() {
    let a = Aabb::new_point(&v3(0.0, 0.0, 0.0), &v3(1.0, 0.00001, 0.0002));
    let p = a.pad();
    assert!(same(p.x, a.x));
    assert!(same(p.z, a.z));
    assert!(p.y.size().to_raw() > a.y.size().to_raw());
    assert!(same(p.y, a.y.expand(Fixed::from_ratio(1, 10000))));
}
