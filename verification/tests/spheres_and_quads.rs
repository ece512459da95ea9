use pathtracer::fixed::Fixed;
use pathtracer::hittable::{HitRecord, Hittable};
use pathtracer::interval::Interval;
use pathtracer::material::{Lambertian, Material};
use pathtracer::quad::{box_, Quad};
use pathtracer::ray::Ray;
use pathtracer::sphere::Sphere;
use pathtracer::vec3::{dot, unit_vector, Vec3};
use std::sync::Arc;

fn fx(x: f64) -> Fixed {
    Fixed::from_raw((x * 4294967296.0).round() as i64)
}

fn to_f64(x: Fixed) -> f64 {
    x.to_raw() as f64 / 4294967296.0
}

fn v3(x: f64, y: f64, z: f64) -> Vec3 {
    Vec3::new(fx(x), fx(y), fx(z))
}

fn close(a: Vec3, b: Vec3, tol: f64) -> bool {
    (to_f64(a.x) - to_f64(b.x)).abs() < tol
        && (to_f64(a.y) - to_f64(b.y)).abs() < tol
        && (to_f64(a.z) - to_f64(b.z)).abs() < tol
}

fn grey() -> Arc<Material> {
    Arc::new(Material::Lambertian(Lambertian::new(v3(0.5, 0.5, 0.5))))
}

fn visible() -> Interval {
    Interval::new(Fixed::from_ratio(1, 1000), Fixed::infinity())
}

#[test]
fn sphere_hit_returns_the_point_the_ray_was_aimed_at() {
    let center = v3(0.0, 0.0, -1.0);
    let s = Sphere::new(center, fx(0.5), grey());
    let normals = [
        v3(0.0, 0.0, 1.0), v3(1.0, 2.0, 2.0), v3(-1.0, 0.5, 0.25), v3(0.3, -0.9, 0.1),
        v3(0.0, 1.0, 0.0), v3(-2.0, -3.0, 6.0),
    ];
    for n in normals {
        let n = unit_vector(n);
        let target = center.add(n.scale(fx(0.5)));
        // the ray starts outside, on the normal through the target
        let origin = center.add(n.scale(fx(3.0)));
        let r = Ray::new(origin, target.sub(origin));
        let hit = s.hit(&r, &visible()).expect("the ray is aimed at the sphere");
        assert!(close(r.at(hit.t), target, 1e-6));
        assert!(close(hit.p, target, 1e-6));
        assert!((to_f64(hit.t) - 1.0).abs() < 1e-6);
        assert!(close(hit.normal, n, 1e-6));
        assert!(hit.front_face);
    }
}

#[test]
fn sphere_hit_does_not_depend_on_the_length_of_the_direction() {
    let s = Sphere::new(v3(0.0, 0.0, -1.0), fx(0.5), grey());
    for scale in [0.01, 0.5, 1.0, 3.0, 100.0] {
        let r = Ray::new(Vec3::zero(), v3(0.0, 0.0, -scale));
        let hit = s.hit(&r, &visible()).unwrap();
        assert!(close(hit.p, v3(0.0, 0.0, -0.5), 1e-6), "scale {}", scale);
        assert!((to_f64(hit.t) * scale - 0.5).abs() < 1e-6);
    }
}

#[test]
fn face_normal_opposes_the_ray_from_outside_and_from_inside() {
    let s = Sphere::new(v3(0.0, 0.0, -1.0), fx(0.5), grey());
    let outside = Ray::new(Vec3::zero(), v3(0.0, 0.0, -1.0));
    let h = s.hit(&outside, &visible()).unwrap();
    assert!(h.front_face);
    assert!(dot(h.normal, outside.direction()).to_raw() <= 0);
    assert!(close(h.normal, v3(0.0, 0.0, 1.0), 1e-6));
    // from the centre of the sphere, as through a bubble of glass
    let inside = Ray::new(v3(0.0, 0.0, -1.0), v3(0.3, 0.2, -1.0));
    let g = s.hit(&inside, &visible()).unwrap();
    assert!(!g.front_face);
    assert!(dot(g.normal, inside.direction()).to_raw() <= 0);
}

#[test]
fn set_face_normal_never_leaves_the_normal_along_the_ray() {
    let dirs = [v3(1.0, 0.0, 0.0), v3(-0.3, 0.8, 0.1), v3(0.0, -1.0, 2.0), v3(0.001, 0.0, 0.0)];
    let normals = [
        v3(1.0, 0.0, 0.0), v3(-1.0, 0.0, 0.0), v3(0.2, 0.5, -0.7), v3(0.0, 0.0, 0.0),
        v3(0.0, 1.0, 0.0), v3(-0.3, 0.8, 0.1),
    ];
    for d in dirs {
        for n in normals {
            let r = Ray::new(Vec3::zero(), d);
            let mut rec = HitRecord::default();
            rec.set_face_normal(&r, n);
            assert!(dot(rec.normal, r.direction()).to_raw() <= 0);
            assert_eq!(rec.front_face, dot(d, n).to_raw() < 0);
            let kept = if rec.front_face { n } else { n.neg() };
            assert_eq!(rec.normal.x.to_raw(), kept.x.to_raw());
            assert_eq!(rec.normal.y.to_raw(), kept.y.to_raw());
            assert_eq!(rec.normal.z.to_raw(), kept.z.to_raw());
        }
    }
    // even at the limits of the number range
    let r = Ray::new(Vec3::zero(), Vec3::new(Fixed { raw: i64::MIN }, Fixed::one(), Fixed::zero()));
    let n = Vec3::new(Fixed { raw: i64::MIN }, Fixed { raw: i64::MAX }, Fixed::zero());
    let mut rec = HitRecord::default();
    rec.set_face_normal(&r, n);
    assert!(dot(rec.normal, r.direction()).to_raw() <= 0);
}

#[test]
fn sphere_is_missed_beside_behind_and_out_of_range() {
    let s = Sphere::new(v3(0.0, 0.0, -1.0), fx(0.5), grey());
    assert!(s.hit(&Ray::new(Vec3::zero(), v3(0.0, 1.0, 0.0)), &visible()).is_none());
    assert!(s.hit(&Ray::new(Vec3::zero(), v3(0.0, 0.0, 1.0)), &visible()).is_none());
    assert!(s.hit(&Ray::new(v3(0.0, 0.6, 0.0), v3(0.0, 0.0, -1.0)), &visible()).is_none());
    let r = Ray::new(Vec3::zero(), v3(0.0, 0.0, -1.0));
    assert!(s.hit(&r, &Interval::new(Fixed::zero(), fx(0.4))).is_none());
    assert!(s.hit(&r, &Interval::new(fx(1.6), fx(9.0))).is_none());
    // a direction of no length hits nothing
    assert!(s.hit(&Ray::new(Vec3::zero(), Vec3::zero()), &Interval::universe()).is_none());
    assert!(s.hit(&Ray::new(v3(0.0, 0.0, -1.0), Vec3::zero()), &Interval::universe()).is_none());
}

#[test]
fn sphere_gives_the_far_root_when_the_near_one_is_out_of_range() {
    let s = Sphere::new(v3(0.0, 0.0, -1.0), fx(0.5), grey());
    let r = Ray::new(Vec3::zero(), v3(0.0, 0.0, -1.0));
    let near = s.hit(&r, &visible()).unwrap();
    assert!((to_f64(near.t) - 0.5).abs() < 1e-6);
    let far = s.hit(&r, &Interval::new(fx(0.6), fx(9.0))).unwrap();
    assert!((to_f64(far.t) - 1.5).abs() < 1e-6);
    assert!(!far.front_face);
    // the ends of the range are not part of it
    assert!(s.hit(&r, &Interval::new(near.t, far.t)).is_none());
}

#[test]
fn sphere_surface_coordinates_follow_the_angles() {
    let uv = |p: Vec3| {
        let (u, v) = Sphere::get_sphere_uv(p);
        (to_f64(u), to_f64(v))
    };
    let (u, v) = uv(v3(1.0, 0.0, 0.0));
    assert!((u - 0.5).abs() < 1e-6 && (v - 0.5).abs() < 1e-4);
    let (u, v) = uv(v3(0.0, 0.0, 1.0));
    assert!((u - 0.25).abs() < 1e-6 && (v - 0.5).abs() < 1e-4);
    let (u, v) = uv(v3(0.0, 0.0, -1.0));
    assert!((u - 0.75).abs() < 1e-6 && (v - 0.5).abs() < 1e-4);
    let (_, v) = uv(v3(0.0, 1.0, 0.0));
    assert!((v - 1.0).abs() < 1e-4);
    let (_, v) = uv(v3(0.0, -1.0, 0.0));
    assert!(v.abs() < 1e-4);
    let hit = Sphere::new(Vec3::zero(), fx(2.0), grey())
        .hit(&Ray::new(v3(5.0, 0.0, 0.0), v3(-1.0, 0.0, 0.0)), &visible())
        .unwrap();
    assert!((to_f64(hit.u) - 0.5).abs() < 1e-6 && (to_f64(hit.v) - 0.5).abs() < 1e-4);
}

#[test]
fn sphere_surface_coordinates_are_exact_at_the_axes() {
    let uv = |x: i32, y: i32, z: i32| {
        let (u, v) = Sphere::get_sphere_uv(Vec3::from_ints(x, y, z));
        (u.to_raw(), v.to_raw())
    };
    let quarter = 1i64 << 30;
    assert_eq!(uv(1, 0, 0), (2 * quarter, 2 * quarter));
    assert_eq!(uv(0, 0, 1), (quarter, 2 * quarter));
    assert_eq!(uv(0, 0, -1), (3 * quarter, 2 * quarter));
    assert_eq!(uv(0, 1, 0).1, 4 * quarter);
    assert_eq!(uv(0, -1, 0).1, 0);
    // the hit straight on the sphere in front of the origin
    let s = Sphere::new(v3(0.0, 0.0, -1.0), fx(0.5), grey());
    let h = s.hit(&Ray::new(Vec3::zero(), v3(0.0, 0.0, -1.0)), &visible()).unwrap();
    assert_eq!(h.t.to_raw(), 1 << 31);
    assert_eq!((h.p.x.to_raw(), h.p.y.to_raw(), h.p.z.to_raw()), (0, 0, -(1 << 31)));
    assert_eq!((h.u.to_raw(), h.v.to_raw()), (quarter, 2 * quarter));
}

#[test]
fn sphere_box_holds_the_sphere() {
    let s = Sphere::new(v3(1.0, 2.0, 3.0), fx(0.5), grey());
    let b = s.bounding_box();
    assert_eq!(b.x.min.to_raw(), fx(0.5).to_raw());
    assert_eq!(b.x.max.to_raw(), fx(1.5).to_raw());
    assert_eq!(b.y.min.to_raw(), fx(1.5).to_raw());
    assert_eq!(b.z.max.to_raw(), fx(3.5).to_raw());
    // a negative radius counts as zero
    let z = Sphere::new(v3(1.0, 2.0, 3.0), fx(-4.0), grey());
    assert_eq!(z.radius.to_raw(), 0);
    assert_eq!(z.bounding_box().x.size().to_raw(), 0);
}

#[test]
fn moving_sphere_is_where_the_ray_time_puts_it() {
    let s = Sphere::new_move(v3(0.0, 0.0, -2.0), v3(4.0, 0.0, -2.0), fx(0.5), grey());
    let at = |time: f64, x: f64| {
        let r = Ray::new_time(v3(x, 0.0, 0.0), v3(0.0, 0.0, -1.0), fx(time));
        s.hit(&r, &visible())
    };
    assert!(at(0.0, 0.0).is_some());
    assert!(at(0.0, 4.0).is_none());
    assert!(at(1.0, 4.0).is_some());
    assert!(at(1.0, 0.0).is_none());
    let mid = at(0.5, 2.0).unwrap();
    assert!(close(mid.p, v3(2.0, 0.0, -1.5), 1e-6));
    let b = s.bounding_box();
    assert_eq!(b.x.min.to_raw(), fx(-0.5).to_raw());
    assert_eq!(b.x.max.to_raw(), fx(4.5).to_raw());
}

#[test]
fn hit_record_carries_the_material_of_the_surface() {
    let mat = grey();
    let s = Sphere::new(v3(0.0, 0.0, -1.0), fx(0.5), mat.clone());
    let h = s.hit(&Ray::new(Vec3::zero(), v3(0.0, 0.0, -1.0)), &visible()).unwrap();
    assert!(Arc::ptr_eq(h.mat.as_ref().unwrap(), &mat));
    let q = Quad::new(v3(-1.0, -1.0, -2.0), v3(2.0, 0.0, 0.0), v3(0.0, 2.0, 0.0), mat.clone());
    let g = q.hit(&Ray::new(Vec3::zero(), v3(0.0, 0.0, -1.0)), &visible()).unwrap();
    assert!(Arc::ptr_eq(g.mat.as_ref().unwrap(), &mat));
    assert!(HitRecord::default().mat.is_none());
}

fn floor_quad() -> Quad {
    // the square [0, 2] x [0, 2] in the plane z = 0
    Quad::new(Vec3::zero(), v3(2.0, 0.0, 0.0), v3(0.0, 2.0, 0.0), grey())
}

#[test]
fn quad_hit_gives_plane_coordinates() {
    let q = floor_quad();
    let r = Ray::new(v3(0.5, 1.5, 5.0), v3(0.0, 0.0, -1.0));
    let h = q.hit(&r, &visible()).unwrap();
    assert!((to_f64(h.t) - 5.0).abs() < 1e-8);
    assert!(close(h.p, v3(0.5, 1.5, 0.0), 1e-8));
    assert!((to_f64(h.u) - 0.25).abs() < 1e-8);
    assert!((to_f64(h.v) - 0.75).abs() < 1e-8);
    assert!(h.front_face);
    assert!(close(h.normal, v3(0.0, 0.0, 1.0), 1e-8));
    // from below the normal is turned around
    let b = q.hit(&Ray::new(v3(0.5, 1.5, -5.0), v3(0.0, 0.0, 2.0)), &visible()).unwrap();
    assert!(!b.front_face);
    assert!(close(b.normal, v3(0.0, 0.0, -1.0), 1e-8));
    assert!((to_f64(b.t) - 2.5).abs() < 1e-8);
}

#[test]
fn quad_is_missed_outside_its_edges_and_by_parallel_rays() {
    let q = floor_quad();
    let down = v3(0.0, 0.0, -1.0);
    assert!(q.hit(&Ray::new(v3(-0.1, 1.0, 5.0), down), &visible()).is_none());
    assert!(q.hit(&Ray::new(v3(2.1, 1.0, 5.0), down), &visible()).is_none());
    assert!(q.hit(&Ray::new(v3(1.0, -0.1, 5.0), down), &visible()).is_none());
    assert!(q.hit(&Ray::new(v3(1.0, 2.1, 5.0), down), &visible()).is_none());
    // the edges are part of the quad
    assert!(q.hit(&Ray::new(v3(0.0, 0.0, 5.0), down), &visible()).is_some());
    assert!(q.hit(&Ray::new(v3(2.0, 2.0, 5.0), down), &visible()).is_some());
    // parallel to the plane, in it or off it
    assert!(q.hit(&Ray::new(v3(-1.0, 1.0, 0.0), v3(1.0, 0.0, 0.0)), &visible()).is_none());
    assert!(q.hit(&Ray::new(v3(-1.0, 1.0, 1.0), v3(1.0, 0.0, 0.0)), &visible()).is_none());
    // pointing away
    assert!(q.hit(&Ray::new(v3(1.0, 1.0, 5.0), v3(0.0, 0.0, 1.0)), &visible()).is_none());
    // a quad whose edges span no area
    let flat = Quad::new(Vec3::zero(), v3(1.0, 0.0, 0.0), v3(2.0, 0.0, 0.0), grey());
    assert!(flat.hit(&Ray::new(v3(0.5, 0.0, 5.0), down), &visible()).is_none());
}

#[test]
fn quad_range_includes_its_ends() {
    let q = floor_quad();
    let r = Ray::new(v3(1.0, 1.0, 5.0), v3(0.0, 0.0, -1.0));
    assert!(q.hit(&r, &Interval::new(fx(5.0), fx(9.0))).is_some());
    assert!(q.hit(&r, &Interval::new(fx(0.0), fx(5.0))).is_some());
    assert!(q.hit(&r, &Interval::new(fx(0.0), fx(4.999))).is_none());
    assert!(q.hit(&r, &Interval::new(fx(5.001), fx(9.0))).is_none());
}

#[test]
fn quad_interior_is_the_unit_square() {
    let q = floor_quad();
    let mut rec = HitRecord::default();
    assert!(q.is_interior(fx(0.25), fx(1.0), &mut rec));
    assert_eq!(rec.u.to_raw(), fx(0.25).to_raw());
    assert_eq!(rec.v.to_raw(), fx(1.0).to_raw());
    assert!(!q.is_interior(fx(1.5), fx(0.5), &mut rec));
    assert!(!q.is_interior(fx(0.5), fx(-0.001), &mut rec));
    // a miss leaves the record as it was
    assert_eq!(rec.u.to_raw(), fx(0.25).to_raw());
    assert_eq!(rec.v.to_raw(), fx(1.0).to_raw());
}

#[test]
fn quad_geometry_is_derived_once() {
    let q = Quad::new(v3(1.0, 0.0, 3.0), v3(0.0, 0.0, -4.0), v3(0.0, 2.0, 0.0), grey());
    // u x v = (0,0,-4) x (0,2,0) = (8, 0, 0)
    assert!(close(q.normal, v3(1.0, 0.0, 0.0), 1e-9));
    assert_eq!(q.area.to_raw(), 8 << 32);
    assert_eq!(q.d.to_raw(), 1 << 32);
    let b = q.bounding_box();
    // the box of the four corners: no thickness along x
    assert_eq!(b.x.min.to_raw(), 1 << 32);
    assert_eq!(b.x.max.to_raw(), 1 << 32);
    assert_eq!(b.y.min.to_raw(), 0);
    assert_eq!(b.y.max.to_raw(), 2 << 32);
    assert_eq!(b.z.min.to_raw(), fx(-1.0).to_raw());
    assert_eq!(b.z.max.to_raw(), 3 << 32);
}

#[test]
fn quad_density_is_distance_squared_over_cosine_and_area() {
    let q = floor_quad();
    // straight above the centre, at height five: 25 / (1 * 4)
    let d = q.pdf_value(v3(1.0, 1.0, 5.0), v3(0.0, 0.0, -1.0));
    assert!((to_f64(d) - 6.25).abs() < 1e-6);
    // the same direction at another length
    let e = q.pdf_value(v3(1.0, 1.0, 5.0), v3(0.0, 0.0, -3.0));
    assert!((to_f64(e) - 6.25).abs() < 1e-6);
    // at a slant: from (1, 1, 2) toward (2, 1, 0): distance^2 = 5, cosine = 2 / sqrt(5)
    let f = q.pdf_value(v3(1.0, 1.0, 2.0), v3(1.0, 0.0, -2.0));
    assert!((to_f64(f) - 5.0 / (2.0 / 5.0f64.sqrt() * 4.0)).abs() < 1e-6);
    // a direction that misses the quad
    assert_eq!(q.pdf_value(v3(1.0, 1.0, 5.0), v3(0.0, 0.0, 1.0)).to_raw(), 0);
    assert_eq!(q.pdf_value(v3(1.0, 1.0, 5.0), v3(1.0, 0.0, 0.0)).to_raw(), 0);
}

#[test]
fn quad_random_directions_reach_the_quad() {
    let q = floor_quad();
    let origin = v3(3.0, -1.0, 4.0);
    assert_eq!(q.toward(origin, Fixed::zero(), Fixed::zero()).x.to_raw(), fx(-3.0).to_raw());
    let far = q.toward(origin, Fixed::one(), Fixed::half());
    assert!(close(far, v3(-1.0, 2.0, -4.0), 1e-9));
    for _ in 0..200 {
        let d = q.random(origin);
        let h = q.hit(&Ray::new(origin, d), &visible()).expect("the direction aims at the quad");
        assert!((to_f64(h.t) - 1.0).abs() < 1e-6);
        assert!(q.pdf_value(origin, d).to_raw() > 0);
    }
}

#[test]
fn box_has_six_sides_around_its_corners() {
    let b = box_(v3(1.0, 5.0, 3.0), v3(0.0, 2.0, 4.0), grey());
    match &*b {
        Hittable::List(sides) => {
            assert_eq!(sides.objects.len(), 6);
            for side in sides.objects.iter() {
                assert!(matches!(**side, Hittable::Quad(_)));
            }
        }
        _ => panic!("a box is a list of its sides"),
    }
    let bb = b.bounding_box();
    assert_eq!((bb.x.min.to_raw(), bb.x.max.to_raw()), (0, 1 << 32));
    assert_eq!((bb.y.min.to_raw(), bb.y.max.to_raw()), (2 << 32, 5 << 32));
    assert_eq!((bb.z.min.to_raw(), bb.z.max.to_raw()), (3 << 32, 4 << 32));
    let other = box_(v3(0.0, 2.0, 4.0), v3(1.0, 5.0, 3.0), grey());
    assert_eq!(other.bounding_box().x.min.to_raw(), bb.x.min.to_raw());
    assert_eq!(other.bounding_box().z.max.to_raw(), bb.z.max.to_raw());
    // a unit box seen from above is met at its top face
    let unit = box_(Vec3::zero(), Vec3::from_ints(1, 1, 1), grey());
    let down = Ray::new(v3(0.5, 5.0, 0.5), v3(0.0, -1.0, 0.0));
    assert_eq!(unit.hit(&down, &visible()).unwrap().t.to_raw(), 4 << 32);
    // a ray along each axis enters through one side and would leave through the opposite one
    let centre = v3(0.5, 3.5, 3.5);
    let dirs = [(1, 0, 0), (-1, 0, 0), (0, 1, 0), (0, -1, 0), (0, 0, 1), (0, 0, -1)];
    for (x, y, z) in dirs {
        let d = Vec3::from_ints(x, y, z);
        let r = Ray::new(centre.sub(d.scale(fx(10.0))), d);
        let h = b.hit(&r, &visible()).expect("the ray passes through the box");
        assert!(h.front_face);
        assert!(close(h.normal, d.neg(), 1e-9), "direction {:?}", (x, y, z));
        let half = if x != 0 { 0.5 } else if y != 0 { 1.5 } else { 0.5 };
        assert!((to_f64(h.t) - (10.0 - half)).abs() < 1e-6);
    }
}

#[test]
fn surfaces_the_size_of_a_room_are_hit_where_they_stand() {
    // a camera in front of a room 555 units wide
    let eye = v3(278.0, 278.0, -800.0);
    let back = Quad::new(v3(0.0, 0.0, 555.0), v3(555.0, 0.0, 0.0), v3(0.0, 555.0, 0.0), grey());
    let r = Ray::new(eye, v3(0.1, -0.2, 1.0));
    let h = back.hit(&r, &visible()).unwrap();
    assert!((to_f64(h.t) - 1355.0).abs() < 1e-5);
    assert!(close(h.p, v3(278.0 + 135.5, 278.0 - 271.0, 555.0), 1e-4));
    assert!((to_f64(h.u) - (278.0 + 135.5) / 555.0).abs() < 1e-6);
    assert!((to_f64(h.v) - 7.0 / 555.0).abs() < 1e-6);
    assert_eq!(back.area.to_raw(), (555 * 555) << 32);
    let ball = Sphere::new(v3(190.0, 90.0, 190.0), fx(90.0), grey());
    let toward = v3(190.0, 90.0, 190.0).sub(eye);
    let g = ball.hit(&Ray::new(eye, toward), &visible()).unwrap();
    let distance = to_f64(toward.length());
    assert!((to_f64(g.t) - (1.0 - 90.0 / distance)).abs() < 1e-6);
    // a sphere of radius 5000 about the scene, seen from inside along a long direction
    let fog = Sphere::new(Vec3::zero(), fx(5000.0), grey());
    let out = fog.hit(&Ray::new(eye, v3(0.0, 0.0, 10.0)), &visible()).unwrap();
    let reach = (5000.0f64 * 5000.0 - 2.0 * 278.0 * 278.0).sqrt();
    assert!((to_f64(out.t) - (reach + 800.0) / 10.0).abs() < 1e-5);
    assert!(!out.front_face);
}
