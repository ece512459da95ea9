use pathtracer::bvh_node::BvhNode;
use pathtracer::fixed::Fixed;
use pathtracer::hittable::{Hittable, RotateY, Translate};
use pathtracer::hittable_list::HittableList;
use pathtracer::interval::Interval;
use pathtracer::material::{Lambertian, Material};
use pathtracer::quad::Quad;
use pathtracer::ray::Ray;
use pathtracer::sphere::Sphere;
use pathtracer::vec3::Vec3;
use std::sync::Arc;

fn fx(x: f64) -> Fixed {
    Fixed::from_raw((x * 4294967296.0).round() as i64)
}

fn to_f64(x: Fixed) -> f64 {
    x.to_raw() as f64 / 4294967296.0
}

fn v3(x: f64, y: f64, z: f64) -> Vec3 {
    Vec3::new(fx(x), fx(y), fx(z))
}

fn close(a: Vec3, b: Vec3, tol: f64) -> bool {
    (to_f64(a.x) - to_f64(b.x)).abs() < tol
        && (to_f64(a.y) - to_f64(b.y)).abs() < tol
        && (to_f64(a.z) - to_f64(b.z)).abs() < tol
}

fn grey() -> Arc<Material> {
    Arc::new(Material::Lambertian(Lambertian::new(v3(0.5, 0.5, 0.5))))
}

fn sphere(x: f64, y: f64, z: f64, r: f64) -> Arc<Hittable> {
    Arc::new(Hittable::Sphere(Sphere::new(v3(x, y, z), fx(r), grey())))
}

fn visible() -> Interval {
    Interval::new(Fixed::from_ratio(1, 1000), Fixed::infinity())
}

/// A small generator of repeatable numbers in [0, 1).
struct Lcg(u64);

impl Lcg {
    fn next(&mut self) -> f64 {
        self.0 = self.0.wrapping_mul(6364136223846793005).wrapping_add(1442695040888963407);
        ((self.0 >> 11) as f64) / ((1u64 << 53) as f64)
    }

    fn between(&mut self, lo: f64, hi: f64) -> f64 {
        lo + (hi - lo) * self.next()
    }
}

#[test]
fn list_reports_the_nearest_of_its_surfaces() {
    let mut list = HittableList::default();
    assert!(list.hit(&Ray::new(Vec3::zero(), v3(0.0, 0.0, -1.0)), &visible()).is_none());
    list.add(sphere(0.0, 0.0, -5.0, 0.5));
    list.add(sphere(0.0, 0.0, -2.0, 0.5));
    list.add(sphere(0.0, 0.0, -8.0, 0.5));
    list.add(sphere(3.0, 0.0, -1.0, 0.5));
    let h = list.hit(&Ray::new(Vec3::zero(), v3(0.0, 0.0, -1.0)), &visible()).unwrap();
    assert!((to_f64(h.t) - 1.5).abs() < 1e-6);
    // past the first two
    let far = list
        .hit(&Ray::new(Vec3::zero(), v3(0.0, 0.0, -1.0)), &Interval::new(fx(6.0), fx(20.0)))
        .unwrap();
    assert!((to_f64(far.t) - 7.5).abs() < 1e-6);
    assert!(list.hit(&Ray::new(Vec3::zero(), v3(0.0, 1.0, 0.0)), &visible()).is_none());
}

#[test]
fn list_grows_its_box_as_surfaces_are_added() {
    let mut list = HittableList::new(sphere(0.0, 0.0, 0.0, 1.0));
    assert_eq!(list.objects.len(), 1);
    assert_eq!(list.bounding_box().x.min.to_raw(), fx(-1.0).to_raw());
    assert_eq!(list.bounding_box().x.max.to_raw(), fx(1.0).to_raw());
    list.add(sphere(4.0, 1.0, 0.0, 0.5));
    assert_eq!(list.objects.len(), 2);
    assert_eq!(list.bounding_box().x.max.to_raw(), fx(4.5).to_raw());
    assert_eq!(list.bounding_box().y.max.to_raw(), fx(1.5).to_raw());
    assert_eq!(list.bounding_box().y.min.to_raw(), fx(-1.0).to_raw());
    let kept = list.bounding_box().x.max.to_raw();
    list.clear();
    assert_eq!(list.objects.len(), 0);
    assert_eq!(list.bounding_box().x.max.to_raw(), kept);
    let empty = HittableList::default();
    assert!(empty.bounding_box().x.size().to_raw() < 0);
}

#[test]
fn tree_over_one_surface_has_it_on_both_sides() {
    let s = sphere(0.0, 0.0, -2.0, 0.5);
    let mut objects = vec![s.clone()];
    let node = BvhNode::new(&mut objects, 0, 1);
    assert!(Arc::ptr_eq(&node.left, &s));
    assert!(Arc::ptr_eq(&node.right, &s));
    assert_eq!(node.bounding_box().z.min.to_raw(), fx(-2.5).to_raw());
    let h = node.hit(&Ray::new(Vec3::zero(), v3(0.0, 0.0, -1.0)), &visible()).unwrap();
    assert!((to_f64(h.t) - 1.5).abs() < 1e-6);
}

#[test]
fn tree_over_two_surfaces_orders_them_along_the_longest_axis() {
    let a = sphere(5.0, 0.0, 0.0, 0.5);
    let b = sphere(-5.0, 0.0, 0.0, 0.5);
    let mut objects = vec![a.clone(), b.clone()];
    let node = BvhNode::new(&mut objects, 0, 2);
    assert!(Arc::ptr_eq(&node.left, &b));
    assert!(Arc::ptr_eq(&node.right, &a));
    let mut in_order = vec![b.clone(), a.clone()];
    let same = BvhNode::new(&mut in_order, 0, 2);
    assert!(Arc::ptr_eq(&same.left, &b));
    assert!(Arc::ptr_eq(&same.right, &a));
    // along y when the spread along y is the longer one
    let c = sphere(0.0, 9.0, 0.0, 0.5);
    let d = sphere(1.0, -9.0, 0.0, 0.5);
    let mut column = vec![c.clone(), d.clone()];
    let vertical = BvhNode::new(&mut column, 0, 2);
    assert!(Arc::ptr_eq(&vertical.left, &d));
    assert!(Arc::ptr_eq(&vertical.right, &c));
    assert_eq!(vertical.bounding_box().y.min.to_raw(), fx(-9.5).to_raw());
    assert_eq!(vertical.bounding_box().y.max.to_raw(), fx(9.5).to_raw());
    assert!(BvhNode::box_compare(&b, &a, 0));
    assert!(!BvhNode::box_compare(&a, &b, 0));
    assert!(!BvhNode::box_compare(&a, &a, 0));
    assert_eq!(BvhNode::axis_key(&a, 0), fx(4.5).to_raw());
}

#[test]
fn tree_sorts_and_splits_larger_spans() {
    let xs = [7.0, -3.0, 5.0, 1.0, -9.0];
    let mut objects: Vec<Arc<Hittable>> = xs.iter().map(|x| sphere(*x, 0.0, 0.0, 0.25)).collect();
    let before = objects.clone();
    let node = BvhNode::new(&mut objects, 0, 5);
    // the span is left in order of its least x coordinate
    let keys: Vec<i64> = objects.iter().map(|o| BvhNode::axis_key(o, 0)).collect();
    let mut sorted = keys.clone();
    sorted.sort();
    assert_eq!(keys, sorted);
    for o in before.iter() {
        assert!(objects.iter().any(|p| Arc::ptr_eq(o, p)));
    }
    // the first half is the shorter: two on the left, three on the right
    match (&*node.left, &*node.right) {
        (Hittable::Bvh(l), Hittable::Bvh(r)) => {
            assert_eq!(l.bounding_box().x.min.to_raw(), fx(-9.25).to_raw());
            assert_eq!(l.bounding_box().x.max.to_raw(), fx(-2.75).to_raw());
            assert_eq!(r.bounding_box().x.min.to_raw(), fx(0.75).to_raw());
            assert_eq!(r.bounding_box().x.max.to_raw(), fx(7.25).to_raw());
        }
        _ => panic!("the children of a larger span are trees"),
    }
    assert_eq!(node.bounding_box().x.min.to_raw(), fx(-9.25).to_raw());
    assert_eq!(node.bounding_box().x.max.to_raw(), fx(7.25).to_raw());
}

#[test]
fn tree_building_leaves_the_rest_of_the_vector_alone() {
    let xs = [7.0, -3.0, 5.0, 1.0, -9.0, 2.0, 8.0];
    let mut objects: Vec<Arc<Hittable>> = xs.iter().map(|x| sphere(*x, 0.0, 0.0, 0.25)).collect();
    let before = objects.clone();
    let _ = BvhNode::new(&mut objects, 1, 5);
    assert_eq!(objects.len(), 7);
    for i in [0usize, 5, 6] {
        assert!(Arc::ptr_eq(&objects[i], &before[i]));
    }
    for i in 1..5 {
        assert!(before[1..5].iter().any(|p| Arc::ptr_eq(&objects[i], p)));
        assert!(objects[1..5].iter().any(|p| Arc::ptr_eq(&before[i], p)));
    }
}

#[test]
fn tree_keeps_the_order_of_surfaces_with_equal_bounds() {
    // all four start at the same x: the order they came in decides
    let a = sphere(0.0, 0.0, 0.0, 1.0);
    let b = sphere(0.0, 0.1, 0.0, 1.0);
    let c = sphere(0.0, 0.2, 0.0, 1.0);
    let d = sphere(1.0, 0.3, 0.0, 2.0);
    let mut objects = vec![a.clone(), b.clone(), c.clone(), d.clone()];
    let _ = BvhNode::new(&mut objects, 0, 4);
    // the top level sorts along x, where all keys are equal, and splits two and two
    assert!(objects[..2].iter().any(|p| Arc::ptr_eq(p, &a)));
    assert!(objects[..2].iter().any(|p| Arc::ptr_eq(p, &b)));
    assert!(objects[2..].iter().any(|p| Arc::ptr_eq(p, &c)));
    assert!(objects[2..].iter().any(|p| Arc::ptr_eq(p, &d)));
    let mut again = vec![a.clone(), b.clone(), c.clone(), d.clone()];
    let _ = BvhNode::new(&mut again, 0, 4);
    for i in 0..4 {
        assert!(Arc::ptr_eq(&objects[i], &again[i]));
    }
}

fn scattered_spheres(count: usize, seed: u64) -> Vec<Arc<Hittable>> {
    let mut g = Lcg(seed);
    let mut out = Vec::new();
    for _ in 0..count {
        let x = g.between(-10.0, 10.0);
        let y = g.between(-10.0, 10.0);
        let z = g.between(-10.0, 10.0);
        let r = g.between(0.2, 1.5);
        out.push(sphere(x, y, z, r));
    }
    out
}

fn same_hit(a: &Option<pathtracer::hittable::HitRecord>, b: &Option<pathtracer::hittable::HitRecord>) -> bool {
    match (a, b) {
        (None, None) => true,
        (Some(x), Some(y)) => {
            x.t.to_raw() == y.t.to_raw()
                && x.p.x.to_raw() == y.p.x.to_raw()
                && x.p.y.to_raw() == y.p.y.to_raw()
                && x.p.z.to_raw() == y.p.z.to_raw()
                && x.normal.x.to_raw() == y.normal.x.to_raw()
                && x.front_face == y.front_face
                && Arc::ptr_eq(x.mat.as_ref().unwrap(), y.mat.as_ref().unwrap())
        }
        _ => false,
    }
}

#[test]
fn tree_and_scan_report_the_same_hit() {
    for (count, seed) in [(1usize, 3u64), (2, 5), (3, 7), (10, 11), (64, 13), (200, 17)] {
        let objects = scattered_spheres(count, seed);
        let mut list = HittableList::default();
        for o in objects.iter() {
            list.add(o.clone());
        }
        let tree = BvhNode::new_list(&list);
        let mut g = Lcg(seed * 31 + 1);
        let mut hits = 0;
        for _ in 0..400 {
            let o = v3(g.between(-15.0, 15.0), g.between(-15.0, 15.0), g.between(-15.0, 15.0));
            let d = v3(g.between(-1.0, 1.0), g.between(-1.0, 1.0), g.between(-1.0, 1.0));
            let r = Ray::new(o, d);
            let t_min = g.between(0.0, 2.0);
            let t_max = t_min + g.between(0.0, 60.0);
            let range = Interval::new(fx(t_min), fx(t_max));
            let by_scan = list.hit(&r, &range);
            let by_tree = tree.hit(&r, &range);
            assert!(same_hit(&by_scan, &by_tree), "{} spheres, ray {:?} {:?}", count, o, d);
            if by_scan.is_some() {
                hits += 1;
            }
        }
        assert!(count < 10 || hits > 0);
    }
}

#[test]
fn tree_of_a_list_leaves_the_list_as_it_was() {
    let objects = scattered_spheres(9, 23);
    let mut list = HittableList::default();
    for o in objects.iter() {
        list.add(o.clone());
    }
    let _ = BvhNode::new_list(&list);
    assert_eq!(list.objects.len(), 9);
    for i in 0..9 {
        assert!(Arc::ptr_eq(&list.objects[i], &objects[i]));
    }
}

#[test]
fn tree_finds_quads_through_their_flat_boxes() {
    let mut list = HittableList::default();
    for k in 0..6 {
        let z = -(k as f64) - 1.0;
        list.add(Arc::new(Hittable::Quad(Quad::new(
            v3(-1.0, -1.0, z),
            v3(2.0, 0.0, 0.0),
            v3(0.0, 2.0, 0.0),
            grey(),
        ))));
    }
    let tree = BvhNode::new_list(&list);
    let r = Ray::new(Vec3::zero(), v3(0.1, -0.2, -1.0));
    let by_tree = tree.hit(&r, &visible()).unwrap();
    let by_scan = list.hit(&r, &visible()).unwrap();
    assert!((to_f64(by_tree.t) - 1.0).abs() < 1e-6);
    assert_eq!(by_tree.t.to_raw(), by_scan.t.to_raw());
    let deep = Interval::new(fx(3.5), fx(100.0));
    assert!((to_f64(tree.hit(&r, &deep).unwrap().t) - 4.0).abs() < 1e-6);
}

#[test]
fn trees_nest_inside_lists_and_trees() {
    let mut near = HittableList::default();
    near.add(sphere(0.0, 0.0, -3.0, 0.5));
    near.add(sphere(2.0, 0.0, -3.0, 0.5));
    near.add(sphere(-2.0, 0.0, -3.0, 0.5));
    let mut far = HittableList::default();
    far.add(sphere(0.0, 0.0, -9.0, 0.5));
    far.add(sphere(0.0, 2.0, -9.0, 0.5));
    let mut world = HittableList::default();
    world.add(Arc::new(Hittable::Bvh(BvhNode::new_list(&far))));
    world.add(Arc::new(Hittable::Bvh(BvhNode::new_list(&near))));
    world.add(Arc::new(Hittable::List(far)));
    let top = BvhNode::new_list(&world);
    let h = top.hit(&Ray::new(Vec3::zero(), v3(0.0, 0.0, -1.0)), &visible()).unwrap();
    assert!((to_f64(h.t) - 2.5).abs() < 1e-6);
    let g = top.hit(&Ray::new(Vec3::zero(), v3(0.0, 2.0, -9.0)), &visible()).unwrap();
    assert!(close(g.p, v3(0.0, 2.0, -9.0).scale(fx(1.0 - 0.5 / 85.0f64.sqrt())), 1e-5));
}

#[test]
fn translated_surface_is_hit_where_it_was_moved_to() {
    let moved = Translate::new(sphere(0.0, 0.0, 0.0, 0.5), v3(3.0, 0.0, -4.0));
    assert_eq!(moved.bounding_box().x.min.to_raw(), fx(2.5).to_raw());
    assert_eq!(moved.bounding_box().z.max.to_raw(), fx(-3.5).to_raw());
    let r = Ray::new(v3(3.0, 0.0, 0.0), v3(0.0, 0.0, -1.0));
    let h = moved.hit(&r, &visible()).unwrap();
    assert!((to_f64(h.t) - 3.5).abs() < 1e-6);
    assert!(close(h.p, v3(3.0, 0.0, -3.5), 1e-6));
    assert!(close(h.normal, v3(0.0, 0.0, 1.0), 1e-6));
    assert!(moved.hit(&Ray::new(Vec3::zero(), v3(0.0, 0.0, -1.0)), &visible()).is_none());
}

#[test]
fn rotated_surface_is_hit_where_it_was_turned_to() {
    // a quarter turn about y carries (1, 0, 0) to (0, 0, -1)
    let turned = RotateY::new(sphere(4.0, 0.0, 0.0, 0.5), Fixed::from_int(90));
    assert!((to_f64(turned.sin_theta) - 1.0).abs() < 1e-6);
    assert!(to_f64(turned.cos_theta).abs() < 1e-6);
    let r = Ray::new(Vec3::zero(), v3(0.0, 0.0, -1.0));
    let h = turned.hit(&r, &visible()).unwrap();
    assert!((to_f64(h.t) - 3.5).abs() < 1e-5);
    assert!(close(h.p, v3(0.0, 0.0, -3.5), 1e-5));
    assert!(close(h.normal, v3(0.0, 0.0, 1.0), 1e-5));
    assert!(turned.hit(&Ray::new(Vec3::zero(), v3(1.0, 0.0, 0.0)), &visible()).is_none());
    let b = turned.bounding_box();
    assert!((to_f64(b.z.min) + 4.5).abs() < 1e-5 && (to_f64(b.z.max) + 3.5).abs() < 1e-5);
    assert!((to_f64(b.x.min) + 0.5).abs() < 1e-5 && (to_f64(b.x.max) - 0.5).abs() < 1e-5);
    assert_eq!(b.y.min.to_raw(), fx(-0.5).to_raw());
}

#[test]
fn rotation_by_a_slant_turns_the_box_corners() {
    let turned = RotateY::new(sphere(0.0, 0.0, 0.0, 1.0), Fixed::from_int(45));
    let b = turned.bounding_box();
    let w = 2.0f64.sqrt();
    assert!((to_f64(b.x.min) + w).abs() < 1e-5 && (to_f64(b.x.max) - w).abs() < 1e-5);
    assert!((to_f64(b.z.min) + w).abs() < 1e-5 && (to_f64(b.z.max) - w).abs() < 1e-5);
    assert_eq!(b.y.min.to_raw(), fx(-1.0).to_raw());
    assert_eq!(b.y.max.to_raw(), fx(1.0).to_raw());
}

#[test]
fn surfaces_of_every_kind_answer_through_the_common_type() {
    let s = sphere(0.0, 0.0, -3.0, 0.5);
    let moved: Arc<Hittable> = Arc::new(Hittable::Translate(Translate::new(s.clone(), v3(0.0, 0.0, 1.0))));
    let turned: Arc<Hittable> = Arc::new(Hittable::RotateY(RotateY::new(moved.clone(), Fixed::zero())));
    let r = Ray::new(Vec3::zero(), v3(0.0, 0.0, -1.0));
    assert!((to_f64(s.hit(&r, &visible()).unwrap().t) - 2.5).abs() < 1e-6);
    assert!((to_f64(moved.hit(&r, &visible()).unwrap().t) - 1.5).abs() < 1e-6);
    assert!((to_f64(turned.hit(&r, &visible()).unwrap().t) - 1.5).abs() < 1e-6);
    assert_eq!(moved.bounding_box().z.max.to_raw(), fx(-1.5).to_raw());
    // only quads give a density and a direction of their own
    assert_eq!(s.pdf_value(Vec3::zero(), v3(0.0, 0.0, -1.0)).to_raw(), 0);
    let d = s.random(Vec3::zero());
    assert_eq!((d.x.to_raw(), d.y.to_raw(), d.z.to_raw()), (1 << 32, 0, 0));
    let q: Arc<Hittable> = Arc::new(Hittable::Quad(Quad::new(
        v3(-1.0, -1.0, -2.0),
        v3(2.0, 0.0, 0.0),
        v3(0.0, 2.0, 0.0),
        grey(),
    )));
    assert!((to_f64(q.pdf_value(Vec3::zero(), v3(0.0, 0.0, -1.0))) - 1.0).abs() < 1e-6);
    let toward = q.random(Vec3::zero());
    assert!(q.hit(&Ray::new(Vec3::zero(), toward), &visible()).is_some());
}

#[test]
fn tree_misses_a_hit_that_the_box_of_the_surface_does_not_hold() {
    // the ray touches the quad at its corner only, and its box there only: the passage
    // through the slabs of x and y has no length, and the slab test lets the ray go by
    let quad: Arc<Hittable> = Arc::new(Hittable::Quad(Quad::new(
        Vec3::zero(),
        v3(2.0, 0.0, 0.0),
        v3(0.0, 2.0, 0.0),
        grey(),
    )));
    let r = Ray::new(v3(-1.0, 1.0, 1.0), v3(1.0, -1.0, -1.0));
    let alone = quad.hit(&r, &visible()).expect("the corner is part of the quad");
    assert_eq!(alone.t.to_raw(), 1 << 32);
    assert!(!quad.bounding_box().hit(&r, visible()));
    let mut list = HittableList::default();
    list.add(quad.clone());
    assert!(list.hit(&r, &visible()).is_some());
    let tree = BvhNode::new_list(&list);
    assert!(tree.hit(&r, &visible()).is_none());
    // a ray through the inside of the quad is found by both
    let through = Ray::new(v3(-1.0, 1.0, 1.0), v3(2.0, 0.0, -1.0));
    assert!(quad.bounding_box().hit(&through, visible()));
    assert_eq!(
        tree.hit(&through, &visible()).unwrap().t.to_raw(),
        list.hit(&through, &visible()).unwrap().t.to_raw()
    );
}

#[test]
fn surfaces_hit_at_the_same_place_give_the_record_of_either() {
    // two quads in one plane with different materials: a scan keeps the later one,
    // since the range of a quad includes its ends
    let first = grey();
    let second = grey();
    let quad = |m: &Arc<Material>| -> Arc<Hittable> {
        Arc::new(Hittable::Quad(Quad::new(
            v3(-1.0, -1.0, -2.0),
            v3(2.0, 0.0, 0.0),
            v3(0.0, 2.0, 0.0),
            m.clone(),
        )))
    };
    let mut list = HittableList::default();
    list.add(quad(&first));
    list.add(quad(&second));
    let r = Ray::new(Vec3::zero(), v3(0.0, 0.0, -1.0));
    let by_scan = list.hit(&r, &visible()).unwrap();
    assert!(Arc::ptr_eq(by_scan.mat.as_ref().unwrap(), &second));
    let by_tree = BvhNode::new_list(&list).hit(&r, &visible()).unwrap();
    assert_eq!(by_tree.t.to_raw(), by_scan.t.to_raw());
    assert_eq!(by_tree.p.z.to_raw(), by_scan.p.z.to_raw());
}

#[test]
fn turn_by_no_angle_changes_nothing() {
    let child = sphere(1.0, 0.5, -3.0, 1.0);
    let turned = RotateY::new(child.clone(), Fixed::zero());
    assert_eq!(turned.sin_theta.to_raw(), 0);
    assert_eq!(turned.cos_theta.to_raw(), 1 << 32);
    let (a, b) = (turned.bounding_box(), child.bounding_box());
    assert_eq!((a.x.min.to_raw(), a.x.max.to_raw()), (b.x.min.to_raw(), b.x.max.to_raw()));
    assert_eq!((a.y.min.to_raw(), a.y.max.to_raw()), (b.y.min.to_raw(), b.y.max.to_raw()));
    assert_eq!((a.z.min.to_raw(), a.z.max.to_raw()), (b.z.min.to_raw(), b.z.max.to_raw()));
    let r = Ray::new(v3(0.2, 0.1, 0.0), v3(0.3, 0.1, -1.0));
    let there = turned.hit(&r, &visible());
    let here = child.hit(&r, &visible());
    assert!(here.is_some());
    assert!(same_hit(&there, &here));
    assert_eq!(there.unwrap().normal.z.to_raw(), here.unwrap().normal.z.to_raw());
}

#[test]
fn quarter_turn_is_exact() {
    let turned = RotateY::new(sphere(4.0, 0.0, 0.0, 0.5), Fixed::from_int(90));
    assert_eq!(turned.sin_theta.to_raw(), 1 << 32);
    assert_eq!(turned.cos_theta.to_raw(), 0);
    let b = turned.bounding_box();
    assert_eq!((b.z.min.to_raw(), b.z.max.to_raw()), (fx(-4.5).to_raw(), fx(-3.5).to_raw()));
    assert_eq!((b.x.min.to_raw(), b.x.max.to_raw()), (fx(-0.5).to_raw(), fx(0.5).to_raw()));
    let h = turned.hit(&Ray::new(Vec3::zero(), v3(0.0, 0.0, -1.0)), &visible()).unwrap();
    assert_eq!(h.t.to_raw(), fx(3.5).to_raw());
    assert_eq!((h.p.x.to_raw(), h.p.z.to_raw()), (0, fx(-3.5).to_raw()));
}

#[test]
fn tree_building_leaves_the_span_in_one_order() {
    let xs = [7.0, -3.0, 5.0, 1.0, -9.0, 2.0, 8.0, -3.0, 5.0];
    let build = || {
        let mut objects: Vec<Arc<Hittable>> = xs.iter().map(|x| sphere(*x, 0.0, 0.0, 0.25)).collect();
        let _ = BvhNode::new(&mut objects, 0, 9);
        objects.iter().map(|o| BvhNode::axis_key(o, 0)).collect::<Vec<i64>>()
    };
    assert_eq!(build(), build());
    // nine surfaces: four and five; the four as two pairs, the five as a pair and
    // three, of which the last two are a pair; pairs stay as the sort left them
    let keys: Vec<f64> = build().iter().map(|k| *k as f64 / 4294967296.0 + 0.25).collect();
    assert_eq!(keys, vec![-9.0, -3.0, -3.0, 1.0, 2.0, 5.0, 5.0, 7.0, 8.0]);
}
