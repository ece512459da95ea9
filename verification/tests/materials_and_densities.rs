use pathtracer::constant_medium::ConstantMedium;
use pathtracer::fixed::Fixed;
use pathtracer::hittable::{HitRecord, Hittable};
use pathtracer::interval::Interval;
use pathtracer::material::{
    cosine_density, uniform_sphere_density, Dielectric, DiffuseLight, Isotropic, Lambertian,
    Material, Metal, NormalShade,
};
use pathtracer::pdf::{CosinePdf, HittablePdf, MixturePdf, Pdf, SpherePdf};
use pathtracer::quad::Quad;
use pathtracer::ray::Ray;
use pathtracer::sphere::Sphere;
use pathtracer::texture::{SolidColor, Texture};
use pathtracer::vec3::{dot, unit_vector, Vec3};
use std::sync::Arc;

fn fx(x: f64) -> Fixed {
    Fixed::from_raw((x * 4294967296.0).round() as i64)
}

fn to_f64(x: Fixed) -> f64 {
    x.to_raw() as f64 / 4294967296.0
}

fn v3(x: f64, y: f64, z: f64) -> Vec3 {
    Vec3::new(fx(x), fx(y), fx(z))
}

fn raw(v: Vec3) -> (i64, i64, i64) {
    (v.x.to_raw(), v.y.to_raw(), v.z.to_raw())
}

fn close(a: Vec3, b: Vec3, tol: f64) -> bool {
    (to_f64(a.x) - to_f64(b.x)).abs() < tol
        && (to_f64(a.y) - to_f64(b.y)).abs() < tol
        && (to_f64(a.z) - to_f64(b.z)).abs() < tol
}

fn visible() -> Interval {
    Interval::new(Fixed::from_ratio(1, 1000), Fixed::infinity())
}

/// A hit at the origin on a surface that faces up the z axis.
fn hit_facing_up(front_face: bool) -> HitRecord {
    HitRecord {
        p: Vec3::zero(),
        normal: Vec3::from_ints(0, 0, 1),
        t: Fixed::one(),
        u: fx(0.25),
        v: fx(0.75),
        front_face,
        mat: None,
    }
}

#[test]
fn diffuse_surface_scatters_with_the_cosine_density() {
    let m = Material::Lambertian(Lambertian::new(v3(0.8, 0.4, 0.2)));
    let r_in = Ray::new(v3(0.0, 0.0, 5.0), v3(0.0, 0.0, -1.0));
    let rec = hit_facing_up(true);
    let s = m.scatter(&r_in, &rec).expect("a diffuse surface always scatters");
    assert_eq!(raw(s.attenuation), raw(v3(0.8, 0.4, 0.2)));
    assert!(!s.skip_pdf);
    match &s.pdf {
        Pdf::Cosine(c) => assert_eq!(raw(c.uvw.w()), raw(Vec3::from_ints(0, 0, 1))),
        _ => panic!("the density of a diffuse surface is the cosine density"),
    }
    assert_eq!(raw(m.emitted(&r_in, &rec, rec.u, rec.v, rec.p)), (0, 0, 0));
}

#[test]
fn diffuse_scattering_density_is_the_cosine_over_pi() {
    let m = Material::Lambertian(Lambertian::new(v3(0.8, 0.4, 0.2)));
    let r_in = Ray::new(v3(0.0, 0.0, 5.0), v3(0.0, 0.0, -1.0));
    let rec = hit_facing_up(true);
    let pdf = |d: Vec3| to_f64(m.scattering_pdf(&r_in, &rec, &Ray::new(Vec3::zero(), d)));
    let pi = std::f64::consts::PI;
    assert!((pdf(v3(0.0, 0.0, 2.0)) - 1.0 / pi).abs() < 1e-8);
    assert!((pdf(v3(3.0f64.sqrt(), 0.0, 1.0)) - 0.5 / pi).abs() < 1e-8);
    assert!((pdf(v3(0.0, 1.0, 1.0)) - 0.5f64.sqrt() / pi).abs() < 1e-8);
    // at and below the horizon the density is zero
    assert_eq!(pdf(v3(1.0, 0.0, 0.0)), 0.0);
    assert_eq!(pdf(v3(0.0, 0.3, -1.0)), 0.0);
    assert_eq!(
        cosine_density(Vec3::from_ints(0, 0, 1), v3(0.0, 0.0, 2.0)).to_raw(),
        m.scattering_pdf(&r_in, &rec, &Ray::new(Vec3::zero(), v3(0.0, 0.0, 2.0))).to_raw()
    );
}

#[test]
fn diffuse_surface_takes_its_color_from_a_texture() {
    let tex = Arc::new(Texture::Solid(SolidColor::new_color(fx(0.1), fx(0.2), fx(0.3))));
    let m = Material::Lambertian(Lambertian::new_texture(tex));
    let s = m.scatter(&Ray::default(), &hit_facing_up(true)).unwrap();
    assert_eq!(raw(s.attenuation), raw(v3(0.1, 0.2, 0.3)));
}

#[test]
fn metal_reflects_about_the_normal() {
    let metal = Metal::new(v3(0.9, 0.8, 0.7), Fixed::zero());
    let r_in = Ray::new_time(v3(-1.0, 0.0, 1.0), v3(2.0, 0.0, -2.0), fx(0.5));
    let rec = hit_facing_up(true);
    let s = metal.scatter_with(&r_in, &rec, Vec3::zero()).expect("the mirror ray leaves the surface");
    assert!(s.skip_pdf);
    assert_eq!(raw(s.attenuation), raw(v3(0.9, 0.8, 0.7)));
    let h = 0.5f64.sqrt();
    assert!(close(s.skip_pdf_ray.direction(), v3(h, 0.0, h), 1e-8));
    assert_eq!(raw(s.skip_pdf_ray.origin()), (0, 0, 0));
    assert_eq!(s.skip_pdf_ray.time().to_raw(), fx(0.5).to_raw());
    // through the common type, with random blur of strength zero
    let m = Material::Metal(Metal::new(v3(0.9, 0.8, 0.7), Fixed::zero()));
    let t = m.scatter(&r_in, &rec).unwrap();
    assert_eq!(raw(t.skip_pdf_ray.direction()), raw(s.skip_pdf_ray.direction()));
    assert_eq!(m.scattering_pdf(&r_in, &rec, &t.skip_pdf_ray).to_raw(), 0);
}

#[test]
fn metal_blur_moves_the_reflection_by_a_disk_point() {
    let metal = Metal::new(v3(1.0, 1.0, 1.0), fx(0.5));
    let r_in = Ray::new(v3(0.0, 0.0, 1.0), v3(0.0, 0.0, -1.0));
    let rec = hit_facing_up(true);
    let s = metal.scatter_with(&r_in, &rec, v3(0.6, -0.2, 0.0)).unwrap();
    assert!(close(s.skip_pdf_ray.direction(), v3(0.3, -0.1, 1.0), 1e-8));
    // a blur of one or more counts as one
    assert_eq!(Metal::new(Vec3::zero(), fx(7.0)).fuzz.to_raw(), 1 << 32);
    assert_eq!(Metal::new(Vec3::zero(), fx(0.25)).fuzz.to_raw(), 1 << 30);
}

#[test]
fn metal_absorbs_rays_blurred_into_the_surface() {
    let metal = Metal::new(v3(1.0, 1.0, 1.0), Fixed::one());
    // a grazing ray: its mirror direction barely leaves the surface
    let r_in = Ray::new(Vec3::zero(), v3(1.0, 0.0, -0.01));
    let mut rec = hit_facing_up(true);
    assert!(metal.scatter_with(&r_in, &rec, Vec3::zero()).is_some());
    assert!(metal.scatter_with(&r_in, &rec, v3(0.0, -0.99, 0.0)).is_some());
    // a wall that faces along x, hit at 45 degrees: the mirror direction is (0.71, 0.71, 0)
    rec.normal = Vec3::from_ints(1, 0, 0);
    let slanted = Ray::new(Vec3::zero(), v3(-1.0, 1.0, 0.0));
    assert!(metal.scatter_with(&slanted, &rec, Vec3::zero()).is_some());
    assert!(metal.scatter_with(&slanted, &rec, v3(-0.5, 0.0, 0.0)).is_some());
    // the disk point pushes it behind the wall
    assert!(metal.scatter_with(&slanted, &rec, v3(-0.9, 0.0, 0.0)).is_none());
}

#[test]
fn glass_reflectance_follows_schlick() {
    let r = |cosine: f64, index: f64| to_f64(Dielectric::reflectance(fx(cosine), fx(index)));
    assert!((r(1.0, 1.5) - 0.04).abs() < 1e-8);
    assert!((r(0.0, 1.5) - 1.0).abs() < 1e-8);
    let r0 = 0.04;
    assert!((r(0.5, 1.5) - (r0 + (1.0 - r0) * 0.5f64.powi(5))).abs() < 1e-8);
    assert!((r(1.0, 1.0)).abs() < 1e-8);
}

#[test]
fn glass_refracts_or_reflects_by_the_sample() {
    let glass = Dielectric::new(fx(1.5));
    let r_in = Ray::new_time(v3(0.0, 0.0, 1.0), v3(0.0, 0.0, -1.0), fx(0.25));
    let rec = hit_facing_up(true);
    // straight on the reflectance is 0.04
    let through = glass.scatter_with(&r_in, &rec, fx(0.5));
    assert!(through.skip_pdf);
    assert_eq!(raw(through.attenuation), raw(Vec3::from_ints(1, 1, 1)));
    assert!(close(through.skip_pdf_ray.direction(), v3(0.0, 0.0, -1.0), 1e-8));
    assert_eq!(through.skip_pdf_ray.time().to_raw(), fx(0.25).to_raw());
    let back = glass.scatter_with(&r_in, &rec, fx(0.01));
    assert!(close(back.skip_pdf_ray.direction(), v3(0.0, 0.0, 1.0), 1e-8));
    // at the reflectance itself the ray is refracted
    let edge = glass.scatter_with(&r_in, &rec, Dielectric::reflectance(Fixed::one(), fx(1.0 / 1.5)));
    assert!(close(edge.skip_pdf_ray.direction(), v3(0.0, 0.0, -1.0), 1e-8));
}

#[test]
fn glass_reflects_all_light_beyond_the_critical_angle() {
    let glass = Dielectric::new(fx(1.5));
    // leaving the glass at a slant: the back face is hit
    let d = unit_vector(v3(1.0, 0.0, -0.5));
    let r_in = Ray::new(v3(-1.0, 0.0, 0.5), d);
    let rec = hit_facing_up(false);
    let s = glass.scatter_with(&r_in, &rec, fx(0.999));
    assert!(close(s.skip_pdf_ray.direction(), unit_vector(v3(1.0, 0.0, 0.5)), 1e-8));
    // the same ray entering the glass is refracted toward the normal
    let t = glass.scatter_with(&r_in, &hit_facing_up(true), fx(0.999));
    let out = t.skip_pdf_ray.direction();
    assert!(to_f64(out.z) < 0.0);
    let sin_in = to_f64(d.x);
    assert!((to_f64(out.x) - sin_in / 1.5).abs() < 1e-6);
}

#[test]
fn glass_always_scatters_through_the_common_type() {
    let m = Material::Dielectric(Dielectric::new(fx(1.5)));
    let r_in = Ray::new(v3(0.0, 0.0, 1.0), v3(0.3, 0.1, -1.0));
    for _ in 0..50 {
        let s = m.scatter(&r_in, &hit_facing_up(true)).unwrap();
        assert!(s.skip_pdf);
        assert!((to_f64(s.skip_pdf_ray.direction().length()) - 1.0).abs() < 1e-6);
    }
}

#[test]
fn light_emits_from_its_front_face_only_and_scatters_nothing() {
    let m = Material::DiffuseLight(DiffuseLight::new_color(v3(15.0, 7.0, 4.0)));
    let r_in = Ray::new(v3(0.0, 0.0, 1.0), v3(0.0, 0.0, -1.0));
    let front = hit_facing_up(true);
    let back = hit_facing_up(false);
    assert_eq!(raw(m.emitted(&r_in, &front, front.u, front.v, front.p)), raw(v3(15.0, 7.0, 4.0)));
    assert_eq!(raw(m.emitted(&r_in, &back, back.u, back.v, back.p)), (0, 0, 0));
    assert!(m.scatter(&r_in, &front).is_none());
    assert!(m.scatter(&r_in, &back).is_none());
    assert_eq!(m.scattering_pdf(&r_in, &front, &r_in).to_raw(), 0);
    let tex = Arc::new(Texture::Solid(SolidColor::new(v3(1.0, 2.0, 3.0))));
    let t = Material::DiffuseLight(DiffuseLight::new(tex));
    assert_eq!(raw(t.emitted(&r_in, &front, front.u, front.v, front.p)), raw(v3(1.0, 2.0, 3.0)));
}

#[test]
fn medium_phase_function_scatters_evenly() {
    let m = Material::Isotropic(Isotropic::new_with_color(v3(0.2, 0.4, 0.9)));
    let r_in = Ray::new(Vec3::zero(), v3(1.0, 0.0, 0.0));
    let rec = hit_facing_up(true);
    let s = m.scatter(&r_in, &rec).unwrap();
    assert_eq!(raw(s.attenuation), raw(v3(0.2, 0.4, 0.9)));
    assert!(!s.skip_pdf);
    assert!(matches!(s.pdf, Pdf::Sphere(_)));
    let d = to_f64(m.scattering_pdf(&r_in, &rec, &r_in));
    assert!((d - 1.0 / (4.0 * std::f64::consts::PI)).abs() < 1e-8);
    assert_eq!(m.scattering_pdf(&r_in, &rec, &r_in).to_raw(), uniform_sphere_density().to_raw());
    let tex = Arc::new(Texture::Solid(SolidColor::new(v3(1.0, 1.0, 1.0))));
    let t = Material::Isotropic(Isotropic::new(tex));
    assert_eq!(raw(t.scatter(&r_in, &rec).unwrap().attenuation), raw(Vec3::from_ints(1, 1, 1)));
}

#[test]
fn normal_shader_glows_in_the_color_of_the_normal() {
    let m = Material::NormalShade(NormalShade);
    let r_in = Ray::new(Vec3::zero(), v3(0.0, 0.0, -1.0));
    let mut rec = hit_facing_up(true);
    assert_eq!(raw(m.emitted(&r_in, &rec, rec.u, rec.v, rec.p)), raw(v3(0.5, 0.5, 1.0)));
    rec.normal = v3(-1.0, 0.5, 0.0);
    assert_eq!(raw(m.emitted(&r_in, &rec, rec.u, rec.v, rec.p)), raw(v3(0.0, 0.75, 0.5)));
    assert!(m.scatter(&r_in, &rec).is_none());
}

#[test]
fn uniform_density_is_one_over_four_pi() {
    let s = SpherePdf;
    let want = 1.0 / (4.0 * std::f64::consts::PI);
    assert!((to_f64(s.value(v3(1.0, 0.0, 0.0))) - want).abs() < 1e-8);
    assert_eq!(s.value(v3(0.0, -3.0, 0.2)).to_raw(), s.value(v3(1.0, 0.0, 0.0)).to_raw());
    for _ in 0..100 {
        assert!((to_f64(s.generate().length()) - 1.0).abs() < 1e-4);
    }
    assert_eq!(Pdf::Sphere(SpherePdf).value(Vec3::zero()).to_raw(), s.value(Vec3::zero()).to_raw());
}

#[test]
fn cosine_density_draws_above_the_horizon() {
    let n = unit_vector(v3(1.0, 2.0, -2.0));
    let c = CosinePdf::new(n);
    for _ in 0..500 {
        let d = c.generate();
        assert!(to_f64(dot(d, n)) >= -1e-6);
        assert!((to_f64(d.length()) - 1.0).abs() < 1e-4);
        let cosine = to_f64(dot(d, n)).max(0.0);
        assert!((to_f64(c.value(d)) - cosine / std::f64::consts::PI).abs() < 1e-6);
    }
    assert_eq!(c.value(n.neg()).to_raw(), 0);
}

#[test]
fn cosine_density_along_its_axis_is_one_over_pi() {
    let one_over_pi = Fixed::one().div(Fixed::pi()).to_raw();
    for w in [v3(1.0, 1.0, 1.0), v3(0.0, 0.0, 1.0), v3(-3.0, 2.0, 5.0), v3(0.001, 0.0, 0.0), v3(200.0, -300.0, 50.0)] {
        let p = CosinePdf::new(w);
        assert_eq!(p.value(w).to_raw(), one_over_pi, "{:?}", raw(w));
        assert_eq!(p.value(w.scale(fx(2.5))).to_raw(), one_over_pi);
        assert_eq!(p.value(w.neg()).to_raw(), 0);
    }
    // a direction of no length has no density
    assert_eq!(CosinePdf::new(v3(0.0, 0.0, 1.0)).value(Vec3::zero()).to_raw(), 0);
}

#[test]
fn cosine_density_averages_to_two_over_three_pi_on_its_own_samples() {
    // the mean of cos / pi under the density cos / pi over the hemisphere:
    // the integral of cos^2 / pi^2 over the solid angle, 2 / (3 pi)
    let c = CosinePdf::new(Vec3::from_ints(0, 0, 1));
    let mut sum = 0.0;
    let n = 10000;
    for _ in 0..n {
        sum += to_f64(c.value(c.generate()));
    }
    let mean = sum / n as f64;
    assert!((mean - 2.0 / (3.0 * std::f64::consts::PI)).abs() < 0.01, "mean {}", mean);
    // the mean height of the samples is 2 / 3
    let mut heights = 0.0;
    for _ in 0..n {
        heights += to_f64(c.generate().z);
    }
    assert!((heights / n as f64 - 2.0 / 3.0).abs() < 0.02);
}

fn light_quad() -> Arc<Hittable> {
    Arc::new(Hittable::Quad(Quad::new(
        v3(-1.0, -1.0, 4.0),
        v3(2.0, 0.0, 0.0),
        v3(0.0, 2.0, 0.0),
        Arc::new(Material::DiffuseLight(DiffuseLight::new_color(v3(4.0, 4.0, 4.0)))),
    )))
}

#[test]
fn mixture_density_is_exactly_half_of_each() {
    let a = Arc::new(Pdf::Hittable(HittablePdf::new(light_quad(), Vec3::zero())));
    let b = Arc::new(Pdf::Cosine(CosinePdf::new(Vec3::from_ints(0, 0, 1))));
    let m = MixturePdf::new(a.clone(), b.clone());
    let dirs = [
        v3(0.0, 0.0, 1.0), v3(0.1, 0.2, 1.0), v3(1.0, 0.0, 0.0), v3(0.0, 0.0, -1.0),
        v3(0.2, -0.2, 0.9), v3(3.0, 1.0, 0.5), v3(0.0, 0.0, 0.0),
    ];
    for d in dirs {
        let want = Fixed::half().mul(a.value(d)).add(Fixed::half().mul(b.value(d)));
        assert_eq!(m.value(d).to_raw(), want.to_raw());
        assert_eq!(Pdf::Mixture(MixturePdf::new(a.clone(), b.clone())).value(d).to_raw(), want.to_raw());
    }
    // straight up: 16 / 4 from the quad and 1 / pi from the cosine
    let up = to_f64(m.value(v3(0.0, 0.0, 1.0)));
    assert!((up - (0.5 * 4.0 + 0.5 / std::f64::consts::PI)).abs() < 1e-6);
    // a mixture of a density with itself is that density, up to rounding
    let twice = MixturePdf::new(b.clone(), b.clone());
    assert!((twice.value(v3(0.0, 0.0, 1.0)).to_raw() - b.value(v3(0.0, 0.0, 1.0)).to_raw()).abs() <= 1);
}

#[test]
fn mixture_selects_the_first_density_below_one_half() {
    assert!(MixturePdf::picks_first(Fixed::zero()));
    assert!(MixturePdf::picks_first(fx(0.4999)));
    assert!(!MixturePdf::picks_first(Fixed::half()));
    assert!(!MixturePdf::picks_first(fx(0.9999)));
}

#[test]
fn mixture_draws_from_one_density_or_the_other() {
    let quad = light_quad();
    let a = Arc::new(Pdf::Hittable(HittablePdf::new(quad.clone(), Vec3::zero())));
    let b = Arc::new(Pdf::Cosine(CosinePdf::new(Vec3::from_ints(0, 0, -1))));
    let m = MixturePdf::new(a, b);
    let mut toward_quad = 0;
    let mut below = 0;
    for _ in 0..400 {
        let d = m.generate();
        if quad.hit(&Ray::new(Vec3::zero(), d), &visible()).is_some() {
            toward_quad += 1;
        } else {
            assert!(to_f64(d.z) <= 1e-6);
            below += 1;
        }
    }
    assert!(toward_quad > 100 && below > 100);
}

#[test]
fn surface_density_is_that_of_the_surface() {
    let quad = light_quad();
    let h = HittablePdf::new(quad.clone(), v3(0.0, 0.0, 1.0));
    let d = v3(0.2, 0.1, 1.0);
    assert_eq!(h.value(d).to_raw(), quad.pdf_value(v3(0.0, 0.0, 1.0), d).to_raw());
    assert!(h.value(d).to_raw() > 0);
    assert_eq!(h.value(v3(0.0, 0.0, -1.0)).to_raw(), 0);
    for _ in 0..100 {
        let g = h.generate();
        assert!(quad.hit(&Ray::new(v3(0.0, 0.0, 1.0), g), &visible()).is_some());
    }
    let s = HittablePdf::new(
        Arc::new(Hittable::Sphere(Sphere::new(Vec3::zero(), Fixed::one(), Arc::new(Material::NormalShade(NormalShade))))),
        v3(0.0, 0.0, 5.0),
    );
    assert_eq!(s.value(v3(0.0, 0.0, -1.0)).to_raw(), 0);
    assert_eq!(raw(s.generate()), (1 << 32, 0, 0));
}

fn fog(density: f64) -> ConstantMedium {
    let boundary = Arc::new(Hittable::Sphere(Sphere::new(
        Vec3::zero(),
        Fixed::one(),
        Arc::new(Material::Dielectric(Dielectric::new(fx(1.5)))),
    )));
    ConstantMedium::new_with_color(boundary, fx(density), v3(0.2, 0.4, 0.9))
}

#[test]
fn medium_scatters_after_the_sampled_distance() {
    let m = fog(1.0);
    assert_eq!(m.neg_inv_density.to_raw(), -(1 << 32));
    let r = Ray::new(v3(-5.0, 0.0, 0.0), v3(1.0, 0.0, 0.0));
    let all = Interval::new(Fixed::zero(), Fixed::infinity());
    // the way through the medium runs from 4 to 6; -ln(1/2) = 0.693 into it
    let h = m.scatter_point(&r, &all, fx(4.0), fx(6.0), fx(0.5)).unwrap();
    assert!((to_f64(h.t) - (4.0 + 2.0f64.ln())).abs() < 1e-6);
    assert!(close(h.p, v3(-1.0 + 2.0f64.ln(), 0.0, 0.0), 1e-6));
    assert_eq!(raw(h.normal), raw(Vec3::from_ints(1, 0, 0)));
    assert!(h.front_face);
    assert!(Arc::ptr_eq(h.mat.as_ref().unwrap(), &m.phase_function));
    // a sample of one scatters at once, a small one not before the exit
    let at_once = m.scatter_point(&r, &all, fx(4.0), fx(6.0), fx(0.9999999999)).unwrap();
    assert!((to_f64(at_once.t) - 4.0).abs() < 1e-6);
    assert!(m.scatter_point(&r, &all, fx(4.0), fx(6.0), fx(0.1)).is_none());
    assert!(m.scatter_point(&r, &all, fx(4.0), fx(6.0), Fixed::zero()).is_none());
    // -ln(e^-2) = 2: scattering exactly at the exit still counts
    let last = m.scatter_point(&r, &all, fx(4.0), fx(6.0), fx((-1.999f64).exp()));
    assert!(last.is_some());
}

#[test]
fn medium_crossings_are_brought_within_the_range() {
    let m = fog(1.0);
    let r = Ray::new(v3(-5.0, 0.0, 0.0), v3(1.0, 0.0, 0.0));
    // the range starts inside the medium
    let from_five = Interval::new(fx(5.0), fx(100.0));
    let h = m.scatter_point(&r, &from_five, fx(4.0), fx(6.0), fx(0.5)).unwrap();
    assert!((to_f64(h.t) - (5.0 + 2.0f64.ln())).abs() < 1e-6);
    // the range ends inside the medium: only half a unit of the way is left
    let to_four_and_a_half = Interval::new(Fixed::zero(), fx(4.5));
    assert!(m.scatter_point(&r, &to_four_and_a_half, fx(4.0), fx(6.0), fx(0.5)).is_none());
    assert!(m.scatter_point(&r, &to_four_and_a_half, fx(4.0), fx(6.0), fx(0.7)).is_some());
    // the medium lies outside the range
    assert!(m.scatter_point(&r, &Interval::new(fx(7.0), fx(9.0)), fx(4.0), fx(6.0), fx(0.99)).is_none());
    assert!(m.scatter_point(&r, &Interval::new(fx(0.0), fx(4.0)), fx(4.0), fx(6.0), fx(0.99)).is_none());
    // a crossing behind the origin counts from the origin
    let inside = Ray::new(Vec3::zero(), v3(1.0, 0.0, 0.0));
    let all = Interval::new(Fixed::neg_infinity(), Fixed::infinity());
    let g = m.scatter_point(&inside, &all, fx(-1.0), fx(1.0), fx(0.5)).unwrap();
    assert!((to_f64(g.t) - 2.0f64.ln()).abs() < 1e-6);
}

#[test]
fn medium_distance_scales_with_density_and_ray_length() {
    let dense = fog(4.0);
    let r = Ray::new(v3(-5.0, 0.0, 0.0), v3(2.0, 0.0, 0.0));
    let all = Interval::new(Fixed::zero(), Fixed::infinity());
    // a direction of length two crosses from t = 2 to t = 3; the distance ln 2 / 4 takes t = ln 2 / 8
    let h = dense.scatter_point(&r, &all, fx(2.0), fx(3.0), fx(0.5)).unwrap();
    assert!((to_f64(h.t) - (2.0 + 2.0f64.ln() / 8.0)).abs() < 1e-6);
    let tex = Arc::new(Texture::Solid(SolidColor::new(v3(1.0, 1.0, 1.0))));
    let boundary = Arc::new(Hittable::Sphere(Sphere::new(
        Vec3::zero(),
        Fixed::one(),
        Arc::new(Material::NormalShade(NormalShade)),
    )));
    let thin = ConstantMedium::new(boundary, fx(0.5), tex);
    assert_eq!(thin.neg_inv_density.to_raw(), -(2 << 32));
    assert!(matches!(*thin.phase_function, Material::Isotropic(_)));
}

#[test]
fn medium_hit_lies_between_the_crossings() {
    let thick = fog(1000.0);
    let r = Ray::new(v3(-5.0, 0.0, 0.0), v3(1.0, 0.0, 0.0));
    for _ in 0..200 {
        let h = thick.hit(&r, &visible()).expect("so dense a medium scatters almost surely");
        assert!(to_f64(h.t) >= 4.0 - 1e-6 && to_f64(h.t) <= 6.0 + 1e-6);
        assert!(h.front_face);
        assert!(Arc::ptr_eq(h.mat.as_ref().unwrap(), &thick.phase_function));
    }
    // a ray that misses the boundary, or only touches it, meets no medium
    assert!(thick.hit(&Ray::new(v3(-5.0, 3.0, 0.0), v3(1.0, 0.0, 0.0)), &visible()).is_none());
    let thin = fog(0.000001);
    let mut scattered = 0;
    for _ in 0..200 {
        if thin.hit(&r, &visible()).is_some() {
            scattered += 1;
        }
    }
    assert!(scattered < 5);
    assert_eq!(thick.bounding_box().x.min.to_raw(), fx(-1.0).to_raw());
    let as_surface = Hittable::Medium(fog(1000.0));
    assert!(as_surface.hit(&r, &visible()).is_some());
    assert_eq!(as_surface.bounding_box().x.max.to_raw(), fx(1.0).to_raw());
}
