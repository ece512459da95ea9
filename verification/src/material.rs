//! Materials: how a surface emits light and scatters the rays that hit it.
use vstd::prelude::*;
use std::sync::Arc;
use crate::color::Color;
use crate::fixed::{Fixed, lemma_mul_sign, lemma_div_sign};
use crate::hittable::HitRecord;
use crate::pdf::{CosinePdf, Pdf, SpherePdf};
use crate::onb::Onb;
use crate::ray::Ray;
use crate::rtweekend::{is_unit_sample, random_double};
use crate::texture::{SolidColor, Texture};
use crate::vec3::{
    Point3, Vec3, accepts_in_disk, cosine_between, dot, random_in_unit_disk, reflect, refract,
    spec_cosine_between, unit_vector,
};

verus! {

/// A diffuse surface whose albedo a texture gives.
pub struct Lambertian {
    pub tex: Arc<Texture>,
}

impl Lambertian {
    pub fn new(albedo: Color) -> (r: Self)
        ensures
            *r.tex == Texture::Solid(SolidColor { albedo }),
    {
        Lambertian { tex: Arc::new(Texture::Solid(SolidColor::new(albedo))) }
    }

    pub fn new_texture(a: Arc<Texture>) -> (r: Self)
        ensures
            r.tex == a,
    {
        Lambertian { tex: a }
    }
}

/// A mirror of the given tint, blurred by `fuzz`, which is at most one.
pub struct Metal {
    pub albedo: Color,
    pub fuzz: Fixed,
}

impl Metal {
    /// A metal of the given tint; a `fuzz` of one or more counts as one.
    pub fn new(albedo: Color, fuzz: Fixed) -> (r: Self)
        ensures
            r.albedo == albedo,
            r.fuzz == (if fuzz@ < Fixed::one()@ {
                fuzz
            } else {
                Fixed::one()
            }),
    {
        Metal { albedo, fuzz: if fuzz.lt(Fixed::one()) { fuzz } else { Fixed::one() } }
    }
}

/// A clear material that bends light by its refraction index.
pub struct Dielectric {
    pub refraction_index: Fixed,
}

impl Dielectric {
    pub fn new(refraction_index: Fixed) -> (r: Self)
        ensures
            r.refraction_index == refraction_index,
    {
        Dielectric { refraction_index }
    }

    /// Schlick's approximation of the share of light that a surface reflects:
    /// `r0 + (1 - r0) (1 - cosine)^5`, with `r0 = ((1 - n) / (1 + n))^2`.
    pub open spec fn spec_reflectance(cosine: Fixed, refraction_index: Fixed) -> Fixed {
        let q = Fixed::one().sub(refraction_index).div(Fixed::one().add(refraction_index));
        let r0 = q.mul(q);
        let k = Fixed::one().sub(cosine);
        r0.add(Fixed::one().sub(r0).mul(k.mul(k).mul(k.mul(k)).mul(k)))
    }

    /// Schlick's approximation of the share of light that a surface reflects.
    #[verifier::when_used_as_spec(spec_reflectance)]
    pub fn reflectance(cosine: Fixed, refraction_index: Fixed) -> (r: Fixed)
        ensures
            r == Dielectric::spec_reflectance(cosine, refraction_index),
    {
        let q = Fixed::one().sub(refraction_index).div(Fixed::one().add(refraction_index));
        let r0 = q.mul(q);
        let k = Fixed::one().sub(cosine);
        r0.add(Fixed::one().sub(r0).mul(k.mul(k).mul(k.mul(k)).mul(k)))
    }
}

/// A surface that gives off light from its front face and scatters none.
#[derive(Clone)]
pub struct DiffuseLight {
    pub tex: Arc<Texture>,
}

impl DiffuseLight {
    pub fn new(tex: Arc<Texture>) -> (r: Self)
        ensures
            r.tex == tex,
    {
        DiffuseLight { tex }
    }

    pub fn new_color(emit: Color) -> (r: Self)
        ensures
            *r.tex == Texture::Solid(SolidColor { albedo: emit }),
    {
        DiffuseLight { tex: Arc::new(Texture::Solid(SolidColor::new(emit))) }
    }
}

/// The phase function of a medium that scatters alike in all directions.
pub struct Isotropic {
    pub tex: Arc<Texture>,
}

impl Isotropic {
    pub fn new(a: Arc<Texture>) -> (r: Self)
        ensures
            r.tex == a,
    {
        Isotropic { tex: a }
    }

    pub fn new_with_color(c: Color) -> (r: Self)
        ensures
            *r.tex == Texture::Solid(SolidColor { albedo: c }),
    {
        Isotropic { tex: Arc::new(Texture::Solid(SolidColor::new(c))) }
    }
}

/// A surface that scatters nothing and glows in the color of its normal:
/// `(normal + 1) / 2`. It shows the geometry of a scene.
pub struct NormalShade;

/// A material of one of the kinds this library knows.
pub enum Material {
    Lambertian(Lambertian),
    Metal(Metal),
    Dielectric(Dielectric),
    DiffuseLight(DiffuseLight),
    Isotropic(Isotropic),
    NormalShade(NormalShade),
}

/// The density of the uniform distribution on the unit sphere: `1 / (4 pi)`.
#[verifier::opaque]
pub open spec fn spec_uniform_sphere_density() -> Fixed {
    Fixed::one().div(Fixed::from_int(4).mul(Fixed::pi()))
}

/// The density of the uniform distribution on the unit sphere: `1 / (4 pi)`.
#[verifier::when_used_as_spec(spec_uniform_sphere_density)]
pub fn uniform_sphere_density() -> (r: Fixed)
    ensures
        r == spec_uniform_sphere_density(),
        r@ >= 0,
{
    reveal(spec_uniform_sphere_density);
    proof {
        lemma_mul_sign(Fixed::from_int(4), Fixed::pi());
        lemma_div_sign(Fixed::one(), Fixed::from_int(4).mul(Fixed::pi()));
    }
    Fixed::one().div(Fixed::from_int(4).mul(Fixed::pi()))
}

/// The density of the cosine-weighted distribution about `normal` at
/// `direction`: the cosine of the angle between them over pi, or zero when
/// the direction points below the surface.
#[verifier::opaque]
pub open spec fn spec_cosine_density(normal: Vec3, direction: Vec3) -> Fixed {
    Fixed::zero().max(spec_cosine_between(direction, normal).div(Fixed::pi()))
}

/// The density of the cosine-weighted distribution about `normal` at
/// `direction`.
#[verifier::when_used_as_spec(spec_cosine_density)]
pub fn cosine_density(normal: Vec3, direction: Vec3) -> (r: Fixed)
    ensures
        r == spec_cosine_density(normal, direction),
        r@ >= 0,
{
    reveal(spec_cosine_density);
    let cosine_theta = cosine_between(direction, normal);
    Fixed::zero().max(cosine_theta.div(Fixed::pi()))
}

impl Material {
    /// Neither the light given off nor the share of light passed on has a
    /// negative component.
    pub open spec fn non_negative(&self) -> bool {
        match self {
            Material::Lambertian(m) => m.tex.non_negative(),
            Material::Metal(m) => m.albedo.non_negative(),
            Material::Dielectric(_) => true,
            Material::DiffuseLight(m) => m.tex.non_negative(),
            Material::Isotropic(m) => m.tex.non_negative(),
            Material::NormalShade(_) => false,
        }
    }

    /// Whether the material scatters no ray, whatever hits it: a light and a
    /// normal shader.
    pub open spec fn scatters_nothing(&self) -> bool {
        self is DiffuseLight || self is NormalShade
    }

    /// The light given off at a hit: a light gives the color of its texture
    /// from its front face and nothing from its back, a normal shader gives
    /// `(normal + 1) / 2`, and every other material gives nothing.
    pub open spec fn spec_emitted(&self, rec: &HitRecord, u: Fixed, v: Fixed, p: Point3) -> Color {
        match self {
            Material::DiffuseLight(m) => if !rec.front_face {
                Vec3::zero()
            } else {
                m.tex.spec_value(u, v, p)
            },
            Material::NormalShade(_) => rec.normal.add(
                Vec3::new(Fixed::one(), Fixed::one(), Fixed::one()),
            ).scale(Fixed::half()),
            _ => Vec3::zero(),
        }
    }

    /// The light given off at a hit.
    pub fn emitted(&self, _r_in: &Ray, rec: &HitRecord, u: Fixed, v: Fixed, p: Point3) -> (c: Color)
        ensures
            c == self.spec_emitted(rec, u, v, p),
            self.non_negative() ==> c.non_negative(),
    {
        match self {
            Material::DiffuseLight(m) => if !rec.front_face {
                Vec3::zero()
            } else {
                m.tex.value(u, v, p)
            },
            Material::NormalShade(_) => rec.normal.add(
                Vec3::new(Fixed::one(), Fixed::one(), Fixed::one()),
            ).scale(Fixed::half()),
            _ => Vec3::zero(),
        }
    }

    /// The density with which the material scatters into `scattered`: the
    /// cosine density about the normal for a diffuse surface, the uniform
    /// density for a medium, zero for the others.
    pub open spec fn spec_scattering_pdf(&self, rec: &HitRecord, scattered: &Ray) -> Fixed {
        match self {
            Material::Lambertian(_) => spec_cosine_density(rec.normal, scattered.dir),
            Material::Isotropic(_) => spec_uniform_sphere_density(),
            _ => Fixed::zero(),
        }
    }

    /// The density with which the material scatters into `scattered`.
    pub fn scattering_pdf(&self, _r_in: &Ray, rec: &HitRecord, scattered: &Ray) -> (d: Fixed)
        ensures
            d == self.spec_scattering_pdf(rec, scattered),
            d@ >= 0,
    {
        match self {
            Material::Lambertian(_) => cosine_density(rec.normal, scattered.direction()),
            Material::Isotropic(_) => uniform_sphere_density(),
            _ => Fixed::zero(),
        }
    }
}

/// What a material makes of a ray that hits it.
pub struct ScatterRecord {
    /// The share of the light that is passed on, per color component.
    pub attenuation: Color,
    /// The density to draw the scattered direction from, unless `skip_pdf`.
    pub pdf: Pdf,
    /// Whether the ray goes on along `skip_pdf_ray`, as from a mirror or
    /// through glass, with no density to weigh it by.
    pub skip_pdf: bool,
    /// The ray to follow when `skip_pdf` holds.
    pub skip_pdf_ray: Ray,
}

impl Lambertian {
    /// A diffuse surface passes on the color of its texture and scatters
    /// with the cosine density about the normal.
    pub open spec fn spec_scatter(&self, rec: &HitRecord) -> ScatterRecord {
        ScatterRecord {
            attenuation: self.tex.spec_value(rec.u, rec.v, rec.p),
            pdf: Pdf::Cosine(CosinePdf { uvw: Onb::spec_new(rec.normal) }),
            skip_pdf: false,
            skip_pdf_ray: Ray::new(Vec3::zero(), Vec3::zero()),
        }
    }

    /// What a diffuse surface makes of a ray that hits it.
    pub fn scatter(&self, _r_in: &Ray, rec: &HitRecord) -> (s: ScatterRecord)
        ensures
            s == self.spec_scatter(rec),
            self.tex.non_negative() ==> s.attenuation.non_negative(),
    {
        ScatterRecord {
            attenuation: self.tex.value(rec.u, rec.v, rec.p),
            pdf: Pdf::Cosine(CosinePdf::new(rec.normal)),
            skip_pdf: false,
            skip_pdf_ray: Ray::new(Vec3::zero(), Vec3::zero()),
        }
    }
}

impl Isotropic {
    /// A medium passes on the color of its texture and scatters with the
    /// uniform density.
    pub open spec fn spec_scatter(&self, rec: &HitRecord) -> ScatterRecord {
        ScatterRecord {
            attenuation: self.tex.spec_value(rec.u, rec.v, rec.p),
            pdf: Pdf::Sphere(SpherePdf),
            skip_pdf: false,
            skip_pdf_ray: Ray::new(Vec3::zero(), Vec3::zero()),
        }
    }

    /// What a medium makes of a ray that scatters in it.
    pub fn scatter(&self, _r_in: &Ray, rec: &HitRecord) -> (s: ScatterRecord)
        ensures
            s == self.spec_scatter(rec),
            self.tex.non_negative() ==> s.attenuation.non_negative(),
    {
        ScatterRecord {
            attenuation: self.tex.value(rec.u, rec.v, rec.p),
            pdf: Pdf::Sphere(SpherePdf),
            skip_pdf: false,
            skip_pdf_ray: Ray::new(Vec3::zero(), Vec3::zero()),
        }
    }
}

impl Metal {
    /// The direction in which the metal sends the ray on: the mirror image
    /// of the unit direction of the ray, at unit length, plus `fuzz` times
    /// the disk point `disk`.
    #[verifier::opaque]
    pub open spec fn spec_reflected(&self, r_in: &Ray, rec: &HitRecord, disk: Vec3) -> Vec3 {
        unit_vector(reflect(unit_vector(r_in.dir), rec.normal)).add(disk.scale(self.fuzz))
    }

    /// What a metal makes of a ray that hits it, given the point of the unit
    /// disk that blurs the reflection: the ray goes on along the blurred
    /// mirror direction, tinted by the albedo, unless that direction points
    /// into the surface.
    pub open spec fn spec_scatter_with(&self, r_in: &Ray, rec: &HitRecord, disk: Vec3) -> Option<
        ScatterRecord,
    > {
        if dot(self.spec_reflected(r_in, rec, disk), rec.normal)@ > 0 {
            Some(
                ScatterRecord {
                    attenuation: self.albedo,
                    pdf: Pdf::Sphere(SpherePdf),
                    skip_pdf: true,
                    skip_pdf_ray: Ray::new_time(
                        rec.p,
                        self.spec_reflected(r_in, rec, disk),
                        r_in.tm,
                    ),
                },
            )
        } else {
            None
        }
    }

    /// What a metal makes of a ray that hits it, given the point of the unit
    /// disk that blurs the reflection.
    pub fn scatter_with(&self, r_in: &Ray, rec: &HitRecord, disk: Vec3) -> (s: Option<
        ScatterRecord,
    >)
        ensures
            s == self.spec_scatter_with(r_in, rec, disk),
    {
        reveal(Metal::spec_reflected);
        let reflected = unit_vector(reflect(unit_vector(r_in.direction()), rec.normal)).add(
            disk.scale(self.fuzz),
        );
        if dot(reflected, rec.normal).gt(Fixed::zero()) {
            Some(
                ScatterRecord {
                    attenuation: self.albedo,
                    pdf: Pdf::Sphere(SpherePdf),
                    skip_pdf: true,
                    skip_pdf_ray: Ray::new_time(rec.p, reflected, r_in.time()),
                },
            )
        } else {
            None
        }
    }
}

impl Dielectric {
    /// The direction in which glass sends the ray on, given a unit sample:
    /// the ray is reflected when it cannot be refracted, or when the
    /// reflectance is above the sample; else it is refracted. The ratio of
    /// refraction indices is `1 / index` on the way in and `index` on the
    /// way out.
    #[verifier::opaque]
    pub open spec fn spec_direction(&self, r_in: &Ray, rec: &HitRecord, sample: Fixed) -> Vec3 {
        let ri = if rec.front_face {
            Fixed::one().div(self.refraction_index)
        } else {
            self.refraction_index
        };
        let unit_direction = unit_vector(r_in.dir);
        let cos_theta = dot(unit_direction.neg(), rec.normal).min(Fixed::one());
        let sin_theta = Fixed::one().sub(cos_theta.mul(cos_theta)).sqrt();
        if ri.mul(sin_theta)@ > Fixed::one()@ || Dielectric::spec_reflectance(cos_theta, ri)@
            > sample@ {
            reflect(unit_direction, rec.normal)
        } else {
            refract(unit_direction, rec.normal, ri)
        }
    }

    /// What glass makes of a ray that hits it, given a unit sample: the ray
    /// goes on, reflected or refracted, with all of its light.
    pub open spec fn spec_scatter_with(&self, r_in: &Ray, rec: &HitRecord, sample: Fixed)
        -> ScatterRecord {
        ScatterRecord {
            attenuation: Vec3::from_ints(1, 1, 1),
            pdf: Pdf::Sphere(SpherePdf),
            skip_pdf: true,
            skip_pdf_ray: Ray::new_time(rec.p, self.spec_direction(r_in, rec, sample), r_in.tm),
        }
    }

    /// What glass makes of a ray that hits it, given a unit sample.
    pub fn scatter_with(&self, r_in: &Ray, rec: &HitRecord, sample: Fixed) -> (s: ScatterRecord)
        ensures
            s == self.spec_scatter_with(r_in, rec, sample),
            s.attenuation.non_negative(),
    {
        reveal(Dielectric::spec_direction);
        let ri = if rec.front_face {
            Fixed::one().div(self.refraction_index)
        } else {
            self.refraction_index
        };
        let unit_direction = unit_vector(r_in.direction());
        let cos_theta = dot(unit_direction.neg(), rec.normal).min(Fixed::one());
        let sin_theta = Fixed::one().sub(cos_theta.mul(cos_theta)).sqrt();
        let cannot_refract = ri.mul(sin_theta).gt(Fixed::one());
        let direction = if cannot_refract || Dielectric::reflectance(cos_theta, ri).gt(sample) {
            reflect(unit_direction, rec.normal)
        } else {
            refract(unit_direction, rec.normal, ri)
        };
        ScatterRecord {
            attenuation: Vec3::from_ints(1, 1, 1),
            pdf: Pdf::Sphere(SpherePdf),
            skip_pdf: true,
            skip_pdf_ray: Ray::new_time(rec.p, direction, r_in.time()),
        }
    }
}

impl Material {
    /// What the material makes of a ray that hits it, given the random
    /// values it may use: a point of the unit disk for a metal, a unit sample
    /// for glass. A light and a normal shader scatter nothing.
    pub open spec fn spec_scatter_with(
        &self,
        r_in: &Ray,
        rec: &HitRecord,
        disk: Vec3,
        sample: Fixed,
    ) -> Option<ScatterRecord> {
        match self {
            Material::Lambertian(m) => Some(m.spec_scatter(rec)),
            Material::Metal(m) => m.spec_scatter_with(r_in, rec, disk),
            Material::Dielectric(m) => Some(m.spec_scatter_with(r_in, rec, sample)),
            Material::DiffuseLight(_) => None,
            Material::Isotropic(m) => Some(m.spec_scatter(rec)),
            Material::NormalShade(_) => None,
        }
    }

    /// What the material makes of a ray that hits it, given the random
    /// values it may use.
    pub fn scatter_with(&self, r_in: &Ray, rec: &HitRecord, disk: Vec3, sample: Fixed) -> (s:
        Option<ScatterRecord>)
        ensures
            s == self.spec_scatter_with(r_in, rec, disk, sample),
            self.non_negative() ==> (s matches Some(sr) ==> sr.attenuation.non_negative()),
    {
        match self {
            Material::Lambertian(m) => Some(m.scatter(r_in, rec)),
            Material::Metal(m) => m.scatter_with(r_in, rec, disk),
            Material::Dielectric(m) => Some(m.scatter_with(r_in, rec, sample)),
            Material::DiffuseLight(_) => None,
            Material::Isotropic(m) => Some(m.scatter(r_in, rec)),
            Material::NormalShade(_) => None,
        }
    }

    /// What the material makes of a ray that hits it. A metal draws a random
    /// point of the unit disk and glass a random unit sample; the outcome is
    /// the one that [`Material::spec_scatter_with`] states for them.
    pub fn scatter(&self, r_in: &Ray, rec: &HitRecord) -> (s: Option<ScatterRecord>)
        ensures
            exists|disk: Vec3, sample: Fixed|
                accepts_in_disk(disk) && is_unit_sample(sample) && s == self.spec_scatter_with(
                    r_in,
                    rec,
                    disk,
                    sample,
                ),
            self.non_negative() ==> (s matches Some(sr) ==> sr.attenuation.non_negative()),
    {
        let disk = match self {
            Material::Metal(_) => random_in_unit_disk(),
            _ => Vec3::zero(),
        };
        let sample = match self {
            Material::Dielectric(_) => random_double(),
            _ => Fixed::zero(),
        };
        assert(accepts_in_disk(Vec3::zero())) by {
            assert(0int * 0int == 0) by (nonlinear_arith);
            assert(0 < crate::fixed::ONE_RAW * crate::fixed::ONE_RAW) by (nonlinear_arith);
        }
        self.scatter_with(r_in, rec, disk, sample)
    }
}

} // verus!
