//! Materials and how they scatter light.
use vstd::prelude::*;
use rand::rngs::SmallRng;
use crate::fixed::{div_spec, fdiv, fmin, fmul, fsqrt, fsub, min_spec, mul_spec, sqrt_spec, sub_spec, ONE};
use crate::hit_record::HitRecord;
use crate::random::{
    random_in_unit_sphere, random_unit_interval, random_unit_vector, sampled, unit_direction, MIN_SAMPLE_LEN,
};
use crate::ray::Ray;
use crate::utils::{reflect, reflect_spec, reflectance, reflectance_spec, refract, refract_spec};
use crate::vec3::{dot_spec, len_spec, unit_spec, v_add, v_neg, v_scale, v3, Color, Vec3};

verus! {

/// A diffuse surface.
#[derive(Clone, Copy, Debug, PartialEq, Eq, Structural)]
pub struct Lambertian {
    pub albedo: Color,
}

/// A reflective surface; `fuzz` (between zero and one) blurs the reflection.
#[derive(Clone, Copy, Debug, PartialEq, Eq, Structural)]
pub struct Metal {
    pub albedo: Color,
    pub fuzz: i64,
}

/// A clear refractive medium with refractive index `ir`.
#[derive(Clone, Copy, Debug, PartialEq, Eq, Structural)]
pub struct Dielectric {
    pub ir: i64,
}

#[derive(Clone, Copy, Debug, PartialEq, Eq, Structural)]
pub enum Material {
    Lambertian(Lambertian),
    Metal(Metal),
    Dielectric(Dielectric),
}

/// The continuation of a path at a surface.
#[derive(Clone, Copy, Debug, PartialEq, Eq, Structural)]
pub enum ScatterRecord {
    Specular { specular_ray: Ray, attenuation: Color },
    Diffuse { scattered: Ray, attenuation: Color },
}

impl ScatterRecord {
    pub open spec fn ray_spec(self) -> Ray {
        match self {
            ScatterRecord::Specular { specular_ray, .. } => specular_ray,
            ScatterRecord::Diffuse { scattered, .. } => scattered,
        }
    }

    pub open spec fn attenuation_spec(self) -> Color {
        match self {
            ScatterRecord::Specular { attenuation, .. } => attenuation,
            ScatterRecord::Diffuse { attenuation, .. } => attenuation,
        }
    }

    /// The continuation ray.
    pub fn ray(&self) -> (r: Ray)
        ensures
            r == self.ray_spec(),
    {
        match self {
            ScatterRecord::Specular { specular_ray, .. } => *specular_ray,
            ScatterRecord::Diffuse { scattered, .. } => *scattered,
        }
    }

    /// The color factor applied to light arriving along the continuation.
    pub fn attenuation(&self) -> (r: Color)
        ensures
            r == self.attenuation_spec(),
    {
        match self {
            ScatterRecord::Specular { attenuation, .. } => *attenuation,
            ScatterRecord::Diffuse { attenuation, .. } => *attenuation,
        }
    }
}

/// Lambertian scattering: towards `normal + dir` for a random unit direction
/// `dir`, attenuated by the albedo.
pub open spec fn lambertian_spec(m: Lambertian, rec: HitRecord, sample: Vec3) -> Option<ScatterRecord> {
    Some(
        ScatterRecord::Diffuse {
            scattered: Ray { origin: rec.p, direction: v_add(rec.normal, sample) },
            attenuation: m.albedo,
        },
    )
}

pub open spec fn metal_direction(m: Metal, ray_in: Ray, rec: HitRecord, sample: Vec3) -> Vec3 {
    v_add(reflect_spec(unit_spec(ray_in.direction), rec.normal), v_scale(sample, m.fuzz))
}

/// Metal scattering: the mirror direction jittered by `fuzz * sample`; absorbed
/// when that direction does not leave the surface.
pub open spec fn metal_spec(m: Metal, ray_in: Ray, rec: HitRecord, sample: Vec3) -> Option<ScatterRecord> {
    let dir = metal_direction(m, ray_in, rec, sample);
    if dot_spec(dir, rec.normal) > 0 {
        Some(ScatterRecord::Specular { specular_ray: Ray { origin: rec.p, direction: dir }, attenuation: m.albedo })
    } else {
        None
    }
}

/// The normal on the side the ray came from.
pub open spec fn facing_normal(rec: HitRecord) -> Vec3 {
    if rec.front {
        rec.normal
    } else {
        v_neg(rec.normal)
    }
}

pub open spec fn refraction_ratio(m: Dielectric, rec: HitRecord) -> i64 {
    if rec.front {
        div_spec(ONE, m.ir)
    } else {
        m.ir
    }
}

pub open spec fn dielectric_cos(ray_in: Ray, rec: HitRecord) -> i64 {
    min_spec(dot_spec(v_neg(unit_spec(ray_in.direction)), facing_normal(rec)), ONE)
}

/// Whether the ray reflects rather than refracts: total internal reflection,
/// or the uniform draw `u` falls below Schlick's reflectance.
pub open spec fn dielectric_reflects(m: Dielectric, ray_in: Ray, rec: HitRecord, u: i64) -> bool {
    let cos = dielectric_cos(ray_in, rec);
    let sin = sqrt_spec(sub_spec(ONE, mul_spec(cos, cos)));
    mul_spec(refraction_ratio(m, rec), sin) > ONE || u < reflectance_spec(cos, m.ir)
}

pub open spec fn dielectric_direction(m: Dielectric, ray_in: Ray, rec: HitRecord, u: i64) -> Vec3 {
    let unit_dir = unit_spec(ray_in.direction);
    if dielectric_reflects(m, ray_in, rec, u) {
        reflect_spec(unit_dir, facing_normal(rec))
    } else {
        refract_spec(unit_dir, facing_normal(rec), refraction_ratio(m, rec))
    }
}

/// Dielectric scattering: reflect or refract, never absorbed, white attenuation.
pub open spec fn dielectric_spec(m: Dielectric, ray_in: Ray, rec: HitRecord, u: i64) -> Option<ScatterRecord> {
    Some(
        ScatterRecord::Specular {
            specular_ray: Ray { origin: rec.p, direction: dielectric_direction(m, ray_in, rec, u) },
            attenuation: v3(ONE, ONE, ONE),
        },
    )
}

/// `sample` is a random vector that material `m` can draw: a direction that
/// `random_unit_vector` gives for a diffuse surface, else a point of the unit ball.
pub open spec fn valid_sample(m: Material, sample: Vec3) -> bool {
    match m {
        Material::Lambertian(_) => exists|draws: Seq<Vec3>|
            sampled(draws, MIN_SAMPLE_LEN) && sample == #[trigger] unit_direction(draws),
        _ => len_spec(sample) < ONE,
    }
}

/// How material `m` scatters `ray_in` at `rec`, given a random vector `sample`
/// (a unit direction for a diffuse surface, a point of the unit ball for
/// metal) and a uniform draw `u` in `[0, 1)`.
pub open spec fn scatter_spec(m: Material, ray_in: Ray, rec: HitRecord, sample: Vec3, u: i64) -> Option<ScatterRecord> {
    match m {
        Material::Lambertian(l) => lambertian_spec(l, rec, sample),
        Material::Metal(mt) => metal_spec(mt, ray_in, rec, sample),
        Material::Dielectric(d) => dielectric_spec(d, ray_in, rec, u),
    }
}

impl Lambertian {
    pub fn new(albedo: Color) -> (r: Lambertian)
        ensures
            r.albedo == albedo,
    {
        Lambertian { albedo }
    }

    pub fn scatter_with(&self, hit_record: &HitRecord, sample: Vec3) -> (r: Option<ScatterRecord>)
        ensures
            r == lambertian_spec(*self, *hit_record, sample),
    {
        let scattered = Ray::new(hit_record.p, hit_record.normal.add(sample));
        Some(ScatterRecord::Diffuse { scattered, attenuation: self.albedo })
    }
}

impl Metal {
    pub fn new(albedo: Color, fuzz: i64) -> (r: Metal)
        ensures
            r.albedo == albedo,
            r.fuzz == fuzz,
    {
        Metal { albedo, fuzz }
    }

    pub fn scatter_with(&self, ray_in: &Ray, hit_record: &HitRecord, sample: Vec3) -> (r: Option<ScatterRecord>)
        ensures
            r == metal_spec(*self, *ray_in, *hit_record, sample),
            r matches Some(s) ==> dot_spec(s.ray_spec().direction, hit_record.normal) > 0,
    {
        let reflected = reflect(ray_in.direction.unit(), hit_record.normal);
        let direction = reflected.add(sample.scale(self.fuzz));
        if direction.dot(hit_record.normal) > 0 {
            Some(ScatterRecord::Specular { specular_ray: Ray::new(hit_record.p, direction), attenuation: self.albedo })
        } else {
            None
        }
    }
}

impl Dielectric {
    pub fn new(ir: i64) -> (r: Dielectric)
        ensures
            r.ir == ir,
    {
        Dielectric { ir }
    }

    pub fn scatter_with(&self, ray_in: &Ray, hit_record: &HitRecord, u: i64) -> (r: Option<ScatterRecord>)
        ensures
            r == dielectric_spec(*self, *ray_in, *hit_record, u),
    {
        let normal = if hit_record.front {
            hit_record.normal
        } else {
            hit_record.normal.neg()
        };
        let ratio = if hit_record.front {
            fdiv(ONE, self.ir)
        } else {
            self.ir
        };
        let unit_direction = ray_in.direction.unit();
        let cos_theta = fmin(unit_direction.neg().dot(normal), ONE);
        let sin_theta = fsqrt(fsub(ONE, fmul(cos_theta, cos_theta)));
        let reflects = fmul(ratio, sin_theta) > ONE || u < reflectance(cos_theta, self.ir);
        let direction = if reflects {
            reflect(unit_direction, normal)
        } else {
            refract(unit_direction, normal, ratio)
        };
        Some(ScatterRecord::Specular { specular_ray: Ray::new(hit_record.p, direction), attenuation: Vec3::ones() })
    }
}

impl Material {
    /// Scattering given the random inputs: the vector `sample` (see
    /// `valid_sample`) and a uniform draw `u` in `[0, 1)`.
    pub fn scatter_with(&self, ray_in: &Ray, hit_record: &HitRecord, sample: Vec3, u: i64) -> (r: Option<ScatterRecord>)
        ensures
            r == scatter_spec(*self, *ray_in, *hit_record, sample, u),
            *self is Metal ==> (r matches Some(s) ==> dot_spec(s.ray_spec().direction, hit_record.normal) > 0),
            r matches Some(s) ==> s.ray_spec().origin == hit_record.p,
    {
        match self {
            Material::Lambertian(l) => l.scatter_with(hit_record, sample),
            Material::Metal(m) => m.scatter_with(ray_in, hit_record, sample),
            Material::Dielectric(d) => d.scatter_with(ray_in, hit_record, u),
        }
    }

    /// Scattering with fresh random inputs drawn from `rng`.
    pub fn scatter(&self, ray_in: &Ray, hit_record: &HitRecord, rng: &mut SmallRng) -> (r: Option<ScatterRecord>)
        ensures
            exists|sample: Vec3, u: i64|
                valid_sample(*self, sample) && 0 <= u < ONE
                && r == #[trigger] scatter_spec(*self, *ray_in, *hit_record, sample, u),
            *self is Metal ==> (r matches Some(s) ==> dot_spec(s.ray_spec().direction, hit_record.normal) > 0),
            r matches Some(s) ==> s.ray_spec().origin == hit_record.p,
    {
        let sample = match self {
            Material::Lambertian(_) => random_unit_vector(rng),
            _ => random_in_unit_sphere(rng),
        };
        let u = random_unit_interval(rng);
        self.scatter_with(ray_in, hit_record, sample, u)
    }
}

} // verus!
