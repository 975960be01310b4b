//! How a surface answers a ray: it scatters it or absorbs it.

use vstd::prelude::*;
use crate::hittables::hit_record::HitRecord;
use crate::math::ray::Ray;
use crate::math::vec3::{Color, Vec3};

verus! {

/// A scattered ray and the colour that the surface multiplies into the path.
#[derive(Debug, Clone, Copy, PartialEq, Eq, Structural)]
pub struct ScatteringResult {
    pub ray: Ray,
    pub attenuation: Color,
}

/// The way a diffuse surface scatters: along the direction that was drawn
/// for it, or along the normal where that direction is too short to be one.
pub open spec fn diffuse_scattering(albedo: Color, record: HitRecord, drawn: Vec3)
    -> ScatteringResult {
    ScatteringResult {
        ray: Ray {
            origin: record.point,
            direction: if drawn.is_near_zero() {
                record.normal
            } else {
                drawn
            },
        },
        attenuation: albedo,
    }
}

/// The way a metal scatters: along the mirrored direction if that leaves the
/// surface, which is when its dot product with the normal, of the ordinal
/// `alignment`, is positive. Else the ray is absorbed.
pub open spec fn metallic_scattering(
    albedo: Color,
    record: HitRecord,
    mirrored: Vec3,
    alignment: i64,
) -> Option<ScatteringResult> {
    if alignment > 0 {
        Some(ScatteringResult { ray: Ray { origin: record.point, direction: mirrored }, attenuation: albedo })
    } else {
        None
    }
}

/// A surface material.
///
/// The direction in which the material would send the ray is worked out
/// beforehand, with the random draws that it takes, and handed over as
/// `drawn`, together with `alignment`, the ordinal of the dot product of
/// `drawn` with the normal of the record. The material decides whether the
/// ray goes on, from where, in which direction and with which attenuation.
pub trait Material {
    /// What `scatter` answers.
    spec fn scattering(&self, record: HitRecord, drawn: Vec3, alignment: i64) -> Option<
        ScatteringResult,
    >;

    /// The scattered ray and its attenuation, or `None` where the ray is
    /// absorbed.
    fn scatter(&self, record: &HitRecord, drawn: Vec3, alignment: i64) -> (scattered: Option<
        ScatteringResult,
    >)
        ensures
            scattered == self.scattering(*record, drawn, alignment),
    ;
}

/// One material for both kinds of surface: a metal where `metallic` is set,
/// a diffuse surface where it is not.
#[derive(Debug, Clone, Copy, PartialEq, Eq, Structural)]
pub struct UberShader {
    /// The colour that the surface multiplies into the path.
    pub albedo: Color,
    /// Whether the surface mirrors.
    pub metallic: bool,
    /// How far a mirrored direction is blurred, as an ordinal.
    pub fuzz: i64,
}

impl Material for UberShader {
    open spec fn scattering(&self, record: HitRecord, drawn: Vec3, alignment: i64) -> Option<
        ScatteringResult,
    > {
        if self.metallic {
            metallic_scattering(self.albedo, record, drawn, alignment)
        } else {
            Some(diffuse_scattering(self.albedo, record, drawn))
        }
    }

    fn scatter(&self, record: &HitRecord, drawn: Vec3, alignment: i64) -> (scattered: Option<
        ScatteringResult,
    >) {
        match self.metallic {
            true => {
                let scattered = Ray::new(record.point, drawn);
                let attenuation = self.albedo;
                if alignment > 0 {
                    Some(ScatteringResult { ray: scattered, attenuation })
                } else {
                    None
                }
            },
            false => {
                let mut scatter_direction: Vec3 = drawn;
                if scatter_direction.near_zero() {
                    scatter_direction = record.normal;
                }
                Some(
                    ScatteringResult {
                        ray: Ray::new(record.point, scatter_direction),
                        attenuation: self.albedo,
                    },
                )
            },
        }
    }
}

impl UberShader {
    pub fn new(albedo: Color, metallic: bool, fuzz: i64) -> (shader: UberShader)
        ensures
            shader == (UberShader { albedo, metallic, fuzz }),
    {
        UberShader { albedo, metallic, fuzz }
    }
}

impl Default for UberShader {
    /// A black diffuse surface.
    fn default() -> (shader: UberShader)
        ensures
            shader == (UberShader { albedo: Vec3 { x: 0, y: 0, z: 0 }, metallic: false, fuzz: 0 }),
    {
        UberShader { albedo: Vec3 { x: 0, y: 0, z: 0 }, metallic: false, fuzz: 0 }
    }
}

/// A diffuse surface scatters every ray, with its albedo as the attenuation
/// and from the point of the hit.
pub proof fn lemma_diffuse_always_scatters(
    shader: UberShader,
    record: HitRecord,
    drawn: Vec3,
    alignment: i64,
)
    requires
        !shader.metallic,
    ensures
        shader.scattering(record, drawn, alignment) is Some,
        shader.scattering(record, drawn, alignment)->0.attenuation == shader.albedo,
        shader.scattering(record, drawn, alignment)->0.ray.origin == record.point,
        !shader.scattering(record, drawn, alignment)->0.ray.direction.is_near_zero()
            <== !record.normal.is_near_zero(),
{
}

/// A metal absorbs the ray exactly when the mirrored direction does not leave
/// the surface: its dot product with the normal is zero or negative.
pub proof fn lemma_metal_absorbs_inward(
    shader: UberShader,
    record: HitRecord,
    drawn: Vec3,
    alignment: i64,
)
    requires
        shader.metallic,
    ensures
        shader.scattering(record, drawn, alignment) is None <==> alignment <= 0,
        alignment > 0 ==> shader.scattering(record, drawn, alignment) == Some(
            ScatteringResult {
                ray: Ray { origin: record.point, direction: drawn },
                attenuation: shader.albedo,
            },
        ),
{
}

} // verus!
