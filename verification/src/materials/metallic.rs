//! Mirroring surfaces.

use vstd::prelude::*;
use crate::hittables::hit_record::HitRecord;
use crate::math::ray::Ray;
use crate::math::vec3::{Color, Vec3};
use crate::rendering::material::{metallic_scattering, Material, ScatteringResult};

verus! {

/// A metal: it mirrors the ray about the normal, and absorbs it where the
/// mirrored ray would enter the surface.
#[derive(Debug, Clone, Copy, PartialEq, Eq, Structural)]
pub struct MetallicMaterial {
    pub albedo: Color,
    /// How far the mirrored direction is blurred, as an ordinal.
    pub fuzz: i64,
}

impl Material for MetallicMaterial {
    open spec fn scattering(&self, record: HitRecord, drawn: Vec3, alignment: i64) -> Option<
        ScatteringResult,
    > {
        metallic_scattering(self.albedo, record, drawn, alignment)
    }

    /// `drawn` is the mirrored direction and `alignment` the ordinal of its
    /// dot product with the normal.
    fn scatter(&self, record: &HitRecord, drawn: Vec3, alignment: i64) -> (scattered: Option<
        ScatteringResult,
    >) {
        let scattered = Ray::new(record.point, drawn);
        let attenuation = self.albedo;
        if alignment > 0 {
            Some(ScatteringResult { ray: scattered, attenuation })
        } else {
            None
        }
    }
}

} // verus!
