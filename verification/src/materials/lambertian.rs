//! Diffuse surfaces.

use vstd::prelude::*;
use crate::hittables::hit_record::HitRecord;
use crate::math::ray::Ray;
use crate::math::vec3::{Color, Vec3};
use crate::rendering::material::{diffuse_scattering, Material, ScatteringResult};

verus! {

/// A diffuse surface: it scatters every ray, in a direction drawn around
/// the normal.
#[derive(Debug, Clone, Copy, PartialEq, Eq, Structural)]
pub struct LambertianMaterial {
    pub albedo: Color,
}

impl Material for LambertianMaterial {
    open spec fn scattering(&self, record: HitRecord, drawn: Vec3, alignment: i64) -> Option<
        ScatteringResult,
    > {
        Some(diffuse_scattering(self.albedo, record, drawn))
    }

    /// `drawn` is the normal plus a random unit vector. Where the two cancel
    /// the ray leaves along the normal.
    fn scatter(&self, record: &HitRecord, drawn: Vec3, alignment: i64) -> (scattered: Option<
        ScatteringResult,
    >) {
        let mut scatter_direction: Vec3 = drawn;
        if scatter_direction.near_zero() {
            scatter_direction = record.normal;
        }
        Some(
            ScatteringResult {
                ray: Ray::new(record.point, scatter_direction),
                attenuation: self.albedo,
            },
        )
    }
}

} // verus!
