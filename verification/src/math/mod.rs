//! Scalars, vectors and rays as the deciding code sees them.

pub mod ordinal;
pub mod ray;
pub mod vec3;
