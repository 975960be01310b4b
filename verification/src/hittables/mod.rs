//! What a ray can hit, and what is known of a hit.

pub mod hit_record;
pub mod hittable;
pub mod hittable_list;
pub mod sphere;
