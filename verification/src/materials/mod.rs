//! The two kinds of surface, each as a material of its own.

pub mod lambertian;
pub mod metallic;
