//! Materials, the path of one sample, and the order of the pixels.

pub mod material;
pub mod sampling;
pub mod scheduler;
