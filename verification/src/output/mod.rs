//! The image as text.

pub mod image;
