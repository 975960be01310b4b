//! The deciding half of a Monte Carlo path tracer.
//!
//! A path tracer does two kinds of work. One is arithmetic in double
//! precision: vectors, square roots, random directions. The other is a chain
//! of decisions: which of two roots is the hit, which object is closest, is
//! the ray absorbed or scattered, has the path run out of bounces, where in
//! the image does a finished pixel go and what text stands for it. This crate
//! holds the decisions, each with a contract that is proved.
//!
//! Scalars enter the crate as *ordinals*: signed integers that keep the sign
//! and the order of the doubles they stand for (see [`math::ordinal`]). A
//! comparison of two ordinals answers as the comparison of the two doubles
//! would, so every decision here is exact.

pub mod hittables;
pub mod input;
pub mod materials;
pub mod math;
pub mod output;
pub mod rendering;
