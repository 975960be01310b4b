//! What a render is asked to do.

pub mod cli;
