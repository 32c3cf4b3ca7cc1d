//! Blocks

pub mod parts;
