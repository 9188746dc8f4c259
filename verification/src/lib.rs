//! A deterministic procedural field generator: a seed and a settings record
//! are turned into an ordered sequence of drawable primitives (shape kind,
//! center, size, color, alpha) laid out on a grid, shuffled, scaled and
//! colored by a seeded pseudo-random stream.
//!
//! All fractional quantities (sizes, coordinates, color channels, hue
//! degrees) are fixed-point values: an `i64` counting units of `1/FP_ONE`.

pub mod color;
pub mod fixed;
pub mod generate;
pub mod geom;
pub mod laws;
pub mod rng;
