//! A discrete, axis-separated 2D collision and impulse-resolution engine for
//! rectangle-shaped bodies, in fixed-point integer arithmetic.
pub mod article;
pub mod geometry;
pub mod scratchpad;
pub mod world;
pub mod laws;
pub mod sprite;
