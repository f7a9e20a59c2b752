//! A multi-pass feedback rendering pipeline with a raymarched
//! signed-distance-field evaluator, modelled in fixed-point arithmetic.

pub mod fixed;
pub mod image;
pub mod pipeline;
pub mod program;
pub mod render;
pub mod sdf;

pub use fixed::SCALE;
