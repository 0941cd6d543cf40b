//! Value types of the tracer.

pub mod color;
pub mod objects;
pub mod intersect;
pub mod matrix;
