//! What a surface looks like.

pub mod patterns;
