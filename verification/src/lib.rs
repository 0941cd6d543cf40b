//! A ray tracer's discrete core: colors, the pixel canvas, the layout of
//! matrices, hit selection, refraction bookkeeping and the shading rules, each
//! with a proved contract.
//!
//! Real-valued geometry is left to the caller. Wherever a rule depends on a
//! real quantity, this crate takes the integer that stands for it: an order
//! key for a ray parameter, an index for a shape, an already scaled color.

pub mod units;
pub mod render;
pub mod scene;
pub mod world;
