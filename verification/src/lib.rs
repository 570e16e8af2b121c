//! A small geometric foundation for a rendering pipeline: four-component
//! homogeneous tuples (points and vectors), RGB colors, and a pixel canvas
//! that serializes to the plain-text P3 raster format.
//!
//! Scalars are exact fixed-point values (see [`fixed`]), so every operation
//! and the full text of the encoded image are stated and proved exactly.

pub mod canvas;
pub mod color;
pub mod fixed;
pub mod sim;
pub mod text;
pub mod tuple;
