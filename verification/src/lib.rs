//! Rendering pipeline for branded QR code images: module rasterization
//! onto an RGBA canvas, aspect-preserving logo compositing behind an
//! optional protective plate, and adaptive single-line caption layout
//! with glyph-mask blending.

pub mod canvas;
pub mod caption;
pub mod color;
pub mod error;
pub mod grid;
pub mod logo;
pub mod num;
pub mod raster;
pub mod resize;
pub mod text;
