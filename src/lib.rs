//! Renders raster images as text drawn from a glyph ramp.
//!
//! The pipeline is stated over exact integer arithmetic: a luminance is the
//! rational `p / 255` of a pixel level, gamma shaping compares rational powers
//! exactly, and edge orientation is decided by exact comparisons against the
//! arc boundaries at multiples of `pi / 4`.
pub mod pattern;
pub mod quantize;
pub mod edge;
pub mod raster;
pub mod render;
pub mod camera;
pub mod boundary;

pub use pattern::AsciiPattern;
pub use quantize::{Gamma, quantize_level, quantize_linear, quantizer, pick_glyph};
pub use edge::{PixelClass, classify, orientation, max_magnitude_func};
pub use raster::{GrayImage, RgbImage};
pub use render::{RenderConfig, run, render_image, plain_render, color_render, edge_render};
pub use camera::{frame_text, frame_height, key_stops};
