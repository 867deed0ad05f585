//! A region-scoped pixel-filter composition engine.
//!
//! The crate owns an in-memory raster of RGB pixels ([`PixelBuffer`]), a
//! closed catalog of stateless per-pixel color transforms ([`RgbFilter`]),
//! and a builder ([`MyRgbImage`]) that applies transforms to the pixels
//! covered by a geometric selection: the whole image, single rows or
//! columns, contiguous ranges, an affine coordinate remapping, a pair of
//! rows or columns, or the interior of a triangle.
//!
//! Decoding a source image and writing the result back to disk are left to
//! external collaborators; they hand the engine a rectangular buffer of
//! plain 8-bit channel values and take the same shape back.

pub mod apply;
pub mod arith;
pub mod buffer;
pub mod codec;
pub mod error;
pub mod geometry;
pub mod laws;
pub mod my_image;
pub mod pixel;
pub mod selection;

pub use buffer::PixelBuffer;
pub use error::Error;
pub use geometry::Point;
pub use geometry::Triangle;
pub use my_image::MyRgbImage;
pub use pixel::Rgb;
pub use pixel::RgbFilter;
pub use selection::CoordMap;
pub use selection::PairSelection;
pub use selection::PixelSelection;
