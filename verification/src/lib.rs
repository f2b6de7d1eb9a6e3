//! Procedural generation of a randomized triangle-fan polygon topology and
//! deterministic square raster buffers.
//!
//! The library builds the integer skeleton of a "blob" shape: the index buffer
//! of a closed triangle fan around a hub vertex, and a square RGBA pixel
//! buffer filled by a per-pixel callback. Floating-point geometry (vertex
//! positions, UV coordinates, noise sampling) is computed by the host around
//! these verified cores.

pub mod fan;
pub mod raster;
mod rng;
pub mod texture;

pub use fan::FanTopology;
pub use fan::fan_indices;
pub use fan::generate_fan;
pub use raster::PixelBuffer;
pub use raster::PixelFormat;
pub use raster::generate;
pub use rng::random_seed;
pub use texture::generate_grayscale;
pub use texture::grayscale;
