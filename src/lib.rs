//! Verified decision logic of a small ray caster: checkerboard tile
//! selection, nearest-hit selection over the figures of a scene, and the
//! pixel loop that fills the quantized RGB output grid.
pub mod nearest;
pub mod raster;
pub mod tiling;

pub use nearest::nearest_hit;
pub use raster::{render_pixels, RgbRaster};
pub use tiling::{checker_pick, tile_parity_of};
