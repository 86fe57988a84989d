//! Photomosaic composition: every pixel of a source image is replaced by the
//! palette tile whose average colour is nearest to it.
//!
//! The crate holds the integer side of that work: compositing palette tiles
//! over black and totalling their channels, the per-colour lookup cache, and
//! the composer that copies the chosen tiles into the output raster. The
//! perceptual colour transform and the nearest-neighbour search work on
//! real numbers and stay with the caller, who answers the composer's
//! queries one colour at a time.

pub mod blit;
pub mod cache;
pub mod dither;
pub mod error;
pub mod grid;
pub mod index;
pub mod mosaic;
pub mod palette;
pub mod pixel;
pub mod raster;
pub mod resample;
pub mod tile;
