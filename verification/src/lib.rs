//! Monte-Carlo fractal histogram library: dispatch sizing for the sampling
//! engine, accumulation of per-pixel hit counts, the binary bundle snapshot
//! format, merging of bundles, and normalization of a merged histogram to a
//! 16-bit raster.

pub mod archive;
pub mod codec;
pub mod engine;
pub mod frame;
pub mod image;
pub mod merge;
