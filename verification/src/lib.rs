//! Renders voxel-world chunk snapshots into raster map tiles.
//!
//! A chunk is a 16x16 grid of vertical block-layer stacks. Chunks arrive as a
//! big-endian binary stream, are decoded and collected into a chunk map, and a
//! tile renderer turns a rectangular world-coordinate window into a pixel
//! buffer by asking a selected color algorithm for each pixel's color.

pub mod chunk_tile;
pub mod codec;
pub mod color;
pub mod coloring;
pub mod render;
