//! The elevation gradient: linear-maps the ground layer's height from the
//! world's vertical bounds onto an opaque gray.

use vstd::prelude::*;

use crate::chunk_tile::ChunkTile;
use crate::color::{rgb, spec_rgb, TRANSPARENT};
use crate::render::{get_column_in_map, spec_column_in_map, ChunkMap};

verus! {

/// Lowest world height of the gradient; maps to gray 0.
pub const MIN_Y: i16 = -64;

/// Highest world height of the gradient; maps to gray 255.
pub const MAX_Y: i16 = 320;

/// The gray value of a ground height: `(y - MIN_Y) * 256 / (MAX_Y - MIN_Y)`
/// with integer truncation, clamped into `[0, 255]` at both ends.
pub open spec fn spec_height_gray(y: int) -> int {
    if y <= -64 {
        0
    } else if (y + 64) * 256 / 384 > 255 {
        255
    } else {
        (y + 64) * 256 / 384
    }
}

/// The height algorithm's color: transparent where no chunk is indexed, else
/// the ground height's gray as an opaque pixel.
pub open spec fn spec_height_color(m: Map<u64, ChunkTile>, x: i32, z: i32) -> u32 {
    match spec_column_in_map(m, x, z) {
        None => TRANSPARENT,
        Some(col) => {
            let g = spec_height_gray(col.spec_ground_layer().y as int) as u8;
            spec_rgb(g, g, g)
        },
    }
}

/// Computes the elevation-gradient color of the column at `(x, z)`.
pub fn get_height_color(map: &ChunkMap, x: i32, z: i32) -> (c: u32)
    requires
        map.wf(),
    ensures
        c == spec_height_color(map@, x, z),
{
    match get_column_in_map(map, x, z) {
        None => TRANSPARENT,
        Some(col) => {
            let y = col.ground_layer().y;
            let num: i32 = y as i32 + 64;
            let g: u8 = if num <= 0 {
                0
            } else {
                let h: i32 = num * 256 / 384;
                if h > 255 {
                    255
                } else {
                    h as u8
                }
            };
            rgb(g, g, g)
        },
    }
}

} // verus!
