//! Slope-edge shading: compares the ground height of a column against its
//! west, north and northwest neighbors at one- and two-block offsets, under a
//! single light-source convention.

use vstd::prelude::*;

use crate::chunk_tile::ChunkTile;
use crate::color::TRANSPARENT;
use crate::render::{get_column_in_map, spec_column_in_map, ChunkMap};

verus! {

/// Strong "ditch" shade: a neighbor at least two blocks below.
pub const SHADE_DARKBLACK: u32 = 0x8800_0000;

/// Soft "ditch" shade.
pub const SHADE_LITEBLACK: u32 = 0x4400_0000;

/// "Raise" shade: a neighbor above, no neighbor below.
pub const SHADE_LITEWHITE: u32 = 0x33ff_ffff;

/// The sentinel ground height of a neighbor with no indexed chunk: far below
/// any recorded terrain, so the world's charted edge registers as a large
/// downward step and takes ditch shading.
pub const NO_CHUNK_Y: i16 = -999;

/// The ground height that slope comparisons see at `(x, z)`: the column's
/// ground layer height, or the sentinel where no chunk is indexed.
pub open spec fn spec_ground_y(m: Map<u64, ChunkTile>, x: i32, z: i32) -> int {
    match spec_column_in_map(m, x, z) {
        Some(c) => c.spec_ground_layer().y as int,
        None => NO_CHUNK_Y as int,
    }
}

/// The shade chosen from the six height differences, each the center's ground
/// height minus a neighbor's. The one-block offsets west, north and northwest
/// are scanned in that order: a neighbor two or more below returns the strong
/// ditch shade at once; a neighbor exactly one below marks a soft ditch and
/// stops the scan; a neighbor above marks a raise. Any two-block offset two
/// or more below also marks a soft ditch, overriding a raise.
pub open spec fn spec_shade(dw: int, dn: int, dnw: int, dw2: int, dn2: int, dnw2: int) -> u32 {
    if dw >= 2 {
        SHADE_DARKBLACK
    } else if dw == 1 {
        SHADE_LITEBLACK
    } else if dn >= 2 {
        SHADE_DARKBLACK
    } else if dn == 1 {
        SHADE_LITEBLACK
    } else if dnw >= 2 {
        SHADE_DARKBLACK
    } else if dnw == 1 {
        SHADE_LITEBLACK
    } else if dw2 >= 2 || dn2 >= 2 || dnw2 >= 2 {
        SHADE_LITEBLACK
    } else if dw <= -1 || dn <= -1 || dnw <= -1 {
        SHADE_LITEWHITE
    } else {
        TRANSPARENT
    }
}

/// The slope algorithm's color: transparent where no chunk is indexed, else
/// the shade of the neighborhood's height differences.
pub open spec fn spec_slope_color(m: Map<u64, ChunkTile>, x: i32, z: i32) -> u32
    recommends
        x - 2 >= i32::MIN,
        z - 2 >= i32::MIN,
{
    match spec_column_in_map(m, x, z) {
        None => TRANSPARENT,
        Some(col) => {
            let y = col.spec_ground_layer().y as int;
            spec_shade(
                y - spec_ground_y(m, (x - 1) as i32, z),
                y - spec_ground_y(m, x, (z - 1) as i32),
                y - spec_ground_y(m, (x - 1) as i32, (z - 1) as i32),
                y - spec_ground_y(m, (x - 2) as i32, (z - 1) as i32),
                y - spec_ground_y(m, (x - 1) as i32, (z - 2) as i32),
                y - spec_ground_y(m, (x - 2) as i32, (z - 2) as i32),
            )
        },
    }
}

fn get_ground_y(map: &ChunkMap, x: i32, z: i32) -> (y: i16)
    requires
        map.wf(),
    ensures
        y as int == spec_ground_y(map@, x, z),
{
    match get_column_in_map(map, x, z) {
        Some(c) => c.ground_layer().y,
        None => NO_CHUNK_Y,
    }
}

/// Computes the slope-edge shade of the column at `(x, z)`.
pub fn get_slope_color(map: &ChunkMap, x: i32, z: i32) -> (c: u32)
    requires
        map.wf(),
        x - 2 >= i32::MIN,
        z - 2 >= i32::MIN,
    ensures
        c == spec_slope_color(map@, x, z),
{
    match get_column_in_map(map, x, z) {
        None => TRANSPARENT,
        Some(col) => {
            let y = col.ground_layer().y as i32;
            let dy_w1 = y - get_ground_y(map, x - 1, z) as i32;
            let dy_n1 = y - get_ground_y(map, x, z - 1) as i32;
            let dy_nw = y - get_ground_y(map, x - 1, z - 1) as i32;
            let dy_w2 = y - get_ground_y(map, x - 2, z - 1) as i32;
            let dy_n2 = y - get_ground_y(map, x - 1, z - 2) as i32;
            let dy_nw2 = y - get_ground_y(map, x - 2, z - 2) as i32;
            if dy_w1 >= 2 {
                SHADE_DARKBLACK
            } else if dy_w1 == 1 {
                SHADE_LITEBLACK
            } else if dy_n1 >= 2 {
                SHADE_DARKBLACK
            } else if dy_n1 == 1 {
                SHADE_LITEBLACK
            } else if dy_nw >= 2 {
                SHADE_DARKBLACK
            } else if dy_nw == 1 {
                SHADE_LITEBLACK
            } else if dy_w2 >= 2 || dy_n2 >= 2 || dy_nw2 >= 2 {
                SHADE_LITEBLACK
            } else if dy_w1 <= -1 || dy_n1 <= -1 || dy_nw <= -1 {
                SHADE_LITEWHITE
            } else {
                TRANSPARENT
            }
        },
    }
}

} // verus!
