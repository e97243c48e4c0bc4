//! Topographic banding: water columns take a sea gradient by depth, land
//! columns a piecewise-linear gradient across five elevation bands.

use vstd::prelude::*;

use crate::chunk_tile::{BlockColumn, ChunkTile};
use crate::color::{interpolate, spec_interpolate, BLACK, TRANSPARENT, WHITE};
use crate::coloring::{is_water_blockstate, spec_is_water_id};
use crate::render::{get_column_in_map, spec_column_in_map, ChunkMap};

verus! {

/// Color above the high level.
pub const SKY_COLOR: u32 = 0xff88_0088;

/// Color of the mountain level.
pub const MTN_COLOR: u32 = 0xff32_6e9f;

/// Color of the mid level.
pub const MID_COLOR: u32 = 0xff00_ffff;

/// Color of the coast at sea level.
pub const COAST_COLOR: u32 = 0xff00_b600;

/// The fixed sea color.
pub const SEA_COLOR: u32 = 0xffff_d900;

/// Upper anchor of the mountain band.
pub const HIGH_LEVEL: i16 = 240;

/// Upper anchor of the mid band.
pub const MTN_LEVEL: i16 = 150;

/// Upper anchor of the coast band.
pub const MID_LEVEL: i16 = 100;

/// The sea level.
pub const SEA_LEVEL: i16 = 64;

/// A column is water when any of its layers carries a block id in the
/// reserved liquid band.
pub open spec fn spec_is_water(c: BlockColumn) -> bool {
    exists|i: int| 0 <= i < c.layers@.len() && spec_is_water_id((#[trigger] c.layers@[i]).id)
}

/// Tests whether any layer of the column is a liquid block.
pub fn is_water(column: &BlockColumn) -> (r: bool)
    ensures
        r == spec_is_water(*column),
{
    let mut i: usize = 0;
    while i < column.layers.len()
        invariant
            i <= column.layers@.len(),
            forall|j: int| 0 <= j < i ==> !spec_is_water_id((#[trigger] column.layers@[j]).id),
        decreases column.layers@.len() - i,
    {
        if is_water_blockstate(column.layers[i].id) {
            return true;
        }
        i = i + 1;
    }
    false
}

/// The sea gradient: black at depth 0 rising to the sea color at sea level,
/// and the solid sea color from sea level up.
pub open spec fn spec_sea_color(ocean_floor_height: i16) -> u32 {
    if ocean_floor_height < SEA_LEVEL {
        spec_interpolate(BLACK, SEA_COLOR, 0i16, SEA_LEVEL, ocean_floor_height)
    } else {
        SEA_COLOR
    }
}

/// The land gradient across the five ascending bands: coast below sea level,
/// coast-to-mid, mid-to-mountain, mountain-to-white, then white-to-sky.
pub open spec fn spec_land_color(surface_height: i16) -> u32 {
    if surface_height < SEA_LEVEL {
        spec_interpolate(BLACK, COAST_COLOR, 0i16, SEA_LEVEL, surface_height)
    } else if surface_height < MID_LEVEL {
        spec_interpolate(COAST_COLOR, MID_COLOR, SEA_LEVEL, MID_LEVEL, surface_height)
    } else if surface_height < MTN_LEVEL {
        spec_interpolate(MID_COLOR, MTN_COLOR, MID_LEVEL, MTN_LEVEL, surface_height)
    } else if surface_height < HIGH_LEVEL {
        spec_interpolate(MTN_COLOR, WHITE, MTN_LEVEL, HIGH_LEVEL, surface_height)
    } else {
        spec_interpolate(WHITE, SKY_COLOR, HIGH_LEVEL, 255i16, surface_height)
    }
}

/// The topo algorithm's color: transparent where no chunk is indexed, the
/// sea gradient of the ground height for water columns, the land gradient of
/// the ground height otherwise.
pub open spec fn spec_topo_color(m: Map<u64, ChunkTile>, x: i32, z: i32) -> u32 {
    match spec_column_in_map(m, x, z) {
        None => TRANSPARENT,
        Some(col) => {
            if spec_is_water(col) {
                spec_sea_color(col.spec_ground_layer().y)
            } else {
                spec_land_color(col.spec_ground_layer().y)
            }
        },
    }
}

/// Computes the sea gradient color for an ocean floor height.
pub fn get_sea_color(ocean_floor_height: i16) -> (c: u32)
    ensures
        c == spec_sea_color(ocean_floor_height),
{
    if ocean_floor_height < SEA_LEVEL {
        interpolate(BLACK, SEA_COLOR, 0, SEA_LEVEL, ocean_floor_height)
    } else {
        SEA_COLOR
    }
}

/// Computes the land gradient color for a surface height.
pub fn get_land_color(surface_height: i16) -> (c: u32)
    ensures
        c == spec_land_color(surface_height),
{
    if surface_height < SEA_LEVEL {
        interpolate(BLACK, COAST_COLOR, 0, SEA_LEVEL, surface_height)
    } else if surface_height < MID_LEVEL {
        interpolate(COAST_COLOR, MID_COLOR, SEA_LEVEL, MID_LEVEL, surface_height)
    } else if surface_height < MTN_LEVEL {
        interpolate(MID_COLOR, MTN_COLOR, MID_LEVEL, MTN_LEVEL, surface_height)
    } else if surface_height < HIGH_LEVEL {
        interpolate(MTN_COLOR, WHITE, MTN_LEVEL, HIGH_LEVEL, surface_height)
    } else {
        interpolate(WHITE, SKY_COLOR, HIGH_LEVEL, 255, surface_height)
    }
}

/// Computes the topographic color of the column at `(x, z)`.
pub fn get_topo_color(map: &ChunkMap, x: i32, z: i32) -> (c: u32)
    requires
        map.wf(),
    ensures
        c == spec_topo_color(map@, x, z),
{
    match get_column_in_map(map, x, z) {
        None => TRANSPARENT,
        Some(col) => {
            if is_water(col) {
                get_sea_color(col.ground_layer().y)
            } else {
                get_land_color(col.ground_layer().y)
            }
        },
    }
}

} // verus!
