//! The reserved shaded-relief algorithm. Its full visual rule is an open
//! extension point; the stated contract is only that "no data" coordinates
//! are transparent, and the stub renders transparent everywhere.

use vstd::prelude::*;

use crate::color::TRANSPARENT;
use crate::render::{get_column_in_map, ChunkMap};

verus! {

/// Returns the transparent "no data" color for every coordinate.
pub fn get_terrain_color(map: &ChunkMap, x: i32, z: i32) -> (c: u32)
    requires
        map.wf(),
    ensures
        c == TRANSPARENT,
{
    let col = get_column_in_map(map, x, z);
    if col.is_none() {
        return TRANSPARENT;
    }
    TRANSPARENT
}

} // verus!
