//! The in-memory chunk representation: a chunk position, a format version
//! tag, and 256 columns in row-major (local x + 16 * local z) order, each a
//! stack of block layers ordered top to bottom.

use vstd::prelude::*;

verus! {

/// Columns per chunk edge.
pub const CHUNK_WIDTH: usize = 16;

/// Columns per chunk: a fixed 16x16 grid.
pub const CHUNK_COLUMNS: usize = 256;

/// One recorded elevation/block-id pair within a column.
#[derive(Clone, Copy, PartialEq, Eq, Structural, Debug)]
pub struct BlockInfo {
    /// World height of this layer.
    pub y: i16,
    /// Block-type identifier.
    pub id: u16,
}

/// One vertical block stack at a single world (x, z) location.
#[derive(Debug)]
pub struct BlockColumn {
    /// Biome identifier of the column.
    pub biome: u16,
    /// Precomputed light value; part of the format, unused by the colorings.
    pub light: u8,
    /// Layers ordered top to bottom; the last entry is the deepest recorded.
    pub layers: Vec<BlockInfo>,
}

/// A chunk: 256 columns keyed by an integer chunk coordinate.
#[derive(Debug)]
pub struct ChunkTile {
    /// The chunk coordinate (chunkX, chunkZ).
    pub pos: (i32, i32),
    /// Format version tag, kept only for forward-compatibility bookkeeping.
    pub data_version: u16,
    /// The 256 columns in row-major (local x + 16 * local z) order.
    pub columns: Vec<BlockColumn>,
}

/// The sentinel returned for a column with no recorded layers: void terrain
/// at the world floor.
pub open spec fn spec_empty_ground() -> BlockInfo {
    BlockInfo { y: -64i16, id: 0u16 }
}

impl BlockColumn {
    /// A column's layer count must fit the format's one-byte count field.
    pub open spec fn wf(&self) -> bool {
        self.layers@.len() <= 255
    }

    /// The bottommost recorded layer, which the colorings treat as the ground
    /// surface of the column.
    pub open spec fn spec_ground_layer(&self) -> BlockInfo {
        if self.layers@.len() == 0 {
            spec_empty_ground()
        } else {
            self.layers@.last()
        }
    }

    /// Returns the bottommost recorded layer, or the `{y: -64, id: 0}`
    /// sentinel for a column with no layers.
    pub fn ground_layer(&self) -> (r: BlockInfo)
        ensures
            r == self.spec_ground_layer(),
            self.layers@.len() == 0 ==> r == (BlockInfo { y: -64i16, id: 0u16 }),
    {
        if self.layers.len() == 0 {
            BlockInfo { y: -64, id: 0 }
        } else {
            self.layers[self.layers.len() - 1]
        }
    }
}

impl ChunkTile {
    /// A chunk holds exactly 256 well-formed columns.
    pub open spec fn wf(&self) -> bool {
        &&& self.columns@.len() == 256
        &&& forall|i: int| 0 <= i < 256 ==> (#[trigger] self.columns@[i]).wf()
    }
}

} // verus!
