//! Biome palette lookup: an explicitly constructed immutable table from
//! biome id to opaque color, owned by the coloring subsystem, built once at
//! startup from externally loaded (id, 0xRRGGBB) entries.

use vstd::pervasive::VecAdditionalExecFns;
use vstd::prelude::*;

use crate::chunk_tile::ChunkTile;
use crate::color::{rgb, spec_rgb, TRANSPARENT};
use crate::render::{get_column_in_map, spec_column_in_map, ChunkMap};

verus! {

/// The immutable biome color table: the color of biome id `b` is `colors[b]`.
pub struct BiomePalette {
    /// One opaque color per biome id; ids without an entry hold 0.
    pub colors: Vec<u32>,
}

/// The opaque packed color of a 0xRRGGBB palette entry.
pub open spec fn spec_palette_color(c: u32) -> u32 {
    spec_rgb(((c >> 16) & 0xff) as u8, ((c >> 8) & 0xff) as u8, (c & 0xff) as u8)
}

/// The table that results from writing each entry's color at its id over an
/// initial table, in order; a later entry overwrites an earlier one.
pub open spec fn spec_fill_palette(entries: Seq<(u32, u32)>, init: Seq<u32>) -> Seq<u32>
    decreases entries.len(),
{
    if entries.len() == 0 {
        init
    } else {
        spec_fill_palette(entries.drop_last(), init).update(
            entries.last().0 as int,
            spec_palette_color(entries.last().1),
        )
    }
}

/// Filling with in-range ids never changes the table's length.
proof fn lemma_fill_palette_len(entries: Seq<(u32, u32)>, init: Seq<u32>)
    requires
        forall|i: int| 0 <= i < entries.len() ==> (#[trigger] entries[i]).0 < init.len(),
    ensures
        spec_fill_palette(entries, init).len() == init.len(),
    decreases entries.len(),
{
    if entries.len() > 0 {
        assert(forall|i: int|
            0 <= i < entries.drop_last().len() ==> (#[trigger] entries.drop_last()[i]).0
                < init.len());
        lemma_fill_palette_len(entries.drop_last(), init);
    }
}

/// Builds the palette from (id, 0xRRGGBB) entries: a table sized by the last
/// entry's id, zero-filled, then written in order. `None` exactly where the
/// entries are empty, where an id exceeds the last entry's id, or where the
/// table would not fit in memory.
pub fn build_palette(entries: &Vec<(u32, u32)>) -> (r: Option<BiomePalette>)
    ensures
        match r {
            Some(p) => {
                &&& entries@.len() > 0
                &&& forall|i: int|
                    0 <= i < entries@.len() ==> (#[trigger] entries@[i]).0 <= entries@.last().0
                &&& p.colors@.len() == entries@.last().0 + 1
                &&& p.colors@ == spec_fill_palette(
                    entries@,
                    Seq::new((entries@.last().0 + 1) as nat, |j: int| 0u32),
                )
            },
            None => entries@.len() == 0 || (exists|i: int|
                0 <= i < entries@.len() && (#[trigger] entries@[i]).0 > entries@.last().0)
                || entries@.last().0 + 1 > usize::MAX,
        },
{
    let n = entries.len();
    if n == 0 {
        return None;
    }
    let last_id = entries[n - 1].0;
    if usize::MAX as u64 <= last_id as u64 {
        return None;
    }
    let size = last_id as usize + 1;
    let mut i: usize = 0;
    while i < n
        invariant
            i <= n,
            n == entries@.len() > 0,
            last_id == entries@.last().0,
            forall|j: int| 0 <= j < i ==> (#[trigger] entries@[j]).0 <= last_id,
        decreases n - i,
    {
        if entries[i].0 > last_id {
            return None;
        }
        i = i + 1;
    }
    let ghost zeros = Seq::new((last_id + 1) as nat, |j: int| 0u32);
    let mut colors: Vec<u32> = Vec::new();
    while colors.len() < size
        invariant
            colors@.len() <= size,
            size == last_id + 1,
            forall|j: int| 0 <= j < colors@.len() ==> colors@[j] == 0u32,
        decreases size - colors@.len(),
    {
        colors.push(0);
    }
    assert(colors@ =~= zeros);
    i = 0;
    while i < n
        invariant
            i <= n,
            n == entries@.len() > 0,
            last_id == entries@.last().0,
            size == last_id + 1,
            zeros.len() == last_id + 1,
            forall|j: int| 0 <= j < n ==> (#[trigger] entries@[j]).0 <= last_id,
            colors@.len() == size,
            colors@ == spec_fill_palette(entries@.take(i as int), zeros),
        decreases n - i,
    {
        let id = entries[i].0;
        let c = entries[i].1;
        let b = (c & 0xff) as u8;
        let g = ((c >> 8) & 0xff) as u8;
        let r = ((c >> 16) & 0xff) as u8;
        proof {
            assert forall|j: int| 0 <= j < entries@.take(i as int).len() implies (
            #[trigger] entries@.take(i as int)[j]).0 < zeros.len() by {
                assert(zeros.len() == last_id + 1);
                assert(entries@.take(i as int)[j] == entries@[j]);
                assert(entries@[j].0 <= last_id);
            }
            lemma_fill_palette_len(entries@.take(i as int), zeros);
            assert(entries@.take(i + 1).drop_last() =~= entries@.take(i as int));
            assert(entries@.take(i + 1).last() == entries@[i as int]);
        }
        colors.set(id as usize, rgb(r, g, b));
        i = i + 1;
    }
    proof {
        assert(entries@.take(n as int) =~= entries@);
    }
    Some(BiomePalette { colors })
}

/// The biome algorithm's color: transparent where no chunk is indexed or the
/// biome id lies outside the palette, else the palette color of the biome.
pub open spec fn spec_biome_color(palette: Seq<u32>, m: Map<u64, ChunkTile>, x: i32, z: i32) -> u32 {
    match spec_column_in_map(m, x, z) {
        None => TRANSPARENT,
        Some(col) => {
            if (col.biome as int) < palette.len() {
                palette[col.biome as int]
            } else {
                TRANSPARENT
            }
        },
    }
}

/// Looks the column's biome id up in the palette.
pub fn get_biome_color(palette: &BiomePalette, map: &ChunkMap, x: i32, z: i32) -> (c: u32)
    requires
        map.wf(),
    ensures
        c == spec_biome_color(palette.colors@, map@, x, z),
{
    match get_column_in_map(map, x, z) {
        None => TRANSPARENT,
        Some(col) => {
            let b = col.biome as usize;
            if b < palette.colors.len() {
                palette.colors[b]
            } else {
                TRANSPARENT
            }
        },
    }
}

} // verus!
