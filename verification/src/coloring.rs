//! The closed set of color algorithms, selected by mode name and dispatched
//! through one `evaluate` method; compositing is a variant holding two nested
//! algorithms.

pub mod biome;
pub mod height;
pub mod slope;
pub mod terrain;
pub mod topo;

use vstd::prelude::*;

use crate::chunk_tile::ChunkTile;
use crate::color::{blend, spec_blend, TRANSPARENT};
use crate::coloring::biome::{get_biome_color, spec_biome_color, BiomePalette};
use crate::coloring::height::{get_height_color, spec_height_color};
use crate::coloring::slope::{get_slope_color, spec_slope_color};
use crate::coloring::terrain::get_terrain_color;
use crate::coloring::topo::{get_topo_color, spec_topo_color};
use crate::render::ChunkMap;

verus! {

/// The inclusive block-id band reserved for liquids.
pub open spec fn spec_is_water_id(id: u16) -> bool {
    34 <= id <= 49
}

/// Tests whether a block id lies in the reserved liquid band.
pub fn is_water_blockstate(block_id: u16) -> (r: bool)
    ensures
        r == spec_is_water_id(block_id),
{
    block_id >= 34 && block_id <= 49
}

/// One color algorithm: a pure function from the chunk map and a world
/// coordinate to a packed color, with alpha 0 as "no data".
pub enum Algorithm {
    /// Palette lookup by the column's biome id; owns its palette.
    Biome(BiomePalette),
    /// An unspecified extension point; renders no data everywhere.
    BiomeWater,
    /// The elevation gradient.
    Height,
    /// An unspecified extension point; renders no data everywhere.
    Landmass,
    /// Slope-edge shading from the neighbors' ground heights.
    Slope,
    /// The reserved shaded-relief slot; renders no data everywhere.
    Terrain,
    /// Topographic banding.
    Topo,
    /// Alpha-blends the second algorithm's color over the first's.
    Superimpose(Box<Algorithm>, Box<Algorithm>),
}

impl Algorithm {
    /// The color this algorithm gives the world coordinate `(x, z)` under
    /// the chunk map `m`.
    pub open spec fn spec_evaluate(&self, m: Map<u64, ChunkTile>, x: i32, z: i32) -> u32
        decreases self,
    {
        match self {
            Algorithm::Biome(p) => spec_biome_color(p.colors@, m, x, z),
            Algorithm::BiomeWater => TRANSPARENT,
            Algorithm::Height => spec_height_color(m, x, z),
            Algorithm::Landmass => TRANSPARENT,
            Algorithm::Slope => spec_slope_color(m, x, z),
            Algorithm::Terrain => TRANSPARENT,
            Algorithm::Topo => spec_topo_color(m, x, z),
            Algorithm::Superimpose(b, t) => spec_blend(
                b.spec_evaluate(m, x, z),
                t.spec_evaluate(m, x, z),
            ),
        }
    }

    /// Computes this algorithm's color at the world coordinate `(x, z)`.
    pub fn evaluate(&self, map: &ChunkMap, x: i32, z: i32) -> (c: u32)
        requires
            map.wf(),
            x - 2 >= i32::MIN,
            z - 2 >= i32::MIN,
        ensures
            c == self.spec_evaluate(map@, x, z),
        decreases self,
    {
        match self {
            Algorithm::Biome(p) => get_biome_color(p, map, x, z),
            Algorithm::BiomeWater => TRANSPARENT,
            Algorithm::Height => get_height_color(map, x, z),
            Algorithm::Landmass => TRANSPARENT,
            Algorithm::Slope => get_slope_color(map, x, z),
            Algorithm::Terrain => get_terrain_color(map, x, z),
            Algorithm::Topo => get_topo_color(map, x, z),
            Algorithm::Superimpose(b, t) => {
                let bottom = b.evaluate(map, x, z);
                let top = t.evaluate(map, x, z);
                blend(bottom, top)
            },
        }
    }
}

fn mode_is(mode: &str, name: &str) -> (r: bool)
    ensures
        r == (mode@ == name@),
{
    let a = mode.to_owned();
    let b = name.to_owned();
    a == b
}

/// Resolves a mode name to its algorithm. Every known name maps to exactly
/// its algorithm; an unknown name is an error, never a silent default.
pub fn get_color_fn(mode: &str, palette: BiomePalette) -> (r: Result<Algorithm, String>)
    ensures
        mode@ == "biome"@ ==> r == Ok::<Algorithm, String>(Algorithm::Biome(palette)),
        mode@ == "biome_water"@ ==> r == Ok::<Algorithm, String>(Algorithm::BiomeWater),
        mode@ == "height"@ ==> r == Ok::<Algorithm, String>(Algorithm::Height),
        mode@ == "landmass"@ ==> r == Ok::<Algorithm, String>(Algorithm::Landmass),
        mode@ == "slope"@ ==> r == Ok::<Algorithm, String>(Algorithm::Slope),
        mode@ == "terrain"@ ==> r == Ok::<Algorithm, String>(Algorithm::Terrain),
        mode@ == "topo"@ ==> r == Ok::<Algorithm, String>(Algorithm::Topo),
        (mode@ != "biome"@ && mode@ != "biome_water"@ && mode@ != "height"@ && mode@ != "landmass"@
            && mode@ != "slope"@ && mode@ != "terrain"@ && mode@ != "topo"@) ==> (r is Err),
{
    proof {
        reveal_strlit("biome");
        reveal_strlit("biome_water");
        reveal_strlit("height");
        reveal_strlit("landmass");
        reveal_strlit("slope");
        reveal_strlit("terrain");
        reveal_strlit("topo");
        assert("biome"@.len() == 5 && "biome_water"@.len() == 11 && "height"@.len() == 6
            && "landmass"@.len() == 8 && "slope"@.len() == 5 && "terrain"@.len() == 7
            && "topo"@.len() == 4);
        assert("biome"@[0] == 'b' && "slope"@[0] == 's');
    }
    if mode_is(mode, "biome") {
        Ok(Algorithm::Biome(palette))
    } else if mode_is(mode, "biome_water") {
        Ok(Algorithm::BiomeWater)
    } else if mode_is(mode, "height") {
        Ok(Algorithm::Height)
    } else if mode_is(mode, "landmass") {
        Ok(Algorithm::Landmass)
    } else if mode_is(mode, "slope") {
        Ok(Algorithm::Slope)
    } else if mode_is(mode, "terrain") {
        Ok(Algorithm::Terrain)
    } else if mode_is(mode, "topo") {
        Ok(Algorithm::Topo)
    } else {
        Err("unknown colorize mode".to_owned())
    }
}

/// Wraps two algorithms into the compositing algorithm that evaluates both
/// and alpha-blends the top's color over the bottom's.
pub fn superimpose(render_bottom: Algorithm, render_top: Algorithm) -> (r: Algorithm)
    ensures
        (r matches Algorithm::Superimpose(b, t) && *b == render_bottom && *t == render_top),
        forall|m: Map<u64, ChunkTile>, x: i32, z: i32|
            #[trigger] r.spec_evaluate(m, x, z) == spec_blend(
                render_bottom.spec_evaluate(m, x, z),
                render_top.spec_evaluate(m, x, z),
            ),
{
    Algorithm::Superimpose(Box::new(render_bottom), Box::new(render_top))
}

/// Compositing with a fully transparent top color returns the bottom
/// algorithm's color exactly.
pub proof fn lemma_superimpose_transparent_top(
    b: Box<Algorithm>,
    t: Box<Algorithm>,
    m: Map<u64, ChunkTile>,
    x: i32,
    z: i32,
)
    requires
        crate::color::chan_a((*t).spec_evaluate(m, x, z)) == 0,
    ensures
        Algorithm::Superimpose(b, t).spec_evaluate(m, x, z) == (*b).spec_evaluate(m, x, z),
{
    crate::color::lemma_blend_transparent_top(
        (*b).spec_evaluate(m, x, z),
        (*t).spec_evaluate(m, x, z),
    );
}

/// Compositing with a fully opaque top color returns the top algorithm's
/// color exactly.
pub proof fn lemma_superimpose_opaque_top(
    b: Box<Algorithm>,
    t: Box<Algorithm>,
    m: Map<u64, ChunkTile>,
    x: i32,
    z: i32,
)
    requires
        crate::color::chan_a((*t).spec_evaluate(m, x, z)) == 255,
    ensures
        Algorithm::Superimpose(b, t).spec_evaluate(m, x, z) == (*t).spec_evaluate(m, x, z),
{
    crate::color::lemma_blend_opaque_top((*b).spec_evaluate(m, x, z), (*t).spec_evaluate(m, x, z));
}

} // verus!
