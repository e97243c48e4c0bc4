//! The chunk index and the tile renderer: a map from chunk coordinate to
//! chunk, a world-coordinate-to-column resolver, and the raster scan that
//! fills a pixel buffer from a selected color algorithm.

use std::collections::HashMap;

use vstd::prelude::*;

use crate::chunk_tile::{BlockColumn, ChunkTile};
use crate::codec::spec_u32_of_i32;
use crate::coloring::Algorithm;

verus! {

broadcast use vstd::std_specs::hash::group_hash_axioms;

/// Packs a chunk coordinate into a single map key, the two 32-bit halves side
/// by side; distinct coordinates give distinct keys.
pub open spec fn chunk_key(cx: i32, cz: i32) -> u64 {
    (spec_u32_of_i32(cx) * 0x1_0000_0000 + spec_u32_of_i32(cz)) as u64
}

fn make_key(cx: i32, cz: i32) -> (k: u64)
    ensures
        k == chunk_key(cx, cz),
{
    let a: u64 = if cx < 0 {
        (cx as i64 + 0x1_0000_0000) as u64
    } else {
        cx as u64
    };
    let b: u64 = if cz < 0 {
        (cz as i64 + 0x1_0000_0000) as u64
    } else {
        cz as u64
    };
    a * 0x1_0000_0000 + b
}

/// The mapping from chunk coordinate to decoded chunk: unique keys, no
/// ordering guarantee, built once by repeated insertion and read-only
/// afterwards.
pub struct ChunkMap {
    m: HashMap<u64, ChunkTile>,
}

impl View for ChunkMap {
    type V = Map<u64, ChunkTile>;

    closed spec fn view(&self) -> Map<u64, ChunkTile> {
        self.m@
    }
}

impl ChunkMap {
    /// Every stored chunk is well formed and sits at the key packed from its
    /// own coordinate.
    pub open spec fn wf(&self) -> bool {
        forall|k: u64|
            self@.contains_key(k) ==> (#[trigger] self@[k]).wf() && chunk_key(
                self@[k].pos.0,
                self@[k].pos.1,
            ) == k
    }

    /// An empty chunk map.
    pub fn new() -> (r: ChunkMap)
        ensures
            r@ == Map::<u64, ChunkTile>::empty(),
            r.wf(),
    {
        ChunkMap { m: HashMap::new() }
    }

    /// Adds or overwrites the chunk at its own coordinate.
    pub fn insert(&mut self, chunk: ChunkTile)
        requires
            old(self).wf(),
            chunk.wf(),
        ensures
            final(self)@ == old(self)@.insert(chunk_key(chunk.pos.0, chunk.pos.1), chunk),
            final(self).wf(),
    {
        let k = make_key(chunk.pos.0, chunk.pos.1);
        self.m.insert(k, chunk);
        proof {
            assert forall|kk: u64| self@.contains_key(kk) implies (#[trigger] self@[kk]).wf()
                && chunk_key(self@[kk].pos.0, self@[kk].pos.1) == kk by {
                if kk != k {
                    assert(old(self)@.contains_key(kk) && self@[kk] == old(self)@[kk]);
                }
            }
        }
    }
}

/// The column slot inside a chunk that a world coordinate selects:
/// local x plus 16 times local z, both taken by masking the low four bits.
pub open spec fn local_column_index(x: i32, z: i32) -> int {
    (x & 15) + 16 * (z & 15)
}

/// The column that a world coordinate resolves to: the chunk keyed by the
/// arithmetically shifted coordinate, and the masked column slot within it.
pub open spec fn spec_column_in_map(m: Map<u64, ChunkTile>, x: i32, z: i32) -> Option<BlockColumn> {
    let k = chunk_key(x >> 4, z >> 4);
    if m.contains_key(k) {
        Some(m[k].columns@[local_column_index(x, z)])
    } else {
        None
    }
}

/// The local column slot always lies within the 256 columns of a chunk.
pub proof fn lemma_local_index_bounds(x: i32, z: i32)
    ensures
        0 <= local_column_index(x, z) < 256,
{
    assert(0 <= (x & 15) + 16 * (z & 15) < 256) by (bit_vector);
}

/// The arithmetic shift by four is floor division by 16: the shifted
/// coordinate and the masked remainder recover the input exactly, for
/// negative coordinates as well as positive ones.
pub proof fn lemma_chunk_coord_split(x: i32)
    ensures
        16 * ((x >> 4) as int) + ((x & 15) as int) == x,
        0 <= (x & 15) < 16,
{
    assert(16 * (x >> 4) + (x & 15) == x && 0 <= (x & 15) < 16) by (bit_vector);
}

/// Resolves a world coordinate to the column that owns it, or `None` where no
/// chunk is indexed at `(x >> 4, z >> 4)`.
pub fn get_column_in_map<'map>(map: &'map ChunkMap, x: i32, z: i32) -> (r: Option<
    &'map BlockColumn,
>)
    requires
        map.wf(),
    ensures
        match r {
            Some(col) => spec_column_in_map(map@, x, z) == Some(*col),
            None => spec_column_in_map(map@, x, z) is None,
        },
{
    proof {
        lemma_local_index_bounds(x, z);
        assert(0 <= (x & 15) <= 15 && 0 <= (z & 15) <= 15) by (bit_vector);
    }
    let cx = x >> 4;
    let cz = z >> 4;
    let col_nr = ((x & 15) + 16 * (z & 15)) as usize;
    let k = make_key(cx, cz);
    match hash_get(&map.m, k) {
        None => None,
        Some(c) => Some(&c.columns[col_nr]),
    }
}

fn hash_get(m: &HashMap<u64, ChunkTile>, k: u64) -> (r: Option<&ChunkTile>)
    ensures
        match r {
            Some(c) => m@.contains_key(k) && m@[k] == *c,
            None => !m@.contains_key(k),
        },
{
    m.get(&k)
}

/// A half-open rectangle in world coordinates, `[w, e)` by `[n, s)`.
pub struct Bounds {
    /// West edge, inclusive.
    pub w: i32,
    /// North edge, inclusive.
    pub n: i32,
    /// East edge, exclusive.
    pub e: i32,
    /// South edge, exclusive.
    pub s: i32,
}

impl Bounds {
    /// East must exceed west and south must exceed north.
    pub open spec fn wf(&self) -> bool {
        self.w < self.e && self.n < self.s
    }

    /// The width of the rectangle in columns.
    pub fn x_size(&self) -> (r: usize)
        requires
            self.wf(),
        ensures
            r == self.e - self.w,
    {
        (self.e as i64 - self.w as i64) as usize
    }

    /// The height of the rectangle in columns.
    pub fn z_size(&self) -> (r: usize)
        requires
            self.wf(),
        ensures
            r == self.s - self.n,
    {
        (self.s as i64 - self.n as i64) as usize
    }
}

/// The 256x256 world-coordinate square of the tile at the given tile index.
pub fn tile_bounds(tile_x: i32, tile_z: i32) -> (b: Bounds)
    requires
        -8388606 <= tile_x <= 8388606,
        -8388606 <= tile_z <= 8388606,
    ensures
        b.w == 256 * tile_x,
        b.n == 256 * tile_z,
        b.e == b.w + 256,
        b.s == b.n + 256,
        b.wf(),
{
    Bounds { w: 256 * tile_x, n: 256 * tile_z, e: 256 * tile_x + 256, s: 256 * tile_z + 256 }
}

/// Pixel `(px, pz)` of the buffer holds the algorithm's color at the
/// absolute world coordinate `(b.w + px, b.n + pz)`, at the buffer slot of
/// the raster scan: row `pz`, column `px`.
pub open spec fn spec_pixel_ok(
    buf: Seq<u32>,
    b: Bounds,
    m: Map<u64, ChunkTile>,
    a: Algorithm,
    px: int,
    pz: int,
) -> bool {
    buf[pz * (b.e - b.w) + px] == a.spec_evaluate(m, (b.w + px) as i32, (b.n + pz) as i32)
}

/// Fills the tile's pixel buffer in raster-scan order: rows from north to
/// south, columns from west to east within a row, each pixel computed
/// independently by the algorithm at its absolute world coordinate.
pub fn render_pixels(bounds: &Bounds, map: &ChunkMap, algorithm: &Algorithm) -> (buf: Vec<u32>)
    requires
        bounds.wf(),
        map.wf(),
        bounds.w - 2 >= i32::MIN,
        bounds.n - 2 >= i32::MIN,
        (bounds.s - bounds.n) * (bounds.e - bounds.w) <= usize::MAX,
    ensures
        buf@.len() == (bounds.s - bounds.n) * (bounds.e - bounds.w),
        forall|px: int, pz: int|
            0 <= px < bounds.e - bounds.w && 0 <= pz < bounds.s - bounds.n
                ==> #[trigger] spec_pixel_ok(buf@, *bounds, map@, *algorithm, px, pz),
{
    let w = bounds.x_size();
    let h = bounds.z_size();
    let mut buf: Vec<u32> = Vec::new();
    let mut pz: usize = 0;
    while pz < h
        invariant
            pz <= h,
            w == bounds.e - bounds.w,
            h == bounds.s - bounds.n,
            bounds.wf(),
            map.wf(),
            bounds.w - 2 >= i32::MIN,
            bounds.n - 2 >= i32::MIN,
            h * w <= usize::MAX,
            buf@.len() == pz * w,
            forall|qx: int, qz: int|
                0 <= qx < w && 0 <= qz < pz ==> #[trigger] spec_pixel_ok(
                    buf@,
                    *bounds,
                    map@,
                    *algorithm,
                    qx,
                    qz,
                ),
        decreases h - pz,
    {
        proof {
            vstd::arithmetic::mul::lemma_mul_inequality(pz as int + 1, h as int, w as int);
            vstd::arithmetic::mul::lemma_mul_is_distributive_add_other_way(
                w as int,
                pz as int,
                1,
            );
        }
        let mut px: usize = 0;
        while px < w
            invariant
                px <= w,
                pz < h,
                w == bounds.e - bounds.w,
                h == bounds.s - bounds.n,
                bounds.wf(),
                map.wf(),
                bounds.w - 2 >= i32::MIN,
                bounds.n - 2 >= i32::MIN,
                (pz + 1) * w <= usize::MAX,
                (pz + 1) * w == pz * w + w,
                buf@.len() == pz * w + px,
                forall|qx: int, qz: int|
                    0 <= qx < w && 0 <= qz < pz ==> #[trigger] spec_pixel_ok(
                        buf@,
                        *bounds,
                        map@,
                        *algorithm,
                        qx,
                        qz,
                    ),
                forall|qx: int|
                    0 <= qx < px ==> #[trigger] spec_pixel_ok(
                        buf@,
                        *bounds,
                        map@,
                        *algorithm,
                        qx,
                        pz as int,
                    ),
            decreases w - px,
        {
            let x: i32 = (bounds.w as i64 + px as i64) as i32;
            let z: i32 = (bounds.n as i64 + pz as i64) as i32;
            let c = algorithm.evaluate(map, x, z);
            let ghost prev = buf@;
            buf.push(c);
            px = px + 1;
            proof {
                assert(buf@ == prev.push(c));
                assert forall|qx: int, qz: int| 0 <= qx < w && 0 <= qz < pz implies #[trigger]
                spec_pixel_ok(buf@, *bounds, map@, *algorithm, qx, qz) by {
                    vstd::arithmetic::mul::lemma_mul_inequality(qz + 1, pz as int, w as int);
                    vstd::arithmetic::mul::lemma_mul_is_distributive_add_other_way(w as int, qz, 1);
                    assert(spec_pixel_ok(prev, *bounds, map@, *algorithm, qx, qz));
                    assert(buf@[qz * w + qx] == prev[qz * w + qx]);
                }
                assert forall|qx: int| 0 <= qx < px implies #[trigger] spec_pixel_ok(
                    buf@,
                    *bounds,
                    map@,
                    *algorithm,
                    qx,
                    pz as int,
                ) by {
                    if qx < px - 1 {
                        assert(spec_pixel_ok(prev, *bounds, map@, *algorithm, qx, pz as int));
                        assert(buf@[pz as int * w + qx] == prev[pz as int * w + qx]);
                    } else {
                        assert(buf@[pz as int * w + qx] == c);
                    }
                }
            }
        }
        pz = pz + 1;
    }
    proof {
        assert(h * w == (bounds.s - bounds.n) * (bounds.e - bounds.w));
    }
    buf
}

/// The map that results from inserting each chunk of the sequence in order,
/// each at its own coordinate; a later chunk overwrites an earlier one at the
/// same coordinate.
pub open spec fn spec_insert_all(cs: Seq<ChunkTile>) -> Map<u64, ChunkTile>
    decreases cs.len(),
{
    if cs.len() == 0 {
        Map::empty()
    } else {
        spec_insert_all(cs.drop_last()).insert(
            chunk_key(cs.last().pos.0, cs.last().pos.1),
            cs.last(),
        )
    }
}

/// Builds the chunk index by inserting the decoded chunks in order.
pub fn build_map(chunks: Vec<ChunkTile>) -> (r: ChunkMap)
    requires
        forall|i: int| 0 <= i < chunks@.len() ==> (#[trigger] chunks@[i]).wf(),
    ensures
        r@ == spec_insert_all(chunks@),
        r.wf(),
{
    let ghost all = chunks@;
    let mut rest = chunks;
    let mut map = ChunkMap::new();
    let ghost mut done: int = 0;
    while rest.len() > 0
        invariant
            0 <= done <= all.len(),
            rest@ == all.subrange(done, all.len() as int),
            map@ == spec_insert_all(all.take(done)),
            map.wf(),
            forall|i: int| 0 <= i < all.len() ==> (#[trigger] all[i]).wf(),
        decreases rest@.len(),
    {
        let c = rest.remove(0);
        assert(c == all[done]);
        map.insert(c);
        proof {
            done = done + 1;
            assert(all.take(done).drop_last() =~= all.take(done - 1));
            assert(rest@ =~= all.subrange(done, all.len() as int));
        }
    }
    proof {
        assert(all.take(all.len() as int) =~= all);
    }
    map
}

} // verus!
