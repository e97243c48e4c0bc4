//! The binary chunk codec. A chunk record is, in big-endian order with no
//! padding: chunkX (signed 32-bit), chunkZ (signed 32-bit), dataVersion
//! (unsigned 16-bit), then exactly 256 columns, each biome (unsigned 16-bit),
//! light (unsigned 8-bit), layerCount (unsigned 8-bit) and layerCount layers
//! of y (signed 16-bit) and id (unsigned 16-bit).
//!
//! The decoder's contract states the round trip: the bytes it consumes are
//! exactly the encoding of the chunk it returns, and it fails precisely on
//! truncated input.

use vstd::prelude::*;

use crate::chunk_tile::{BlockColumn, BlockInfo, ChunkTile};

verus! {

broadcast use vstd::std_specs::vec::axiom_spec_len;

/// A vector's length always fits the machine word.
proof fn lemma_len_bound(v: &Vec<u8>)
    ensures
        v@.len() <= usize::MAX,
{
    assert(v.len() == v@.len());
}

/// The unsigned 16-bit reinterpretation of a signed 16-bit value.
pub open spec fn spec_u16_of_i16(v: i16) -> int {
    if v < 0 {
        v + 0x1_0000
    } else {
        v as int
    }
}

/// The unsigned 32-bit reinterpretation of a signed 32-bit value.
pub open spec fn spec_u32_of_i32(v: i32) -> int {
    if v < 0 {
        v + 0x1_0000_0000
    } else {
        v as int
    }
}

/// The two big-endian bytes of a value in `[0, 65536)`.
pub open spec fn spec_be16(v: int) -> Seq<u8> {
    seq![((v / 256) % 256) as u8, (v % 256) as u8]
}

/// The four big-endian bytes of a value in `[0, 4294967296)`.
pub open spec fn spec_be32(v: int) -> Seq<u8> {
    seq![
        ((v / 0x100_0000) % 256) as u8,
        ((v / 0x1_0000) % 256) as u8,
        ((v / 256) % 256) as u8,
        (v % 256) as u8,
    ]
}

/// The big-endian value of the four bytes starting at `pos`.
pub open spec fn spec_be32_val(s: Seq<u8>, pos: int) -> int
    recommends
        0 <= pos,
        pos + 4 <= s.len(),
{
    s[pos] * 0x100_0000 + s[pos + 1] * 0x1_0000 + s[pos + 2] * 256 + s[pos + 3]
}

/// The encoding of one layer: y then id, two big-endian bytes each.
pub open spec fn spec_encode_layer(b: BlockInfo) -> Seq<u8> {
    spec_be16(spec_u16_of_i16(b.y)) + spec_be16(b.id as int)
}

/// The encoding of a layer stack, in order.
pub open spec fn spec_encode_layers(ls: Seq<BlockInfo>) -> Seq<u8>
    decreases ls.len(),
{
    if ls.len() == 0 {
        Seq::empty()
    } else {
        spec_encode_layers(ls.drop_last()) + spec_encode_layer(ls.last())
    }
}

/// The encoding of one column: biome, light, layer count, then the layers.
pub open spec fn spec_encode_column(c: BlockColumn) -> Seq<u8>
    recommends
        c.wf(),
{
    spec_be16(c.biome as int) + seq![c.light] + seq![c.layers@.len() as u8] + spec_encode_layers(
        c.layers@,
    )
}

/// The encoding of a column sequence, in order.
pub open spec fn spec_encode_columns(cs: Seq<BlockColumn>) -> Seq<u8>
    decreases cs.len(),
{
    if cs.len() == 0 {
        Seq::empty()
    } else {
        spec_encode_columns(cs.drop_last()) + spec_encode_column(cs.last())
    }
}

/// The encoding of one whole chunk record.
pub open spec fn spec_encode_chunk(c: ChunkTile) -> Seq<u8>
    recommends
        c.wf(),
{
    spec_be32(spec_u32_of_i32(c.pos.0)) + spec_be32(spec_u32_of_i32(c.pos.1)) + spec_be16(
        c.data_version as int,
    ) + spec_encode_columns(c.columns@)
}

/// Where one column record starting at `pos` ends, or `None` if the bytes
/// run out before its header or its layers are complete.
pub open spec fn spec_column_end(s: Seq<u8>, pos: int) -> Option<int> {
    if 0 <= pos && pos + 4 <= s.len() {
        if pos + 4 + 4 * (s[pos + 3] as int) <= s.len() {
            Some(pos + 4 + 4 * (s[pos + 3] as int))
        } else {
            None
        }
    } else {
        None
    }
}

/// Where `n` consecutive column records starting at `pos` end.
pub open spec fn spec_columns_end(s: Seq<u8>, pos: int, n: nat) -> Option<int>
    decreases n,
{
    if n == 0 {
        Some(pos)
    } else {
        match spec_column_end(s, pos) {
            Some(p) => spec_columns_end(s, p, (n - 1) as nat),
            None => None,
        }
    }
}

/// Where the chunk record starting at `pos` ends: a ten-byte header then 256
/// columns. `None` exactly where the record is truncated.
pub open spec fn spec_chunk_end(s: Seq<u8>, pos: int) -> Option<int> {
    if 0 <= pos && pos + 10 <= s.len() {
        spec_columns_end(s, pos + 10, 256)
    } else {
        None
    }
}

proof fn lemma_be16_split(v: u16, b0: u8, b1: u8)
    requires
        v == b0 as u16 * 256 + b1 as u16,
    ensures
        spec_be16(v as int) =~= seq![b0, b1],
{
    assert(v / 256 == b0 && v % 256 == b1 && v / 256 % 256 == b0) by (bit_vector)
        requires
            v == b0 as u16 * 256 + b1 as u16,
    ;
}

proof fn lemma_be32_split(v: u32, b0: u8, b1: u8, b2: u8, b3: u8)
    requires
        v == b0 as u32 * 0x100_0000 + b1 as u32 * 0x1_0000 + b2 as u32 * 256 + b3 as u32,
    ensures
        spec_be32(v as int) =~= seq![b0, b1, b2, b3],
{
    assert(v / 0x100_0000 % 256 == b0 && v / 0x1_0000 % 256 == b1 && v / 256 % 256 == b2 && v % 256
        == b3) by (bit_vector)
        requires
            v == b0 as u32 * 0x100_0000 + b1 as u32 * 0x1_0000 + b2 as u32 * 256 + b3 as u32,
    ;
}

/// Appending one layer extends the encoding by that layer's bytes.
proof fn lemma_encode_layers_push(ls: Seq<BlockInfo>, b: BlockInfo)
    ensures
        spec_encode_layers(ls.push(b)) == spec_encode_layers(ls) + spec_encode_layer(b),
{
    assert(ls.push(b).drop_last() =~= ls);
    assert(ls.push(b).last() == b);
}

/// Appending one column extends the encoding by that column's bytes.
proof fn lemma_encode_columns_push(cs: Seq<BlockColumn>, c: BlockColumn)
    ensures
        spec_encode_columns(cs.push(c)) == spec_encode_columns(cs) + spec_encode_column(c),
{
    assert(cs.push(c).drop_last() =~= cs);
    assert(cs.push(c).last() == c);
}

fn read_u16(bytes: &Vec<u8>, pos: usize) -> (r: u16)
    requires
        pos + 2 <= bytes@.len(),
    ensures
        r == bytes@[pos as int] as int * 256 + bytes@[pos as int + 1] as int,
        spec_be16(r as int) == bytes@.subrange(pos as int, pos as int + 2),
{
    proof {
        lemma_len_bound(bytes);
    }
    let b0 = bytes[pos];
    let b1 = bytes[pos + 1];
    let r: u16 = b0 as u16 * 256 + b1 as u16;
    proof {
        lemma_be16_split(r, b0, b1);
        assert(bytes@.subrange(pos as int, pos as int + 2) =~= seq![b0, b1]);
    }
    r
}

fn read_u32(bytes: &Vec<u8>, pos: usize) -> (r: u32)
    requires
        pos + 4 <= bytes@.len(),
    ensures
        r == spec_be32_val(bytes@, pos as int),
        spec_be32(r as int) == bytes@.subrange(pos as int, pos as int + 4),
{
    proof {
        lemma_len_bound(bytes);
    }
    let b0 = bytes[pos];
    let b1 = bytes[pos + 1];
    let b2 = bytes[pos + 2];
    let b3 = bytes[pos + 3];
    let r: u32 = b0 as u32 * 0x100_0000 + b1 as u32 * 0x1_0000 + b2 as u32 * 256 + b3 as u32;
    proof {
        lemma_be32_split(r, b0, b1, b2, b3);
        assert(bytes@.subrange(pos as int, pos as int + 4) =~= seq![b0, b1, b2, b3]);
    }
    r
}

fn read_i32(bytes: &Vec<u8>, pos: usize) -> (r: i32)
    requires
        pos + 4 <= bytes@.len(),
    ensures
        spec_u32_of_i32(r) == spec_be32_val(bytes@, pos as int),
        spec_be32(spec_u32_of_i32(r)) == bytes@.subrange(pos as int, pos as int + 4),
{
    let v = read_u32(bytes, pos);
    if v >= 0x8000_0000 {
        (v as i64 - 0x1_0000_0000) as i32
    } else {
        v as i32
    }
}

fn decode_layer(bytes: &Vec<u8>, pos: usize) -> (r: BlockInfo)
    requires
        pos + 4 <= bytes@.len(),
    ensures
        spec_encode_layer(r) == bytes@.subrange(pos as int, pos as int + 4),
{
    proof {
        lemma_len_bound(bytes);
    }
    let v = read_u16(bytes, pos);
    let id = read_u16(bytes, pos + 2);
    let y: i16 = if v >= 0x8000 {
        (v as i32 - 0x1_0000) as i16
    } else {
        v as i16
    };
    proof {
        assert(spec_u16_of_i16(y) == v as int);
        assert(bytes@.subrange(pos as int, pos as int + 4) =~= bytes@.subrange(
            pos as int,
            pos as int + 2,
        ) + bytes@.subrange(pos as int + 2, pos as int + 4));
    }
    BlockInfo { y, id }
}

/// Decodes one column record at `pos`: `None` exactly where the bytes are
/// truncated, otherwise the column together with the position just past it,
/// whose consumed bytes re-encode to the original input.
fn decode_column(bytes: &Vec<u8>, pos: usize) -> (r: Option<(BlockColumn, usize)>)
    ensures
        match r {
            Some(ce) => {
                &&& ce.0.wf()
                &&& spec_column_end(bytes@, pos as int) == Some(ce.1 as int)
                &&& pos <= ce.1 <= bytes@.len()
                &&& bytes@.subrange(pos as int, ce.1 as int) == spec_encode_column(ce.0)
            },
            None => spec_column_end(bytes@, pos as int) is None,
        },
{
    if bytes.len() < 4 || pos > bytes.len() - 4 {
        return None;
    }
    let biome = read_u16(bytes, pos);
    let light = bytes[pos + 2];
    let num_layers = bytes[pos + 3] as usize;
    if (bytes.len() - pos - 4) / 4 < num_layers {
        assert(pos as int + 4 + 4 * (bytes@[pos as int + 3] as int) > bytes@.len());
        return None;
    }
    assert(pos + 4 + 4 * num_layers <= bytes@.len());
    proof {
        lemma_len_bound(bytes);
    }
    let mut layers: Vec<BlockInfo> = Vec::new();
    let mut i: usize = 0;
    while i < num_layers
        invariant
            i <= num_layers,
            num_layers <= 255,
            pos + 4 + 4 * num_layers <= bytes@.len(),
            bytes@.len() <= usize::MAX,
            layers@.len() == i,
            spec_encode_layers(layers@) == bytes@.subrange(pos as int + 4, pos as int + 4 + 4 * i),
        decreases num_layers - i,
    {
        let l = decode_layer(bytes, pos + 4 + 4 * i);
        proof {
            lemma_encode_layers_push(layers@, l);
            assert(bytes@.subrange(pos as int + 4, pos as int + 4 + 4 * (i + 1)) =~= bytes@
                .subrange(pos as int + 4, pos as int + 4 + 4 * i) + bytes@.subrange(
                pos as int + 4 + 4 * i,
                pos as int + 4 + 4 * i + 4,
            ));
        }
        layers.push(l);
        i = i + 1;
    }
    let end = pos + 4 + 4 * num_layers;
    let col = BlockColumn { biome, light, layers };
    proof {
        assert(bytes@.subrange(pos as int, end as int) =~= bytes@.subrange(
            pos as int,
            pos as int + 2,
        ) + seq![bytes@[pos as int + 2]] + seq![bytes@[pos as int + 3]] + bytes@.subrange(
            pos as int + 4,
            end as int,
        ));
        assert(col.layers@.len() as u8 == bytes@[pos as int + 3]);
        assert(bytes@.subrange(pos as int, end as int) == spec_encode_column(col));
    }
    Some((col, end))
}

/// Decodes one whole chunk record at `pos`.
///
/// The record is decoded atomically: `None` exactly where the input is
/// truncated, and otherwise a well-formed chunk together with the position
/// just past the record. The bytes consumed are stated to be exactly the
/// encoding of the returned chunk, so decoding then re-encoding reproduces
/// the original bytes.
pub fn decode_chunk(bytes: &Vec<u8>, pos: usize) -> (r: Option<(ChunkTile, usize)>)
    ensures
        match r {
            Some(ce) => {
                &&& ce.0.wf()
                &&& spec_chunk_end(bytes@, pos as int) == Some(ce.1 as int)
                &&& pos <= ce.1 <= bytes@.len()
                &&& bytes@.subrange(pos as int, ce.1 as int) == spec_encode_chunk(ce.0)
            },
            None => spec_chunk_end(bytes@, pos as int) is None,
        },
{
    if bytes.len() < 10 || pos > bytes.len() - 10 {
        return None;
    }
    let x = read_i32(bytes, pos);
    let z = read_i32(bytes, pos + 4);
    let data_version = read_u16(bytes, pos + 8);
    let mut columns: Vec<BlockColumn> = Vec::new();
    let mut p: usize = pos + 10;
    let mut i: usize = 0;
    while i < 256
        invariant
            i <= 256,
            columns@.len() == i,
            pos + 10 <= p <= bytes@.len(),
            forall|j: int| 0 <= j < i ==> (#[trigger] columns@[j]).wf(),
            spec_columns_end(bytes@, pos as int + 10, 256) == spec_columns_end(
                bytes@,
                p as int,
                (256 - i) as nat,
            ),
            spec_encode_columns(columns@) == bytes@.subrange(pos as int + 10, p as int),
        decreases 256 - i,
    {
        match decode_column(bytes, p) {
            None => {
                return None;
            },
            Some(ce) => {
                let (c, end) = ce;
                proof {
                    lemma_encode_columns_push(columns@, c);
                    assert(bytes@.subrange(pos as int + 10, end as int) =~= bytes@.subrange(
                        pos as int + 10,
                        p as int,
                    ) + bytes@.subrange(p as int, end as int));
                }
                columns.push(c);
                p = end;
                i = i + 1;
            },
        }
    }
    let chunk = ChunkTile { pos: (x, z), data_version, columns };
    proof {
        assert(bytes@.subrange(pos as int, p as int) =~= bytes@.subrange(
            pos as int,
            pos as int + 4,
        ) + bytes@.subrange(pos as int + 4, pos as int + 8) + bytes@.subrange(
            pos as int + 8,
            pos as int + 10,
        ) + bytes@.subrange(pos as int + 10, p as int));
        assert(bytes@.subrange(pos as int, p as int) == spec_encode_chunk(chunk));
    }
    Some((chunk, p))
}

fn push_u16(out: &mut Vec<u8>, v: u16)
    ensures
        final(out)@ == old(out)@ + spec_be16(v as int),
{
    let hi = (v / 256) as u8;
    let lo = (v % 256) as u8;
    proof {
        lemma_be16_split(v, hi, lo);
        assert(v == hi as u16 * 256 + lo as u16) by (bit_vector)
            requires
                hi == (v / 256) as u8 && lo == (v % 256) as u8,
        ;
    }
    out.push(hi);
    out.push(lo);
    proof {
        assert(old(out)@ + spec_be16(v as int) =~= old(out)@.push(hi).push(lo));
    }
}

fn push_u32(out: &mut Vec<u8>, v: u32)
    ensures
        final(out)@ == old(out)@ + spec_be32(v as int),
{
    let b0 = (v / 0x100_0000) as u8;
    let b1 = ((v / 0x1_0000) % 256) as u8;
    let b2 = ((v / 256) % 256) as u8;
    let b3 = (v % 256) as u8;
    proof {
        lemma_be32_split(v, b0, b1, b2, b3);
        assert(v == b0 as u32 * 0x100_0000 + b1 as u32 * 0x1_0000 + b2 as u32 * 256 + b3 as u32)
            by (bit_vector)
            requires
                b0 == (v / 0x100_0000) as u8 && b1 == ((v / 0x1_0000) % 256) as u8 && b2 == ((v
                    / 256) % 256) as u8 && b3 == (v % 256) as u8,
        ;
    }
    out.push(b0);
    out.push(b1);
    out.push(b2);
    out.push(b3);
    proof {
        assert(old(out)@ + spec_be32(v as int) =~= old(out)@.push(b0).push(b1).push(b2).push(b3));
    }
}

fn push_i32(out: &mut Vec<u8>, v: i32)
    ensures
        final(out)@ == old(out)@ + spec_be32(spec_u32_of_i32(v)),
{
    let u: u32 = if v < 0 {
        (v as i64 + 0x1_0000_0000) as u32
    } else {
        v as u32
    };
    push_u32(out, u);
}

fn encode_column(out: &mut Vec<u8>, c: &BlockColumn)
    requires
        c.wf(),
    ensures
        final(out)@ == old(out)@ + spec_encode_column(*c),
{
    push_u16(out, c.biome);
    out.push(c.light);
    out.push(c.layers.len() as u8);
    let ghost header = old(out)@ + spec_be16(c.biome as int) + seq![c.light] + seq![
        c.layers@.len() as u8,
    ];
    let mut i: usize = 0;
    while i < c.layers.len()
        invariant
            i <= c.layers@.len(),
            c.wf(),
            out@ == header + spec_encode_layers(c.layers@.take(i as int)),
        decreases c.layers@.len() - i,
    {
        let l = c.layers[i];
        let u: u16 = if l.y < 0 {
            (l.y as i32 + 0x1_0000) as u16
        } else {
            l.y as u16
        };
        push_u16(out, u);
        push_u16(out, l.id);
        proof {
            assert(c.layers@.take(i + 1).drop_last() =~= c.layers@.take(i as int));
            assert(c.layers@.take(i + 1).last() == c.layers@[i as int]);
            assert(spec_u16_of_i16(l.y) == u as int);
            assert(header + spec_encode_layers(c.layers@.take(i + 1)) =~= header
                + spec_encode_layers(c.layers@.take(i as int)) + spec_be16(u as int) + spec_be16(
                l.id as int,
            ));
        }
        i = i + 1;
    }
    proof {
        assert(c.layers@.take(c.layers@.len() as int) =~= c.layers@);
        assert(header + spec_encode_layers(c.layers@) =~= old(out)@ + spec_encode_column(*c));
    }
}

/// Encodes one chunk into the binary record layout.
pub fn encode_chunk(chunk: &ChunkTile) -> (r: Vec<u8>)
    requires
        chunk.wf(),
    ensures
        r@ == spec_encode_chunk(*chunk),
{
    let mut out: Vec<u8> = Vec::new();
    push_i32(&mut out, chunk.pos.0);
    push_i32(&mut out, chunk.pos.1);
    push_u16(&mut out, chunk.data_version);
    let ghost header = spec_be32(spec_u32_of_i32(chunk.pos.0)) + spec_be32(
        spec_u32_of_i32(chunk.pos.1),
    ) + spec_be16(chunk.data_version as int);
    assert(out@ =~= header);
    let mut i: usize = 0;
    while i < chunk.columns.len()
        invariant
            i <= chunk.columns@.len(),
            chunk.wf(),
            out@ == header + spec_encode_columns(chunk.columns@.take(i as int)),
        decreases chunk.columns@.len() - i,
    {
        encode_column(&mut out, &chunk.columns[i]);
        proof {
            assert(chunk.columns@.take(i + 1).drop_last() =~= chunk.columns@.take(i as int));
            assert(chunk.columns@.take(i + 1).last() == chunk.columns@[i as int]);
        }
        i = i + 1;
    }
    proof {
        assert(chunk.columns@.take(chunk.columns@.len() as int) =~= chunk.columns@);
    }
    out
}

/// Where `n` consecutive chunk records starting at `pos` end.
pub open spec fn spec_chunks_end(s: Seq<u8>, pos: int, n: nat) -> Option<int>
    decreases n,
{
    if n == 0 {
        Some(pos)
    } else {
        match spec_chunk_end(s, pos) {
            Some(p) => spec_chunks_end(s, p, (n - 1) as nat),
            None => None,
        }
    }
}

/// The encoding of a chunk sequence, in order.
pub open spec fn spec_encode_chunks(cs: Seq<ChunkTile>) -> Seq<u8>
    decreases cs.len(),
{
    if cs.len() == 0 {
        Seq::empty()
    } else {
        spec_encode_chunks(cs.drop_last()) + spec_encode_chunk(cs.last())
    }
}

proof fn lemma_encode_chunks_push(cs: Seq<ChunkTile>, c: ChunkTile)
    ensures
        spec_encode_chunks(cs.push(c)) == spec_encode_chunks(cs) + spec_encode_chunk(c),
{
    assert(cs.push(c).drop_last() =~= cs);
    assert(cs.push(c).last() == c);
}

/// Decodes a whole input stream: a big-endian 32-bit chunk count followed by
/// that many chunk records. Bytes after the counted records are ignored.
/// `None` exactly where the count or any record is truncated; on success the
/// records consumed re-encode to the corresponding input bytes.
pub fn decode_chunk_list(bytes: &Vec<u8>) -> (r: Option<Vec<ChunkTile>>)
    ensures
        match r {
            Some(v) => {
                &&& bytes@.len() >= 4
                &&& v@.len() == spec_be32_val(bytes@, 0)
                &&& forall|j: int| 0 <= j < v@.len() ==> (#[trigger] v@[j]).wf()
                &&& spec_chunks_end(bytes@, 4, v@.len()) is Some
                &&& bytes@.subrange(4, spec_chunks_end(bytes@, 4, v@.len()).unwrap())
                    == spec_encode_chunks(v@)
            },
            None => bytes@.len() < 4 || spec_chunks_end(
                bytes@,
                4,
                spec_be32_val(bytes@, 0) as nat,
            ) is None,
        },
{
    if bytes.len() < 4 {
        return None;
    }
    let count = read_u32(bytes, 0);
    let mut chunks: Vec<ChunkTile> = Vec::new();
    let mut p: usize = 4;
    let mut i: u32 = 0;
    while i < count
        invariant
            i <= count,
            chunks@.len() == i,
            4 <= p <= bytes@.len(),
            count == spec_be32_val(bytes@, 0),
            forall|j: int| 0 <= j < i ==> (#[trigger] chunks@[j]).wf(),
            spec_chunks_end(bytes@, 4, count as nat) == spec_chunks_end(
                bytes@,
                p as int,
                (count - i) as nat,
            ),
            spec_chunks_end(bytes@, 4, i as nat) == Some(p as int),
            bytes@.subrange(4, p as int) == spec_encode_chunks(chunks@),
        decreases count - i,
    {
        match decode_chunk(bytes, p) {
            None => {
                return None;
            },
            Some(ce) => {
                let (c, end) = ce;
                proof {
                    lemma_encode_chunks_push(chunks@, c);
                    lemma_chunks_end_step(bytes@, 4, i as nat, p as int, end as int);
                    assert(bytes@.subrange(4, end as int) =~= bytes@.subrange(4, p as int) + bytes@
                        .subrange(p as int, end as int));
                }
                chunks.push(c);
                p = end;
                i = i + 1;
            },
        }
    }
    Some(chunks)
}

/// A layer stack's encoding is four bytes per layer.
proof fn lemma_encode_layers_len(ls: Seq<BlockInfo>)
    ensures
        spec_encode_layers(ls).len() == 4 * ls.len(),
    decreases ls.len(),
{
    if ls.len() > 0 {
        lemma_encode_layers_len(ls.drop_last());
    }
}

/// A column's encoding is its four header bytes plus its layers' bytes.
proof fn lemma_encode_column_len(c: BlockColumn)
    ensures
        spec_encode_column(c).len() == 4 + 4 * c.layers@.len(),
{
    lemma_encode_layers_len(c.layers@);
}

/// A column sequence's encoding also splits at the front: the first column's
/// bytes followed by the rest's.
proof fn lemma_encode_columns_first(cs: Seq<BlockColumn>)
    requires
        cs.len() > 0,
    ensures
        spec_encode_columns(cs) == spec_encode_column(cs[0]) + spec_encode_columns(cs.drop_first()),
    decreases cs.len(),
{
    if cs.len() == 1 {
        assert(cs.drop_last() =~= Seq::<BlockColumn>::empty());
        assert(cs.drop_first() =~= Seq::<BlockColumn>::empty());
        assert(spec_encode_columns(cs) =~= spec_encode_column(cs[0]) + spec_encode_columns(
            cs.drop_first(),
        ));
    } else {
        lemma_encode_columns_first(cs.drop_last());
        assert(cs.drop_last()[0] == cs[0]);
        assert(cs.drop_last().drop_first() =~= cs.drop_first().drop_last());
        assert(cs.drop_first().last() == cs.last());
        assert(spec_encode_columns(cs) =~= spec_encode_column(cs[0]) + spec_encode_columns(
            cs.drop_first(),
        ));
    }
}

/// Bytes that hold a sequence of well-formed columns' encodings decode as
/// exactly those columns: the scan ends just past their bytes.
proof fn lemma_columns_decodable(s: Seq<u8>, pos: int, cs: Seq<BlockColumn>)
    requires
        0 <= pos,
        forall|i: int| 0 <= i < cs.len() ==> (#[trigger] cs[i]).wf(),
        pos + spec_encode_columns(cs).len() <= s.len(),
        s.subrange(pos, pos + spec_encode_columns(cs).len() as int) == spec_encode_columns(cs),
    ensures
        spec_columns_end(s, pos, cs.len()) == Some(
            pos + spec_encode_columns(cs).len() as int,
        ),
    decreases cs.len(),
{
    if cs.len() > 0 {
        lemma_encode_columns_first(cs);
        let c0 = cs[0];
        lemma_encode_column_len(c0);
        let l0 = spec_encode_column(c0).len() as int;
        let total = spec_encode_columns(cs).len() as int;
        assert forall|i: int| 0 <= i < l0 implies s[pos + i] == spec_encode_column(c0)[i] by {
            assert(s.subrange(pos, pos + total)[i] == s[pos + i]);
            assert(spec_encode_columns(cs)[i] == spec_encode_column(c0)[i]);
        }
        assert(spec_encode_column(c0)[3] == c0.layers@.len() as u8);
        assert(s[pos + 3] == c0.layers@.len() as u8);
        assert(s[pos + 3] as int == c0.layers@.len());
        assert(spec_column_end(s, pos) == Some(pos + l0));
        let rest = cs.drop_first();
        assert(s.subrange(pos + l0, pos + total) =~= spec_encode_columns(rest)) by {
            assert forall|i: int|
                0 <= i < total - l0 implies s.subrange(pos + l0, pos + total)[i]
                == spec_encode_columns(rest)[i] by {
                assert(s.subrange(pos + l0, pos + total)[i] == s[pos + l0 + i]);
                assert(s.subrange(pos, pos + total)[l0 + i] == s[pos + l0 + i]);
                assert(spec_encode_columns(cs)[l0 + i] == spec_encode_columns(rest)[i]);
            }
        }
        assert(forall|i: int| 0 <= i < rest.len() ==> (#[trigger] rest[i]).wf()) by {
            assert(forall|i: int| 0 <= i < rest.len() ==> rest[i] == cs[i + 1]);
        }
        lemma_columns_decodable(s, pos + l0, rest);
    }
}

/// A well-formed chunk's encoding always decodes, consuming exactly its own
/// bytes: together with the decoder's contract, decoding an encoding
/// succeeds and the decoded chunk re-encodes to those same bytes.
pub proof fn lemma_encoding_decodes(c: ChunkTile)
    requires
        c.wf(),
    ensures
        spec_chunk_end(spec_encode_chunk(c), 0) == Some(spec_encode_chunk(c).len() as int),
{
    let s = spec_encode_chunk(c);
    assert(s.len() == 10 + spec_encode_columns(c.columns@).len());
    assert(s.subrange(10, s.len() as int) =~= spec_encode_columns(c.columns@)) by {
        assert forall|i: int|
            0 <= i < s.len() - 10 implies s.subrange(10, s.len() as int)[i]
            == spec_encode_columns(c.columns@)[i] by {
            assert(s[10 + i] == spec_encode_columns(c.columns@)[i]);
        }
    }
    lemma_columns_decodable(s, 10, c.columns@);
}

/// One more decodable record moves the end of `n` records one record on.
proof fn lemma_chunks_end_step(s: Seq<u8>, start: int, n: nat, p: int, end: int)
    requires
        spec_chunks_end(s, start, n) == Some(p),
        spec_chunk_end(s, p) == Some(end),
    ensures
        spec_chunks_end(s, start, n + 1) == Some(end),
    decreases n,
{
    if n == 0 {
        assert(spec_chunks_end(s, start, 1) == spec_chunks_end(s, end, 0));
    } else {
        let q = spec_chunk_end(s, start).unwrap();
        lemma_chunks_end_step(s, q, (n - 1) as nat, p, end);
    }
}

} // verus!
