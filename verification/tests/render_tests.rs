use render::chunk_tile::{BlockColumn, BlockInfo, ChunkTile};
use render::codec::{decode_chunk, decode_chunk_list, encode_chunk};
use render::color::{blend, interpolate, rgb, rgba, BLACK, TRANSPARENT, WHITE};
use render::coloring::biome::{build_palette, get_biome_color, BiomePalette};
use render::coloring::height::get_height_color;
use render::coloring::slope::{
    get_slope_color, SHADE_DARKBLACK, SHADE_LITEBLACK, SHADE_LITEWHITE,
};
use render::coloring::terrain::get_terrain_color;
use render::coloring::topo::{get_land_color, get_sea_color, get_topo_color, SEA_COLOR};
use render::coloring::{get_color_fn, is_water_blockstate, superimpose, Algorithm};
use render::render::{build_map, get_column_in_map, render_pixels, tile_bounds, Bounds, ChunkMap};

fn column(biome: u16, light: u8, layers: Vec<BlockInfo>) -> BlockColumn {
    BlockColumn { biome, light, layers }
}

/// A chunk whose every column has one layer at the given height and id.
fn uniform_chunk(cx: i32, cz: i32, y: i16, id: u16) -> ChunkTile {
    let mut columns = Vec::new();
    for i in 0..256u16 {
        columns.push(column(i, 15, vec![BlockInfo { y, id }]));
    }
    ChunkTile { pos: (cx, cz), data_version: 1, columns }
}

/// A chunk of one-layer stone columns whose heights are given per column.
fn heights_chunk(cx: i32, cz: i32, heights: &[(usize, usize, i16)], base: i16) -> ChunkTile {
    let mut columns = Vec::new();
    for _ in 0..256 {
        columns.push(column(0, 15, vec![BlockInfo { y: base, id: 1 }]));
    }
    for &(lx, lz, y) in heights {
        columns[lx + 16 * lz] = column(0, 15, vec![BlockInfo { y, id: 1 }]);
    }
    ChunkTile { pos: (cx, cz), data_version: 1, columns }
}

fn empty_palette() -> BiomePalette {
    BiomePalette { colors: Vec::new() }
}

#[test]
fn codec_round_trip_varied_layer_counts() {
    let mut columns = Vec::new();
    for i in 0..256usize {
        let mut layers = Vec::new();
        for j in 0..(i % 7) {
            layers.push(BlockInfo { y: (i as i16) - 100 + j as i16, id: (j * 13) as u16 });
        }
        columns.push(column((i * 3) as u16, (i % 256) as u8, layers));
    }
    let chunk = ChunkTile { pos: (-3, 7), data_version: 2, columns };
    let bytes = encode_chunk(&chunk);
    let (decoded, end) = decode_chunk(&bytes, 0).expect("decodes");
    assert_eq!(end, bytes.len());
    let reencoded = encode_chunk(&decoded);
    assert_eq!(reencoded, bytes);
    assert_eq!(decoded.pos, (-3, 7));
    assert_eq!(decoded.data_version, 2);
    assert_eq!(decoded.columns.len(), 256);
    assert_eq!(decoded.columns[5].biome, 15);
}

#[test]
fn codec_round_trip_zero_and_max_layers() {
    let mut columns = Vec::new();
    for i in 0..256usize {
        let count = if i == 0 { 255 } else { 0 };
        let mut layers = Vec::new();
        for j in 0..count {
            layers.push(BlockInfo { y: j as i16 - 64, id: 35 });
        }
        columns.push(column(1, 0, layers));
    }
    let chunk = ChunkTile { pos: (i32::MIN, i32::MAX), data_version: 65535, columns };
    let bytes = encode_chunk(&chunk);
    let (decoded, end) = decode_chunk(&bytes, 0).expect("decodes");
    assert_eq!(end, bytes.len());
    assert_eq!(encode_chunk(&decoded), bytes);
    assert_eq!(decoded.pos, (i32::MIN, i32::MAX));
    assert_eq!(decoded.columns[0].layers.len(), 255);
    assert_eq!(decoded.columns[1].layers.len(), 0);
}

#[test]
fn codec_truncated_input_fails_clean() {
    assert!(decode_chunk(&Vec::new(), 0).is_none());
    let chunk = uniform_chunk(0, 0, 64, 1);
    let mut bytes = encode_chunk(&chunk);
    bytes.pop();
    assert!(decode_chunk(&bytes, 0).is_none());
    let header_only: Vec<u8> = bytes[..10].to_vec();
    assert!(decode_chunk(&header_only, 0).is_none());
}

#[test]
fn chunk_list_reads_count_then_records() {
    let chunk = uniform_chunk(0, 0, 64, 1);
    let mut bytes = vec![0u8, 0, 0, 2];
    bytes.extend(encode_chunk(&chunk));
    bytes.extend(encode_chunk(&uniform_chunk(1, 0, 10, 2)));
    let chunks = decode_chunk_list(&bytes).expect("decodes");
    assert_eq!(chunks.len(), 2);
    assert_eq!(chunks[0].pos, (0, 0));
    assert_eq!(chunks[1].pos, (1, 0));

    let mut short = vec![0u8, 0, 0, 2];
    short.extend(encode_chunk(&chunk));
    assert!(decode_chunk_list(&short).is_none());
    assert!(decode_chunk_list(&vec![0u8, 0]).is_none());
}

#[test]
fn chunk_list_ignores_trailing_bytes() {
    let chunk = uniform_chunk(2, -2, 5, 9);
    let mut bytes = vec![0u8, 0, 0, 1];
    bytes.extend(encode_chunk(&chunk));
    bytes.extend([1u8, 2, 3]);
    let chunks = decode_chunk_list(&bytes).expect("decodes");
    assert_eq!(chunks.len(), 1);
    assert_eq!(chunks[0].pos, (2, -2));
}

#[test]
fn decode_reads_record_at_offset() {
    let chunk = uniform_chunk(4, 4, 12, 3);
    let mut bytes = vec![0xaau8; 7];
    let record = encode_chunk(&chunk);
    bytes.extend(&record);
    let (decoded, end) = decode_chunk(&bytes, 7).expect("decodes");
    assert_eq!(end, 7 + record.len());
    assert_eq!(decoded.pos, (4, 4));
    assert_eq!(encode_chunk(&decoded), record);
}

#[test]
fn column_at_resolves_negative_coordinates() {
    let mut chunks = Vec::new();
    let mut neg = uniform_chunk(-1, -1, 64, 1);
    // biome encodes the local slot so the resolved column is identifiable
    for (i, c) in neg.columns.iter_mut().enumerate() {
        c.biome = i as u16;
    }
    chunks.push(neg);
    chunks.push(uniform_chunk(0, 0, 64, 1));
    let map = build_map(chunks);

    // x = -1, z = -1 resolves to chunk (-1, -1), local x 15, local z 15
    let col = get_column_in_map(&map, -1, -1).expect("column");
    assert_eq!(col.biome, 15 + 16 * 15);
    let col = get_column_in_map(&map, -16, -16).expect("column");
    assert_eq!(col.biome, 0);
    let col = get_column_in_map(&map, 0, 0).expect("column");
    assert_eq!(col.biome, 0);
    assert!(get_column_in_map(&map, 16, 0).is_none());
    assert!(get_column_in_map(&map, -17, 0).is_none());
}

#[test]
fn ground_layer_of_empty_column_is_sentinel() {
    let col = column(0, 0, Vec::new());
    let ground = col.ground_layer();
    assert_eq!(ground.y, -64);
    assert_eq!(ground.id, 0);
}

#[test]
fn ground_layer_is_bottommost_recorded() {
    let col = column(0, 0, vec![BlockInfo { y: 80, id: 2 }, BlockInfo { y: 60, id: 3 }]);
    let ground = col.ground_layer();
    assert_eq!(ground.y, 60);
    assert_eq!(ground.id, 3);
}

#[test]
fn height_color_bounds_and_midpoint() {
    let floor = build_map(vec![uniform_chunk(0, 0, -64, 1)]);
    assert_eq!(get_height_color(&floor, 0, 0), rgb(0, 0, 0));
    let top = build_map(vec![uniform_chunk(0, 0, 320, 1)]);
    assert_eq!(get_height_color(&top, 0, 0), rgb(255, 255, 255));
    let mid = build_map(vec![uniform_chunk(0, 0, 64, 1)]);
    // (64 + 64) * 256 / 384 = 85, truncated
    assert_eq!(get_height_color(&mid, 0, 0), rgb(85, 85, 85));
    assert_eq!(get_height_color(&mid, 100, 100), TRANSPARENT);
}

#[test]
fn slope_flat_neighborhood_is_transparent() {
    let map = build_map(vec![heights_chunk(0, 0, &[], 64)]);
    assert_eq!(get_slope_color(&map, 8, 8), TRANSPARENT);
}

#[test]
fn slope_center_two_above_west_is_strong_ditch() {
    // western neighbor two below the center
    let map = build_map(vec![heights_chunk(0, 0, &[(7, 8, 62), (8, 8, 64)], 64)]);
    assert_eq!(get_slope_color(&map, 8, 8), SHADE_DARKBLACK);
}

#[test]
fn slope_center_one_above_west_is_soft_ditch() {
    let map = build_map(vec![heights_chunk(0, 0, &[(7, 8, 63)], 64)]);
    assert_eq!(get_slope_color(&map, 8, 8), SHADE_LITEBLACK);
}

#[test]
fn slope_neighbor_above_is_raise() {
    let map = build_map(vec![heights_chunk(0, 0, &[(7, 7, 65)], 64)]);
    assert_eq!(get_slope_color(&map, 8, 8), SHADE_LITEWHITE);
}

#[test]
fn slope_two_block_offset_marks_soft_ditch() {
    // (x-2, z-1) two below the center, one-block ring flat
    let map = build_map(vec![heights_chunk(0, 0, &[(6, 7, 62)], 64)]);
    assert_eq!(get_slope_color(&map, 8, 8), SHADE_LITEBLACK);
}

#[test]
fn slope_charted_edge_registers_as_ditch() {
    // the west neighbor of (0, 0) has no chunk: sentinel height far below
    let map = build_map(vec![heights_chunk(0, 0, &[], 64)]);
    assert_eq!(get_slope_color(&map, 0, 0), SHADE_DARKBLACK);
}

#[test]
fn blend_transparent_top_returns_bottom() {
    let bottom = rgba(10, 20, 30, 200);
    let top = rgba(200, 100, 50, 0);
    assert_eq!(blend(bottom, top), bottom);
}

#[test]
fn blend_opaque_top_returns_top() {
    let bottom = rgba(10, 20, 30, 200);
    let top = rgba(200, 100, 50, 255);
    assert_eq!(blend(bottom, top), top);
}

#[test]
fn blend_half_transparent_top_mixes() {
    let bottom = rgba(100, 100, 100, 255);
    let top = rgba(200, 200, 200, 128);
    // each channel: (100*127 + 200*128) / 255 = 38300 / 255, truncated
    assert_eq!(blend(bottom, top), rgba(150, 150, 150, 255));
}

#[test]
fn blend_divides_once_per_channel() {
    // (1*127 + 1*128) / 255 = 1; two separately truncated divisions would
    // lose both terms and give 0
    let bottom = rgba(1, 1, 1, 255);
    let top = rgba(1, 1, 1, 128);
    assert_eq!(blend(bottom, top), rgba(1, 1, 1, 255));
}

#[test]
fn superimpose_composites_over() {
    let map = build_map(vec![uniform_chunk(0, 0, 64, 1)]);
    let algo = superimpose(Algorithm::Height, Algorithm::Terrain);
    // terrain is fully transparent, so the height color shows through
    assert_eq!(algo.evaluate(&map, 0, 0), get_height_color(&map, 0, 0));
    let opaque_top = superimpose(Algorithm::Terrain, Algorithm::Height);
    assert_eq!(opaque_top.evaluate(&map, 0, 0), get_height_color(&map, 0, 0));
}

#[test]
fn rgb_packs_channels_little_endian() {
    assert_eq!(rgb(1, 2, 3), 0xff030201);
    assert_eq!(rgba(1, 2, 3, 4), 0x04030201);
    assert_eq!(rgb(255, 255, 255), WHITE);
    assert_eq!(rgb(0, 0, 0), BLACK);
}

#[test]
fn interpolate_is_linear_with_truncation() {
    assert_eq!(interpolate(BLACK, WHITE, 0, 100, 50), rgb(127, 127, 127));
    assert_eq!(interpolate(BLACK, WHITE, 0, 100, 0), BLACK);
    assert_eq!(interpolate(BLACK, WHITE, 0, 100, 100), WHITE);
    // out-of-band values take the nearest endpoint
    assert_eq!(interpolate(BLACK, WHITE, 0, 100, 120), WHITE);
}

#[test]
fn sea_color_gradient() {
    assert_eq!(get_sea_color(0), BLACK);
    // half depth: each sea channel halved, 0x00d9ff -> r 0, g 108, b 127
    assert_eq!(get_sea_color(32), rgba(0, 108, 127, 255));
    assert_eq!(get_sea_color(64), SEA_COLOR);
    assert_eq!(get_sea_color(300), SEA_COLOR);
}

#[test]
fn land_color_bands() {
    assert_eq!(get_land_color(0), BLACK);
    assert_eq!(get_land_color(64), 0xff00b600);
    // midpoint of the coast-to-mid band
    assert_eq!(get_land_color(82), rgba(127, 218, 0, 255));
    assert_eq!(get_land_color(255), 0xff880088);
    assert_eq!(get_land_color(320), 0xff880088);
}

#[test]
fn topo_water_column_takes_sea_gradient() {
    let map = build_map(vec![uniform_chunk(0, 0, 64, 35)]);
    assert_eq!(get_topo_color(&map, 3, 3), SEA_COLOR);
    let land = build_map(vec![uniform_chunk(0, 0, 64, 1)]);
    assert_eq!(get_topo_color(&land, 3, 3), 0xff00b600);
    assert_eq!(get_topo_color(&land, 100, 100), TRANSPARENT);
}

#[test]
fn water_blockstate_band_is_inclusive() {
    assert!(!is_water_blockstate(33));
    assert!(is_water_blockstate(34));
    assert!(is_water_blockstate(49));
    assert!(!is_water_blockstate(50));
}

#[test]
fn terrain_is_transparent_everywhere() {
    let map = build_map(vec![uniform_chunk(0, 0, 64, 1)]);
    assert_eq!(get_terrain_color(&map, 0, 0), TRANSPARENT);
    assert_eq!(get_terrain_color(&map, 999, 999), TRANSPARENT);
}

#[test]
fn mode_lookup_maps_names_and_rejects_unknown() {
    assert!(matches!(get_color_fn("topo", empty_palette()), Ok(Algorithm::Topo)));
    assert!(matches!(get_color_fn("height", empty_palette()), Ok(Algorithm::Height)));
    assert!(matches!(get_color_fn("slope", empty_palette()), Ok(Algorithm::Slope)));
    assert!(matches!(get_color_fn("terrain", empty_palette()), Ok(Algorithm::Terrain)));
    assert!(matches!(get_color_fn("biome", empty_palette()), Ok(Algorithm::Biome(_))));
    assert!(matches!(get_color_fn("biome_water", empty_palette()), Ok(Algorithm::BiomeWater)));
    assert!(matches!(get_color_fn("landmass", empty_palette()), Ok(Algorithm::Landmass)));
    assert!(get_color_fn("watercolor", empty_palette()).is_err());
    assert!(get_color_fn("", empty_palette()).is_err());
}

#[test]
fn palette_build_sizes_by_last_id() {
    let entries = vec![(0u32, 0xff0000u32), (2u32, 0x0000ffu32)];
    let palette = build_palette(&entries).expect("builds");
    assert_eq!(palette.colors, vec![rgb(255, 0, 0), 0, rgb(0, 0, 255)]);
}

#[test]
fn palette_build_rejects_bad_entries() {
    assert!(build_palette(&Vec::new()).is_none());
    let out_of_order = vec![(5u32, 1u32), (1u32, 2u32)];
    assert!(build_palette(&out_of_order).is_none());
}

#[test]
fn palette_later_entry_overwrites() {
    let entries = vec![(1u32, 0xff0000u32), (1u32, 0x00ff00u32)];
    let palette = build_palette(&entries).expect("builds");
    assert_eq!(palette.colors, vec![0, rgb(0, 255, 0)]);
}

#[test]
fn biome_color_looks_up_palette() {
    let mut chunk = heights_chunk(0, 0, &[], 64);
    chunk.columns[0].biome = 1;
    let map = build_map(vec![chunk]);
    let palette = BiomePalette { colors: vec![rgb(9, 9, 9), rgb(7, 7, 7)] };
    assert_eq!(get_biome_color(&palette, &map, 0, 0), rgb(7, 7, 7));
    assert_eq!(get_biome_color(&palette, &map, 1, 0), rgb(9, 9, 9));
    assert_eq!(get_biome_color(&palette, &map, 50, 50), TRANSPARENT);
    // a biome id outside the palette renders as no data
    let empty = empty_palette();
    assert_eq!(get_biome_color(&empty, &map, 0, 0), TRANSPARENT);
}

#[test]
fn tile_bounds_square() {
    let b = tile_bounds(1, -1);
    assert_eq!((b.w, b.n, b.e, b.s), (256, -256, 512, 0));
    assert_eq!(b.x_size(), 256);
    assert_eq!(b.z_size(), 256);
}

#[test]
fn build_map_later_chunk_overwrites() {
    let first = uniform_chunk(0, 0, 10, 1);
    let second = uniform_chunk(0, 0, 20, 1);
    let map = build_map(vec![first, second]);
    let col = get_column_in_map(&map, 0, 0).expect("column");
    assert_eq!(col.ground_layer().y, 20);
}

#[test]
fn render_scans_rows_north_to_south() {
    let mut chunk = uniform_chunk(0, 0, 64, 1);
    chunk.columns[1 + 16 * 2].biome = 77;
    let map = build_map(vec![chunk]);
    let palette = BiomePalette { colors: vec![rgb(1, 1, 1); 78] };
    let bounds = Bounds { w: 0, n: 0, e: 4, s: 4 };
    let algo = get_color_fn("biome", palette).expect("mode");
    let buf = render_pixels(&bounds, &map, &algo);
    assert_eq!(buf.len(), 16);
    // row-major: z-major then x-minor
    for z in 0..4usize {
        for x in 0..4usize {
            assert_eq!(buf[z * 4 + x], rgb(1, 1, 1));
        }
    }
}

#[test]
fn end_to_end_water_chunk_renders_sea_color_under_topo() {
    // chunk (0, 0): every column one layer {y: 64, id: 35}, a water id
    let chunk = uniform_chunk(0, 0, 64, 35);
    let mut bytes = vec![0u8, 0, 0, 1];
    bytes.extend(encode_chunk(&chunk));
    let chunks = decode_chunk_list(&bytes).expect("stream decodes");
    let map = build_map(chunks);
    let algo = get_color_fn("topo", empty_palette()).expect("mode");
    let bounds = Bounds { w: 0, n: 0, e: 16, s: 16 };
    let buf = render_pixels(&bounds, &map, &algo);
    assert_eq!(buf.len(), 256);
    for pixel in buf {
        assert_eq!(pixel, SEA_COLOR);
    }
}

#[test]
fn render_outside_chunks_is_transparent() {
    let map = ChunkMap::new();
    let bounds = Bounds { w: -8, n: -8, e: 8, s: 8 };
    let algo = get_color_fn("height", empty_palette()).expect("mode");
    let buf = render_pixels(&bounds, &map, &algo);
    assert_eq!(buf.len(), 256);
    for pixel in buf {
        assert_eq!(pixel, TRANSPARENT);
    }
}
