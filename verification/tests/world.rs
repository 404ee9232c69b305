use cobalt::chunk::{cast_byte_array, Chunk, ChunkGenerator, RawChunkData, RawChunkNbt, RawSection, Section};
use cobalt::chunk_builder::ChunkBuilder;
use cobalt::world::{
    chunk_payload_len, decompress_chunk, existing_chunks, floor_div32, local_to_world, mod32, ChunkKey, Region,
    RegionKey,
};
use cobalt::packet::compress_zlib;

#[test]
fn chunk_keys_pack_both_coordinates() {
    for (x, z) in [(0, 0), (1, -1), (-1, 1), (i32::MAX, i32::MIN), (i32::MIN, i32::MAX), (-33, 64)] {
        let k = ChunkKey::new(x, z);
        assert_eq!(k.x(), x);
        assert_eq!(k.z(), z);
    }
    assert_eq!(ChunkKey::new(1, 2).0, (1i64 << 32) | 2);
    assert_eq!(ChunkKey::new(0, -1).0, 0xFFFF_FFFF);
}

#[test]
fn regions_and_local_coordinates() {
    assert_eq!(ChunkKey::new(0, 0).region_key(), RegionKey::new(0, 0));
    assert_eq!(ChunkKey::new(31, 32).region_key(), RegionKey::new(0, 1));
    assert_eq!(ChunkKey::new(-1, -32).region_key(), RegionKey::new(-1, -1));
    assert_eq!(ChunkKey::new(-33, 5).region_key(), RegionKey::new(-2, 0));
    assert_eq!(ChunkKey::new(-1, 33).region_local(), (31, 1));
    assert_eq!(ChunkKey::new(-33, 64).region_local(), (31, 0));
    assert_eq!(floor_div32(i32::MIN), i32::MIN / 32);
    assert_eq!(floor_div32(-1), -1);
    assert_eq!(mod32(-1), 31);
    assert_eq!(mod32(i32::MAX), 31);
}

#[test]
fn region_of_chunk_gives_chunk_back() {
    for (x, z) in [(-33, 64), (5, -7), (1000, -1000)] {
        let k = ChunkKey::new(x, z);
        let r = k.region_key();
        let (lx, lz) = k.region_local();
        assert_eq!(local_to_world(r.0, r.1, lx, lz), (x, z));
    }
}

#[test]
fn region_file_names() {
    assert_eq!(RegionKey::new(0, 0).get_file_name(), "r.0.0.mca");
    assert_eq!(RegionKey::new(-1, 12).get_file_name(), "r.-1.12.mca");
}

fn offset_table(entries: &[(usize, u32)]) -> Vec<u8> {
    let mut table = vec![0u8; 4096];
    for &(i, v) in entries {
        table[4 * i..4 * i + 4].copy_from_slice(&v.to_be_bytes());
    }
    table
}

#[test]
fn region_offsets_locate_chunks() {
    let table = offset_table(&[(0, (2 << 8) | 1), (33, (0x01_0203 << 8) | 0xff)]);
    let region = Region::from_offset_table(&table, std::path::PathBuf::from("r.0.0.mca"));
    assert_eq!(region.get_offset(0, 0), Some((2, 1)));
    assert_eq!(region.get_offset(1, 1), Some((0x01_0203, 0xff)));
    assert_eq!(region.get_offset(5, 5), None);
    assert_eq!(region.path(), &std::path::PathBuf::from("r.0.0.mca"));
}

#[test]
fn existing_chunks_lists_entries_with_a_sector() {
    // entry 40 has a sector count but no sector: it does not count
    let table = offset_table(&[(0, 2 << 8), (33, 5 << 8), (40, 1), (1023, 9 << 8)]);
    assert_eq!(existing_chunks(&table), vec![(0, 0), (1, 1), (31, 31)]);
}

#[test]
fn chunk_headers_must_announce_zlib() {
    assert_eq!(chunk_payload_len(&[0, 0, 0, 10, 2]), Ok(9));
    assert_eq!(chunk_payload_len(&[0, 0, 1, 0, 2]), Ok(255));
    assert_eq!(chunk_payload_len(&[0, 0, 0, 10, 1]), Err("Invalid header: comp=1, len=10".to_string()));
    assert_eq!(chunk_payload_len(&[0, 0, 0, 9, 2]), Err("Invalid header: comp=2, len=9".to_string()));
}

#[test]
fn stored_chunks_decompress() {
    let nbt = vec![10u8, 0, 0, 0];
    let compressed = compress_zlib(&nbt).unwrap();
    assert_eq!(decompress_chunk(&compressed).unwrap(), nbt);
    assert!(decompress_chunk(&[1, 2, 3]).is_err());
}

#[test]
fn sections_default_to_air() {
    let s = Section::default();
    assert!(s.is_empty());
    let mut t = Section::default();
    t.blocks[4095] = 1;
    assert!(!t.is_empty());
}

#[test]
fn generated_chunks_are_empty() {
    let c = Chunk::generate_empty(ChunkKey::new(3, -4));
    assert_eq!((c.x, c.z), (3, -4));
    assert!(c.is_empty());
    assert!(!c.terrain_populated);
    let g = ChunkGenerator::default().generate_chunk(ChunkKey::new(-1, 2));
    assert_eq!((g.x, g.z), (-1, 2));
    assert!(g.is_empty());
}

#[test]
fn set_block_then_get_block() {
    let mut c = Chunk::generate_empty(ChunkKey::new(0, 0));
    c.set_block(10, 90, 0, 5, 0);
    assert_eq!(c.get_block(10, 90, 0), (5, 0));
    c.set_block(3, 17, 9, 42, 7);
    c.set_block(2, 17, 9, 43, 9);
    assert_eq!(c.get_block(3, 17, 9), (42, 7));
    assert_eq!(c.get_block(2, 17, 9), (43, 9));
    assert_eq!(c.get_block(4, 17, 9), (0, 0));
    assert_eq!(c.get_block(10, 90, 0), (5, 0));
    // section 1, block (y 1, z 9, x 3) = 256 + 144 + 3: odd, the low nibble
    assert_eq!(c.sections[1].data[(256 + 144 + 3) / 2], (9 << 4) | 7);
    assert!(!c.is_empty());
}

#[test]
fn payload_of_an_empty_chunk() {
    let c = Chunk::generate_empty(ChunkKey::new(0, 0));
    let (mask, data) = c.serialize_payload(true, true);
    assert_eq!(mask, 1);
    assert_eq!(data.len(), 8192 + 2048 + 2048 + 256);
    let (mask, data) = c.serialize_payload(false, false);
    assert_eq!(mask, 0);
    assert!(data.is_empty());
}

#[test]
fn payload_orders_blocks_then_light_then_biomes() {
    let mut c = Chunk::generate_empty(ChunkKey::new(0, 0));
    c.set_block(0, 16, 0, 1, 0);
    c.set_block(1, 16, 0, 0x12, 0xf);
    c.set_block(0, 48, 0, 7, 0);
    c.sections[1].block_light[0] = 0xab;
    c.sections[3].sky_light[0] = 0xcd;
    c.biomes[0] = 4;
    let (mask, data) = c.serialize_payload(true, true);
    assert_eq!(mask, 0b1010);
    assert_eq!(data.len(), 2 * 8192 + 2 * 2048 + 2 * 2048 + 256);
    // section 1 first: block 0 is id 1, meta 0 -> 0x0010 little-endian
    assert_eq!(&data[0..4], &[0x10, 0x00, 0x2f, 0x01]);
    // section 3 blocks follow
    assert_eq!(&data[8192..8194], &[0x70, 0x00]);
    assert_eq!(data[2 * 8192], 0xab);
    assert_eq!(data[2 * 8192 + 2 * 2048 + 2048], 0xcd);
    assert_eq!(data[2 * 8192 + 4 * 2048], 4);
    let (_, no_sky) = c.serialize_payload(false, false);
    assert_eq!(no_sky.len(), 2 * 8192 + 2 * 2048);
}

#[test]
fn flat_world_layers() {
    let b = ChunkBuilder { chunk_x: 0, chunk_z: 0, primary_bitmask: 0b1, include_sky_light: true };
    let raw = b.build_flat_world();
    assert_eq!(raw.len(), 8192 + 2048 + 2048 + 256);
    // height 0 is bedrock, 1..=4 stone, 5 dirt, 6 grass, 7 air
    assert_eq!(&raw[0..2], &[7 << 4, 0]);
    assert_eq!(&raw[512..514], &[1 << 4, 0]);
    assert_eq!(&raw[5 * 512..5 * 512 + 2], &[3 << 4, 0]);
    assert_eq!(&raw[6 * 512..6 * 512 + 2], &[2 << 4, 0]);
    assert_eq!(&raw[7 * 512..7 * 512 + 2], &[0, 0]);
    assert!(raw[8192..8192 + 2048].iter().all(|&b| b == 0));
    assert!(raw[8192 + 2048..8192 + 4096].iter().all(|&b| b == 0xff));
    assert!(raw[8192 + 4096..].iter().all(|&b| b == 1));
    let b = ChunkBuilder { chunk_x: 0, chunk_z: 0, primary_bitmask: 0b110, include_sky_light: false };
    let raw = b.build_flat_world();
    assert_eq!(raw.len(), 2 * 8192 + 2 * 2048 + 256);
    assert!(raw[..2 * 8192].iter().all(|&b| b == 0));
    let none = ChunkBuilder { chunk_x: 0, chunk_z: 0, primary_bitmask: 0, include_sky_light: true }.build_flat_world();
    assert_eq!(none, vec![1u8; 256]);
}

#[test]
fn byte_arrays_must_have_their_length() {
    assert_eq!(cast_byte_array::<3>(vec![1, -1, 0]), Ok([1u8, 255, 0]));
    assert_eq!(cast_byte_array::<3>(vec![1]), Err("Got 1, expected 3".to_string()));
}

fn raw_section(y: i8, fill: i8) -> RawSection {
    RawSection {
        y,
        blocks: vec![fill; 4096],
        data: vec![0; 2048],
        sky_light: vec![-1; 2048],
        block_light: vec![0; 2048],
    }
}

#[test]
fn chunks_read_from_stored_nbt() {
    let raw = RawChunkNbt {
        data: RawChunkData {
            x: 4,
            z: -2,
            last_update: 0,
            terrain_populated: true,
            biomes: vec![1; 256],
            sections: vec![raw_section(2, 1), raw_section(16, 9), raw_section(-1, 9), raw_section(2, 3)],
        },
    };
    let c = Chunk::from_raw_nbt(raw).unwrap();
    assert_eq!((c.x, c.z), (4, -2));
    assert!(c.terrain_populated);
    assert_eq!(c.biomes, [1u8; 256]);
    assert_eq!(c.sections[2].y, 2);
    assert_eq!(c.get_block(0, 32, 0), (3, 0));
    assert_eq!(c.sections[2].sky_light[0], 255);
    assert!(c.sections[0].is_empty());
}

#[test]
fn stored_chunks_with_short_arrays_fail() {
    let mut short = raw_section(1, 1);
    short.data = vec![0; 10];
    let raw = RawChunkNbt {
        data: RawChunkData {
            x: 0,
            z: 0,
            last_update: 0,
            terrain_populated: false,
            biomes: vec![0; 256],
            sections: vec![raw_section(20, 0), short],
        },
    };
    assert_eq!(Chunk::from_raw_nbt(raw).unwrap_err(), "Got 10, expected 2048");
    let raw = RawChunkNbt {
        data: RawChunkData { x: 0, z: 0, last_update: 0, terrain_populated: false, biomes: vec![0; 3], sections: vec![] },
    };
    assert_eq!(Chunk::from_raw_nbt(raw).unwrap_err(), "Got 3, expected 256");
}

#[test]
fn listed_chunks_have_a_location() {
    let table = offset_table(&[(5, (3 << 8) | 2), (64, 7 << 8), (100, 1)]);
    let region = Region::from_offset_table(&table, std::path::PathBuf::from("r.1.1.mca"));
    let listed = existing_chunks(&table);
    assert_eq!(listed, vec![(5, 0), (0, 2)]);
    for (x, z) in listed {
        assert!(region.get_offset(x, z).is_some());
    }
    assert_eq!(region.get_offset(5, 0), Some((3, 2)));
    // an entry with a count but no sector is located, though not listed
    assert_eq!(region.get_offset(4, 3), Some((0, 1)));
}

#[test]
fn decimal_texts_cover_extremes() {
    assert_eq!(RegionKey::new(i32::MIN, i32::MAX).get_file_name(), "r.-2147483648.2147483647.mca");
    assert_eq!(RegionKey::new(-10, 100).get_file_name(), "r.-10.100.mca");
    assert_eq!(
        chunk_payload_len(&[0xff, 0xff, 0xff, 0xff, 255]),
        Err("Invalid header: comp=255, len=4294967295".to_string())
    );
    assert_eq!(cast_byte_array::<0>(vec![1, 2, 3, 4, 5, 6, 7, 8, 9, 10]), Err("Got 10, expected 0".to_string()));
}

#[test]
fn flat_world_length_follows_the_bitmask() {
    for (mask, sky) in [(0u16, false), (1, true), (0b1011, false), (0xffff, true), (0x8001, false)] {
        let b = ChunkBuilder { chunk_x: 3, chunk_z: -4, primary_bitmask: mask, include_sky_light: sky };
        let d = b.build_flat_world();
        let n = mask.count_ones() as usize;
        assert_eq!(d.len(), n * (10240 + if sky { 2048 } else { 0 }) + 256);
        assert!(d[d.len() - 256..].iter().all(|&x| x == 1));
        let moved = ChunkBuilder { chunk_x: -100, chunk_z: 7, primary_bitmask: mask, include_sky_light: sky };
        assert_eq!(moved.build_flat_world(), d);
    }
}
