//! End-to-end tests of the region decoder against fixtures built with
//! the real NBT encoder and zlib compressor.

use std::collections::HashMap;

use nbt::{Blob, Value};

use anvil_region::bytes::get_u32;
use anvil_region::model::{ChunkLocationEntry, DecodeError, RegionError};
use anvil_region::region::{read_chunk, read_chunk_offset, read_region_file};

/// Writes the location entry of `slot`: a 3-byte big-endian sector
/// offset and a 1-byte sector count.
fn set_location(buf: &mut [u8], slot: usize, sector: u32, count: u8) {
    buf[4 * slot] = ((sector >> 16) & 0xff) as u8;
    buf[4 * slot + 1] = ((sector >> 8) & 0xff) as u8;
    buf[4 * slot + 2] = (sector & 0xff) as u8;
    buf[4 * slot + 3] = count;
}

/// Writes the big-endian timestamp of `slot`.
fn set_timestamp(buf: &mut [u8], slot: usize, ts: u32) {
    buf[4096 + 4 * slot..4096 + 4 * slot + 4].copy_from_slice(&ts.to_be_bytes());
}

fn string_value(s: &str) -> Value {
    Value::String(s.to_string())
}

/// A chunk fixture with one section, built with the real NBT encoder.
fn chunk_blob(x: i32, z: i32) -> Blob {
    let mut props: HashMap<String, Value> = HashMap::new();
    props.insert("axis".to_string(), string_value("y"));
    props.insert("unmodelled".to_string(), string_value("dropped"));

    let mut stone: HashMap<String, Value> = HashMap::new();
    stone.insert("Name".to_string(), string_value("minecraft:stone"));
    stone.insert("Properties".to_string(), Value::Compound(props));

    let mut air: HashMap<String, Value> = HashMap::new();
    air.insert("Name".to_string(), string_value("minecraft:air"));

    let mut block_states: HashMap<String, Value> = HashMap::new();
    block_states.insert(
        "palette".to_string(),
        Value::List(vec![Value::Compound(stone), Value::Compound(air)]),
    );
    block_states.insert("data".to_string(), Value::LongArray(vec![0, -1, 77]));

    let mut biomes: HashMap<String, Value> = HashMap::new();
    biomes.insert(
        "palette".to_string(),
        Value::List(vec![string_value("minecraft:plains")]),
    );

    let mut section: HashMap<String, Value> = HashMap::new();
    section.insert("Y".to_string(), Value::Byte(-4));
    section.insert("block_states".to_string(), Value::Compound(block_states));
    section.insert("biomes".to_string(), Value::Compound(biomes));
    section.insert("BlockLight".to_string(), Value::ByteArray(vec![15; 2048]));
    section.insert("Ignored".to_string(), Value::Double(1.5));

    let mut blob = Blob::new();
    blob.insert("DataVersion", Value::Int(3578)).unwrap();
    blob.insert("xPos", Value::Int(x)).unwrap();
    blob.insert("zPos", Value::Int(z)).unwrap();
    blob.insert("yPos", Value::Int(-4)).unwrap();
    blob.insert("Status", string_value("minecraft:full")).unwrap();
    blob.insert("LastUpdate", Value::Long(123456789)).unwrap();
    blob.insert("sections", Value::List(vec![Value::Compound(section)])).unwrap();
    blob
}

fn zlib_bytes(blob: &Blob) -> Vec<u8> {
    let mut out = Vec::new();
    blob.to_zlib_writer(&mut out).unwrap();
    out
}

/// A region buffer with the given slots populated, each in its own
/// sector, framed as: 4-byte length, tag 2, zlib stream.
fn region_with(slots: &[(usize, Blob)]) -> Vec<u8> {
    let mut buf = vec![0u8; 8192];
    let mut sector = 2u32;
    for (slot, blob) in slots {
        let z = zlib_bytes(blob);
        let frame = (z.len() + 1) as u32;
        set_location(&mut buf, *slot, sector, 1);
        set_timestamp(&mut buf, *slot, 1700000000);
        let base = sector as usize * 4096;
        buf.resize(base, 0);
        buf.extend_from_slice(&frame.to_be_bytes());
        buf.push(2);
        buf.extend_from_slice(&z);
        let sectors = (5 + z.len() + 4095) / 4096;
        buf.resize(base + sectors * 4096, 0);
        sector += sectors as u32;
    }
    buf
}

#[test]
fn get_u32_reads_big_endian() {
    let v = [0x01u8, 0x02, 0x03, 0x04, 0xff];
    assert_eq!(get_u32(&v, 0), 0x01020304);
    assert_eq!(get_u32(&v, 1), 0x020304ff);
}

#[test]
fn read_chunk_offset_splits_entry() {
    let v = [0x00u8, 0x01, 0x02, 0x07];
    let e = read_chunk_offset(&v, 0);
    assert_eq!(e.sector_offset, 0x000102);
    assert_eq!(e.sector_count, 7);
}

#[test]
fn empty_region_decodes_to_all_none() {
    let buf = vec![0u8; 8192];
    let rf = read_region_file(&buf).unwrap();
    assert_eq!(rf.chunks.len(), 1024);
    assert!(rf.chunks.iter().all(|c| c.is_none()));
}

#[test]
fn too_short_region_fails() {
    let buf = vec![0u8; 100];
    assert_eq!(read_region_file(&buf).unwrap_err(), RegionError::TooShort);
}

#[test]
fn two_populated_slots_decode_in_place() {
    let buf = region_with(&[(5, chunk_blob(5, 0)), (100, chunk_blob(4, 3))]);
    let rf = read_region_file(&buf).unwrap();
    assert_eq!(rf.chunks.len(), 1024);
    let populated: Vec<usize> =
        (0..1024).filter(|&i| rf.chunks[i].is_some()).collect();
    assert_eq!(populated, vec![5, 100]);
    let c5 = rf.chunks[5].as_ref().unwrap();
    assert_eq!(c5.chunk_x, 5);
    assert_eq!(c5.chunk_z, 0);
    let c100 = rf.chunks[100].as_ref().unwrap();
    assert_eq!(c100.chunk_x, 4);
    assert_eq!(c100.chunk_z, 3);
}

#[test]
fn round_trip_reproduces_chunk_fields() {
    let buf = region_with(&[(0, chunk_blob(-7, 12))]);
    let rf = read_region_file(&buf).unwrap();
    let c = rf.chunks[0].as_ref().unwrap();
    assert_eq!(c.data_version, 3578);
    assert_eq!(c.chunk_x, -7);
    assert_eq!(c.chunk_z, 12);
    assert_eq!(c.chunk_y, -4);
    assert_eq!(c.status, "minecraft:full");
    assert_eq!(c.last_update, 123456789);
    assert_eq!(c.sections.len(), 1);
    let s = &c.sections[0];
    assert_eq!(s.y, -4);
    let pal = &s.block_states.palette;
    assert_eq!(pal.len(), 2);
    assert_eq!(pal[0].name, "minecraft:stone");
    let props = pal[0].properties.as_ref().unwrap();
    assert_eq!(props.axis.as_deref(), Some("y"));
    assert_eq!(props.level, None);
    assert_eq!(pal[1].name, "minecraft:air");
    assert_eq!(pal[1].properties, None);
    assert_eq!(s.block_states.data.as_deref(), Some(&[0i64, -1, 77][..]));
    assert_eq!(s.biomes.palette, vec!["minecraft:plains".to_string()]);
    assert_eq!(s.biomes.data, None);
    let light = s.block_light.as_ref().unwrap();
    assert_eq!(light.len(), 2048);
    assert!(light.iter().all(|&b| b == 15));
    assert_eq!(s.sky_light, None);
}

#[test]
fn decoding_twice_gives_identical_results() {
    let buf = region_with(&[(5, chunk_blob(5, 0)), (9, chunk_blob(9, 0))]);
    let a = read_region_file(&buf).unwrap();
    let b = read_region_file(&buf).unwrap();
    assert_eq!(a, b);
}

#[test]
fn header_at_buffer_end_fails_gracefully() {
    let mut buf = vec![0u8; 8192];
    set_location(&mut buf, 0, 2, 1);
    set_timestamp(&mut buf, 0, 1);
    // Five header bytes end exactly at the buffer's end: no body room.
    buf.extend_from_slice(&[0, 0, 0, 9, 2]);
    assert_eq!(buf.len(), 2 * 4096 + 5);
    let entry = ChunkLocationEntry { sector_offset: 2, sector_count: 1 };
    assert_eq!(read_chunk(&buf, &entry).unwrap_err(), DecodeError::OutOfBounds);
    let rf = read_region_file(&buf).unwrap();
    assert!(rf.chunks.iter().all(|c| c.is_none()));
}

#[test]
fn unsupported_scheme_fails_only_that_slot() {
    // Slot 0 carries tag 1, slot 1 carries tag 3, slot 2 is well formed.
    let good = chunk_blob(2, 0);
    let z = zlib_bytes(&good);
    let mut buf = vec![0u8; 8192];
    for (slot, tag) in [(0usize, 1u8), (1, 3)] {
        let sector = 2 + slot as u32;
        set_location(&mut buf, slot, sector, 1);
        set_timestamp(&mut buf, slot, 1);
        buf.resize(sector as usize * 4096, 0);
        let frame = (z.len() + 1) as u32;
        buf.extend_from_slice(&frame.to_be_bytes());
        buf.push(tag);
        buf.extend_from_slice(&z);
        buf.resize(sector as usize * 4096 + 4096 * (1 + z.len() / 4096), 0);
    }
    let sector = 4u32;
    set_location(&mut buf, 2, sector, 1);
    set_timestamp(&mut buf, 2, 1);
    buf.resize(sector as usize * 4096, 0);
    let frame = (z.len() + 1) as u32;
    buf.extend_from_slice(&frame.to_be_bytes());
    buf.push(2);
    buf.extend_from_slice(&z);

    let e0 = ChunkLocationEntry { sector_offset: 2, sector_count: 1 };
    assert_eq!(read_chunk(&buf, &e0).unwrap_err(), DecodeError::UnsupportedScheme(1));
    let e1 = ChunkLocationEntry { sector_offset: 3, sector_count: 1 };
    assert_eq!(read_chunk(&buf, &e1).unwrap_err(), DecodeError::UnsupportedScheme(3));

    let rf = read_region_file(&buf).unwrap();
    assert!(rf.chunks[0].is_none());
    assert!(rf.chunks[1].is_none());
    let c = rf.chunks[2].as_ref().unwrap();
    assert_eq!(c.chunk_x, 2);
}

#[test]
fn corrupt_zlib_stream_is_reported() {
    let mut buf = vec![0u8; 8192];
    set_location(&mut buf, 0, 2, 1);
    set_timestamp(&mut buf, 0, 1);
    let garbage = [0xdeu8, 0xad, 0xbe, 0xef, 0x00, 0x01, 0x02];
    let frame = (garbage.len() + 1) as u32;
    buf.extend_from_slice(&frame.to_be_bytes());
    buf.push(2);
    buf.extend_from_slice(&garbage);
    let entry = ChunkLocationEntry { sector_offset: 2, sector_count: 1 };
    assert_eq!(read_chunk(&buf, &entry).unwrap_err(), DecodeError::CorruptPayload);
    let rf = read_region_file(&buf).unwrap();
    assert!(rf.chunks[0].is_none());
}

#[test]
fn schema_mismatch_is_reported() {
    // A valid zlib stream whose contents miss the required chunk fields.
    let mut blob = Blob::new();
    blob.insert("DataVersion", Value::Int(1)).unwrap();
    let z = zlib_bytes(&blob);
    let mut buf = vec![0u8; 8192];
    set_location(&mut buf, 0, 2, 1);
    set_timestamp(&mut buf, 0, 1);
    let frame = (z.len() + 1) as u32;
    buf.extend_from_slice(&frame.to_be_bytes());
    buf.push(2);
    buf.extend_from_slice(&z);
    let entry = ChunkLocationEntry { sector_offset: 2, sector_count: 1 };
    assert_eq!(read_chunk(&buf, &entry).unwrap_err(), DecodeError::Schema);
}

#[test]
fn offset_outside_buffer_is_out_of_bounds() {
    let buf = vec![0u8; 8192];
    let entry = ChunkLocationEntry { sector_offset: 1000, sector_count: 1 };
    assert_eq!(read_chunk(&buf, &entry).unwrap_err(), DecodeError::OutOfBounds);
}

#[test]
fn last_slot_decodes_like_any_other() {
    let buf = region_with(&[(1023, chunk_blob(31, 31))]);
    let rf = read_region_file(&buf).unwrap();
    assert!(rf.chunks[..1023].iter().all(|c| c.is_none()));
    let c = rf.chunks[1023].as_ref().unwrap();
    assert_eq!(c.chunk_x, 31);
    assert_eq!(c.chunk_z, 31);
}

#[test]
fn chunk_without_sections_entries_decodes_empty() {
    let mut blob = Blob::new();
    blob.insert("DataVersion", Value::Int(3578)).unwrap();
    blob.insert("xPos", Value::Int(0)).unwrap();
    blob.insert("zPos", Value::Int(0)).unwrap();
    blob.insert("yPos", Value::Int(0)).unwrap();
    blob.insert("Status", string_value("minecraft:empty")).unwrap();
    blob.insert("LastUpdate", Value::Long(0)).unwrap();
    blob.insert("sections", Value::List(vec![])).unwrap();
    let buf = region_with(&[(7, blob)]);
    let rf = read_region_file(&buf).unwrap();
    let c = rf.chunks[7].as_ref().unwrap();
    assert_eq!(c.sections.len(), 0);
    assert_eq!(c.status, "minecraft:empty");
}
