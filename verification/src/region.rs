//! The region-file container: a fixed 8192-byte header of 1024 location
//! entries and 1024 timestamps, followed by sector-aligned, zlib-packed
//! chunk payloads. Every slot decodes independently of the others; a bad
//! slot degrades to `None` and never aborts its siblings.

use vstd::prelude::*;
use vstd::slice::slice_subrange;

use rayon::iter::{IntoParallelIterator, ParallelIterator};

use crate::bytes::{be24, be32, get_u32};
use crate::model::{opt_view, Chunk, ChunkLocationEntry, ChunkView, DecodeError, RegionError,
    RegionFile};
use crate::nbt_parse::{parse_chunk, spec_parse_chunk};

verus! {

/// What the zlib decompressor yields on the given stream, or `None` when
/// the bytes are not one valid zlib stream.
pub uninterp spec fn zlib_inflate(c: Seq<u8>) -> Option<Seq<u8>>;

/// Relies on flate2's ZlibDecoder over an in-memory slice: it reads
/// nothing but the bytes given, so the outcome is a function of them
/// alone, and a corrupt or truncated stream gives an error.
#[verifier::external_body]
fn inflate(c: &[u8]) -> (r: Option<Vec<u8>>)
    ensures
        (match r {
            Some(v) => zlib_inflate(c@) == Some(v@),
            None => zlib_inflate(c@) is None,
        }),
{
    let mut out: Vec<u8> = Vec::new();
    let mut dec = flate2::read::ZlibDecoder::new(c);
    match std::io::Read::read_to_end(&mut dec, &mut out) {
        Ok(_) => Some(out),
        Err(_) => None,
    }
}

/// The 24-bit sector offset of slot `i`.
pub open spec fn spec_location_offset(d: Seq<u8>, i: int) -> nat
    recommends
        d.len() >= 8192,
        0 <= i < 1024,
{
    be24(d, 4 * i)
}

/// The sector count of slot `i`.
pub open spec fn spec_location_count(d: Seq<u8>, i: int) -> u8
    recommends
        d.len() >= 8192,
        0 <= i < 1024,
{
    d[4 * i + 3]
}

/// The timestamp of slot `i`.
pub open spec fn spec_timestamp(d: Seq<u8>, i: int) -> nat
    recommends
        d.len() >= 8192,
        0 <= i < 1024,
{
    be32(d, 4096 + 4 * i)
}

/// A slot whose location entry and timestamp are all zero was never
/// written; it must not be dereferenced into the file body.
pub open spec fn spec_slot_unloaded(d: Seq<u8>, i: int) -> bool
    recommends
        d.len() >= 8192,
        0 <= i < 1024,
{
    spec_location_offset(d, i) == 0 && spec_location_count(d, i) == 0 && spec_timestamp(d, i)
        == 0
}

/// Reads the location entry at `byte_offset`: a three-byte big-endian
/// sector offset and a one-byte sector count.
pub fn read_chunk_offset(data: &[u8], byte_offset: usize) -> (r: ChunkLocationEntry)
    requires
        byte_offset + 4 <= data@.len(),
    ensures
        r.sector_offset as nat == be24(data@, byte_offset as int),
        r.sector_count == data@[byte_offset + 3],
{
    ChunkLocationEntry {
        sector_offset: (data[byte_offset] as u32) * 0x10000 + (data[byte_offset + 1] as u32)
            * 0x100 + (data[byte_offset + 2] as u32),
        sector_count: data[byte_offset + 3],
    }
}

/// The decode of one payload at the given sector offset: a five-byte
/// header (big-endian frame length, then the compression tag), a zlib
/// stream of `frame - 1` bytes, and the chunk mapped from its
/// decompression. The frame must hold the tag and a nonempty stream and
/// must lie inside the buffer; only the zlib scheme (tag 2) is
/// supported.
pub open spec fn spec_decode_payload(d: Seq<u8>, sector_offset: nat) -> Result<
    ChunkView,
    DecodeError,
> {
    let base = sector_offset * 4096;
    if base + 5 > d.len() {
        Err(DecodeError::OutOfBounds)
    } else {
        let tag = d[(base + 4) as int];
        if tag != 2 {
            Err(DecodeError::UnsupportedScheme(tag))
        } else {
            let frame = be32(d, base as int);
            if frame < 2 || base + 4 + frame > d.len() {
                Err(DecodeError::OutOfBounds)
            } else {
                match zlib_inflate(d.subrange((base + 5) as int, (base + 4 + frame) as int)) {
                    None => Err(DecodeError::CorruptPayload),
                    Some(raw) => match spec_parse_chunk(raw) {
                        None => Err(DecodeError::Schema),
                        Some(c) => Ok(c),
                    },
                }
            }
        }
    }
}

/// Decodes the payload that a location entry points at.
pub fn read_chunk(data: &[u8], offset: &ChunkLocationEntry) -> (r: Result<Chunk, DecodeError>)
    ensures
        (match r {
            Ok(c) => spec_decode_payload(data@, offset.sector_offset as nat) == Ok::<
                ChunkView,
                DecodeError,
            >(c@),
            Err(e) => spec_decode_payload(data@, offset.sector_offset as nat) == Err::<
                ChunkView,
                DecodeError,
            >(e),
        }),
{
    let len: usize = data.len();
    let base64: u64 = (offset.sector_offset as u64) * 4096;
    if base64 + 5 > (len as u64) {
        return Err(DecodeError::OutOfBounds);
    }
    let base: usize = base64 as usize;
    let tag = data[base + 4];
    if tag != 2 {
        return Err(DecodeError::UnsupportedScheme(tag));
    }
    let frame = get_u32(data, base);
    if frame < 2 {
        return Err(DecodeError::OutOfBounds);
    }
    if (frame as u64) > (len as u64) - (base64 + 4) {
        return Err(DecodeError::OutOfBounds);
    }
    let payload = slice_subrange(data, base + 5, base + 4 + frame as usize);
    match inflate(payload) {
        None => Err(DecodeError::CorruptPayload),
        Some(raw) => match parse_chunk(raw.as_slice()) {
            None => Err(DecodeError::Schema),
            Some(c) => Ok(c),
        },
    }
}

/// The decode of slot `i`: `None` for an unloaded slot and for every
/// per-slot failure, the chunk otherwise.
pub open spec fn spec_decode_slot(d: Seq<u8>, i: int) -> Option<ChunkView>
    recommends
        d.len() >= 8192,
        0 <= i < 1024,
{
    if spec_slot_unloaded(d, i) {
        None
    } else {
        match spec_decode_payload(d, spec_location_offset(d, i)) {
            Ok(c) => Some(c),
            Err(_) => None,
        }
    }
}

/// Decodes slot `i` of the region buffer.
pub fn decode_slot(data: &Vec<u8>, i: usize) -> (r: Option<Chunk>)
    requires
        8192 <= data@.len(),
        i < 1024,
    ensures
        opt_view(r) == spec_decode_slot(data@, i as int),
{
    let entry = read_chunk_offset(data.as_slice(), 4 * i);
    let ts = get_u32(data.as_slice(), 4096 + 4 * i);
    if entry.sector_offset == 0 && entry.sector_count == 0 && ts == 0 {
        return None;
    }
    match read_chunk(data.as_slice(), &entry) {
        Ok(c) => Some(c),
        Err(_) => None,
    }
}

/// Relies on rayon's parallel iterator over the slot indices: `map`
/// applies the verified per-slot decoder to each index, and `collect`
/// gathers the 1024 results in index order whatever order the workers
/// finish in.
#[verifier::external_body]
fn decode_slots_parallel(data: &Vec<u8>) -> (r: Vec<Option<Chunk>>)
    requires
        8192 <= data@.len(),
    ensures
        r@.len() == 1024,
        forall|i: int| 0 <= i < 1024 ==> opt_view(r@[i]) == spec_decode_slot(data@, i),
{
    (0..1024usize).into_par_iter().map(|i| decode_slot(data, i)).collect()
}

/// The decode of a whole region buffer: 1024 independent slot decodes,
/// or a whole-file error when the buffer cannot hold the fixed header.
pub open spec fn spec_decode_region(d: Seq<u8>) -> Result<Seq<Option<ChunkView>>, RegionError> {
    if d.len() < 8192 {
        Err(RegionError::TooShort)
    } else {
        Ok(Seq::new(1024, |i: int| spec_decode_slot(d, i)))
    }
}

/// Decodes a region buffer into its 1024 slots, in slot order. Decoding
/// is a function of the bytes alone, so repeated calls on the same
/// buffer agree slot for slot.
pub fn read_region_file(data: &Vec<u8>) -> (r: Result<RegionFile, RegionError>)
    ensures
        (match r {
            Ok(rf) => rf.wf() && spec_decode_region(data@) == Ok::<
                Seq<Option<ChunkView>>,
                RegionError,
            >(rf@),
            Err(e) => spec_decode_region(data@) == Err::<Seq<Option<ChunkView>>, RegionError>(e),
        }),
{
    if data.len() < 8192 {
        return Err(RegionError::TooShort);
    }
    let chunks = decode_slots_parallel(data);
    let rf = RegionFile { chunks };
    proof {
        assert(rf@ =~= Seq::new(1024, |i: int| spec_decode_slot(data@, i)));
    }
    Ok(rf)
}

/// An all-zero location entry and timestamp mark an unloaded slot: it
/// decodes to `None`, in the slot decode and in the assembled region.
pub proof fn lemma_unloaded_slot_is_none(d: Seq<u8>, i: int)
    requires
        d.len() >= 8192,
        0 <= i < 1024,
        spec_slot_unloaded(d, i),
    ensures
        spec_decode_slot(d, i) is None,
        spec_decode_region(d) is Ok,
        spec_decode_region(d)->Ok_0[i] is None,
{
}

/// Whether a slot is unloaded is settled by the fixed 8192-byte header
/// alone: no byte of the file body is read for that decision.
pub proof fn lemma_unloaded_reads_header_only(d1: Seq<u8>, d2: Seq<u8>, i: int)
    requires
        d1.len() >= 8192,
        d2.len() >= 8192,
        0 <= i < 1024,
        d1.subrange(0, 8192) == d2.subrange(0, 8192),
    ensures
        spec_slot_unloaded(d1, i) == spec_slot_unloaded(d2, i),
{
    assert forall|j: int| 0 <= j < 8192 implies d1[j] == d2[j] by {
        assert(d1.subrange(0, 8192)[j] == d1[j]);
        assert(d2.subrange(0, 8192)[j] == d2[j]);
    }
}

/// A loaded slot whose payload decodes yields exactly that chunk.
pub proof fn lemma_loaded_slot_decodes(d: Seq<u8>, i: int, c: ChunkView)
    requires
        d.len() >= 8192,
        0 <= i < 1024,
        !spec_slot_unloaded(d, i),
        spec_decode_payload(d, spec_location_offset(d, i)) == Ok::<ChunkView, DecodeError>(c),
    ensures
        spec_decode_slot(d, i) == Some(c),
{
}

/// Decoding is deterministic: two decodes of one buffer agree, slot for
/// slot and in the same order.
pub proof fn lemma_decode_idempotent(
    d: Seq<u8>,
    r1: Result<Seq<Option<ChunkView>>, RegionError>,
    r2: Result<Seq<Option<ChunkView>>, RegionError>,
)
    requires
        r1 == spec_decode_region(d),
        r2 == spec_decode_region(d),
    ensures
        r1 == r2,
{
}

/// A payload whose five-byte header ends exactly at the buffer's end has
/// no room for a compressed stream: the slot fails instead of reading
/// out of bounds.
pub proof fn lemma_header_at_end_fails(d: Seq<u8>, sector_offset: nat)
    requires
        sector_offset * 4096 + 5 == d.len(),
    ensures
        spec_decode_payload(d, sector_offset) is Err,
{
}

/// A compression tag other than the zlib scheme fails that slot with the
/// tag reported, whatever else the entry holds.
pub proof fn lemma_unsupported_scheme(d: Seq<u8>, sector_offset: nat)
    requires
        sector_offset * 4096 + 5 <= d.len(),
        d[(sector_offset * 4096 + 4) as int] != 2,
    ensures
        spec_decode_payload(d, sector_offset) == Err::<ChunkView, DecodeError>(
            DecodeError::UnsupportedScheme(d[(sector_offset * 4096 + 4) as int]),
        ),
{
}

/// Every slot of a decoded region is exactly its own slot's decode: one
/// slot's failure cannot change any other slot's result.
pub proof fn lemma_slots_independent(d: Seq<u8>, i: int)
    requires
        d.len() >= 8192,
        0 <= i < 1024,
    ensures
        spec_decode_region(d) is Ok,
        spec_decode_region(d)->Ok_0[i] == spec_decode_slot(d, i),
{
}

} // verus!
