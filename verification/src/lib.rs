//! Reader for the Anvil region-file container: a fixed-layout binary file
//! that multiplexes up to 1024 independently compressed, NBT-encoded chunk
//! records. The location and timestamp tables, the per-chunk payload
//! framing, and the structural mapping of the decompressed NBT tree onto
//! typed chunk records are all verified; zlib decompression and the
//! parallel fan-out over slots are called through trusted wrappers.

pub mod bytes;
pub mod nbt_parse;
pub mod region;
pub mod model;
