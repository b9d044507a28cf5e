use vstd::prelude::*;

verus! {

/// Maps an `Option` of a viewable value to the `Option` of its view.
pub open spec fn opt_view<T: View>(o: Option<T>) -> Option<T::V> {
    match o {
        Some(t) => Some(t@),
        None => None,
    }
}

/// Recognized block-state property names; values outside this set are
/// dropped during decoding (a deliberate lossy narrowing of the format).
#[derive(Debug, PartialEq, Clone)]
pub struct PaletteBlockProperties {
    pub level: Option<String>,
    pub snowy: Option<String>,
    pub distance: Option<String>,
    pub persistent: Option<String>,
    pub waterlogged: Option<String>,
    pub axis: Option<String>,
}

pub ghost struct PaletteBlockPropertiesView {
    pub level: Option<Seq<char>>,
    pub snowy: Option<Seq<char>>,
    pub distance: Option<Seq<char>>,
    pub persistent: Option<Seq<char>>,
    pub waterlogged: Option<Seq<char>>,
    pub axis: Option<Seq<char>>,
}

impl View for PaletteBlockProperties {
    type V = PaletteBlockPropertiesView;

    open spec fn view(&self) -> PaletteBlockPropertiesView {
        PaletteBlockPropertiesView {
            level: opt_view(self.level),
            snowy: opt_view(self.snowy),
            distance: opt_view(self.distance),
            persistent: opt_view(self.persistent),
            waterlogged: opt_view(self.waterlogged),
            axis: opt_view(self.axis),
        }
    }
}

/// One entry of a block-states palette: a namespaced block id and the
/// recognized properties, when any were present.
#[derive(Debug, PartialEq, Clone)]
pub struct PaletteBlock {
    pub name: String,
    pub properties: Option<PaletteBlockProperties>,
}

pub ghost struct PaletteBlockView {
    pub name: Seq<char>,
    pub properties: Option<PaletteBlockPropertiesView>,
}

impl View for PaletteBlock {
    type V = PaletteBlockView;

    open spec fn view(&self) -> PaletteBlockView {
        PaletteBlockView { name: self.name@, properties: opt_view(self.properties) }
    }
}

/// Block-state layer of a section: a palette plus the raw packed index
/// words, kept as 64-bit words and never unpacked here.
#[derive(Debug, PartialEq, Clone)]
pub struct BlockStates {
    pub palette: Vec<PaletteBlock>,
    pub data: Option<Vec<i64>>,
}

pub ghost struct BlockStatesView {
    pub palette: Seq<PaletteBlockView>,
    pub data: Option<Seq<i64>>,
}

impl View for BlockStates {
    type V = BlockStatesView;

    open spec fn view(&self) -> BlockStatesView {
        BlockStatesView {
            palette: self.palette@.map_values(|b: PaletteBlock| b@),
            data: opt_view(self.data),
        }
    }
}

/// Biome layer of a section: a palette of biome ids plus the raw packed
/// index words.
#[derive(Debug, PartialEq, Clone)]
pub struct Biomes {
    pub palette: Vec<String>,
    pub data: Option<Vec<i64>>,
}

pub ghost struct BiomesView {
    pub palette: Seq<Seq<char>>,
    pub data: Option<Seq<i64>>,
}

impl View for Biomes {
    type V = BiomesView;

    open spec fn view(&self) -> BiomesView {
        BiomesView {
            palette: self.palette@.map_values(|s: String| s@),
            data: opt_view(self.data),
        }
    }
}

/// One 16x16x16 cube of a chunk, identified by its signed vertical index.
#[derive(Debug, PartialEq, Clone)]
pub struct Section {
    pub y: i16,
    pub block_states: BlockStates,
    pub biomes: Biomes,
    pub block_light: Option<Vec<i8>>,
    pub sky_light: Option<Vec<i8>>,
}

pub ghost struct SectionView {
    pub y: i16,
    pub block_states: BlockStatesView,
    pub biomes: BiomesView,
    pub block_light: Option<Seq<i8>>,
    pub sky_light: Option<Seq<i8>>,
}

impl View for Section {
    type V = SectionView;

    open spec fn view(&self) -> SectionView {
        SectionView {
            y: self.y,
            block_states: self.block_states@,
            biomes: self.biomes@,
            block_light: opt_view(self.block_light),
            sky_light: opt_view(self.sky_light),
        }
    }
}

/// A decoded chunk record. The order of `sections` is whatever the file
/// held; the format does not promise an order by `y`.
#[derive(Debug, PartialEq, Clone)]
pub struct Chunk {
    pub data_version: i32,
    pub chunk_x: i32,
    pub chunk_z: i32,
    pub chunk_y: i32,
    pub status: String,
    pub last_update: i64,
    pub sections: Vec<Section>,
}

pub ghost struct ChunkView {
    pub data_version: i32,
    pub chunk_x: i32,
    pub chunk_z: i32,
    pub chunk_y: i32,
    pub status: Seq<char>,
    pub last_update: i64,
    pub sections: Seq<SectionView>,
}

impl View for Chunk {
    type V = ChunkView;

    open spec fn view(&self) -> ChunkView {
        ChunkView {
            data_version: self.data_version,
            chunk_x: self.chunk_x,
            chunk_z: self.chunk_z,
            chunk_y: self.chunk_y,
            status: self.status@,
            last_update: self.last_update,
            sections: self.sections@.map_values(|s: Section| s@),
        }
    }
}

/// Per-slot descriptor from the location table: a 24-bit offset in
/// 4096-byte sectors from the file start, and a sector count.
#[derive(Debug, PartialEq, Eq, Structural, Clone, Copy)]
pub struct ChunkLocationEntry {
    pub sector_offset: u32,
    pub sector_count: u8,
}

/// The decoded region: exactly 1024 slots, slot `i = x + 32*z` holding
/// the chunk at region-local coordinates `(x, z)` or `None`.
#[derive(Debug, PartialEq, Clone)]
pub struct RegionFile {
    pub chunks: Vec<Option<Chunk>>,
}

impl View for RegionFile {
    type V = Seq<Option<ChunkView>>;

    open spec fn view(&self) -> Seq<Option<ChunkView>> {
        self.chunks@.map_values(|c: Option<Chunk>| opt_view(c))
    }
}

impl RegionFile {
    /// A decoded region always holds one entry per slot.
    pub open spec fn wf(&self) -> bool {
        self.chunks@.len() == 1024
    }
}

/// Why a single slot failed to decode. A slot failure never aborts the
/// decode of the other slots.
#[derive(Debug, PartialEq, Eq, Structural, Clone, Copy)]
pub enum DecodeError {
    /// The payload header or frame reaches outside the buffer.
    OutOfBounds,
    /// The compression tag is not the zlib scheme; carries the tag seen.
    UnsupportedScheme(u8),
    /// The compressed bytes are not a valid zlib stream.
    CorruptPayload,
    /// The decompressed bytes do not map onto the chunk structure.
    Schema,
}

/// Why the whole region failed to decode.
#[derive(Debug, PartialEq, Eq, Structural, Clone, Copy)]
pub enum RegionError {
    /// The buffer is shorter than the fixed 8192-byte header.
    TooShort,
}

} // verus!
