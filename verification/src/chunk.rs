use vstd::prelude::*;

pub mod packed_array;
pub mod palette;
pub mod section;
pub mod world;

verus! {

pub type BlockState = u32;

pub type Biome = u32;

pub const GLOBAL_PALETTE_BITS_BLOCKS: usize = 15;

pub const GLOBAL_PALETTE_BITS_BIOMES: usize = 6;

pub const MIN_PALETTE_BITS_BLOCKS: usize = 4;

pub const MIN_PALETTE_BITS_BIOMES: usize = 1;

pub const MAX_PALETTE_BITS_BLOCKS: usize = 8;

pub const MAX_PALETTE_BITS_BIOMES: usize = 3;

pub const SECTION_EDGE: usize = 16;

pub const SECTION_BLOCKS: usize = 4096;

pub const AIR: u32 = 0;

/// The number of sections in a column.
pub const COLUMN_HEIGHT: usize = 24;

} // verus!
