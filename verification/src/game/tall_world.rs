//! The tall world layout: layers -256..=1024, no water, and a light volume
//! that leaves everything outside the lit columns dark.
use vstd::prelude::*;

use crate::game::skylight::{
    cell, column_light, fill_sky_columns, lemma_cell_bounds, lemma_column_in_layer,
    VoxelIds,
};

verus! {

/// Width of a chunk in blocks.
pub const CHUNK_SIZE: i64 = 16;
/// Lowest world layer (inclusive).
pub const WORLD_MIN_Y: i32 = -256;
/// Highest world layer (inclusive).
pub const WORLD_MAX_Y: i32 = 1024;
/// Number of layers in the world.
pub const WORLD_HEIGHT: i32 = 1281;
/// Layer of the overworld floor.
pub const WORLD_OVERWORLD_FLOOR: i32 = 255;

/// A block type of the tall world.
#[derive(Clone, Copy, Debug, PartialEq, Eq, Hash, Structural)]
pub enum Block {
    Air,
    Grass,
    Dirt,
    Stone,
    Deepslate,
    DeepDark,
}

pub open spec fn spec_block_id(block: Block) -> u8 {
    match block {
        Block::Air => 0,
        Block::Grass => 1,
        Block::Dirt => 2,
        Block::Stone => 3,
        Block::Deepslate => 4,
        Block::DeepDark => 5,
    }
}

/// The block an id stands for; unknown ids read as air.
pub open spec fn spec_block_from_id(id: u8) -> Block {
    if id == 1 {
        Block::Grass
    } else if id == 2 {
        Block::Dirt
    } else if id == 3 {
        Block::Stone
    } else if id == 4 {
        Block::Deepslate
    } else if id == 5 {
        Block::DeepDark
    } else {
        Block::Air
    }
}

impl Block {
    /// Everything but air is solid.
    pub fn is_solid(self) -> (b: bool)
        ensures
            b == (self != Block::Air),
    {
        !matches!(self, Block::Air)
    }

    pub fn to_id(self) -> (id: u8)
        ensures
            id == spec_block_id(self),
    {
        match self {
            Block::Air => 0,
            Block::Grass => 1,
            Block::Dirt => 2,
            Block::Stone => 3,
            Block::Deepslate => 4,
            Block::DeepDark => 5,
        }
    }

    pub fn from_id(id: u8) -> (block: Block)
        ensures
            block == spec_block_from_id(id),
    {
        match id {
            1 => Block::Grass,
            2 => Block::Dirt,
            3 => Block::Stone,
            4 => Block::Deepslate,
            5 => Block::DeepDark,
            _ => Block::Air,
        }
    }
}

/// Reading back a stored id gives the block that was stored.
pub proof fn lemma_block_id_round_trip(block: Block)
    ensures
        spec_block_from_id(spec_block_id(block)) == block,
{
}

impl VoxelIds for Block {
    open spec fn spec_id_is_solid(id: u8) -> bool {
        spec_block_from_id(id) != Block::Air
    }

    fn id_is_solid(id: u8) -> (b: bool) {
        Block::from_id(id).is_solid()
    }
}

/// A whole-block position.
#[derive(Clone, Copy, Debug, PartialEq, Eq, Hash, Structural)]
pub struct BlockPos {
    pub x: i64,
    pub y: i32,
    pub z: i64,
}

/// A sub-block: one of the `divisions`³ cells of the block at `(x, y, z)`.
#[derive(Clone, Copy, Debug, PartialEq, Eq, Hash, Structural)]
pub struct SubBlockPos {
    pub x: i64,
    pub y: i32,
    pub z: i64,
    pub divisions: u8,
    pub sx: u8,
    pub sy: u8,
    pub sz: u8,
}

/// Biome kinds of the tall world.
#[derive(Clone, Copy, Debug, PartialEq, Eq, Structural)]
pub enum BiomeKind {
    Ocean,
    Meadow,
    Valley,
    Mountain,
    Desert,
}

pub open spec fn spec_biome_index(kind: BiomeKind) -> usize {
    match kind {
        BiomeKind::Ocean => 0,
        BiomeKind::Meadow => 1,
        BiomeKind::Valley => 2,
        BiomeKind::Mountain => 3,
        BiomeKind::Desert => 4,
    }
}

pub fn biome_index(kind: BiomeKind) -> (i: usize)
    ensures
        i == spec_biome_index(kind),
{
    match kind {
        BiomeKind::Ocean => 0,
        BiomeKind::Meadow => 1,
        BiomeKind::Valley => 2,
        BiomeKind::Mountain => 3,
        BiomeKind::Desert => 4,
    }
}

/// The biome with a given index; any index without a biome reads as meadow.
pub fn biome_from_index(index: usize) -> (kind: BiomeKind)
    ensures
        index < 5 ==> spec_biome_index(kind) == index,
        index >= 5 ==> kind == BiomeKind::Meadow,
{
    match index {
        0 => BiomeKind::Ocean,
        2 => BiomeKind::Valley,
        3 => BiomeKind::Mountain,
        4 => BiomeKind::Desert,
        _ => BiomeKind::Meadow,
    }
}

pub open spec fn spec_contains_world_y(y: int) -> bool {
    WORLD_MIN_Y <= y <= WORLD_MAX_Y
}

pub fn contains_world_y(y: i32) -> (b: bool)
    ensures
        b == spec_contains_world_y(y as int),
{
    WORLD_MIN_Y <= y && y <= WORLD_MAX_Y
}

/// Index of layer `y` in a column array that starts at the lowest layer.
pub fn world_y_to_index(y: i32) -> (index: Option<usize>)
    ensures
        spec_contains_world_y(y as int) ==> index == Some((y - WORLD_MIN_Y) as usize),
        !spec_contains_world_y(y as int) ==> index is None,
{
    if contains_world_y(y) {
        Some((y - WORLD_MIN_Y) as usize)
    } else {
        None
    }
}

/// Light a block gives off; no block type emits light.
pub open spec fn spec_block_light_emission(block: Block) -> u8 {
    0
}

pub fn block_light_emission(block: Block) -> (e: u8)
    ensures
        e == spec_block_light_emission(block),
{
    match block {
        Block::Air | Block::Grass | Block::Dirt | Block::Stone | Block::Deepslate | Block::DeepDark => 0,
    }
}

/// Builds the light volume of a block-id grid laid out layer by layer
/// (`index = y * xz_extent² + z * xz_extent + x`).  Open voxels of the grid
/// get skylight from their column; solid voxels, and entries past the grid,
/// stay dark.
pub fn build_light_volume(block_ids: &[u8], xz_extent: usize, y_extent: usize) -> (light: Vec<u8>)
    requires
        xz_extent * xz_extent <= usize::MAX,
        y_extent * (xz_extent * xz_extent) <= block_ids@.len(),
    ensures
        light@.len() == block_ids@.len(),
        forall|i: int|
            0 <= i < block_ids@.len() && (spec_block_from_id(block_ids@[i]) != Block::Air || i >= y_extent * (
            xz_extent * xz_extent)) ==> #[trigger] light@[i] == 0,
        forall|x: int, y: int, z: int|
            0 <= x < xz_extent && 0 <= z < xz_extent && 0 <= y < y_extent && spec_block_from_id(
                block_ids@[cell(xz_extent * xz_extent, y, z * xz_extent + x)],
            ) == Block::Air ==> #[trigger] light@[cell(xz_extent * xz_extent, y, z * xz_extent + x)]
                == column_light::<Block>(block_ids@, xz_extent * xz_extent, z * xz_extent + x, 0, y_extent - 1, y),
{
    let n = block_ids.len();
    let layer_stride = xz_extent * xz_extent;
    let mut light_levels: Vec<u8> = Vec::new();
    let mut i: usize = 0;
    while i < n
        invariant
            n == block_ids@.len(),
            i <= n,
            light_levels@.len() == i,
            forall|j: int| 0 <= j < i ==> #[trigger] light_levels@[j] == 0u8,
        decreases n - i,
    {
        light_levels.push(0);
        i = i + 1;
    }
    if y_extent == 0 {
        return light_levels;
    }
    proof {
        assert(((y_extent - 1) + 1) * layer_stride == y_extent * layer_stride);
    }
    fill_sky_columns::<Block>(block_ids, &mut light_levels, layer_stride, 0, y_extent - 1);
    let ghost sky = light_levels@;

    proof {
        let stride = layer_stride as int;
        assert forall|x: int, y: int, z: int|
            0 <= x < xz_extent && 0 <= z < xz_extent && 0 <= y < y_extent && spec_block_from_id(
                block_ids@[cell(stride, y, z * xz_extent + x)],
            ) == Block::Air implies #[trigger] light_levels@[cell(stride, y, z * xz_extent + x)]
                == column_light::<Block>(block_ids@, stride, z * xz_extent + x, 0, y_extent - 1, y) by {
            lemma_column_in_layer(xz_extent as int, x, z);
            lemma_cell_bounds(stride, y, z * xz_extent + x, 0, (y_extent - 1) as int);
        }
    }
    light_levels
}

} // verus!
