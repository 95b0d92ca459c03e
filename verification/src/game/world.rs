//! Blocks, voxel positions, the world's vertical range and its light volume.
use vstd::prelude::*;

use crate::game::skylight::{
    cell, column_light, fill_sky_columns, lemma_cell_bounds, lemma_column_in_layer, VoxelIds,
    FULL_LIGHT,
};

pub mod storage;
pub mod edits;

verus! {

/// Width of a chunk in blocks.
pub const CHUNK_SIZE: i64 = 16;
/// Lowest world layer (inclusive).
pub const WORLD_MIN_Y: i32 = -64;
/// Highest world layer (inclusive).
pub const WORLD_MAX_Y: i32 = 320;
/// Number of layers in the world.
pub const WORLD_HEIGHT: i32 = 385;
/// Layer of the overworld floor.
pub const WORLD_OVERWORLD_FLOOR: i32 = 0;
/// Sea level.
pub const WORLD_SEA_LEVEL: i32 = 0;
/// Lowest layer a generated surface may sit on.
pub const WORLD_SURFACE_MIN_Y: i32 = -62;
/// Natural caves are not carved deeper than this below the surface.
pub const MAX_NATURAL_CAVE_DEPTH_BELOW_SURFACE: i32 = 200;
/// Lowest layer that is meshed.
pub const WORLD_RENDER_FLOOR_Y: i32 = -64;

/// A block type.
#[derive(Clone, Copy, Debug, PartialEq, Eq, Hash, Structural)]
pub enum Block {
    Air,
    Water,
    Grass,
    Dirt,
    Stone,
    Deepslate,
    DeepDark,
    CustomA,
    CustomB,
    CustomC,
}

/// Number of block types.
pub const BLOCK_COUNT: usize = 10;

/// The stored id of a block.
pub open spec fn spec_block_id(block: Block) -> u8 {
    match block {
        Block::Air => 0,
        Block::Water => 1,
        Block::Grass => 2,
        Block::Dirt => 3,
        Block::Stone => 4,
        Block::Deepslate => 5,
        Block::DeepDark => 6,
        Block::CustomA => 7,
        Block::CustomB => 8,
        Block::CustomC => 9,
    }
}

/// The block an id stands for; unknown ids read as air.
pub open spec fn spec_block_from_id(id: u8) -> Block {
    if id == 1 {
        Block::Water
    } else if id == 2 {
        Block::Grass
    } else if id == 3 {
        Block::Dirt
    } else if id == 4 {
        Block::Stone
    } else if id == 5 {
        Block::Deepslate
    } else if id == 6 {
        Block::DeepDark
    } else if id == 7 {
        Block::CustomA
    } else if id == 8 {
        Block::CustomB
    } else if id == 9 {
        Block::CustomC
    } else {
        Block::Air
    }
}

/// Air and water let light and players through; every other block is solid.
pub open spec fn spec_is_solid(block: Block) -> bool {
    !(block == Block::Air || block == Block::Water)
}

impl Block {
    pub fn is_solid(self) -> (b: bool)
        ensures
            b == spec_is_solid(self),
    {
        !matches!(self, Block::Air | Block::Water)
    }

    pub fn to_id(self) -> (id: u8)
        ensures
            id == spec_block_id(self),
    {
        match self {
            Block::Air => 0,
            Block::Water => 1,
            Block::Grass => 2,
            Block::Dirt => 3,
            Block::Stone => 4,
            Block::Deepslate => 5,
            Block::DeepDark => 6,
            Block::CustomA => 7,
            Block::CustomB => 8,
            Block::CustomC => 9,
        }
    }

    pub fn from_id(id: u8) -> (block: Block)
        ensures
            block == spec_block_from_id(id),
    {
        match id {
            1 => Block::Water,
            2 => Block::Grass,
            3 => Block::Dirt,
            4 => Block::Stone,
            5 => Block::Deepslate,
            6 => Block::DeepDark,
            7 => Block::CustomA,
            8 => Block::CustomB,
            9 => Block::CustomC,
            _ => Block::Air,
        }
    }

    /// Display name, written with the overlay font's characters.
    pub fn label(self) -> (s: &'static str)
        ensures
            s@ == spec_block_label(self),
    {
        match self {
            Block::Air => "AIR",
            Block::Water => "WATER",
            Block::Grass => "GRASS",
            Block::Dirt => "DIRT",
            Block::Stone => "STONE",
            Block::Deepslate => "DEEPSLATE",
            Block::DeepDark => "DEEP DARK",
            Block::CustomA => "CUSTOM A",
            Block::CustomB => "CUSTOM B",
            Block::CustomC => "CUSTOM C",
        }
    }

    /// Two-character code shown in inventory cells.
    pub fn short_code(self) -> (s: &'static str)
        ensures
            s@ == spec_block_short_code(self),
    {
        match self {
            Block::Air => "AR",
            Block::Water => "WA",
            Block::Grass => "GR",
            Block::Dirt => "DI",
            Block::Stone => "ST",
            Block::Deepslate => "DS",
            Block::DeepDark => "DD",
            Block::CustomA => "CA",
            Block::CustomB => "CB",
            Block::CustomC => "CC",
        }
    }
}

pub open spec fn spec_block_label(block: Block) -> Seq<char> {
    match block {
        Block::Air => "AIR"@,
        Block::Water => "WATER"@,
        Block::Grass => "GRASS"@,
        Block::Dirt => "DIRT"@,
        Block::Stone => "STONE"@,
        Block::Deepslate => "DEEPSLATE"@,
        Block::DeepDark => "DEEP DARK"@,
        Block::CustomA => "CUSTOM A"@,
        Block::CustomB => "CUSTOM B"@,
        Block::CustomC => "CUSTOM C"@,
    }
}

pub open spec fn spec_block_short_code(block: Block) -> Seq<char> {
    match block {
        Block::Air => "AR"@,
        Block::Water => "WA"@,
        Block::Grass => "GR"@,
        Block::Dirt => "DI"@,
        Block::Stone => "ST"@,
        Block::Deepslate => "DS"@,
        Block::DeepDark => "DD"@,
        Block::CustomA => "CA"@,
        Block::CustomB => "CB"@,
        Block::CustomC => "CC"@,
    }
}

/// Reading back a stored id gives the block that was stored.
pub proof fn lemma_block_id_round_trip(block: Block)
    ensures
        spec_block_from_id(spec_block_id(block)) == block,
{
}

/// Every id that names a block is the stored id of that block.
pub proof fn lemma_block_from_id_round_trip(id: u8)
    requires
        id < BLOCK_COUNT,
    ensures
        spec_block_id(spec_block_from_id(id)) == id,
{
}

impl VoxelIds for Block {
    open spec fn spec_id_is_solid(id: u8) -> bool {
        spec_is_solid(spec_block_from_id(id))
    }

    fn id_is_solid(id: u8) -> (b: bool) {
        Block::from_id(id).is_solid()
    }
}

/// A whole-block position.
#[derive(Clone, Copy, Debug, PartialEq, Eq, Hash, Structural)]
pub struct BlockPos {
    pub x: i64,
    pub y: i32,
    pub z: i64,
}

/// A sub-block: one of the `divisions`³ cells of the block at `(x, y, z)`.
#[derive(Clone, Copy, Debug, PartialEq, Eq, Hash, Structural)]
pub struct SubBlockPos {
    pub x: i64,
    pub y: i32,
    pub z: i64,
    pub divisions: u8,
    pub sx: u8,
    pub sy: u8,
    pub sz: u8,
}

/// Biome kinds of the terrain generator.
#[derive(Clone, Copy, Debug, PartialEq, Eq, Structural)]
pub enum BiomeKind {
    Ocean,
    Meadow,
    Valley,
    Mountain,
    Desert,
    Forest,
}

pub open spec fn spec_biome_index(kind: BiomeKind) -> usize {
    match kind {
        BiomeKind::Ocean => 0,
        BiomeKind::Meadow => 1,
        BiomeKind::Valley => 2,
        BiomeKind::Mountain => 3,
        BiomeKind::Desert => 4,
        BiomeKind::Forest => 5,
    }
}

pub fn biome_index(kind: BiomeKind) -> (i: usize)
    ensures
        i == spec_biome_index(kind),
{
    match kind {
        BiomeKind::Ocean => 0,
        BiomeKind::Meadow => 1,
        BiomeKind::Valley => 2,
        BiomeKind::Mountain => 3,
        BiomeKind::Desert => 4,
        BiomeKind::Forest => 5,
    }
}

/// The biome with a given index; any index without a biome reads as meadow.
pub fn biome_from_index(index: usize) -> (kind: BiomeKind)
    ensures
        index < 6 ==> spec_biome_index(kind) == index,
        index >= 6 ==> kind == BiomeKind::Meadow,
{
    match index {
        0 => BiomeKind::Ocean,
        2 => BiomeKind::Valley,
        3 => BiomeKind::Mountain,
        4 => BiomeKind::Desert,
        5 => BiomeKind::Forest,
        _ => BiomeKind::Meadow,
    }
}

/// Sub-blocks split a block into thirds or sixths along each axis.
pub open spec fn spec_valid_sub_coords(divisions: u8, sx: u8, sy: u8, sz: u8) -> bool {
    (divisions == 3 || divisions == 6) && sx < divisions && sy < divisions && sz < divisions
}

pub fn valid_sub_coords(divisions: u8, sx: u8, sy: u8, sz: u8) -> (b: bool)
    ensures
        b == spec_valid_sub_coords(divisions, sx, sy, sz),
{
    (divisions == 3 || divisions == 6) && sx < divisions && sy < divisions && sz < divisions
}

/// Floor of `value / divisor`.
pub open spec fn spec_floor_div(value: int, divisor: int) -> int {
    if divisor > 0 {
        value / divisor
    } else {
        (-value) / (-divisor)
    }
}

/// `ceil(m / d)` for a positive divisor, written as a floor division.
proof fn lemma_ceil_by_floor(v: int, d: int)
    requires
        d > 0,
        v < 0,
    ensures
        (-v + d - 1) / d == -(v / d),
{
    let q = v / d;
    let r = v % d;
    vstd::arithmetic::div_mod::lemma_fundamental_div_mod(v, d);
    assert(-v + d - 1 == (-q) * d + (d - 1 - r)) by (nonlinear_arith)
        requires
            v == d * q + r,
    ;
    vstd::arithmetic::div_mod::lemma_fundamental_div_mod_converse(-v + d - 1, d, -q, d - 1 - r);
}

/// Division rounding toward negative infinity.
pub fn div_floor(value: i64, divisor: i64) -> (q: i64)
    requires
        divisor != 0,
        !(value == i64::MIN && divisor == -1),
    ensures
        q == spec_floor_div(value as int, divisor as int),
{
    let v = value as i128;
    let d = divisor as i128;
    let vm: u128 = if v < 0 {
        (-v) as u128
    } else {
        v as u128
    };
    let dm: u128 = if d < 0 {
        (-d) as u128
    } else {
        d as u128
    };
    if v == 0 || (v < 0) == (d < 0) {
        let q = vm / dm;
        proof {
            if d < 0 {
                assert(vm == -v);
            }
            if dm >= 2 {
                vstd::arithmetic::div_mod::lemma_div_is_ordered_by_denominator(vm as int, 2, dm as int);
            }
            assert(q <= i64::MAX);
            assert(q == spec_floor_div(value as int, divisor as int));
        }
        q as i64
    } else {
        let q = (vm + dm - 1) / dm;
        proof {
            if d > 0 {
                assert(vm == -v && dm == d);
                lemma_ceil_by_floor(v as int, d as int);
                assert(q == -(spec_floor_div(value as int, divisor as int)));
            } else {
                assert(vm == v && dm == -d);
                lemma_ceil_by_floor(-v, -d);
                assert(q == -(spec_floor_div(value as int, divisor as int)));
            }
            let x = (vm + dm - 1) as int;
            assert(x <= vm * dm) by (nonlinear_arith)
                requires
                    x == vm + dm - 1,
                    vm >= 1,
                    dm >= 1,
            ;
            vstd::arithmetic::div_mod::lemma_div_is_ordered(x, vm * dm, dm as int);
            vstd::arithmetic::div_mod::lemma_div_by_multiple(vm as int, dm as int);
            assert(q <= vm);
        }
        -(q as i128) as i64
    }
}

/// The chunk column holding world column `(x, z)`.
pub fn world_to_chunk(x: i64, z: i64) -> (chunk: (i64, i64))
    ensures
        chunk.0 == spec_floor_div(x as int, CHUNK_SIZE as int),
        chunk.1 == spec_floor_div(z as int, CHUNK_SIZE as int),
{
    (div_floor(x, CHUNK_SIZE), div_floor(z, CHUNK_SIZE))
}

/// True when `y` lies inside the world's vertical range.
pub open spec fn spec_contains_world_y(y: int) -> bool {
    WORLD_MIN_Y <= y <= WORLD_MAX_Y
}

pub fn contains_world_y(y: i32) -> (b: bool)
    ensures
        b == spec_contains_world_y(y as int),
{
    WORLD_MIN_Y <= y && y <= WORLD_MAX_Y
}

/// The bedrock-free crust: deep dark below layer -128, deepslate below 0,
/// stone above.
pub open spec fn spec_crust_block_for_y(y: int) -> Block {
    if y < -128 {
        Block::DeepDark
    } else if y < 0 {
        Block::Deepslate
    } else {
        Block::Stone
    }
}

pub fn crust_block_for_y(y: i32) -> (b: Block)
    ensures
        b == spec_crust_block_for_y(y as int),
{
    if y < -128 {
        Block::DeepDark
    } else if y < 0 {
        Block::Deepslate
    } else {
        Block::Stone
    }
}

/// Light a block gives off; no block type emits light.
pub open spec fn spec_block_light_emission(block: Block) -> u8 {
    0
}

pub fn block_light_emission(block: Block) -> (e: u8)
    ensures
        e == spec_block_light_emission(block),
{
    match block {
        Block::Air | Block::Water | Block::Grass | Block::Dirt | Block::Stone | Block::Deepslate
        | Block::DeepDark | Block::CustomA | Block::CustomB | Block::CustomC => 0,
    }
}

/// Lowest layer of the lit band.
pub open spec fn band_lo(min_y: int, y_extent: int) -> int {
    if min_y < y_extent - 1 {
        min_y
    } else {
        y_extent - 1
    }
}

/// Highest layer of the lit band: `max_y` clamped into the volume, and never
/// below the lowest layer of the band.
pub open spec fn band_hi(min_y: int, max_y: int, y_extent: int) -> int {
    let top = if max_y < y_extent - 1 {
        max_y
    } else {
        y_extent - 1
    };
    if top < band_lo(min_y, y_extent) {
        band_lo(min_y, y_extent)
    } else {
        top
    }
}

/// Light of voxel `(x, y, z)` of the volume built by `build_light_volume`.
pub open spec fn volume_light(ids: Seq<u8>, xz: int, y_extent: int, min_y: int, max_y: int, x: int, y: int, z: int) -> u8 {
    let stride = xz * xz;
    let i = cell(stride, y, z * xz + x);
    if spec_is_solid(spec_block_from_id(ids[i])) {
        0
    } else if y_extent == 0 || y < band_lo(min_y, y_extent) || y > band_hi(min_y, max_y, y_extent) {
        FULL_LIGHT
    } else {
        column_light::<Block>(ids, stride, z * xz + x, band_lo(min_y, y_extent), band_hi(min_y, max_y, y_extent), y)
    }
}

/// Builds the light volume of a block-id grid laid out layer by layer
/// (`index = y * xz_extent² + z * xz_extent + x`).  Solid voxels get no light.
/// Open voxels of the layers `min_y..=max_y` (clamped into the volume) get
/// skylight from their column; open voxels elsewhere get full light.
pub fn build_light_volume(block_ids: &[u8], xz_extent: usize, y_extent: usize, min_y: usize, max_y: usize) -> (light: Vec<u8>)
    requires
        xz_extent * xz_extent <= usize::MAX,
        y_extent == 0 || (band_hi(min_y as int, max_y as int, y_extent as int) + 1) * (xz_extent * xz_extent)
            <= block_ids@.len(),
    ensures
        light@.len() == block_ids@.len(),
        forall|i: int|
            0 <= i < block_ids@.len() && spec_is_solid(spec_block_from_id(#[trigger] block_ids@[i])) ==> light@[i] == 0,
        forall|i: int|
            0 <= i < block_ids@.len() && !spec_is_solid(spec_block_from_id(block_ids@[i])) && (y_extent == 0
                || i < band_lo(min_y as int, y_extent as int) * (xz_extent * xz_extent)
                || i >= (band_hi(min_y as int, max_y as int, y_extent as int) + 1) * (xz_extent * xz_extent))
                ==> #[trigger] light@[i] == FULL_LIGHT,
        forall|x: int, y: int, z: int|
            0 <= x < xz_extent && 0 <= z < xz_extent && 0 <= y && y < y_extent
                && band_lo(min_y as int, y_extent as int) <= y <= band_hi(min_y as int, max_y as int, y_extent as int)
                ==> #[trigger] light@[cell(xz_extent * xz_extent, y, z * xz_extent + x)]
                == volume_light(block_ids@, xz_extent as int, y_extent as int, min_y as int, max_y as int, x, y, z),
{
    let n = block_ids.len();
    let layer_stride = xz_extent * xz_extent;
    let mut light_levels: Vec<u8> = Vec::new();
    let mut i: usize = 0;
    while i < n
        invariant
            n == block_ids@.len(),
            i <= n,
            light_levels@.len() == i,
            forall|j: int|
                0 <= j < i ==> #[trigger] light_levels@[j] == if spec_is_solid(spec_block_from_id(block_ids@[j])) {
                    0u8
                } else {
                    FULL_LIGHT
                },
        decreases n - i,
    {
        if Block::from_id(block_ids[i]).is_solid() {
            light_levels.push(0);
        } else {
            light_levels.push(FULL_LIGHT);
        }
        i = i + 1;
    }

    if y_extent == 0 {
        return light_levels;
    }

    let band_min = if min_y < y_extent - 1 {
        min_y
    } else {
        y_extent - 1
    };
    let clamped_max = if max_y < y_extent - 1 {
        max_y
    } else {
        y_extent - 1
    };
    let band_max = if clamped_max < band_min {
        band_min
    } else {
        clamped_max
    };
    let ghost base = light_levels@;
    fill_sky_columns::<Block>(block_ids, &mut light_levels, layer_stride, band_min, band_max);
    let ghost sky = light_levels@;

    proof {
        let stride = layer_stride as int;
        assert forall|x: int, y: int, z: int|
            0 <= x < xz_extent && 0 <= z < xz_extent && 0 <= y && y < y_extent
                && band_lo(min_y as int, y_extent as int) <= y <= band_hi(min_y as int, max_y as int, y_extent as int)
                implies #[trigger] light_levels@[cell(stride, y, z * xz_extent + x)]
                == volume_light(block_ids@, xz_extent as int, y_extent as int, min_y as int, max_y as int, x, y, z) by {
            lemma_column_in_layer(xz_extent as int, x, z);
            lemma_cell_bounds(stride, y, z * xz_extent + x, band_min as int, band_max as int);
        }
    }
    light_levels
}

/// Light at `(x, y, z)`; positions outside the volume are fully lit.
pub fn sample_light(light_levels: &[u8], xz_extent: usize, y_extent: usize, x: usize, y: usize, z: usize) -> (level: u8)
    requires
        xz_extent * xz_extent <= usize::MAX,
        xz_extent * xz_extent * y_extent <= light_levels@.len(),
    ensures
        x >= xz_extent || z >= xz_extent || y >= y_extent ==> level == FULL_LIGHT,
        x < xz_extent && z < xz_extent && y < y_extent ==> level == light_levels@[cell(
            xz_extent * xz_extent,
            y as int,
            z * xz_extent + x,
        )],
{
    if x >= xz_extent || z >= xz_extent {
        return FULL_LIGHT;
    }
    if y >= y_extent {
        return FULL_LIGHT;
    }
    let n = light_levels.len();
    let layer_stride = xz_extent * xz_extent;
    proof {
        lemma_column_in_layer(xz_extent as int, x as int, z as int);
        lemma_cell_bounds(layer_stride as int, y as int, (z * xz_extent + x) as int, 0, (y_extent - 1) as int);
        assert(((y_extent - 1) + 1) * layer_stride == layer_stride * y_extent) by (nonlinear_arith);
    }
    light_levels[y * layer_stride + z * xz_extent + x]
}

} // verus!

verus! {

/// In the light volume, an open voxel of the lit band lying under a solid
/// voxel `t` of its column, with nothing solid above `t` in the band, gets
/// full light less its depth `t + 1 - y` below it (none left from depth 15
/// on); an open voxel of the band with nothing solid at or above it gets
/// full light.
pub proof fn lemma_volume_light_under_roof(
    ids: Seq<u8>,
    xz: int,
    y_extent: int,
    min_y: int,
    max_y: int,
    x: int,
    y: int,
    z: int,
    t: int,
)
    requires
        y_extent > 0,
        0 <= x < xz,
        0 <= z < xz,
        band_lo(min_y, y_extent) <= y <= t <= band_hi(min_y, max_y, y_extent),
        !spec_is_solid(spec_block_from_id(ids[cell(xz * xz, y, z * xz + x)])),
        spec_is_solid(spec_block_from_id(ids[cell(xz * xz, t, z * xz + x)])),
        forall|u: int|
            t < u <= band_hi(min_y, max_y, y_extent) ==> !spec_is_solid(
                spec_block_from_id(#[trigger] ids[cell(xz * xz, u, z * xz + x)]),
            ),
    ensures
        t + 1 - y < 256 ==> volume_light(ids, xz, y_extent, min_y, max_y, x, y, z) as int == 15 - if t + 1 - y < 15 {
            t + 1 - y
        } else {
            15
        },
{
    crate::game::skylight::lemma_light_below_roof::<Block>(
        ids,
        xz * xz,
        z * xz + x,
        band_lo(min_y, y_extent),
        band_hi(min_y, max_y, y_extent),
        y,
        t,
    );
}

/// In the light volume, an open voxel of the lit band with nothing solid at
/// or above it in its column's band gets full light.
pub proof fn lemma_volume_light_open_sky(
    ids: Seq<u8>,
    xz: int,
    y_extent: int,
    min_y: int,
    max_y: int,
    x: int,
    y: int,
    z: int,
)
    requires
        y_extent > 0,
        0 <= x < xz,
        0 <= z < xz,
        band_lo(min_y, y_extent) <= y <= band_hi(min_y, max_y, y_extent),
        forall|u: int|
            y <= u <= band_hi(min_y, max_y, y_extent) ==> !spec_is_solid(
                spec_block_from_id(#[trigger] ids[cell(xz * xz, u, z * xz + x)]),
            ),
    ensures
        volume_light(ids, xz, y_extent, min_y, max_y, x, y, z) == 15,
{
    crate::game::skylight::lemma_light_open_sky::<Block>(
        ids,
        xz * xz,
        z * xz + x,
        band_lo(min_y, y_extent),
        band_hi(min_y, max_y, y_extent),
        y,
    );
}

} // verus!
