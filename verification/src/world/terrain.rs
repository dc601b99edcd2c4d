//! The rules of the terrain: climate and biomes, ores and layers.

use vstd::prelude::*;
use crate::float_bits::{abs, abs_of, f64_lt, lt};
use crate::world::grid::MIN_Y;

verus! {

#[derive(Clone, Copy, Debug, PartialEq, Eq, Structural)]
pub enum TerrainBiome {
    SnowyPlains,
    Taiga,
    Forest,
    Plains,
    Savanna,
    Desert,
}

/// The numbers that the biomes have on the wire.
#[derive(Clone, Copy, Debug, PartialEq, Eq, Structural)]
pub struct BiomeIds {
    pub snowy_plains: u8,
    pub taiga: u8,
    pub forest: u8,
    pub plains: u8,
    pub savanna: u8,
    pub desert: u8,
}

impl TerrainBiome {
    pub open spec fn spec_protocol_id(self, ids: BiomeIds) -> u8 {
        match self {
            TerrainBiome::SnowyPlains => ids.snowy_plains,
            TerrainBiome::Taiga => ids.taiga,
            TerrainBiome::Forest => ids.forest,
            TerrainBiome::Plains => ids.plains,
            TerrainBiome::Savanna => ids.savanna,
            TerrainBiome::Desert => ids.desert,
        }
    }

    pub fn protocol_id(self, ids: &BiomeIds) -> (r: u8)
        ensures
            r == self.spec_protocol_id(*ids),
    {
        match self {
            TerrainBiome::SnowyPlains => ids.snowy_plains,
            TerrainBiome::Taiga => ids.taiga,
            TerrainBiome::Forest => ids.forest,
            TerrainBiome::Plains => ids.plains,
            TerrainBiome::Savanna => ids.savanna,
            TerrainBiome::Desert => ids.desert,
        }
    }

    /// How many of a hundred tree candidates grow.
    pub open spec fn spec_tree_density(self) -> u64 {
        match self {
            TerrainBiome::Forest => 72,
            TerrainBiome::Taiga => 58,
            TerrainBiome::Plains => 12,
            TerrainBiome::Savanna => 28,
            TerrainBiome::SnowyPlains => 5,
            TerrainBiome::Desert => 0,
        }
    }

    pub fn tree_density(self) -> (r: u64)
        ensures
            r == self.spec_tree_density(),
    {
        match self {
            TerrainBiome::Forest => 72,
            TerrainBiome::Taiga => 58,
            TerrainBiome::Plains => 12,
            TerrainBiome::Savanna => 28,
            TerrainBiome::SnowyPlains => 5,
            TerrainBiome::Desert => 0,
        }
    }

    /// How many blocks the biome lies above the base level.
    pub open spec fn spec_surface_offset(self) -> int {
        match self {
            TerrainBiome::Taiga => 3,
            TerrainBiome::Forest => 2,
            TerrainBiome::Savanna => 1,
            TerrainBiome::Desert => -1,
            TerrainBiome::SnowyPlains | TerrainBiome::Plains => 0,
        }
    }

    pub fn surface_offset(self) -> (r: i32)
        ensures
            r == self.spec_surface_offset(),
    {
        match self {
            TerrainBiome::Taiga => 3,
            TerrainBiome::Forest => 2,
            TerrainBiome::Savanna => 1,
            TerrainBiome::Desert => -1,
            TerrainBiome::SnowyPlains | TerrainBiome::Plains => 0,
        }
    }
}

/// 0.18
pub const COLD_BELOW: u64 = 0x3fc7_0a3d_70a3_d70a;

/// 1.0
pub const HOT_ABOVE: u64 = 0x3ff0_0000_0000_0000;

/// 0.05
pub const DRY_BORDER: u64 = 0x3fa9_9999_9999_999a;

/// 0.18
pub const WOODED_ABOVE: u64 = 0x3fc7_0a3d_70a3_d70a;

/// The biome of a place, from the bit patterns of its temperature and its
/// moisture.
pub open spec fn climate_biome(temperature: u64, moisture: u64) -> TerrainBiome {
    if f64_lt(temperature, COLD_BELOW) {
        if f64_lt(DRY_BORDER, moisture) {
            TerrainBiome::Taiga
        } else {
            TerrainBiome::SnowyPlains
        }
    } else if f64_lt(HOT_ABOVE, temperature) {
        if f64_lt(moisture, DRY_BORDER) {
            TerrainBiome::Desert
        } else {
            TerrainBiome::Savanna
        }
    } else if f64_lt(WOODED_ABOVE, moisture) {
        TerrainBiome::Forest
    } else {
        TerrainBiome::Plains
    }
}

pub fn climate_at(temperature: u64, moisture: u64) -> (r: TerrainBiome)
    ensures
        r == climate_biome(temperature, moisture),
{
    if lt(temperature, COLD_BELOW) {
        if lt(DRY_BORDER, moisture) {
            TerrainBiome::Taiga
        } else {
            TerrainBiome::SnowyPlains
        }
    } else if lt(HOT_ABOVE, temperature) {
        if lt(moisture, DRY_BORDER) {
            TerrainBiome::Desert
        } else {
            TerrainBiome::Savanna
        }
    } else if lt(WOODED_ABOVE, moisture) {
        TerrainBiome::Forest
    } else {
        TerrainBiome::Plains
    }
}

/// 0.64
pub const CAVERN_ABOVE: u64 = 0x3fe4_7ae1_47ae_147b;

/// 0.48
pub const TUNNEL_ABOVE: u64 = 0x3fde_b851_eb85_1eb8;

/// 0.09
pub const TUNNEL_BELOW: u64 = 0x3fb7_0a3d_70a3_d70a;

/// Whether the two cave noises, given as bit patterns, hollow a block out.
pub open spec fn hollow(cave: u64, tunnel: u64) -> bool {
    f64_lt(CAVERN_ABOVE, abs_of(cave)) || (f64_lt(TUNNEL_ABOVE, abs_of(cave)) && f64_lt(
        abs_of(tunnel),
        TUNNEL_BELOW,
    ))
}

pub fn is_hollow(cave: u64, tunnel: u64) -> (r: bool)
    ensures
        r == hollow(cave, tunnel),
{
    lt(CAVERN_ABOVE, abs(cave)) || (lt(TUNNEL_ABOVE, abs(cave)) && lt(abs(tunnel), TUNNEL_BELOW))
}

/// The seeds of the noise fields.
#[derive(Clone, Copy, Debug, PartialEq, Eq, Structural)]
pub struct NoiseSeeds {
    pub terrain: u32,
    pub temperature: u32,
    pub moisture: u32,
    pub cave: u32,
    pub tunnel: u32,
}

pub open spec fn noise_seeds_of(seed: i64) -> NoiseSeeds {
    NoiseSeeds {
        terrain: seed as u32,
        temperature: (seed as u32).wrapping_add(0x51f2),
        moisture: (seed as u32).wrapping_add(0xa913),
        cave: (seed as u32).wrapping_add(0x37c1),
        tunnel: (seed as u32).wrapping_add(0x8d21),
    }
}

pub fn noise_seeds(seed: i64) -> (r: NoiseSeeds)
    ensures
        r == noise_seeds_of(seed),
{
    NoiseSeeds {
        terrain: seed as u32,
        temperature: (seed as u32).wrapping_add(0x51f2),
        moisture: (seed as u32).wrapping_add(0xa913),
        cave: (seed as u32).wrapping_add(0x37c1),
        tunnel: (seed as u32).wrapping_add(0x8d21),
    }
}

/// The climate anchor at or below a coordinate, and how far behind it the
/// coordinate lies.
pub fn climate_anchor(coordinate: i32, anchor_size: i32) -> (r: (i32, i32))
    requires
        anchor_size > 0,
    ensures
        r.0 == coordinate as int / anchor_size as int,
        r.1 == coordinate as int % anchor_size as int,
        0 <= r.1 < anchor_size,
{
    let size: i64 = anchor_size as i64;
    let c: i64 = coordinate as i64;
    if c >= 0 {
        let q: i64 = c / size;
        let m: i64 = c % size;
        assert(0 <= q <= c) by (nonlinear_arith)
            requires
                c >= 0,
                size >= 1,
                q == c as int / size as int,
        ;
        (q as i32, m as i32)
    } else {
        let back: i64 = -c - 1;
        let q: i64 = back / size;
        let m: i64 = back % size;
        proof {
            vstd::arithmetic::div_mod::lemma_fundamental_div_mod(back as int, size as int);
            assert(0 <= q <= back) by (nonlinear_arith)
                requires
                    back >= 0,
                    size >= 1,
                    q == back as int / size as int,
            ;
            assert(c as int == (-q - 1) * size + (size - 1 - m)) by (nonlinear_arith)
                requires
                    c == -back - 1,
                    back as int == size as int * q + m,
            ;
            vstd::arithmetic::div_mod::lemma_fundamental_div_mod_converse(
                c as int,
                size as int,
                -q - 1,
                size - 1 - m,
            );
        }
        ((-q - 1) as i32, (size - 1 - m) as i32)
    }
}

/// A hash of a position that looks random: the coordinates are spread by large
/// odd factors and mixed with the seed, then stirred twice.
pub open spec fn position_hash(seed: i64, x: i32, y: i32, z: i32) -> u64 {
    let mixed = (seed as u64) ^ ((x as i64) as u64).wrapping_mul(0x9e3779b185ebca87) ^ ((
    y as i64) as u64).wrapping_mul(0xc2b2ae3d27d4eb4f) ^ ((z as i64) as u64).wrapping_mul(
        0x165667b19e3779f9,
    );
    let once = (mixed ^ (mixed >> 30)).wrapping_mul(0xbf58476d1ce4e5b9);
    let twice = (once ^ (once >> 27)).wrapping_mul(0x94d049bb133111eb);
    twice ^ (twice >> 31)
}

pub fn coordinate_hash(seed: i64, x: i32, y: i32, z: i32) -> (r: u64)
    ensures
        r == position_hash(seed, x, y, z),
{
    let mut value: u64 = (seed as u64) ^ ((x as i64) as u64).wrapping_mul(0x9e3779b185ebca87) ^ ((
    y as i64) as u64).wrapping_mul(0xc2b2ae3d27d4eb4f) ^ ((z as i64) as u64).wrapping_mul(
        0x165667b19e3779f9,
    );
    value = value ^ (value >> 30);
    value = value.wrapping_mul(0xbf58476d1ce4e5b9);
    value = value ^ (value >> 27);
    value = value.wrapping_mul(0x94d049bb133111eb);
    value ^ (value >> 31)
}

/// The block states that terrain is made of.
#[derive(Clone, Copy, Debug, PartialEq, Eq, Structural)]
pub struct TerrainBlocks {
    pub air: u16,
    pub bedrock: u16,
    pub stone: u16,
    pub deepslate: u16,
    pub dirt: u16,
    pub grass: u16,
    pub sand: u16,
    pub sandstone: u16,
    pub snow: u16,
    pub diamond_ore: u16,
    pub redstone_ore: u16,
    pub gold_ore: u16,
    pub lapis_ore: u16,
    pub iron_ore: u16,
    pub copper_ore: u16,
    pub coal_ore: u16,
    pub deepslate_diamond_ore: u16,
    pub deepslate_redstone_ore: u16,
    pub deepslate_gold_ore: u16,
    pub deepslate_lapis_ore: u16,
    pub deepslate_iron_ore: u16,
    pub deepslate_copper_ore: u16,
    pub deepslate_coal_ore: u16,
    pub spruce_log: u16,
    pub spruce_leaves: u16,
    pub acacia_log: u16,
    pub acacia_leaves: u16,
    pub oak_log: u16,
    pub oak_leaves: u16,
}

impl TerrainBlocks {
    /// The ground is something else than air.
    pub open spec fn wf(&self) -> bool {
        self.sand != self.air && self.grass != self.air
    }
}

#[derive(Clone, Copy, Debug, PartialEq, Eq, Structural)]
pub enum Ore {
    Diamond,
    Redstone,
    Gold,
    Lapis,
    Iron,
    Copper,
    Coal,
}

/// The ore at a height, by a roll of ten thousand. Each ore has its range of
/// heights; the rarer ones take the lower rolls.
pub open spec fn ore_rolled(y: int, roll: int) -> Option<Ore> {
    if y < 16 && roll < 10 {
        Some(Ore::Diamond)
    } else if y < 16 && roll < 32 {
        Some(Ore::Redstone)
    } else if y < 32 && roll < 48 {
        Some(Ore::Gold)
    } else if -32 <= y <= 32 && roll < 68 {
        Some(Ore::Lapis)
    } else if y < 72 && roll < 125 {
        Some(Ore::Iron)
    } else if 0 <= y <= 96 && roll < 165 {
        Some(Ore::Copper)
    } else if y < 128 && roll < 235 {
        Some(Ore::Coal)
    } else {
        None
    }
}

/// The block state of an ore, below zero in deepslate.
pub open spec fn ore_block(b: TerrainBlocks, ore: Ore, deep: bool) -> u16 {
    match ore {
        Ore::Diamond => if deep {
            b.deepslate_diamond_ore
        } else {
            b.diamond_ore
        },
        Ore::Redstone => if deep {
            b.deepslate_redstone_ore
        } else {
            b.redstone_ore
        },
        Ore::Gold => if deep {
            b.deepslate_gold_ore
        } else {
            b.gold_ore
        },
        Ore::Lapis => if deep {
            b.deepslate_lapis_ore
        } else {
            b.lapis_ore
        },
        Ore::Iron => if deep {
            b.deepslate_iron_ore
        } else {
            b.iron_ore
        },
        Ore::Copper => if deep {
            b.deepslate_copper_ore
        } else {
            b.copper_ore
        },
        Ore::Coal => if deep {
            b.deepslate_coal_ore
        } else {
            b.coal_ore
        },
    }
}

/// The rock at a position: an ore by the position's hash, else the base.
pub open spec fn rock_at(b: TerrainBlocks, seed: i64, x: i32, y: i32, z: i32, base: u16) -> u16 {
    match ore_rolled(y as int, (position_hash(seed, x, y, z) % 10_000) as int) {
        Some(ore) => ore_block(b, ore, y < 0),
        None => base,
    }
}

pub fn ore_state(
    blocks: &TerrainBlocks,
    seed: i64,
    world_x: i32,
    y: i32,
    world_z: i32,
    base_state: u16,
) -> (r: u16)
    ensures
        r == rock_at(*blocks, seed, world_x, y, world_z, base_state),
{
    let roll: u64 = coordinate_hash(seed, world_x, y, world_z) % 10_000;
    let deep = y < 0;
    if y < 16 && roll < 10 {
        if deep {
            blocks.deepslate_diamond_ore
        } else {
            blocks.diamond_ore
        }
    } else if y < 16 && roll < 32 {
        if deep {
            blocks.deepslate_redstone_ore
        } else {
            blocks.redstone_ore
        }
    } else if y < 32 && roll < 48 {
        if deep {
            blocks.deepslate_gold_ore
        } else {
            blocks.gold_ore
        }
    } else if -32 <= y && y <= 32 && roll < 68 {
        if deep {
            blocks.deepslate_lapis_ore
        } else {
            blocks.lapis_ore
        }
    } else if y < 72 && roll < 125 {
        if deep {
            blocks.deepslate_iron_ore
        } else {
            blocks.iron_ore
        }
    } else if 0 <= y && y <= 96 && roll < 165 {
        if deep {
            blocks.deepslate_copper_ore
        } else {
            blocks.copper_ore
        }
    } else if y < 128 && roll < 235 {
        if deep {
            blocks.deepslate_coal_ore
        } else {
            blocks.coal_ore
        }
    } else {
        base_state
    }
}

/// What the noise fields say of one column.
#[derive(Clone, Copy, Debug, PartialEq, Eq, Structural)]
pub struct ColumnSample {
    pub biome: TerrainBiome,
    /// Thousandths of the temperature.
    pub temperature: i16,
    /// The height of the surface before it is limited.
    pub surface: i32,
}

/// The height of the surface, between 48 and 110.
pub open spec fn surface_of(column: ColumnSample) -> i32 {
    if column.surface < 48 {
        48
    } else if column.surface > 110 {
        110
    } else {
        column.surface
    }
}

pub fn surface_height(column: &ColumnSample) -> (r: i32)
    ensures
        r == surface_of(*column),
        48 <= r <= 110,
{
    if column.surface < 48 {
        48
    } else if column.surface > 110 {
        110
    } else {
        column.surface
    }
}

/// The block of a column at a height: bedrock at the bottom, then rock with
/// ores and caves, three blocks of ground, the surface, and snow on it where
/// the biome is snowy.
pub open spec fn terrain_block(
    b: TerrainBlocks,
    seed: i64,
    column: ColumnSample,
    hollow: bool,
    x: i32,
    y: i32,
    z: i32,
) -> u16 {
    let surface = surface_of(column);
    let desert = column.biome == TerrainBiome::Desert;
    if y > surface {
        if y == surface + 1 && column.biome == TerrainBiome::SnowyPlains {
            b.snow
        } else {
            b.air
        }
    } else if y == MIN_Y || (y < MIN_Y + 5 && position_hash(seed, x, y, z) % 5 == 0) {
        b.bedrock
    } else if y == surface {
        if desert {
            b.sand
        } else {
            b.grass
        }
    } else if y >= surface - 3 {
        if !desert {
            b.dirt
        } else if y == surface - 3 {
            b.sandstone
        } else {
            b.sand
        }
    } else if MIN_Y + 5 < y < surface - 5 && hollow {
        b.air
    } else {
        rock_at(
            b,
            seed,
            x,
            y,
            z,
            if y < 0 {
                b.deepslate
            } else {
                b.stone
            },
        )
    }
}

/// The block of a column at a height of at most the surface.
pub fn ground_block(
    blocks: &TerrainBlocks,
    seed: i64,
    column: &ColumnSample,
    hollow: bool,
    x: i32,
    y: i32,
    z: i32,
) -> (r: u16)
    requires
        MIN_Y <= y <= surface_of(*column),
    ensures
        r == terrain_block(*blocks, seed, *column, hollow, x, y, z),
{
    let surface: i32 = surface_height(column);
    let desert = match column.biome {
        TerrainBiome::Desert => true,
        _ => false,
    };
    if y == MIN_Y || (y < MIN_Y + 5 && coordinate_hash(seed, x, y, z) % 5 == 0) {
        blocks.bedrock
    } else if y == surface {
        if desert {
            blocks.sand
        } else {
            blocks.grass
        }
    } else if y >= surface - 3 {
        if !desert {
            blocks.dirt
        } else if y == surface - 3 {
            blocks.sandstone
        } else {
            blocks.sand
        }
    } else if y > MIN_Y + 5 && y < surface - 5 && hollow {
        blocks.air
    } else {
        let base: u16 = if y < 0 {
            blocks.deepslate
        } else {
            blocks.stone
        };
        ore_state(blocks, seed, x, y, z, base)
    }
}

} // verus!
