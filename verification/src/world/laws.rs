//! What holds of every generated chunk, block by block.

use vstd::prelude::*;
use crate::float_bits::{abs_of, f64_lt, law_bit_patterns_order_numbers};
use crate::world::chunk_gen::{forest_over, grows, is_generated, leafy, shape_of, site_in, site_of, source_of, terrain_cell, tree_over, tree_samples, SavedChunk, TreeSite, TREE_CANDIDATES};
use crate::world::grid::{cell_x, cell_z, chunk_of, layer_of, local_of, BlockPosition, ChunkPosition, BLOCKS_PER_CHUNK};
use crate::world::terrain::{climate_biome, hollow, noise_seeds_of, ore_rolled, surface_of, terrain_block, BiomeIds, ColumnSample, Ore, TerrainBiome, TerrainBlocks};

verus! {

/// Whether a block is rock of the depth below zero: deepslate, or an ore in it
/// that occurs there.
pub open spec fn deep_rock(b: TerrainBlocks, y: int, block: u16) -> bool {
    ||| block == b.deepslate
    ||| block == b.deepslate_diamond_ore
    ||| block == b.deepslate_redstone_ore
    ||| block == b.deepslate_gold_ore
    ||| block == b.deepslate_lapis_ore && y >= -32
    ||| block == b.deepslate_iron_ore
    ||| block == b.deepslate_coal_ore
}

/// Whether a block is rock of the height from zero on: stone, or an ore in it
/// that occurs there.
pub open spec fn high_rock(b: TerrainBlocks, y: int, block: u16) -> bool {
    ||| block == b.stone
    ||| block == b.diamond_ore && y < 16
    ||| block == b.redstone_ore && y < 16
    ||| block == b.gold_ore && y < 32
    ||| block == b.lapis_ore && y <= 32
    ||| block == b.iron_ore && y < 72
    ||| block == b.copper_ore && y <= 96
    ||| block == b.coal_ore
}

/// Whether a block is leaves of one of the trees.
pub open spec fn is_leaves(b: TerrainBlocks, block: u16) -> bool {
    block == b.oak_leaves || block == b.spruce_leaves || block == b.acacia_leaves
}

/// Whether a block is the trunk of one of the trees.
pub open spec fn is_log(b: TerrainBlocks, block: u16) -> bool {
    block == b.oak_log || block == b.spruce_log || block == b.acacia_log
}

/// Up to the surface of a column trees change nothing but air, into leaves,
/// and nothing at all up to the height of 50.
proof fn lemma_forest_on_the_ground(
    b: TerrainBlocks,
    position: ChunkPosition,
    seed: i64,
    columns: Seq<ColumnSample>,
    trees: Seq<ColumnSample>,
    n: nat,
    i: int,
    bare: u16,
)
    requires
        0 <= i < BLOCKS_PER_CHUNK,
        n <= TREE_CANDIDATES,
        layer_of(i) <= surface_of(columns[i % 256]),
    ensures
        ({
            let block = forest_over(
                b,
                position,
                seed,
                tree_samples(position, seed, columns, trees),
                n,
                cell_x(position, i),
                layer_of(i),
                cell_z(position, i),
                bare,
            );
            block == bare || (bare == b.air && is_leaves(b, block) && layer_of(i) > 50)
        }),
    decreases n,
{
    if n > 0 {
        lemma_forest_on_the_ground(
            b,
            position,
            seed,
            columns,
            trees,
            (n - 1) as nat,
            i,
            bare,
        );
        let site = site_of(position, seed, n - 1);
        let sample = tree_samples(position, seed, columns, trees)[n - 1];
        lemma_own_column(position, i);
        if site.x == cell_x(position, i) && site.z == cell_z(position, i) {
            assert(sample == columns[i % 256]);
        }
    }
}

proof fn lemma_own_column(position: ChunkPosition, i: int)
    requires
        0 <= i < BLOCKS_PER_CHUNK,
    ensures
        chunk_of(cell_x(position, i)) == position.x,
        chunk_of(cell_z(position, i)) == position.z,
        local_of(cell_z(position, i)) * 16 + local_of(cell_x(position, i)) == i % 256,
{
    let x = i % 16;
    let z = (i / 16) % 16;
    assert((position.x * 16 + x) / 16 == position.x && (position.x * 16 + x) % 16 == x);
    assert((position.z * 16 + z) / 16 == position.z && (position.z * 16 + z) % 16 == z);
    assert(i % 256 == z * 16 + x);
}

/// Above the surface of a column there is what the terrain has there, or a
/// tree.
proof fn lemma_forest_above_the_ground(
    b: TerrainBlocks,
    position: ChunkPosition,
    seed: i64,
    samples: Seq<ColumnSample>,
    n: nat,
    x: int,
    y: int,
    z: int,
    bare: u16,
)
    ensures
        ({
            let block = forest_over(b, position, seed, samples, n, x, y, z, bare);
            block == bare || is_log(b, block) || is_leaves(b, block)
        }),
    decreases n,
{
    if n > 0 {
        lemma_forest_above_the_ground(b, position, seed, samples, (n - 1) as nat, x, y, z, bare);
    }
}

proof fn lemma_cell(x: int, y: int, z: int)
    requires
        0 <= x < 16,
        0 <= z < 16,
        -64 <= y <= 319,
    ensures
        ({
            let i = (y + 64) * 256 + z * 16 + x;
            &&& 0 <= i < BLOCKS_PER_CHUNK
            &&& layer_of(i) == y
            &&& i % 256 == z * 16 + x
            &&& i % 16 == x
            &&& (i / 16) % 16 == z
        }),
{
    let i = (y + 64) * 256 + z * 16 + x;
    assert(i / 256 == y + 64);
    assert(i / 16 == (y + 64) * 16 + z);
}

/// More than three blocks below its surface, and above the layers of bedrock, a
/// column is rock wherever no cave is. The rock is deepslate below zero and
/// stone from there on, or an ore in the rock of that depth; each ore keeps to
/// its heights. A cave holds air, or above 50 the leaves of a tree that grows
/// beside it, and stays five blocks below the surface.
pub proof fn law_rock_of_each_depth(
    r: SavedChunk,
    b: TerrainBlocks,
    ids: BiomeIds,
    position: ChunkPosition,
    seed: i64,
    columns: Seq<ColumnSample>,
    caves: Seq<bool>,
    trees: Seq<ColumnSample>,
    x: int,
    y: int,
    z: int,
)
    requires
        is_generated(r, b, ids, position, seed, columns, caves, trees),
        0 <= x < 16,
        0 <= z < 16,
        -59 <= y < r.surface_y@[z * 16 + x] - 3,
        b.stone != b.air,
        b.coal_ore != b.air && b.copper_ore != b.air && b.iron_ore != b.air,
        b.gold_ore != b.air && b.lapis_ore != b.air,
    ensures
        ({
            let block = r.blocks@[(y + 64) * 256 + z * 16 + x];
            let cave = caves[(y + 64) * 256 + z * 16 + x] && -59 < y < r.surface_y@[z * 16 + x] - 5;
            &&& !cave && y < 0 ==> deep_rock(b, y, block)
            &&& !cave && y >= 0 ==> high_rock(b, y, block)
            &&& cave && y <= 50 ==> block == b.air
            &&& cave && y > 50 ==> block == b.air || is_leaves(b, block)
        }),
{
    let i = (y + 64) * 256 + z * 16 + x;
    lemma_cell(x, y, z);
    let bare = terrain_cell(b, position, seed, columns, caves, i);
    assert(r.surface_y@[i % 256] == surface_of(columns[i % 256]));
    lemma_forest_on_the_ground(
        b,
        position,
        seed,
        columns,
        trees,
        TREE_CANDIDATES as nat,
        i,
        bare,
    );
    assert(r.blocks@[i] == forest_over(
        b,
        position,
        seed,
        tree_samples(position, seed, columns, trees),
        TREE_CANDIDATES as nat,
        cell_x(position, i),
        layer_of(i),
        cell_z(position, i),
        bare,
    ));
}

/// The lowest layer is bedrock, the four above it are bedrock or the rock of
/// the depth.
pub proof fn law_chunks_rest_on_bedrock(
    r: SavedChunk,
    b: TerrainBlocks,
    ids: BiomeIds,
    position: ChunkPosition,
    seed: i64,
    columns: Seq<ColumnSample>,
    caves: Seq<bool>,
    trees: Seq<ColumnSample>,
    x: int,
    y: int,
    z: int,
)
    requires
        is_generated(r, b, ids, position, seed, columns, caves, trees),
        0 <= x < 16,
        0 <= z < 16,
        -64 <= y < -59,
    ensures
        y == -64 ==> r.blocks@[(y + 64) * 256 + z * 16 + x] == b.bedrock,
        r.blocks@[(y + 64) * 256 + z * 16 + x] == b.bedrock || deep_rock(
            b,
            y,
            r.blocks@[(y + 64) * 256 + z * 16 + x],
        ),
{
    let i = (y + 64) * 256 + z * 16 + x;
    lemma_cell(x, y, z);
    let bare = terrain_cell(b, position, seed, columns, caves, i);
    lemma_forest_on_the_ground(
        b,
        position,
        seed,
        columns,
        trees,
        TREE_CANDIDATES as nat,
        i,
        bare,
    );
    assert(r.blocks@[i] == forest_over(
        b,
        position,
        seed,
        tree_samples(position, seed, columns, trees),
        TREE_CANDIDATES as nat,
        cell_x(position, i),
        layer_of(i),
        cell_z(position, i),
        bare,
    ));
}

/// The surface of a desert is sand, with two more blocks of sand and one of
/// sandstone below; elsewhere it is grass with three blocks of dirt below.
/// Nothing is on it but trees, and snow where it is snowy.
pub proof fn law_layers_of_the_ground(
    r: SavedChunk,
    b: TerrainBlocks,
    ids: BiomeIds,
    position: ChunkPosition,
    seed: i64,
    columns: Seq<ColumnSample>,
    caves: Seq<bool>,
    trees: Seq<ColumnSample>,
    x: int,
    y: int,
    z: int,
)
    requires
        is_generated(r, b, ids, position, seed, columns, caves, trees),
        0 <= x < 16,
        0 <= z < 16,
        r.surface_y@[z * 16 + x] - 3 <= y <= 319,
        b.sand != b.air && b.sandstone != b.air && b.grass != b.air && b.dirt != b.air,
    ensures
        ({
            let block = r.blocks@[(y + 64) * 256 + z * 16 + x];
            let surface = r.surface_y@[z * 16 + x] as int;
            let desert = columns[z * 16 + x].biome == TerrainBiome::Desert;
            let snowy = columns[z * 16 + x].biome == TerrainBiome::SnowyPlains;
            &&& y == surface ==> block == (if desert {
                b.sand
            } else {
                b.grass
            })
            &&& desert && surface - 2 <= y < surface ==> block == b.sand
            &&& desert && y == surface - 3 ==> block == b.sandstone
            &&& !desert && surface - 3 <= y < surface ==> block == b.dirt
            &&& snowy && y == surface + 1 ==> block == b.snow || is_log(b, block) || is_leaves(
                b,
                block,
            )
            &&& y > surface && !(snowy && y == surface + 1) ==> block == b.air || is_log(b, block)
                || is_leaves(b, block)
        }),
{
    let i = (y + 64) * 256 + z * 16 + x;
    let c = z * 16 + x;
    assert(r.surface_y@[c] == surface_of(columns[c]));
    lemma_cell(x, y, z);
    let bare = terrain_cell(b, position, seed, columns, caves, i);
    assert(r.blocks@[i] == forest_over(
        b,
        position,
        seed,
        tree_samples(position, seed, columns, trees),
        TREE_CANDIDATES as nat,
        cell_x(position, i),
        layer_of(i),
        cell_z(position, i),
        bare,
    ));
    if y <= surface_of(columns[c]) {
        lemma_forest_on_the_ground(
            b,
            position,
            seed,
            columns,
            trees,
            TREE_CANDIDATES as nat,
            i,
            bare,
        );
    } else {
        lemma_forest_above_the_ground(
            b,
            position,
            seed,
            tree_samples(position, seed, columns, trees),
            TREE_CANDIDATES as nat,
            cell_x(position, i),
            layer_of(i),
            cell_z(position, i),
            bare,
        );
    }
}

/// A generated chunk keeps of each column what was sampled there: the number of
/// the biome, the temperature, and the surface, limited to 48 to 110.
pub proof fn law_columns_keep_their_samples(
    r: SavedChunk,
    b: TerrainBlocks,
    ids: BiomeIds,
    position: ChunkPosition,
    seed: i64,
    columns: Seq<ColumnSample>,
    caves: Seq<bool>,
    trees: Seq<ColumnSample>,
    c: int,
)
    requires
        is_generated(r, b, ids, position, seed, columns, caves, trees),
        0 <= c < 256,
    ensures
        columns[c].biome == TerrainBiome::SnowyPlains ==> r.biomes@[c] == ids.snowy_plains,
        columns[c].biome == TerrainBiome::Taiga ==> r.biomes@[c] == ids.taiga,
        columns[c].biome == TerrainBiome::Forest ==> r.biomes@[c] == ids.forest,
        columns[c].biome == TerrainBiome::Plains ==> r.biomes@[c] == ids.plains,
        columns[c].biome == TerrainBiome::Savanna ==> r.biomes@[c] == ids.savanna,
        columns[c].biome == TerrainBiome::Desert ==> r.biomes@[c] == ids.desert,
        r.temperatures@[c] == columns[c].temperature,
        48 <= columns[c].surface <= 110 ==> r.surface_y@[c] == columns[c].surface,
        columns[c].surface < 48 ==> r.surface_y@[c] == 48,
        columns[c].surface > 110 ==> r.surface_y@[c] == 110,
{
}

/// Which ore a roll of ten thousand gives in each band of heights. The rarer an
/// ore is, the fewer rolls give it.
pub proof fn law_ores_by_height_and_roll(y: int, roll: int)
    requires
        0 <= roll < 10_000,
    ensures
        roll >= 235 ==> ore_rolled(y, roll) is None,
        y < 16 && roll < 10 ==> ore_rolled(y, roll) == Some(Ore::Diamond),
        y < 16 && 10 <= roll < 32 ==> ore_rolled(y, roll) == Some(Ore::Redstone),
        y < 16 && 32 <= roll < 48 ==> ore_rolled(y, roll) == Some(Ore::Gold),
        16 <= y < 32 && roll < 48 ==> ore_rolled(y, roll) == Some(Ore::Gold),
        y < -32 && 48 <= roll < 125 ==> ore_rolled(y, roll) == Some(Ore::Iron),
        -32 <= y < 32 && 48 <= roll < 68 ==> ore_rolled(y, roll) == Some(Ore::Lapis),
        y == 32 && roll < 68 ==> ore_rolled(y, roll) == Some(Ore::Lapis),
        -32 <= y <= 32 && 68 <= roll < 125 ==> ore_rolled(y, roll) == Some(Ore::Iron),
        32 < y < 72 && roll < 125 ==> ore_rolled(y, roll) == Some(Ore::Iron),
        y < 0 && 125 <= roll < 235 ==> ore_rolled(y, roll) == Some(Ore::Coal),
        0 <= y < 72 && 125 <= roll < 165 ==> ore_rolled(y, roll) == Some(Ore::Copper),
        72 <= y <= 96 && roll < 165 ==> ore_rolled(y, roll) == Some(Ore::Copper),
        0 <= y <= 96 && 165 <= roll < 235 ==> ore_rolled(y, roll) == Some(Ore::Coal),
        96 < y < 128 && roll < 235 ==> ore_rolled(y, roll) == Some(Ore::Coal),
        y >= 128 ==> ore_rolled(y, roll) is None,
{
}

/// Which ore a column has at a position is decided by the roll there and not by
/// the cave, and the same ore shows in the rock of the depth.
pub proof fn law_ores_take_the_rock_of_their_depth(
    b: TerrainBlocks,
    seed: i64,
    column: ColumnSample,
    x: i32,
    y: i32,
    z: i32,
)
    requires
        -59 <= y < surface_of(column) - 3,
    ensures
        ({
            let roll = crate::world::terrain::position_hash(seed, x, y, z) % 10_000;
            let block = terrain_block(b, seed, column, false, x, y, z);
            &&& roll >= 235 && y < 0 ==> block == b.deepslate
            &&& roll >= 235 && y >= 0 ==> block == b.stone
            &&& roll < 10 && y < 0 ==> block == b.deepslate_diamond_ore
            &&& roll < 10 && 0 <= y < 16 ==> block == b.diamond_ore
            &&& 10 <= roll < 32 && y < 0 ==> block == b.deepslate_redstone_ore
            &&& 10 <= roll < 32 && 0 <= y < 16 ==> block == b.redstone_ore
            &&& 32 <= roll < 48 && y < 0 ==> block == b.deepslate_gold_ore
            &&& 32 <= roll < 48 && 0 <= y < 32 ==> block == b.gold_ore
            &&& 48 <= roll < 68 && -32 <= y < 0 ==> block == b.deepslate_lapis_ore
            &&& 48 <= roll < 68 && 0 <= y < 32 ==> block == b.lapis_ore
            &&& 68 <= roll < 125 && y < 0 ==> block == b.deepslate_iron_ore
            &&& 68 <= roll < 125 && 0 <= y < 72 ==> block == b.iron_ore
            &&& 125 <= roll < 165 && 0 <= y <= 96 ==> block == b.copper_ore
            &&& 165 <= roll < 235 && y < 0 ==> block == b.deepslate_coal_ore
            &&& 165 <= roll < 235 && y >= 0 ==> block == b.coal_ore
        }),
{
}

/// Cold places are taiga or, where it is dry, snowy plains; hot ones savanna or,
/// where it is dry, desert; between, the moist places are forest and the others
/// plains. Cold ends at 0.18, heat starts above 1.0, dry places have at most
/// 0.05 of moisture, and forests more than 0.18.
pub proof fn law_climate_makes_the_biome(temperature: u64, moisture: u64)
    ensures
        ({
            let cold = f64_lt(temperature, 0x3fc7_0a3d_70a3_d70a);
            let hot = f64_lt(0x3ff0_0000_0000_0000, temperature);
            let biome = climate_biome(temperature, moisture);
            &&& cold ==> (biome == TerrainBiome::Taiga <==> f64_lt(0x3fa9_9999_9999_999a, moisture))
            &&& cold ==> biome == TerrainBiome::Taiga || biome == TerrainBiome::SnowyPlains
            &&& !cold && hot ==> (biome == TerrainBiome::Desert <==> f64_lt(
                moisture,
                0x3fa9_9999_9999_999a,
            ))
            &&& !cold && hot ==> biome == TerrainBiome::Desert || biome == TerrainBiome::Savanna
            &&& !cold && !hot ==> (biome == TerrainBiome::Forest <==> f64_lt(
                0x3fc7_0a3d_70a3_d70a,
                moisture,
            ))
            &&& !cold && !hot ==> biome == TerrainBiome::Forest || biome == TerrainBiome::Plains
        }),
{
}

/// A block is hollow where the cave noise is further from zero than 0.64, or
/// further than 0.48 with the tunnel noise nearer to zero than 0.09. The sign of
/// either does not count.
pub proof fn law_where_caves_are(cave: u64, tunnel: u64)
    requires
        cave % 0x8000_0000_0000_0000 <= 0x7ff0_0000_0000_0000,
        tunnel % 0x8000_0000_0000_0000 <= 0x7ff0_0000_0000_0000,
    ensures
        hollow(cave, tunnel) <==> cave % 0x8000_0000_0000_0000 > 0x3fe4_7ae1_47ae_147b || (cave
            % 0x8000_0000_0000_0000 > 0x3fde_b851_eb85_1eb8 && tunnel % 0x8000_0000_0000_0000
            < 0x3fb7_0a3d_70a3_d70a),
        hollow(cave, tunnel) == hollow(cave % 0x8000_0000_0000_0000, tunnel),
        hollow(cave, tunnel) == hollow(cave, tunnel % 0x8000_0000_0000_0000),
{
    law_bit_patterns_order_numbers(0x3fe4_7ae1_47ae_147b, abs_of(cave));
    law_bit_patterns_order_numbers(0x3fde_b851_eb85_1eb8, abs_of(cave));
    law_bit_patterns_order_numbers(abs_of(tunnel), 0x3fb7_0a3d_70a3_d70a);
}

/// Trees grow the more often the more wooded a biome is: seldom in the snow and
/// on plains, mostly in forests, never in a desert.
pub proof fn law_wooded_biomes_have_more_trees(site: TreeSite)
    ensures
        !grows(site, TerrainBiome::Desert),
        grows(site, TerrainBiome::SnowyPlains) ==> grows(site, TerrainBiome::Plains),
        grows(site, TerrainBiome::Plains) ==> grows(site, TerrainBiome::Savanna),
        grows(site, TerrainBiome::Savanna) ==> grows(site, TerrainBiome::Taiga),
        grows(site, TerrainBiome::Taiga) ==> grows(site, TerrainBiome::Forest),
        grows(site, TerrainBiome::SnowyPlains) <==> (site.hash / 65536) % 100 < 5,
        grows(site, TerrainBiome::Plains) <==> (site.hash / 65536) % 100 < 12,
        grows(site, TerrainBiome::Savanna) <==> (site.hash / 65536) % 100 < 28,
        grows(site, TerrainBiome::Taiga) <==> (site.hash / 65536) % 100 < 58,
        grows(site, TerrainBiome::Forest) <==> (site.hash / 65536) % 100 < 72,
{
}

/// A tree candidate of a chunk stands in that chunk, at the place that the low
/// bits of its hash give.
pub proof fn law_tree_sites_lie_in_their_chunk(source: ChunkPosition, seed: i64, number: int)
    requires
        -0x7ff_ffff <= source.x <= 0x7ff_fffe,
        -0x7ff_ffff <= source.z <= 0x7ff_fffe,
    ensures
        ({
            let site = site_in(source, seed, number);
            &&& site.x as int / 16 == source.x && site.z as int / 16 == source.z
            &&& site.x as int % 16 == site.hash as int % 16
            &&& site.z as int % 16 == (site.hash as int / 256) % 16
        }),
{
}

/// Spruces grow in the cold, acacias in the savanna, oaks elsewhere. A spruce is
/// six to eight blocks high, an acacia five or six, an oak five to seven.
pub proof fn law_trees_of_each_biome(b: TerrainBlocks, biome: TerrainBiome, hash: u64)
    ensures
        ({
            let shape = shape_of(b, biome, hash);
            let cold = biome == TerrainBiome::Taiga || biome == TerrainBiome::SnowyPlains;
            let savanna = biome == TerrainBiome::Savanna;
            &&& cold ==> shape.log == b.spruce_log && shape.leaves == b.spruce_leaves && 6
                <= shape.height <= 8 && (shape.height - 6) % 3 == hash as int % 3
            &&& savanna ==> shape.log == b.acacia_log && shape.leaves == b.acacia_leaves && 5
                <= shape.height <= 6 && (shape.height - 5) % 2 == hash as int % 2
            &&& !cold && !savanna ==> shape.log == b.oak_log && shape.leaves == b.oak_leaves && 5
                <= shape.height <= 7 && (shape.height - 5) % 3 == hash as int % 3
        }),
{
}

/// The canopy of a tree is four layers high and looks the same from all sides.
/// It reaches two blocks, in the uppermost layer one, and only its corners may
/// be missing.
pub proof fn law_canopies_are_symmetric(hash: u64, dx: int, dy: int, dz: int)
    ensures
        leafy(hash, dx, dy, dz) == leafy(hash, -dx, dy, dz),
        leafy(hash, dx, dy, dz) == leafy(hash, dz, dy, dx),
        leafy(hash, dx, dy, dz) ==> 0 <= dy <= 3 && -2 <= dx <= 2 && -2 <= dz <= 2,
        leafy(hash, dx, 3, dz) ==> -1 <= dx <= 1 && -1 <= dz <= 1,
        0 <= dy <= 2 && -2 <= dx <= 2 && -1 <= dz <= 1 ==> leafy(hash, dx, dy, dz),
        -1 <= dx <= 1 ==> leafy(hash, dx, 3, 0),
        0 <= dy <= 2 ==> (leafy(hash, 2, dy, 2) <==> hash.wrapping_add(dy as u64) % 3 != 0),
        leafy(hash, 1, 3, 1) <==> hash.wrapping_add(3) % 3 != 0,
{
}

/// A tree has its trunk from its foot to its height, one layer of leaves over
/// it, and leaves in the three layers below that, where nothing else is; below
/// and above there is nothing of it.
pub proof fn law_trunk_and_canopy(
    b: TerrainBlocks,
    origin: BlockPosition,
    biome: TerrainBiome,
    hash: u64,
    x: int,
    y: int,
    z: int,
    before: u16,
)
    requires
        b.oak_log != b.air && b.spruce_log != b.air && b.acacia_log != b.air,
    ensures
        ({
            let shape = shape_of(b, biome, hash);
            let block = tree_over(b, origin, biome, hash, x, y, z, before);
            let trunk = x == origin.x && z == origin.z && origin.y <= y < origin.y + shape.height;
            &&& trunk ==> block == shape.log
            &&& !trunk && before != b.air ==> block == before
            &&& y < origin.y || y > origin.y + shape.height ==> block == before
            &&& !trunk && y < origin.y + shape.height - 3 ==> block == before
            &&& x == origin.x && z == origin.z && y == origin.y + shape.height && before == b.air
                ==> block == shape.leaves
            &&& !trunk && before == b.air && origin.y + shape.height - 3 <= y < origin.y
                + shape.height && -2 <= x - origin.x <= 2 && -1 <= z - origin.z <= 1 ==> block
                == shape.leaves
            &&& x - origin.x > 2 || origin.x - x > 2 || z - origin.z > 2 || origin.z - z > 2
                ==> block == before
        }),
{
    law_canopies_are_symmetric(
        hash,
        x - origin.x,
        y - (origin.y + shape_of(b, biome, hash).height - 3),
        z - origin.z,
    );
}

/// Taiga lies three blocks above the base level, forest two, savanna one; the
/// plains lie on it, and deserts one below.
pub proof fn law_levels_of_the_biomes()
    ensures
        TerrainBiome::Taiga.spec_surface_offset() == 3,
        TerrainBiome::Forest.spec_surface_offset() == 2,
        TerrainBiome::Savanna.spec_surface_offset() == 1,
        TerrainBiome::Plains.spec_surface_offset() == 0,
        TerrainBiome::SnowyPlains.spec_surface_offset() == 0,
        TerrainBiome::Desert.spec_surface_offset() == -1,
{
}

/// The noise fields have five different seeds, each a fixed step from the low 32
/// bits of the seed of the world.
pub proof fn law_noise_fields_differ(seed: i64)
    ensures
        ({
            let s = noise_seeds_of(seed);
            let low = seed as u32;
            &&& s.terrain == low
            &&& (s.temperature - low - 0x51f2) % 0x1_0000_0000 == 0
            &&& (s.moisture - low - 0xa913) % 0x1_0000_0000 == 0
            &&& (s.cave - low - 0x37c1) % 0x1_0000_0000 == 0
            &&& (s.tunnel - low - 0x8d21) % 0x1_0000_0000 == 0
        }),
{
}

/// A tree in the chunk itself stands on the column at its place.
pub proof fn law_trees_stand_on_their_column(
    position: ChunkPosition,
    seed: i64,
    columns: Seq<ColumnSample>,
    trees: Seq<ColumnSample>,
    k: int,
)
    requires
        0 <= k < 36,
    ensures
        ({
            let site = site_of(position, seed, k);
            let inside = site.x as int / 16 == position.x && site.z as int / 16 == position.z;
            let sample = tree_samples(position, seed, columns, trees)[k];
            &&& inside ==> sample == columns[(site.z as int % 16) * 16 + site.x as int % 16]
            &&& !inside ==> sample == trees[k]
        }),
{
}

/// The nine chunks that trees reach a chunk from are the chunk and those round
/// it, with four candidates in each.
pub proof fn law_trees_come_from_nine_chunks(chunk: ChunkPosition, dx: int, dz: int, number: int)
    requires
        -0x7ff_ffff <= chunk.x <= 0x7ff_fffe,
        -0x7ff_ffff <= chunk.z <= 0x7ff_fffe,
        -1 <= dx <= 1,
        -1 <= dz <= 1,
        0 <= number < 4,
    ensures
        ({
            let k = (dz + 1) * 12 + (dx + 1) * 4 + number;
            let source = ChunkPosition { x: (chunk.x + dx) as i32, z: (chunk.z + dz) as i32 };
            &&& 0 <= k < 36
            &&& source_of(chunk, k) == source
        }),
{
    let k = (dz + 1) * 12 + (dx + 1) * 4 + number;
    assert(k / 12 == dz + 1);
    assert(k / 4 == (dz + 1) * 3 + (dx + 1));
    assert((k / 4) % 3 == dx + 1);
}

/// Where a tree grows, the block over the surface is its trunk, or that of
/// another tree on the same column.
proof fn lemma_trunk_stays(
    b: TerrainBlocks,
    position: ChunkPosition,
    seed: i64,
    samples: Seq<ColumnSample>,
    k: nat,
    n: nat,
    x: int,
    y: int,
    z: int,
    bare: u16,
)
    requires
        k < n,
        b.oak_log != b.air && b.spruce_log != b.air && b.acacia_log != b.air,
        grows(site_of(position, seed, k as int), samples[k as int].biome),
        x == site_of(position, seed, k as int).x,
        z == site_of(position, seed, k as int).z,
        y == surface_of(samples[k as int]) + 1,
    ensures
        is_log(b, forest_over(b, position, seed, samples, n, x, y, z, bare)),
    decreases n,
{
    if k + 1 < n {
        lemma_trunk_stays(b, position, seed, samples, k, (n - 1) as nat, x, y, z, bare);
    }
}

/// Every tree that grows in a chunk stands right on the surface of its column.
pub proof fn law_trees_stand_on_the_surface(
    r: SavedChunk,
    b: TerrainBlocks,
    ids: BiomeIds,
    position: ChunkPosition,
    seed: i64,
    columns: Seq<ColumnSample>,
    caves: Seq<bool>,
    trees: Seq<ColumnSample>,
    k: int,
)
    requires
        is_generated(r, b, ids, position, seed, columns, caves, trees),
        0 <= k < 36,
        b.oak_log != b.air && b.spruce_log != b.air && b.acacia_log != b.air,
        ({
            let site = site_of(position, seed, k);
            let c = (site.z as int % 16) * 16 + site.x as int % 16;
            &&& site.x as int / 16 == position.x && site.z as int / 16 == position.z
            &&& grows(site, columns[c].biome)
        }),
    ensures
        ({
            let site = site_of(position, seed, k);
            let (x, z) = (site.x as int % 16, site.z as int % 16);
            is_log(b, r.blocks@[(r.surface_y@[z * 16 + x] + 1 + 64) * 256 + z * 16 + x])
        }),
{
    let site = site_of(position, seed, k);
    let (x, z) = (site.x as int % 16, site.z as int % 16);
    let c = z * 16 + x;
    assert(r.surface_y@[c] == surface_of(columns[c]));
    let y = r.surface_y@[c] + 1;
    let i = (y + 64) * 256 + z * 16 + x;
    lemma_cell(x, y, z);
    law_trees_stand_on_their_column(position, seed, columns, trees, k);
    let samples = tree_samples(position, seed, columns, trees);
    let bare = terrain_cell(b, position, seed, columns, caves, i);
    assert(cell_x(position, i) == site.x);
    assert(cell_z(position, i) == site.z);
    lemma_trunk_stays(b, position, seed, samples, k as nat, 36, site.x as int, y, site.z as int, bare);
    assert(r.blocks@[i] == forest_over(b, position, seed, samples, 36, site.x as int, y, site.z as int, bare));
}

} // verus!
