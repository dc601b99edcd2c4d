//! Generated chunks: columns of terrain with trees that reach across borders.

use vstd::prelude::*;
use crate::world::grid::{block_index, cell_x, cell_z, chunk_coord, chunk_in_world, chunk_of, column_index, index_of, layer_of, law_indices_and_positions_agree, local_coord, local_of, local_x_of, local_z_of, BlockPosition, ChunkPosition, BLOCKS_PER_CHUNK, MAX_Y, MIN_Y};
use crate::world::terrain::{coordinate_hash, ground_block, position_hash, surface_height, surface_of, terrain_block, BiomeIds, ColumnSample, TerrainBiome, TerrainBlocks};

verus! {

pub const CHUNK_FORMAT_VERSION: u8 = 1;

/// A chunk as it is stored.
#[derive(Clone, Debug)]
pub struct SavedChunk {
    pub format_version: u8,
    /// Block states, layer by layer from the bottom.
    pub blocks: Vec<u16>,
    /// The biome of each column.
    pub biomes: Vec<u8>,
    /// The temperature of each column, in thousandths.
    pub temperatures: Vec<i16>,
    /// The height of the surface of each column.
    pub surface_y: Vec<i16>,
}

impl SavedChunk {
    /// Of the current format, with one entry for each block and each column.
    pub open spec fn wf(&self) -> bool {
        &&& self.format_version == CHUNK_FORMAT_VERSION
        &&& self.blocks@.len() == BLOCKS_PER_CHUNK
        &&& self.biomes@.len() == 256
        &&& self.temperatures@.len() == 256
        &&& self.surface_y@.len() == 256
    }

    /// The same but for the blocks.
    pub open spec fn same_columns(&self, other: &SavedChunk) -> bool {
        &&& self.format_version == other.format_version
        &&& self.biomes@ == other.biomes@
        &&& self.temperatures@ == other.temperatures@
        &&& self.surface_y@ == other.surface_y@
    }
}

/// Whether the block with this index is the one at the position.
pub open spec fn is_cell(chunk: ChunkPosition, i: int, p: BlockPosition) -> bool {
    cell_x(chunk, i) == p.x && layer_of(i) == p.y && cell_z(chunk, i) == p.z
}

/// Sets the block at a position of the world if it lies in the chunk: leaves
/// grow only into air.
fn set_tree_block(
    blocks: &mut Vec<u16>,
    target_chunk: ChunkPosition,
    position: BlockPosition,
    state: u16,
    replace_only_air: bool,
    air: u16,
)
    requires
        old(blocks)@.len() == BLOCKS_PER_CHUNK,
    ensures
        final(blocks)@.len() == BLOCKS_PER_CHUNK,
        forall|i: int|
            0 <= i < BLOCKS_PER_CHUNK ==> #[trigger] final(blocks)@[i] == (if is_cell(
                target_chunk,
                i,
                position,
            ) && (!replace_only_air || old(blocks)@[i] == air) {
                state
            } else {
                old(blocks)@[i]
            }),
{
    if chunk_coord(position.x) != target_chunk.x || chunk_coord(position.z) != target_chunk.z {
        return ;
    }
    let local_x: usize = local_coord(position.x);
    let local_z: usize = local_coord(position.z);
    match block_index(local_x, position.y, local_z) {
        None => {},
        Some(index) => {
            proof {
                law_indices_and_positions_agree(
                    local_x as int,
                    position.y as int,
                    local_z as int,
                    index as int,
                );
                assert forall|i: int| 0 <= i < BLOCKS_PER_CHUNK implies (is_cell(
                    target_chunk,
                    i,
                    position,
                ) <==> i == index) by {
                    law_indices_and_positions_agree(0, 0, 0, i);
                }
            }
            if !replace_only_air || blocks[index] == air {
                blocks.set(index, state);
            }
        },
    }
}

/// How a tree looks: what it is made of and how high it is.
#[derive(Clone, Copy, Debug, PartialEq, Eq, Structural)]
pub struct TreeShape {
    pub log: u16,
    pub leaves: u16,
    pub height: i32,
}

pub open spec fn shape_of(b: TerrainBlocks, biome: TerrainBiome, hash: u64) -> TreeShape {
    match biome {
        TerrainBiome::Taiga | TerrainBiome::SnowyPlains => TreeShape {
            log: b.spruce_log,
            leaves: b.spruce_leaves,
            height: (6 + hash % 3) as i32,
        },
        TerrainBiome::Savanna => TreeShape {
            log: b.acacia_log,
            leaves: b.acacia_leaves,
            height: (5 + hash % 2) as i32,
        },
        _ => TreeShape { log: b.oak_log, leaves: b.oak_leaves, height: (5 + hash % 3) as i32 },
    }
}

fn tree_shape(blocks: &TerrainBlocks, biome: TerrainBiome, hash: u64) -> (r: TreeShape)
    ensures
        r == shape_of(*blocks, biome, hash),
        5 <= r.height <= 8,
{
    match biome {
        TerrainBiome::Taiga | TerrainBiome::SnowyPlains => TreeShape {
            log: blocks.spruce_log,
            leaves: blocks.spruce_leaves,
            height: 6 + (hash % 3) as i32,
        },
        TerrainBiome::Savanna => TreeShape {
            log: blocks.acacia_log,
            leaves: blocks.acacia_leaves,
            height: 5 + (hash % 2) as i32,
        },
        _ => TreeShape {
            log: blocks.oak_log,
            leaves: blocks.oak_leaves,
            height: 5 + (hash % 3) as i32,
        },
    }
}

/// How far the leaves reach in a layer of the canopy.
pub open spec fn canopy_radius(dy: int) -> int {
    if dy == 3 {
        1
    } else {
        2
    }
}

/// Whether leaves belong at this offset from the trunk, `dy` layers above the
/// bottom of the canopy. Some layers have no corners.
pub open spec fn leafy(hash: u64, dx: int, dy: int, dz: int) -> bool {
    let r = canopy_radius(dy);
    &&& 0 <= dy <= 3
    &&& -r <= dx <= r
    &&& -r <= dz <= r
    &&& !((dx == r || dx == -r) && (dz == r || dz == -r) && hash.wrapping_add(dy as u64) % 3 == 0)
}

/// What a tree makes of the block at a position: log in the trunk, leaves
/// where the canopy meets air.
pub open spec fn tree_over(
    b: TerrainBlocks,
    origin: BlockPosition,
    biome: TerrainBiome,
    hash: u64,
    x: int,
    y: int,
    z: int,
    before: u16,
) -> u16 {
    let shape = shape_of(b, biome, hash);
    let with_trunk = if x == origin.x && z == origin.z && origin.y <= y < origin.y + shape.height {
        shape.log
    } else {
        before
    };
    if with_trunk == b.air && leafy(
        hash,
        x - origin.x,
        y - (origin.y + shape.height - 3),
        z - origin.z,
    ) {
        shape.leaves
    } else {
        with_trunk
    }
}

/// Where trees can be placed: all of their blocks have coordinates.
pub open spec fn tree_in_world(origin: BlockPosition) -> bool {
    &&& i32::MIN + 2 <= origin.x <= i32::MAX - 2
    &&& origin.y <= i32::MAX - 8
    &&& i32::MIN + 2 <= origin.z <= i32::MAX - 2
}

/// Whether an offset of the canopy comes before another in the order in which
/// the canopy is built.
spec fn earlier(x: int, y: int, z: int, dx: int, dy: int, dz: int) -> bool {
    y < dy || (y == dy && (x < dx || (x == dx && z < dz)))
}

/// The blocks while the canopy is built: everything in front of an offset is
/// done.
spec fn canopy_done(
    b: TerrainBlocks,
    target: ChunkPosition,
    origin: BlockPosition,
    base: int,
    hash: u64,
    leaves: u16,
    trunk: Seq<u16>,
    now: Seq<u16>,
    dx: int,
    dy: int,
    dz: int,
) -> bool {
    &&& trunk.len() == BLOCKS_PER_CHUNK
    &&& now.len() == BLOCKS_PER_CHUNK
    &&& forall|i: int|
        0 <= i < BLOCKS_PER_CHUNK ==> #[trigger] now[i] == (if trunk[i] == b.air && leafy(
            hash,
            cell_x(target, i) - origin.x,
            layer_of(i) - base,
            cell_z(target, i) - origin.z,
        ) && earlier(
            cell_x(target, i) - origin.x,
            layer_of(i) - base,
            cell_z(target, i) - origin.z,
            dx,
            dy,
            dz,
        ) {
            leaves
        } else {
            trunk[i]
        })
}

pub fn place_tree(
    chunk: &mut SavedChunk,
    blocks: &TerrainBlocks,
    target_chunk: ChunkPosition,
    origin: BlockPosition,
    biome: TerrainBiome,
    hash: u64,
)
    requires
        old(chunk).blocks@.len() == BLOCKS_PER_CHUNK,
        tree_in_world(origin),
    ensures
        final(chunk).same_columns(old(chunk)),
        final(chunk).blocks@.len() == BLOCKS_PER_CHUNK,
        forall|i: int|
            0 <= i < BLOCKS_PER_CHUNK ==> #[trigger] final(chunk).blocks@[i] == tree_over(
                *blocks,
                origin,
                biome,
                hash,
                cell_x(target_chunk, i),
                layer_of(i),
                cell_z(target_chunk, i),
                old(chunk).blocks@[i],
            ),
{
    let ghost start = chunk.blocks@;
    let shape = tree_shape(blocks, biome, hash);
    let ghost height = shape.height as int;
    let mut y: i32 = origin.y;
    while y < origin.y + shape.height
        invariant
            tree_in_world(origin),
            5 <= shape.height <= 8,
            origin.y <= y <= origin.y + shape.height,
            start.len() == BLOCKS_PER_CHUNK,
            chunk.blocks@.len() == BLOCKS_PER_CHUNK,
            chunk.same_columns(old(chunk)),
            forall|i: int|
                0 <= i < BLOCKS_PER_CHUNK ==> #[trigger] chunk.blocks@[i] == (if cell_x(
                    target_chunk,
                    i,
                ) == origin.x && cell_z(target_chunk, i) == origin.z && origin.y <= layer_of(i)
                    < y {
                    shape.log
                } else {
                    start[i]
                }),
        decreases origin.y + shape.height - y,
    {
        set_tree_block(
            &mut chunk.blocks,
            target_chunk,
            BlockPosition { x: origin.x, y, z: origin.z },
            shape.log,
            false,
            blocks.air,
        );
        y += 1;
    }
    let ghost trunk = chunk.blocks@;
    let canopy_base: i32 = origin.y + shape.height - 3;
    let ghost base = canopy_base as int;
    let mut dy: i32 = 0;
    assert(canopy_done(
        *blocks,
        target_chunk,
        origin,
        base,
        hash,
        shape.leaves,
        trunk,
        chunk.blocks@,
        -2,
        0,
        -2,
    ));
    while dy <= 3
        invariant
            tree_in_world(origin),
            5 <= shape.height <= 8,
            0 <= dy <= 4,
            canopy_base == origin.y + shape.height - 3,
            base == canopy_base,
            chunk.same_columns(old(chunk)),
            chunk.blocks@.len() == BLOCKS_PER_CHUNK,
            canopy_done(
                *blocks,
                target_chunk,
                origin,
                base,
                hash,
                shape.leaves,
                trunk,
                chunk.blocks@,
                -2,
                dy as int,
                -2,
            ),
        decreases 4 - dy,
    {
        let radius: i32 = if dy == 3 {
            1
        } else {
            2
        };
        let corners = hash.wrapping_add(dy as u64) % 3 != 0;
        let mut dx: i32 = -radius;
        while dx <= radius
            invariant
                tree_in_world(origin),
                5 <= shape.height <= 8,
                0 <= dy <= 3,
                radius == canopy_radius(dy as int),
                corners == (hash.wrapping_add(dy as u64) % 3 != 0),
                -radius <= dx <= radius + 1,
                canopy_base == origin.y + shape.height - 3,
                base == canopy_base,
                chunk.same_columns(old(chunk)),
                chunk.blocks@.len() == BLOCKS_PER_CHUNK,
                canopy_done(
                    *blocks,
                    target_chunk,
                    origin,
                    base,
                    hash,
                    shape.leaves,
                    trunk,
                    chunk.blocks@,
                    dx as int,
                    dy as int,
                    -2,
                ),
            decreases radius + 1 - dx,
        {
            let mut dz: i32 = -radius;
            while dz <= radius
                invariant
                    tree_in_world(origin),
                    5 <= shape.height <= 8,
                    0 <= dy <= 3,
                    radius == canopy_radius(dy as int),
                    corners == (hash.wrapping_add(dy as u64) % 3 != 0),
                    -radius <= dx <= radius,
                    -radius <= dz <= radius + 1,
                    canopy_base == origin.y + shape.height - 3,
                    base == canopy_base,
                    chunk.same_columns(old(chunk)),
                    chunk.blocks@.len() == BLOCKS_PER_CHUNK,
                    canopy_done(
                        *blocks,
                        target_chunk,
                        origin,
                        base,
                        hash,
                        shape.leaves,
                        trunk,
                        chunk.blocks@,
                        dx as int,
                        dy as int,
                        dz as int,
                    ),
                decreases radius + 1 - dz,
            {
                let corner = (dx == radius || dx == -radius) && (dz == radius || dz == -radius);
                if corners || !corner {
                    set_tree_block(
                        &mut chunk.blocks,
                        target_chunk,
                        BlockPosition {
                            x: origin.x + dx,
                            y: canopy_base + dy,
                            z: origin.z + dz,
                        },
                        shape.leaves,
                        true,
                        blocks.air,
                    );
                }
                dz += 1;
            }
            dx += 1;
        }
        dy += 1;
    }
}

/// How many tree candidates can reach a chunk: four in each of the nine chunks
/// round it.
pub const TREE_CANDIDATES: usize = 36;

/// Where a tree may grow.
#[derive(Clone, Copy, Debug, PartialEq, Eq, Structural)]
pub struct TreeSite {
    pub x: i32,
    pub z: i32,
    pub hash: u64,
}

/// The chunk that a candidate belongs to.
pub open spec fn source_of(chunk: ChunkPosition, k: int) -> ChunkPosition {
    ChunkPosition { x: (chunk.x - 1 + (k / 4) % 3) as i32, z: (chunk.z - 1 + k / 12) as i32 }
}

/// The site of the candidate with the given number in a chunk. It depends on
/// nothing else, so every neighbour of that chunk finds the same site.
pub open spec fn site_in(source: ChunkPosition, seed: i64, number: int) -> TreeSite {
    let hash = position_hash(seed ^ 0x5452_4545, source.x, number as i32, source.z);
    TreeSite {
        x: (source.x * 16 + (hash % 16)) as i32,
        z: (source.z * 16 + (hash / 256) % 16) as i32,
        hash,
    }
}

pub open spec fn site_of(chunk: ChunkPosition, seed: i64, k: int) -> TreeSite {
    site_in(source_of(chunk, k), seed, k % 4)
}

/// The site of a tree candidate of a chunk.
pub fn tree_site(chunk: ChunkPosition, seed: i64, k: usize) -> (r: TreeSite)
    requires
        chunk_in_world(chunk),
        k < TREE_CANDIDATES,
    ensures
        r == site_of(chunk, seed, k as int),
        i32::MIN + 2 <= r.x <= i32::MAX - 2,
        i32::MIN + 2 <= r.z <= i32::MAX - 2,
{
    let source_x: i32 = chunk.x - 1 + ((k / 4) % 3) as i32;
    let source_z: i32 = chunk.z - 1 + (k / 12) as i32;
    let hash: u64 = coordinate_hash(seed ^ 0x5452_4545, source_x, (k % 4) as i32, source_z);
    TreeSite {
        x: source_x * 16 + (hash % 16) as i32,
        z: source_z * 16 + ((hash / 256) % 16) as i32,
        hash,
    }
}

/// Whether a tree grows at a site in the given biome.
pub open spec fn grows(site: TreeSite, biome: TerrainBiome) -> bool {
    (site.hash / 65536) % 100 < biome.spec_tree_density()
}

/// What the first `n` tree candidates make of the block at a position.
pub open spec fn forest_over(
    b: TerrainBlocks,
    chunk: ChunkPosition,
    seed: i64,
    samples: Seq<ColumnSample>,
    n: nat,
    x: int,
    y: int,
    z: int,
    before: u16,
) -> u16
    decreases n,
{
    if n == 0 {
        before
    } else {
        let earlier = forest_over(b, chunk, seed, samples, (n - 1) as nat, x, y, z, before);
        let site = site_of(chunk, seed, n - 1);
        let sample = samples[n - 1];
        if grows(site, sample.biome) {
            tree_over(
                b,
                BlockPosition { x: site.x, y: (surface_of(sample) + 1) as i32, z: site.z },
                sample.biome,
                site.hash,
                x,
                y,
                z,
                earlier,
            )
        } else {
            earlier
        }
    }
}

/// Plants the trees of the chunk and of its neighbours, as far as they reach
/// into it. `samples` holds the column at each candidate's site.
pub fn add_contextual_trees(
    chunk: &mut SavedChunk,
    blocks: &TerrainBlocks,
    position: ChunkPosition,
    seed: i64,
    samples: &Vec<ColumnSample>,
)
    requires
        old(chunk).blocks@.len() == BLOCKS_PER_CHUNK,
        chunk_in_world(position),
        samples@.len() == TREE_CANDIDATES,
    ensures
        final(chunk).same_columns(old(chunk)),
        final(chunk).blocks@.len() == BLOCKS_PER_CHUNK,
        forall|i: int|
            0 <= i < BLOCKS_PER_CHUNK ==> #[trigger] final(chunk).blocks@[i] == forest_over(
                *blocks,
                position,
                seed,
                samples@,
                TREE_CANDIDATES as nat,
                cell_x(position, i),
                layer_of(i),
                cell_z(position, i),
                old(chunk).blocks@[i],
            ),
{
    let ghost start = chunk.blocks@;
    let mut k: usize = 0;
    while k < TREE_CANDIDATES
        invariant
            k <= TREE_CANDIDATES,
            chunk_in_world(position),
            samples@.len() == TREE_CANDIDATES,
            chunk.same_columns(old(chunk)),
            chunk.blocks@.len() == BLOCKS_PER_CHUNK,
            start.len() == BLOCKS_PER_CHUNK,
            forall|i: int|
                0 <= i < BLOCKS_PER_CHUNK ==> #[trigger] chunk.blocks@[i] == forest_over(
                    *blocks,
                    position,
                    seed,
                    samples@,
                    k as nat,
                    cell_x(position, i),
                    layer_of(i),
                    cell_z(position, i),
                    start[i],
                ),
        decreases TREE_CANDIDATES - k,
    {
        let site = tree_site(position, seed, k);
        let sample = samples[k];
        let ghost before = chunk.blocks@;
        if (site.hash / 65536) % 100 < sample.biome.tree_density() {
            let surface: i32 = surface_height(&sample);
            place_tree(
                chunk,
                blocks,
                position,
                BlockPosition { x: site.x, y: surface + 1, z: site.z },
                sample.biome,
                site.hash,
            );
        }
        proof {
            assert forall|i: int| 0 <= i < BLOCKS_PER_CHUNK implies #[trigger] chunk.blocks@[i]
                == forest_over(
                *blocks,
                position,
                seed,
                samples@,
                (k + 1) as nat,
                cell_x(position, i),
                layer_of(i),
                cell_z(position, i),
                start[i],
            ) by {
                assert(before[i] == forest_over(
                    *blocks,
                    position,
                    seed,
                    samples@,
                    k as nat,
                    cell_x(position, i),
                    layer_of(i),
                    cell_z(position, i),
                    start[i],
                ));
            }
        }
        k += 1;
    }
}

/// The block of the bare terrain with the given index in its chunk.
pub open spec fn terrain_cell(
    b: TerrainBlocks,
    chunk: ChunkPosition,
    seed: i64,
    columns: Seq<ColumnSample>,
    hollow: Seq<bool>,
    i: int,
) -> u16 {
    terrain_block(
        b,
        seed,
        columns[i % 256],
        hollow[i],
        cell_x(chunk, i) as i32,
        layer_of(i) as i32,
        cell_z(chunk, i) as i32,
    )
}

/// Fills one column with terrain; above the surface it has to be air.
fn fill_column(
    out: &mut Vec<u16>,
    blocks: &TerrainBlocks,
    position: ChunkPosition,
    seed: i64,
    columns: &Vec<ColumnSample>,
    hollow: &Vec<bool>,
    local_x: usize,
    local_z: usize,
)
    requires
        old(out)@.len() == BLOCKS_PER_CHUNK,
        chunk_in_world(position),
        columns@.len() == 256,
        hollow@.len() == BLOCKS_PER_CHUNK,
        local_x < 16,
        local_z < 16,
        forall|i: int|
            0 <= i < BLOCKS_PER_CHUNK && i % 256 == local_z * 16 + local_x
                ==> #[trigger] old(out)@[i] == blocks.air,
    ensures
        final(out)@.len() == BLOCKS_PER_CHUNK,
        forall|i: int|
            0 <= i < BLOCKS_PER_CHUNK ==> #[trigger] final(out)@[i] == (if i % 256 == local_z * 16
                + local_x {
                terrain_cell(*blocks, position, seed, columns@, hollow@, i)
            } else {
                old(out)@[i]
            }),
{
    let column: usize = column_index(local_x, local_z);
    let sample = columns[column];
    let surface: i32 = surface_height(&sample);
    let world_x: i32 = position.x * 16 + local_x as i32;
    let world_z: i32 = position.z * 16 + local_z as i32;
    let ghost start = out@;
    let mut y: i32 = MIN_Y;
    while y <= surface
        invariant
            MIN_Y <= y <= surface + 1,
            surface == surface_of(sample),
            48 <= surface <= 110,
            column == local_z * 16 + local_x,
            column < 256,
            local_x < 16,
            local_z < 16,
            columns@.len() == 256,
            sample == columns@[column as int],
            hollow@.len() == BLOCKS_PER_CHUNK,
            start.len() == BLOCKS_PER_CHUNK,
            out@.len() == BLOCKS_PER_CHUNK,
            world_x == position.x * 16 + local_x,
            world_z == position.z * 16 + local_z,
            forall|i: int|
                0 <= i < BLOCKS_PER_CHUNK ==> #[trigger] out@[i] == (if i % 256 == column
                    && layer_of(i) < y {
                    terrain_cell(*blocks, position, seed, columns@, hollow@, i)
                } else {
                    start[i]
                }),
        decreases surface + 1 - y,
    {
        match block_index(local_x, y, local_z) {
            Some(index) => {
                let state: u16 = ground_block(
                    blocks,
                    seed,
                    &sample,
                    hollow[index],
                    world_x,
                    y,
                    world_z,
                );
                proof {
                    law_indices_and_positions_agree(
                        local_x as int,
                        y as int,
                        local_z as int,
                        index as int,
                    );
                    assert(index % 256 == column);
                    assert(state == terrain_cell(
                        *blocks,
                        position,
                        seed,
                        columns@,
                        hollow@,
                        index as int,
                    ));
                    assert forall|i: int|
                        0 <= i < BLOCKS_PER_CHUNK && i % 256 == column && layer_of(i)
                            == y implies i == index by {}
                }
                out.set(index, state);
            },
            None => {},
        }
        y += 1;
    }
    let snowy = match sample.biome {
        TerrainBiome::SnowyPlains => true,
        _ => false,
    };
    if snowy && surface < MAX_Y {
        match block_index(local_x, surface + 1, local_z) {
            Some(index) => {
                proof {
                    law_indices_and_positions_agree(
                        local_x as int,
                        surface + 1,
                        local_z as int,
                        index as int,
                    );
                    assert(index % 256 == column);
                    assert forall|i: int|
                        0 <= i < BLOCKS_PER_CHUNK && i % 256 == column && layer_of(i) == surface
                            + 1 implies i == index by {}
                }
                out.set(index, blocks.snow);
            },
            None => {},
        }
    }
}

/// Whether a tree candidate stands in the chunk itself.
pub open spec fn stands_in(chunk: ChunkPosition, site: TreeSite) -> bool {
    chunk_of(site.x as int) == chunk.x && chunk_of(site.z as int) == chunk.z
}

/// The column at the site of each tree candidate: one of the chunk's own where
/// the site lies in the chunk, else what `trees` says of it.
pub open spec fn tree_samples(
    position: ChunkPosition,
    seed: i64,
    columns: Seq<ColumnSample>,
    trees: Seq<ColumnSample>,
) -> Seq<ColumnSample> {
    Seq::new(
        TREE_CANDIDATES as nat,
        |k: int|
            {
                let site = site_of(position, seed, k);
                if stands_in(position, site) {
                    columns[local_of(site.z as int) * 16 + local_of(site.x as int)]
                } else {
                    trees[k]
                }
            },
    )
}

fn columns_at_sites(
    position: ChunkPosition,
    seed: i64,
    columns: &Vec<ColumnSample>,
    trees: &Vec<ColumnSample>,
) -> (r: Vec<ColumnSample>)
    requires
        chunk_in_world(position),
        columns@.len() == 256,
        trees@.len() == TREE_CANDIDATES,
    ensures
        r@ == tree_samples(position, seed, columns@, trees@),
{
    let mut r: Vec<ColumnSample> = Vec::new();
    let mut k: usize = 0;
    while k < TREE_CANDIDATES
        invariant
            k <= TREE_CANDIDATES,
            chunk_in_world(position),
            columns@.len() == 256,
            trees@.len() == TREE_CANDIDATES,
            r@ == tree_samples(position, seed, columns@, trees@).take(k as int),
        decreases TREE_CANDIDATES - k,
    {
        let site = tree_site(position, seed, k);
        let sample = if chunk_coord(site.x) == position.x && chunk_coord(site.z) == position.z {
            columns[column_index(local_coord(site.x), local_coord(site.z))]
        } else {
            trees[k]
        };
        r.push(sample);
        k += 1;
        assert(r@ =~= tree_samples(position, seed, columns@, trees@).take(k as int));
    }
    assert(r@ =~= tree_samples(position, seed, columns@, trees@));
    r
}

/// Whether a chunk is the one that the samples generate.
pub open spec fn is_generated(
    r: SavedChunk,
    b: TerrainBlocks,
    ids: BiomeIds,
    position: ChunkPosition,
    seed: i64,
    columns: Seq<ColumnSample>,
    hollow: Seq<bool>,
    trees: Seq<ColumnSample>,
) -> bool {
    &&& r.wf()
    &&& forall|i: int|
        0 <= i < BLOCKS_PER_CHUNK ==> #[trigger] r.blocks@[i] == forest_over(
            b,
            position,
            seed,
            tree_samples(position, seed, columns, trees),
            TREE_CANDIDATES as nat,
            cell_x(position, i),
            layer_of(i),
            cell_z(position, i),
            terrain_cell(b, position, seed, columns, hollow, i),
        )
    &&& forall|c: int|
        0 <= c < 256 ==> #[trigger] r.biomes@[c] == columns[c].biome.spec_protocol_id(ids)
    &&& forall|c: int| 0 <= c < 256 ==> #[trigger] r.temperatures@[c] == columns[c].temperature
    &&& forall|c: int|
        0 <= c < 256 ==> #[trigger] r.surface_y@[c] == surface_of(columns[c])
}

/// Generates a chunk from what the noise fields say: of each column, of each
/// block whether it is hollow, and of the column at each tree candidate that
/// stands in another chunk.
pub fn generate_chunk(
    position: ChunkPosition,
    seed: i64,
    blocks: &TerrainBlocks,
    biome_ids: &BiomeIds,
    columns: &Vec<ColumnSample>,
    hollow: &Vec<bool>,
    trees: &Vec<ColumnSample>,
) -> (r: SavedChunk)
    requires
        chunk_in_world(position),
        columns@.len() == 256,
        hollow@.len() == BLOCKS_PER_CHUNK,
        trees@.len() == TREE_CANDIDATES,
    ensures
        is_generated(
            r,
            *blocks,
            *biome_ids,
            position,
            seed,
            columns@,
            hollow@,
            trees@,
        ),
{
    let mut out: Vec<u16> = vec![blocks.air; BLOCKS_PER_CHUNK];
    let mut biomes: Vec<u8> = Vec::new();
    let mut temperatures: Vec<i16> = Vec::new();
    let mut surface_y: Vec<i16> = Vec::new();
    let mut column: usize = 0;
    while column < 256
        invariant
            column <= 256,
            chunk_in_world(position),
            columns@.len() == 256,
            hollow@.len() == BLOCKS_PER_CHUNK,
            out@.len() == BLOCKS_PER_CHUNK,
            biomes@.len() == column,
            temperatures@.len() == column,
            surface_y@.len() == column,
            forall|i: int|
                0 <= i < BLOCKS_PER_CHUNK ==> #[trigger] out@[i] == (if i % 256 < column {
                    terrain_cell(*blocks, position, seed, columns@, hollow@, i)
                } else {
                    blocks.air
                }),
            forall|c: int|
                0 <= c < column ==> #[trigger] biomes@[c] == columns@[c].biome.spec_protocol_id(
                    *biome_ids,
                ),
            forall|c: int|
                0 <= c < column ==> #[trigger] temperatures@[c] == columns@[c].temperature,
            forall|c: int|
                0 <= c < column ==> #[trigger] surface_y@[c] == surface_of(columns@[c]),
        decreases 256 - column,
    {
        let sample = columns[column];
        biomes.push(sample.biome.protocol_id(biome_ids));
        temperatures.push(sample.temperature);
        surface_y.push(surface_height(&sample) as i16);
        fill_column(
            &mut out,
            blocks,
            position,
            seed,
            columns,
            hollow,
            column % 16,
            column / 16,
        );
        column += 1;
    }
    let mut chunk = SavedChunk {
        format_version: CHUNK_FORMAT_VERSION,
        blocks: out,
        biomes,
        temperatures,
        surface_y,
    };
    let samples = columns_at_sites(position, seed, columns, trees);
    add_contextual_trees(&mut chunk, blocks, position, seed, &samples);
    chunk
}

/// Trees grow on the surface and change nothing below it.
proof fn lemma_forest_above_ground(
    b: TerrainBlocks,
    chunk: ChunkPosition,
    seed: i64,
    samples: Seq<ColumnSample>,
    n: nat,
    x: int,
    y: int,
    z: int,
    before: u16,
)
    requires
        y <= 48,
    ensures
        forest_over(b, chunk, seed, samples, n, x, y, z, before) == before,
    decreases n,
{
    if n > 0 {
        lemma_forest_above_ground(b, chunk, seed, samples, (n - 1) as nat, x, y, z, before);
    }
}

/// Every generated chunk rests on bedrock, has its surface between 48 and 110,
/// and has nothing but air above the highest tree.
pub proof fn law_generated_chunk_is_bounded(
    r: SavedChunk,
    b: TerrainBlocks,
    ids: BiomeIds,
    position: ChunkPosition,
    seed: i64,
    columns: Seq<ColumnSample>,
    hollow: Seq<bool>,
    trees: Seq<ColumnSample>,
    i: int,
)
    requires
        is_generated(r, b, ids, position, seed, columns, hollow, trees),
        0 <= i < BLOCKS_PER_CHUNK,
    ensures
        layer_of(i) == MIN_Y ==> r.blocks@[i] == b.bedrock,
        48 <= r.surface_y@[i % 256] <= 110,
        layer_of(i) > 119 ==> r.blocks@[i] == b.air,
{
    let x = cell_x(position, i);
    let y = layer_of(i);
    let z = cell_z(position, i);
    let bare = terrain_cell(b, position, seed, columns, hollow, i);
    let samples = tree_samples(position, seed, columns, trees);
    assert(r.blocks@[i] == forest_over(
        b,
        position,
        seed,
        samples,
        TREE_CANDIDATES as nat,
        x,
        y,
        z,
        bare,
    ));
    assert(r.surface_y@[i % 256] == surface_of(columns[i % 256]));
    if y == MIN_Y {
        lemma_forest_above_ground(
            b,
            position,
            seed,
            samples,
            TREE_CANDIDATES as nat,
            x,
            y,
            z,
            bare,
        );
    }
    if y > 119 {
        lemma_forest_below_sky(b, position, seed, samples, TREE_CANDIDATES as nat, x, y, z, bare);
    }
}

proof fn lemma_forest_below_sky(
    b: TerrainBlocks,
    chunk: ChunkPosition,
    seed: i64,
    samples: Seq<ColumnSample>,
    n: nat,
    x: int,
    y: int,
    z: int,
    before: u16,
)
    requires
        y > 119,
    ensures
        forest_over(b, chunk, seed, samples, n, x, y, z, before) == before,
    decreases n,
{
    if n > 0 {
        lemma_forest_below_sky(b, chunk, seed, samples, (n - 1) as nat, x, y, z, before);
    }
}

/// The chunk and the column of a cell, by its position in the world.
proof fn lemma_column_of_cell(position: ChunkPosition, i: int)
    requires
        0 <= i < BLOCKS_PER_CHUNK,
    ensures
        chunk_of(cell_x(position, i)) == position.x,
        chunk_of(cell_z(position, i)) == position.z,
        local_of(cell_z(position, i)) * 16 + local_of(cell_x(position, i)) == i % 256,
{
    let x = local_x_of(i);
    let z = local_z_of(i);
    assert((position.x * 16 + x) / 16 == position.x && (position.x * 16 + x) % 16 == x);
    assert((position.z * 16 + z) / 16 == position.z && (position.z * 16 + z) % 16 == z);
    assert(i % 256 == z * 16 + x);
}

/// A tree changes no block but air, except above its own foot.
proof fn lemma_tree_keeps_ground(
    b: TerrainBlocks,
    origin: BlockPosition,
    biome: TerrainBiome,
    hash: u64,
    x: int,
    y: int,
    z: int,
    ground: u16,
)
    requires
        ground != b.air,
        x == origin.x && z == origin.z ==> y < origin.y,
    ensures
        tree_over(b, origin, biome, hash, x, y, z, ground) == ground,
{
}

/// Trees leave the ground at the surface of a column as it is.
proof fn lemma_forest_keeps_surface(
    b: TerrainBlocks,
    position: ChunkPosition,
    seed: i64,
    columns: Seq<ColumnSample>,
    trees: Seq<ColumnSample>,
    n: nat,
    i: int,
    ground: u16,
)
    requires
        0 <= i < BLOCKS_PER_CHUNK,
        n <= TREE_CANDIDATES,
        layer_of(i) == surface_of(columns[i % 256]),
        ground != b.air,
    ensures
        forest_over(
            b,
            position,
            seed,
            tree_samples(position, seed, columns, trees),
            n,
            cell_x(position, i),
            layer_of(i),
            cell_z(position, i),
            ground,
        ) == ground,
    decreases n,
{
    if n > 0 {
        lemma_forest_keeps_surface(
            b,
            position,
            seed,
            columns,
            trees,
            (n - 1) as nat,
            i,
            ground,
        );
        let site = site_of(position, seed, n - 1);
        let sample = tree_samples(position, seed, columns, trees)[n - 1];
        let origin = BlockPosition { x: site.x, y: (surface_of(sample) + 1) as i32, z: site.z };
        lemma_column_of_cell(position, i);
        if site.x == cell_x(position, i) && site.z == cell_z(position, i) {
            assert(sample == columns[i % 256]);
        }
        lemma_tree_keeps_ground(
            b,
            origin,
            sample.biome,
            site.hash,
            cell_x(position, i),
            layer_of(i),
            cell_z(position, i),
            ground,
        );
    }
}

/// What holds of every column of a generated chunk: its surface lies between 48
/// and 110, it rests on bedrock, and the block at its surface is sand in a
/// desert and grass elsewhere. Trees stand on the ground and do not replace it.
pub proof fn law_generated_columns(
    r: SavedChunk,
    b: TerrainBlocks,
    ids: BiomeIds,
    position: ChunkPosition,
    seed: i64,
    columns: Seq<ColumnSample>,
    hollow: Seq<bool>,
    trees: Seq<ColumnSample>,
    x: int,
    z: int,
)
    requires
        is_generated(r, b, ids, position, seed, columns, hollow, trees),
        b.wf(),
        0 <= x < 16,
        0 <= z < 16,
    ensures
        r.format_version == 1,
        r.blocks@.len() == 98304,
        r.biomes@.len() == 256 && r.temperatures@.len() == 256 && r.surface_y@.len() == 256,
        48 <= r.surface_y@[z * 16 + x] <= 110,
        r.blocks@[index_of(x, MIN_Y as int, z)] == b.bedrock,
        r.blocks@[index_of(x, r.surface_y@[z * 16 + x] as int, z)] == (if columns[z * 16 + x].biome
            == TerrainBiome::Desert {
            b.sand
        } else {
            b.grass
        }),
{
    let c = z * 16 + x;
    assert(r.surface_y@[c] == surface_of(columns[c]));
    let surface = r.surface_y@[c] as int;
    law_indices_and_positions_agree(x, MIN_Y as int, z, 0);
    law_indices_and_positions_agree(x, surface, z, 0);
    let bottom = index_of(x, MIN_Y as int, z);
    law_generated_chunk_is_bounded(
        r,
        b,
        ids,
        position,
        seed,
        columns,
        hollow,
        trees,
        bottom,
    );
    let i = index_of(x, surface, z);
    assert(i % 256 == c);
    let ground = terrain_cell(b, position, seed, columns, hollow, i);
    assert(ground == if columns[c].biome == TerrainBiome::Desert {
        b.sand
    } else {
        b.grass
    });
    lemma_forest_keeps_surface(
        b,
        position,
        seed,
        columns,
        trees,
        TREE_CANDIDATES as nat,
        i,
        ground,
    );
}

/// The same seed and the same samples always generate the same chunk.
pub proof fn law_generation_is_repeatable(
    first: SavedChunk,
    second: SavedChunk,
    b: TerrainBlocks,
    ids: BiomeIds,
    position: ChunkPosition,
    seed: i64,
    columns: Seq<ColumnSample>,
    hollow: Seq<bool>,
    trees: Seq<ColumnSample>,
)
    requires
        is_generated(first, b, ids, position, seed, columns, hollow, trees),
        is_generated(second, b, ids, position, seed, columns, hollow, trees),
    ensures
        first.blocks@ == second.blocks@,
        first.same_columns(&second),
{
    assert(first.blocks@ =~= second.blocks@);
    assert(first.biomes@ =~= second.biomes@);
    assert(first.temperatures@ =~= second.temperatures@);
    assert(first.surface_y@ =~= second.surface_y@);
}

/// A tree that reaches into a chunk is among the candidates of that chunk,
/// wherever it stands, and the chunk sees it at the same site with the same
/// hash as the chunk that it stands in. So neighbours agree on every tree that
/// crosses their border.
pub proof fn law_neighbours_share_trees(
    b: TerrainBlocks,
    chunk: ChunkPosition,
    source: ChunkPosition,
    seed: i64,
    number: int,
    surface: i32,
    biome: TerrainBiome,
    x: int,
    y: int,
    z: int,
    before: u16,
)
    requires
        chunk_in_world(chunk),
        chunk_in_world(source),
        0 <= number < 4,
        chunk_of(x) == chunk.x,
        chunk_of(z) == chunk.z,
        ({
            let site = site_in(source, seed, number);
            tree_over(
                b,
                BlockPosition { x: site.x, y: surface, z: site.z },
                biome,
                site.hash,
                x,
                y,
                z,
                before,
            ) != before
        }),
    ensures
        exists|k: int|
            0 <= k < TREE_CANDIDATES && #[trigger] source_of(chunk, k) == source && k % 4 == number
                && site_of(chunk, seed, k) == site_in(source, seed, number),
{
    let site = site_in(source, seed, number);
    assert(source.x * 16 <= site.x < source.x * 16 + 16);
    assert(source.z * 16 <= site.z < source.z * 16 + 16);
    assert(-2 <= x - site.x <= 2 && -2 <= z - site.z <= 2);
    assert(-1 <= source.x - chunk.x <= 1 && -1 <= source.z - chunk.z <= 1);
    let k = (source.z - chunk.z + 1) * 12 + (source.x - chunk.x + 1) * 4 + number;
    assert(k % 4 == number);
    assert(k / 12 == source.z - chunk.z + 1);
    assert((k / 4) % 3 == source.x - chunk.x + 1);
    assert(source_of(chunk, k) == source);
}

} // verus!
