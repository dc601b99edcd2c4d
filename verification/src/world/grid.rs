//! Blocks, columns and chunks: how positions become indices, and back.

use vstd::prelude::*;

verus! {

pub const SECTION_COUNT: usize = 24;

pub const MIN_Y: i32 = -64;

pub const MAX_Y: i32 = 319;

pub const CHUNK_WIDTH: usize = 16;

pub const BLOCKS_PER_SECTION: usize = 4096;

pub const BLOCKS_PER_CHUNK: usize = 98304;

#[derive(Clone, Copy, Debug, PartialEq, Eq, Structural)]
pub struct ChunkPosition {
    pub x: i32,
    pub z: i32,
}

#[derive(Clone, Copy, Debug, PartialEq, Eq, Structural)]
pub struct BlockPosition {
    pub x: i32,
    pub y: i32,
    pub z: i32,
}

/// The index of a block among the blocks of its chunk: layer by layer from the
/// bottom, row by row in a layer.
pub open spec fn index_of(local_x: int, y: int, local_z: int) -> int {
    (y - MIN_Y) * 256 + local_z * 16 + local_x
}

pub open spec fn in_chunk(local_x: int, y: int, local_z: int) -> bool {
    MIN_Y <= y <= MAX_Y && 0 <= local_x < 16 && 0 <= local_z < 16
}

pub fn block_index(local_x: usize, y: i32, local_z: usize) -> (r: Option<usize>)
    ensures
        r is Some <==> in_chunk(local_x as int, y as int, local_z as int),
        r matches Some(i) ==> i == index_of(local_x as int, y as int, local_z as int) && i
            < BLOCKS_PER_CHUNK,
{
    if !(MIN_Y <= y && y <= MAX_Y) || local_x >= CHUNK_WIDTH || local_z >= CHUNK_WIDTH {
        return None;
    }
    Some((y - MIN_Y) as usize * 256 + local_z * 16 + local_x)
}

pub fn column_index(local_x: usize, local_z: usize) -> (r: usize)
    requires
        local_x < 16,
        local_z < 16,
    ensures
        r == local_z * 16 + local_x,
        r < 256,
{
    local_z * CHUNK_WIDTH + local_x
}

/// The position within its chunk that belongs to an index.
pub open spec fn local_x_of(i: int) -> int {
    i % 16
}

pub open spec fn local_z_of(i: int) -> int {
    (i / 16) % 16
}

pub open spec fn layer_of(i: int) -> int {
    i / 256 + MIN_Y
}

/// Every index belongs to exactly one position of the chunk: indices and
/// positions translate into each other without loss.
pub proof fn law_indices_and_positions_agree(local_x: int, y: int, local_z: int, i: int)
    ensures
        in_chunk(local_x, y, local_z) ==> 0 <= index_of(local_x, y, local_z) < BLOCKS_PER_CHUNK
            && local_x_of(index_of(local_x, y, local_z)) == local_x && local_z_of(
            index_of(local_x, y, local_z),
        ) == local_z && layer_of(index_of(local_x, y, local_z)) == y,
        0 <= i < BLOCKS_PER_CHUNK ==> in_chunk(local_x_of(i), layer_of(i), local_z_of(i))
            && index_of(local_x_of(i), layer_of(i), local_z_of(i)) == i,
{
    if in_chunk(local_x, y, local_z) {
        let n = index_of(local_x, y, local_z);
        assert(n % 16 == local_x);
        assert(n / 16 == (y - MIN_Y) * 16 + local_z);
        assert((n / 16) % 16 == local_z);
        assert(n / 256 == y - MIN_Y);
    }
}

/// The chunk that a block coordinate lies in.
pub open spec fn chunk_of(block: int) -> int {
    block / 16
}

/// The place of a block coordinate within its chunk.
pub open spec fn local_of(block: int) -> int {
    block % 16
}

pub fn chunk_coord(block: i32) -> (r: i32)
    ensures
        r == chunk_of(block as int),
{
    let r: i32 = block >> 4;
    let low: i32 = block & 15;
    assert(-0x800_0000 <= r <= 0x7ff_ffff && 0 <= low < 16 && block == r * 16 + low)
        by (bit_vector)
        requires
            r == block >> 4,
            low == block & 15,
    ;
    r
}

pub fn local_coord(block: i32) -> (r: usize)
    ensures
        r == local_of(block as int),
        r < 16,
{
    let r: i32 = block >> 4;
    let low: i32 = block & 15;
    assert(0 <= low < 16 && block == r * 16 + low) by (bit_vector)
        requires
            r == block >> 4,
            low == block & 15,
    ;
    low as usize
}

/// Where a block of a chunk lies in the world.
pub open spec fn cell_x(chunk: ChunkPosition, i: int) -> int {
    chunk.x * 16 + local_x_of(i)
}

pub open spec fn cell_z(chunk: ChunkPosition, i: int) -> int {
    chunk.z * 16 + local_z_of(i)
}

/// Chunks whose blocks, and whose neighbours' blocks with the trees on them,
/// have coordinates.
pub open spec fn chunk_in_world(c: ChunkPosition) -> bool {
    -0x7ff_fffe <= c.x <= 0x7ff_fffd && -0x7ff_fffe <= c.z <= 0x7ff_fffd
}

} // verus!
