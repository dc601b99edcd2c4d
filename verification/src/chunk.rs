//! The small world that is generated ahead: eight chunks of hills, lakes and
//! a few oaks.

use vstd::prelude::*;
use crate::float_bits::{f64_lt, lt};

verus! {

pub const SEA_LEVEL: i32 = 62;

/// -0.5
pub const BEDROCK_THRESHOLD: u64 = 0xbfe0_0000_0000_0000;

/// 0.8
pub const TREE_THRESHOLD: u64 = 0x3fe9_9999_9999_999a;

/// The block states that the chunks are made of.
#[derive(Clone, Copy, Debug, PartialEq, Eq, Structural)]
pub struct ChunkBlocks {
    pub air: u16,
    pub deepslate: u16,
    pub bedrock: u16,
    pub stone: u16,
    pub dirt: u16,
    pub grass_block: u16,
    pub water: u16,
    pub oak_log: u16,
    pub oak_leaves: u16,
}

/// The noise of a column: the height of the ground in the world, and two values
/// as IEEE 754 bit patterns.
#[derive(Clone, Copy, Debug, PartialEq, Eq, Structural)]
pub struct ColumnNoise {
    pub world_height: i32,
    pub bedrock: u64,
    pub tree: u64,
}

/// The lowest layer of the world, and the number of layers.
#[derive(Clone, Copy, Debug, PartialEq, Eq, Structural)]
pub struct ChunkWorkerState {
    pub min_y: i32,
    pub height: u32,
}

impl ChunkWorkerState {
    /// Whether a chunk of that height can be held, and layers be counted.
    pub open spec fn wf(&self) -> bool {
        &&& 1 <= self.height <= i32::MAX
        &&& self.height * 256 <= usize::MAX
        &&& SEA_LEVEL - self.min_y <= i32::MAX
    }
}

pub open spec fn clamped(v: int, high: int) -> int {
    if v < 0 {
        0
    } else if v > high {
        high
    } else {
        v
    }
}

/// The layer of the ground in a column, counted from the bottom.
pub open spec fn ground_top(w: ChunkWorkerState, c: ColumnNoise) -> int {
    clamped(c.world_height - w.min_y, w.height - 1)
}

/// The layer of the water's surface.
pub open spec fn water_top(w: ChunkWorkerState) -> int {
    clamped(SEA_LEVEL - w.min_y, w.height - 1)
}

pub open spec fn smaller(a: int, b: int) -> int {
    if a < b {
        a
    } else {
        b
    }
}

/// The block of the ground at a layer up to its top.
pub open spec fn ground_at(w: ChunkWorkerState, b: ChunkBlocks, c: ColumnNoise, y: int) -> u16 {
    let top = ground_top(w, c);
    if y == top && water_top(w) > top {
        b.dirt
    } else if y == 0 && w.min_y > -64 && f64_lt(BEDROCK_THRESHOLD, c.bedrock) {
        b.bedrock
    } else if y <= smaller(top, w.height as int / 3) {
        b.deepslate
    } else if y == top {
        b.grass_block
    } else if y + 3 >= top {
        b.dirt
    } else {
        b.stone
    }
}

/// Whether an oak grows on a column.
pub open spec fn has_oak(w: ChunkWorkerState, c: ColumnNoise) -> bool {
    &&& ground_top(w, c) > water_top(w) + 1
    &&& f64_lt(TREE_THRESHOLD, c.tree)
    &&& ground_top(w, c) + 6 < w.height
}

/// What the column at (`cx`, `cz`) makes of the block at (`x`, `y`, `z`) that
/// was `before`.
pub open spec fn column_over(
    w: ChunkWorkerState,
    b: ChunkBlocks,
    c: ColumnNoise,
    cx: int,
    cz: int,
    x: int,
    y: int,
    z: int,
    before: u16,
) -> u16 {
    let top = ground_top(w, c);
    if x == cx && z == cz && y <= top {
        ground_at(w, b, c, y)
    } else if x == cx && z == cz && y <= water_top(w) {
        b.water
    } else if has_oak(w, c) && x == cx && z == cz && y <= top + 4 {
        b.oak_log
    } else if has_oak(w, c) && -1 <= x - cx <= 1 && -1 <= z - cz <= 1 && top + 3 <= y <= top + 5
        && before == b.air {
        b.oak_leaves
    } else {
        before
    }
}

/// The columns of a chunk are made one after the other, along x first.
pub open spec fn cell_after(
    w: ChunkWorkerState,
    b: ChunkBlocks,
    columns: Seq<ColumnNoise>,
    n: nat,
    x: int,
    y: int,
    z: int,
) -> u16
    decreases n,
{
    if n == 0 {
        b.air
    } else {
        let k = (n - 1) as nat;
        column_over(
            w,
            b,
            columns[k as int],
            k as int % 16,
            k as int / 16,
            x,
            y,
            z,
            cell_after(w, b, columns, k, x, y, z),
        )
    }
}

fn clamp_layer(v: i32, height: u32) -> (r: u32)
    requires
        1 <= height <= i32::MAX,
    ensures
        r == clamped(v as int, height - 1),
        r < height,
{
    if v < 0 {
        0
    } else if v as u32 > height - 1 {
        height - 1
    } else {
        v as u32
    }
}

/// The numbers that decide over a column.
#[derive(Clone, Copy)]
struct ColumnPlan {
    top: u32,
    water: u32,
    rock_top: u32,
    bedrock: bool,
    oak: bool,
}

impl ColumnPlan {
    spec fn of(&self, w: ChunkWorkerState, c: ColumnNoise) -> bool {
        &&& self.top == ground_top(w, c)
        &&& self.top < w.height
        &&& self.water == water_top(w)
        &&& self.rock_top == smaller(ground_top(w, c), w.height as int / 3)
        &&& self.bedrock == (w.min_y > -64 && f64_lt(BEDROCK_THRESHOLD, c.bedrock))
        &&& self.oak == has_oak(w, c)
    }
}

fn plan_column(w: &ChunkWorkerState, c: &ColumnNoise) -> (r: ColumnPlan)
    requires
        w.wf(),
        i32::MIN <= c.world_height - w.min_y <= i32::MAX,
    ensures
        r.of(*w, *c),
{
    let top = clamp_layer(c.world_height - w.min_y, w.height);
    let water = clamp_layer(SEA_LEVEL - w.min_y, w.height);
    let third: u32 = w.height / 3;
    let rock_top: u32 = if top < third {
        top
    } else {
        third
    };
    let bedrock = w.min_y > -64 && lt(BEDROCK_THRESHOLD, c.bedrock);
    let oak = top > water && top - water > 1 && lt(TREE_THRESHOLD, c.tree) && top + 6 < w.height;
    ColumnPlan { top, water, rock_top, bedrock, oak }
}

/// What a column makes of one block.
fn column_block(
    w: &ChunkWorkerState,
    b: &ChunkBlocks,
    Ghost(c): Ghost<ColumnNoise>,
    plan: &ColumnPlan,
    own: bool,
    near: bool,
    y: u32,
    before: u16,
    Ghost(cell): Ghost<(int, int, int, int)>,
) -> (r: u16)
    requires
        w.wf(),
        plan.of(*w, c),
        own == (cell.2 == cell.0 && cell.3 == cell.1),
        near == (-1 <= cell.2 - cell.0 <= 1 && -1 <= cell.3 - cell.1 <= 1),
        y < w.height,
    ensures
        r == column_over(*w, *b, c, cell.0, cell.1, cell.2, y as int, cell.3, before),
{
    if own && y <= plan.top {
        if y == plan.top && plan.water > plan.top {
            b.dirt
        } else if y == 0 && plan.bedrock {
            b.bedrock
        } else if y <= plan.rock_top {
            b.deepslate
        } else if y == plan.top {
            b.grass_block
        } else if y + 3 >= plan.top {
            b.dirt
        } else {
            b.stone
        }
    } else if own && y <= plan.water {
        b.water
    } else if plan.oak && own && y <= plan.top + 4 {
        b.oak_log
    } else if plan.oak && near && y >= plan.top + 3 && y <= plan.top + 5 && before == b.air {
        b.oak_leaves
    } else {
        before
    }
}

/// Whether a block is in the stack of blocks at (`x`, `z`).
pub open spec fn in_stack(i: int, x: int, z: int) -> bool {
    i % 16 == x && i / 16 % 16 == z
}

/// What a column makes of a block at a place of the list.
spec fn made_at(
    w: ChunkWorkerState,
    b: ChunkBlocks,
    c: ColumnNoise,
    cx: int,
    cz: int,
    i: int,
    before: u16,
) -> u16 {
    column_over(w, b, c, cx, cz, i % 16, i / 256, i / 16 % 16, before)
}

/// Lets a column work on the stack of blocks at (`x`, `z`).
fn fill_stack(
    chunk: &mut Vec<u16>,
    w: &ChunkWorkerState,
    b: &ChunkBlocks,
    c: &ColumnNoise,
    plan: &ColumnPlan,
    cx: usize,
    cz: usize,
    x: usize,
    z: usize,
)
    requires
        w.wf(),
        plan.of(*w, *c),
        old(chunk)@.len() == w.height * 256,
        cx < 16 && cz < 16 && x < 16 && z < 16,
    ensures
        final(chunk)@.len() == old(chunk)@.len(),
        forall|i: int|
            0 <= i < old(chunk)@.len() ==> #[trigger] final(chunk)@[i] == (if in_stack(
                i,
                x as int,
                z as int,
            ) {
                made_at(*w, *b, *c, cx as int, cz as int, i, old(chunk)@[i])
            } else {
                old(chunk)@[i]
            }),
{
    let own = x == cx && z == cz;
    let near = x <= cx + 1 && cx <= x + 1 && z <= cz + 1 && cz <= z + 1;
    let mut y: u32 = 0;
    while y < w.height
        invariant
            y <= w.height,
            w.wf(),
            plan.of(*w, *c),
            cx < 16 && cz < 16 && x < 16 && z < 16,
            own == (x == cx && z == cz),
            near == (-1 <= x - cx <= 1 && -1 <= z - cz <= 1),
            chunk@.len() == w.height * 256,
            chunk@.len() == old(chunk)@.len(),
            forall|i: int|
                0 <= i < chunk@.len() ==> #[trigger] chunk@[i] == (if in_stack(
                    i,
                    x as int,
                    z as int,
                ) && i / 256 < y {
                    made_at(*w, *b, *c, cx as int, cz as int, i, old(chunk)@[i])
                } else {
                    old(chunk)@[i]
                }),
        decreases w.height - y,
    {
        let ghost before = chunk@;
        assert(y as int * 256 + 255 < w.height * 256) by (nonlinear_arith)
            requires
                y < w.height,
        ;
        let p: usize = y as usize * 256 + z * 16 + x;
        let r = column_block(
            w,
            b,
            Ghost(*c),
            plan,
            own,
            near,
            y,
            chunk[p],
            Ghost((cx as int, cz as int, x as int, z as int)),
        );
        chunk.set(p, r);
        proof {
            assert forall|i: int| 0 <= i < chunk@.len() implies #[trigger] chunk@[i] == (
            if in_stack(i, x as int, z as int) && i / 256 < y + 1 {
                made_at(*w, *b, *c, cx as int, cz as int, i, old(chunk)@[i])
            } else {
                old(chunk)@[i]
            }) by {
                assert(before[i] == before[i]);
                if in_stack(i, x as int, z as int) && i / 256 == y {
                    assert(i == p);
                }
            }
        }
        y += 1;
    }
}

/// Lets a column work on a chunk: on its own stack, and with its leaves on
/// those around it.
fn fill_column(
    chunk: &mut Vec<u16>,
    w: &ChunkWorkerState,
    b: &ChunkBlocks,
    c: &ColumnNoise,
    cx: usize,
    cz: usize,
)
    requires
        w.wf(),
        old(chunk)@.len() == w.height * 256,
        i32::MIN <= c.world_height - w.min_y <= i32::MAX,
        cx < 16 && cz < 16,
    ensures
        final(chunk)@.len() == old(chunk)@.len(),
        forall|i: int|
            0 <= i < old(chunk)@.len() ==> #[trigger] final(chunk)@[i] == made_at(
                *w,
                *b,
                *c,
                cx as int,
                cz as int,
                i,
                old(chunk)@[i],
            ),
{
    let plan = plan_column(w, c);
    let x_low: usize = if cx == 0 {
        0
    } else {
        cx - 1
    };
    let x_high: usize = if cx == 15 {
        15
    } else {
        cx + 1
    };
    let z_low: usize = if cz == 0 {
        0
    } else {
        cz - 1
    };
    let z_high: usize = if cz == 15 {
        15
    } else {
        cz + 1
    };
    let mut x: usize = x_low;
    while x <= x_high
        invariant
            x_low <= x <= x_high + 1,
            x_high < 16 && z_high < 16,
            x_low == (if cx == 0 { 0 } else { cx - 1 }),
            x_high == (if cx == 15 { 15 } else { cx + 1 }),
            z_low == (if cz == 0 { 0 } else { cz - 1 }),
            z_high == (if cz == 15 { 15 } else { cz + 1 }),
            cx < 16 && cz < 16,
            w.wf(),
            plan.of(*w, *c),
            chunk@.len() == w.height * 256,
            chunk@.len() == old(chunk)@.len(),
            forall|i: int|
                0 <= i < chunk@.len() ==> #[trigger] chunk@[i] == (if x_low <= i % 16 < x && z_low
                    <= i / 16 % 16 <= z_high {
                    made_at(*w, *b, *c, cx as int, cz as int, i, old(chunk)@[i])
                } else {
                    old(chunk)@[i]
                }),
        decreases x_high + 1 - x,
    {
        let mut z: usize = z_low;
        while z <= z_high
            invariant
                x_low <= x <= x_high,
                z_low <= z <= z_high + 1,
                x_high < 16 && z_high < 16,
                cx < 16 && cz < 16,
                w.wf(),
                plan.of(*w, *c),
                chunk@.len() == w.height * 256,
                chunk@.len() == old(chunk)@.len(),
                forall|i: int|
                    0 <= i < chunk@.len() ==> #[trigger] chunk@[i] == (if (x_low <= i % 16 < x
                        && z_low <= i / 16 % 16 <= z_high) || (i % 16 == x && z_low <= i / 16 % 16
                        < z) {
                        made_at(*w, *b, *c, cx as int, cz as int, i, old(chunk)@[i])
                    } else {
                        old(chunk)@[i]
                    }),
            decreases z_high + 1 - z,
        {
            fill_stack(chunk, w, b, c, &plan, cx, cz, x, z);
            z += 1;
        }
        x += 1;
    }
}

/// Whether a chunk is one of those that are generated ahead; every other is
/// left empty.
pub open spec fn pregenerated(chunk_x: int, chunk_z: int) -> bool {
    0 <= chunk_x < 4 && 0 <= chunk_z < 2
}

pub fn is_pregenerated(chunk_x: i32, chunk_z: i32) -> (r: bool)
    ensures
        r == pregenerated(chunk_x as int, chunk_z as int),
{
    chunk_x >= 0 && chunk_x < 4 && chunk_z >= 0 && chunk_z < 2
}

/// The world position of the column of a number in a chunk that is generated
/// ahead.
pub fn column_position(chunk_x: i32, chunk_z: i32, number: usize) -> (r: (i32, i32))
    requires
        pregenerated(chunk_x as int, chunk_z as int),
        number < 256,
    ensures
        r.0 == chunk_x * 16 + number % 16,
        r.1 == chunk_z * 16 + number / 16,
{
    (chunk_x * 16 + (number % 16) as i32, chunk_z * 16 + (number / 16) as i32)
}

/// The block of a chunk at a position.
pub open spec fn chunk_cell(
    w: ChunkWorkerState,
    b: ChunkBlocks,
    chunk_x: int,
    chunk_z: int,
    columns: Seq<ColumnNoise>,
    x: int,
    y: int,
    z: int,
) -> u16 {
    if pregenerated(chunk_x, chunk_z) {
        cell_after(w, b, columns, 256, x, y, z)
    } else {
        b.air
    }
}

/// Makes a chunk from the noise of its columns. The blocks are listed layer by
/// layer from the bottom, each along z and then x.
pub fn chunk_worker(
    state: &ChunkWorkerState,
    blocks: &ChunkBlocks,
    chunk_x: i32,
    chunk_z: i32,
    columns: &Vec<ColumnNoise>,
) -> (r: Vec<u16>)
    requires
        state.wf(),
        pregenerated(chunk_x as int, chunk_z as int) ==> columns@.len() == 256,
        forall|k: int|
            0 <= k < columns@.len() ==> i32::MIN <= (#[trigger] columns@[k]).world_height
                - state.min_y <= i32::MAX,
    ensures
        r@.len() == state.height * 256,
        forall|i: int|
            0 <= i < r@.len() ==> #[trigger] r@[i] == chunk_cell(
                *state,
                *blocks,
                chunk_x as int,
                chunk_z as int,
                columns@,
                i % 16,
                i / 256,
                i / 16 % 16,
            ),
{
    let size: usize = state.height as usize * 256;
    let mut chunk: Vec<u16> = Vec::new();
    let mut i: usize = 0;
    while i < size
        invariant
            i <= size,
            chunk@.len() == i,
            forall|j: int| 0 <= j < i ==> #[trigger] chunk@[j] == blocks.air,
        decreases size - i,
    {
        chunk.push(blocks.air);
        i += 1;
    }
    if !is_pregenerated(chunk_x, chunk_z) {
        return chunk;
    }
    let mut k: usize = 0;
    while k < 256
        invariant
            k <= 256,
            state.wf(),
            columns@.len() == 256,
            forall|k: int|
                0 <= k < columns@.len() ==> i32::MIN <= (#[trigger] columns@[k]).world_height
                    - state.min_y <= i32::MAX,
            chunk@.len() == state.height * 256,
            forall|i: int|
                0 <= i < chunk@.len() ==> #[trigger] chunk@[i] == cell_after(
                    *state,
                    *blocks,
                    columns@,
                    k as nat,
                    i % 16,
                    i / 256,
                    i / 16 % 16,
                ),
        decreases 256 - k,
    {
        let ghost before = chunk@;
        fill_column(&mut chunk, state, blocks, &columns[k], k % 16, k / 16);
        proof {
            assert forall|i: int| 0 <= i < chunk@.len() implies #[trigger] chunk@[i]
                == cell_after(
                *state,
                *blocks,
                columns@,
                (k + 1) as nat,
                i % 16,
                i / 256,
                i / 16 % 16,
            ) by {
                assert(before[i] == cell_after(
                    *state,
                    *blocks,
                    columns@,
                    k as nat,
                    i % 16,
                    i / 256,
                    i / 16 % 16,
                ));
            }
        }
        k += 1;
    }
    chunk
}

/// The ground that a column makes stays: neither a neighbour nor its leaves
/// take it away.
pub proof fn law_ground_stays(
    w: ChunkWorkerState,
    b: ChunkBlocks,
    columns: Seq<ColumnNoise>,
    k: nat,
    n: nat,
    y: int,
)
    requires
        k < n <= 256,
        0 <= y <= ground_top(w, columns[k as int]),
        b.dirt != b.air && b.bedrock != b.air && b.deepslate != b.air && b.grass_block != b.air
            && b.stone != b.air,
    ensures
        cell_after(w, b, columns, n, k as int % 16, y, k as int / 16) == ground_at(
            w,
            b,
            columns[k as int],
            y,
        ),
    decreases n,
{
    if k + 1 < n {
        law_ground_stays(w, b, columns, k, (n - 1) as nat, y);
        let other = n - 1;
        assert(other % 16 != k as int % 16 || other / 16 != k as int / 16);
    }
}

/// What a column holds that is not air stays as the column made it.
proof fn lemma_column_stays(
    w: ChunkWorkerState,
    b: ChunkBlocks,
    columns: Seq<ColumnNoise>,
    k: nat,
    n: nat,
    y: int,
)
    requires
        k < n <= 256,
        0 <= y,
        cell_after(w, b, columns, k + 1, k as int % 16, y, k as int / 16) != b.air,
    ensures
        cell_after(w, b, columns, n, k as int % 16, y, k as int / 16) == cell_after(
            w,
            b,
            columns,
            k + 1,
            k as int % 16,
            y,
            k as int / 16,
        ),
    decreases n,
{
    if k + 1 < n {
        lemma_column_stays(w, b, columns, k, (n - 1) as nat, y);
        let other = n - 1;
        assert(other % 16 != k as int % 16 || other / 16 != k as int / 16);
    }
}

/// Land is grass on three blocks of dirt on stone; the ground of a lake is dirt
/// on dirt on stone, with water over it up to the level of the sea. The lowest
/// third is deepslate, wherever there is ground in it.
pub proof fn law_layers_of_land_and_lakes(
    w: ChunkWorkerState,
    b: ChunkBlocks,
    chunk_x: int,
    chunk_z: int,
    columns: Seq<ColumnNoise>,
    x: int,
    y: int,
    z: int,
)
    requires
        0 <= chunk_x <= 3,
        0 <= chunk_z <= 1,
        0 <= x < 16,
        0 <= z < 16,
        0 <= y < w.height,
        w.height >= 1,
        0 <= columns[z * 16 + x].world_height - w.min_y < w.height,
        0 <= 62 - w.min_y < w.height,
        b.dirt != b.air && b.bedrock != b.air && b.deepslate != b.air && b.grass_block != b.air
            && b.stone != b.air && b.water != b.air,
    ensures
        ({
            let block = chunk_cell(w, b, chunk_x, chunk_z, columns, x, y, z);
            let top = columns[z * 16 + x].world_height - w.min_y;
            let sea = 62 - w.min_y;
            let third = w.height as int / 3;
            &&& sea > top && y == top ==> block == b.dirt
            &&& top < y <= sea ==> block == b.water
            &&& sea <= top && y == top && y > third ==> block == b.grass_block
            &&& third < y < top && y >= top - 3 ==> block == b.dirt
            &&& third < y < top - 3 ==> block == b.stone
            &&& 0 < y <= third && y < top ==> block == b.deepslate
            &&& y == 0 && top > 0 ==> block == b.deepslate || block == b.bedrock
            &&& y == 0 && top > 0 && w.min_y <= -64 ==> block == b.deepslate
        }),
{
    let k = (z * 16 + x) as nat;
    assert(k as int % 16 == x && k as int / 16 == z);
    let c = columns[k as int];
    assert(ground_top(w, c) == c.world_height - w.min_y);
    assert(water_top(w) == 62 - w.min_y);
    if y <= ground_top(w, c) || y <= water_top(w) {
        lemma_column_stays(w, b, columns, k, 256, y);
    }
}

/// Exactly the chunks with x from 0 to 3 and z 0 or 1 hold anything.
pub proof fn law_eight_chunks_are_made(
    w: ChunkWorkerState,
    b: ChunkBlocks,
    chunk_x: int,
    chunk_z: int,
    columns: Seq<ColumnNoise>,
    x: int,
    y: int,
    z: int,
)
    ensures
        chunk_x < 0 || chunk_x > 3 || chunk_z < 0 || chunk_z > 1 ==> chunk_cell(
            w,
            b,
            chunk_x,
            chunk_z,
            columns,
            x,
            y,
            z,
        ) == b.air,
        0 <= chunk_x <= 3 && 0 <= chunk_z <= 1 ==> pregenerated(chunk_x, chunk_z),
{
}

/// An oak stands on land more than one block over the sea, with four blocks of
/// trunk and leaves in the three layers round its top, one block to each side.
/// The leaves take the place of air only.
pub proof fn law_oaks_stand_on_dry_land(
    w: ChunkWorkerState,
    b: ChunkBlocks,
    c: ColumnNoise,
    cx: int,
    cz: int,
    x: int,
    y: int,
    z: int,
    before: u16,
)
    requires
        has_oak(w, c),
    ensures
        ({
            let block = column_over(w, b, c, cx, cz, x, y, z, before);
            let top = ground_top(w, c);
            &&& top > water_top(w) + 1
            &&& f64_lt(0x3fe9_9999_9999_999a, c.tree)
            &&& x == cx && z == cz && top < y <= top + 4 ==> block == b.oak_log
            &&& x == cx && z == cz && y == top + 5 && before == b.air ==> block == b.oak_leaves
            &&& (x != cx || z != cz) && -1 <= x - cx <= 1 && -1 <= z - cz <= 1 && top + 3 <= y <= top
                + 5 && before == b.air ==> block == b.oak_leaves
            &&& (x != cx || z != cz) && before != b.air ==> block == before
            &&& x - cx > 1 || cx - x > 1 || z - cz > 1 || cz - z > 1 ==> block == before
            &&& y > top + 5 ==> block == before
        }),
{
}

} // verus!
