//! A chunk on the wire: height maps, sections with palettes, and light masks.

use std::collections::HashMap;
use vstd::prelude::*;
use vstd::slice::slice_subrange;
use crate::big_endian::{be_bytes, i16_bytes, i32_bytes, push_be, push_i16, push_i32};
use crate::viakraken::utils::{varint_bytes, write_varint};
use crate::world::chunk_gen::SavedChunk;
use crate::world::grid::{column_index, BLOCKS_PER_CHUNK, BLOCKS_PER_SECTION, MIN_Y, SECTION_COUNT};

verus! {

/// How the layout of a chunk differs between protocol versions.
#[derive(Clone, Copy, Debug, PartialEq, Eq, Structural)]
pub struct ChunkLayout {
    /// Arrays of words are announced with their length.
    pub sized_arrays: bool,
    /// Each section has a second counter behind that of its blocks.
    pub second_counter: bool,
}

/// The block of a chunk with the given index, changes included.
pub open spec fn effective_block(blocks: Seq<u16>, changes: Map<u32, u16>, i: int) -> u16 {
    if changes.dom().contains(i as u32) {
        changes[i as u32]
    } else {
        blocks[i]
    }
}

/// The blocks of a chunk with the changes to it.
pub fn effective_blocks(chunk: &SavedChunk, changes: &HashMap<u32, u16>) -> (r: Vec<u16>)
    requires
        chunk.wf(),
    ensures
        r@.len() == BLOCKS_PER_CHUNK,
        forall|i: int|
            0 <= i < BLOCKS_PER_CHUNK ==> #[trigger] r@[i] == effective_block(
                chunk.blocks@,
                changes@,
                i,
            ),
{
    let mut r: Vec<u16> = Vec::new();
    let mut i: usize = 0;
    while i < BLOCKS_PER_CHUNK
        invariant
            i <= BLOCKS_PER_CHUNK,
            chunk.wf(),
            r@.len() == i,
            forall|k: int|
                0 <= k < i ==> #[trigger] r@[k] == effective_block(chunk.blocks@, changes@, k),
        decreases BLOCKS_PER_CHUNK - i,
    {
        let state: u16 = match changes.get(&(i as u32)) {
            Some(state) => *state,
            None => chunk.blocks[i],
        };
        r.push(state);
        i += 1;
    }
    r
}

/// The bits of the first `m` values of a word, each shifted to its place.
pub open spec fn word_bits(values: Seq<u64>, bits: u64, per: nat, k: nat, m: nat) -> u64
    decreases m,
{
    if m == 0 {
        0
    } else {
        let i = per * k + (m - 1);
        word_bits(values, bits, per, k, (m - 1) as nat) | (if i < values.len() {
            values[i] << ((bits * (m - 1)) as u64)
        } else {
            0u64
        })
    }
}

/// How many words a number of values takes.
pub open spec fn word_count(n: nat, per: nat) -> nat {
    (n + per - 1) as nat / per
}

/// Values packed into words, `per` to a word, the first one lowest.
pub open spec fn packed(values: Seq<u64>, bits: u64, per: nat) -> Seq<u64> {
    Seq::new(
        word_count(values.len(), per),
        |k: int| word_bits(values, bits, per, k as nat, per),
    )
}

fn pack(values: &Vec<u64>, bits: u64, per: usize) -> (r: Vec<u64>)
    requires
        0 < per,
        bits * per <= 64,
        bits > 0,
    ensures
        r@ == packed(values@, bits, per as nat),
{
    assert(per <= 64) by (nonlinear_arith)
        requires
            bits * per <= 64,
            bits >= 1,
    ;
    let n: usize = values.len();
    let count: usize = if n == 0 {
        0
    } else {
        (n - 1) / per + 1
    };
    proof {
        lemma_word_count(n as int, per as int);
    }
    let mut r: Vec<u64> = Vec::new();
    let mut k: usize = 0;
    while k < count
        invariant
            0 < per <= 64,
            bits * per <= 64,
            n == values@.len(),
            count == word_count(values@.len(), per as nat),
            k <= count,
            r@.len() == k,
            forall|i: int|
                0 <= i < k ==> #[trigger] r@[i] == word_bits(
                    values@,
                    bits,
                    per as nat,
                    i as nat,
                    per as nat,
                ),
        decreases count - k,
    {
        proof {
            lemma_word_start(n as int, per as int, k as int);
        }
        let start: usize = per * k;
        let mut word: u64 = 0;
        let mut j: usize = 0;
        while j < per
            invariant
                0 < per <= 64,
                bits * per <= 64,
                n == values@.len(),
                start == per * k,
                start < n,
                j <= per,
                word == word_bits(values@, bits, per as nat, k as nat, j as nat),
            decreases per - j,
        {
            if j < n - start {
                let i: usize = start + j;
                assert(bits * j < 64) by (nonlinear_arith)
                    requires
                        bits * per <= 64,
                        j < per,
                        bits > 0 || bits == 0,
                ;
                word = word | (values[i] << (bits * j as u64));
            } else {
                assert(word | 0u64 == word) by (bit_vector);
            }
            j += 1;
        }
        r.push(word);
        k += 1;
    }
    assert(r@ =~= packed(values@, bits, per as nat));
    r
}

proof fn lemma_word_count(n: int, per: int)
    requires
        0 <= n,
        0 < per,
    ensures
        (n + per - 1) / per == (if n == 0 {
            0
        } else {
            (n - 1) / per + 1
        }),
{
    if n == 0 {
        vstd::arithmetic::div_mod::lemma_basic_div(per - 1, per);
    } else {
        vstd::arithmetic::div_mod::lemma_div_plus_one(n - 1, per);
    }
}

proof fn lemma_word_start(n: int, per: int, k: int)
    requires
        0 < per,
        0 <= k < (n + per - 1) / per,
    ensures
        0 <= per * k < n,
{
    vstd::arithmetic::div_mod::lemma_fundamental_div_mod(n + per - 1, per);
    let q = (n + per - 1) / per;
    assert(per * k <= per * (q - 1) && 0 <= per * k) by (nonlinear_arith)
        requires
            0 <= k <= q - 1,
            per > 0,
    ;
    assert(per * (q - 1) == per * q - per) by (nonlinear_arith);
}

/// The value in the given place of a word, as a reader takes it out again.
pub open spec fn unpacked(word: u64, bits: u64, j: int) -> u64 {
    (word >> ((bits * j) as u64)) & (((1u64 << bits) - 1) as u64)
}

/// Blocks read back from the words of a section as they were packed: states
/// below two to the fifteenth do not run into each other.
pub proof fn law_packed_blocks_read_back(values: Seq<u64>, i: int)
    requires
        0 <= i < values.len(),
        values.len() % 4 == 0,
        forall|k: int| 0 <= k < values.len() ==> #[trigger] values[k] < 0x8000,
    ensures
        i / 4 < packed(values, 15, 4).len(),
        unpacked(packed(values, 15, 4)[i / 4], 15, i % 4) == values[i],
{
    let k = i / 4;
    let j = i % 4;
    let a = values[4 * k];
    let b = values[4 * k + 1];
    let c = values[4 * k + 2];
    let d = values[4 * k + 3];
    reveal_with_fuel(word_bits, 5);
    let word = packed(values, 15, 4)[k];
    assert(word == ((((0u64 | (a << 0u64)) | (b << 15u64)) | (c << 30u64)) | (d << 45u64)));
    assert(((word >> 0u64) & 0x7fff == a) && ((word >> 15u64) & 0x7fff == b) && ((word >> 30u64)
        & 0x7fff == c) && ((word >> 45u64) & 0x7fff == d) && ((1u64 << 15u64) - 1 == 0x7fff))
        by (bit_vector)
        requires
            word == ((((0u64 | (a << 0u64)) | (b << 15u64)) | (c << 30u64)) | (d << 45u64)),
            a < 0x8000,
            b < 0x8000,
            c < 0x8000,
            d < 0x8000,
    ;
}

/// Words as bytes.
pub open spec fn words_bytes(ws: Seq<u64>) -> Seq<u8>
    decreases ws.len(),
{
    if ws.len() == 0 {
        Seq::empty()
    } else {
        words_bytes(ws.drop_last()) + be_bytes(ws.last() as nat, 8)
    }
}

fn push_words(buf: &mut Vec<u8>, ws: &Vec<u64>)
    ensures
        final(buf)@ == old(buf)@ + words_bytes(ws@),
{
    let mut i: usize = 0;
    assert(ws@.take(0) =~= Seq::<u64>::empty());
    assert(buf@ =~= old(buf)@ + words_bytes(ws@.take(0)));
    while i < ws.len()
        invariant
            i <= ws.len(),
            buf@ == old(buf)@ + words_bytes(ws@.take(i as int)),
        decreases ws.len() - i,
    {
        push_be(buf, ws[i] as u128, 8);
        proof {
            assert(ws@.take(i + 1).drop_last() =~= ws@.take(i as int));
            assert(ws@.take(i + 1).last() == ws@[i as int]);
            assert(buf@ =~= old(buf)@ + words_bytes(ws@.take(i + 1)));
        }
        i += 1;
    }
    assert(ws@.take(i as int) =~= ws@);
}

/// How many blocks the ground is above the bottom of the world, within nine
/// bits.
pub open spec fn height_value(surface: i16) -> u64 {
    let v = surface - MIN_Y + 1;
    if v < 0 {
        0
    } else if v > 511 {
        511
    } else {
        v as u64
    }
}

pub open spec fn height_values(surface: Seq<i16>) -> Seq<u64> {
    Seq::new(surface.len(), |i: int| height_value(surface[i]))
}

/// The height map of a chunk: nine bits a column, seven columns a word.
pub open spec fn height_words(surface: Seq<i16>) -> Seq<u64> {
    packed(height_values(surface), 9, 7)
}

/// The three height maps, which are all the same.
pub open spec fn heightmaps_bytes(surface: Seq<i16>) -> Seq<u8> {
    let map = varint_bytes(37) + words_bytes(height_words(surface));
    varint_bytes(3) + (varint_bytes(1) + map) + (varint_bytes(4) + map) + (varint_bytes(5) + map)
}

fn push_heightmaps(buf: &mut Vec<u8>, chunk: &SavedChunk)
    requires
        chunk.wf(),
    ensures
        final(buf)@ == old(buf)@ + heightmaps_bytes(chunk.surface_y@),
{
    let mut values: Vec<u64> = Vec::new();
    let mut i: usize = 0;
    while i < 256
        invariant
            i <= 256,
            chunk.wf(),
            values@ == height_values(chunk.surface_y@).take(i as int),
        decreases 256 - i,
    {
        let v: i32 = chunk.surface_y[i] as i32 - MIN_Y + 1;
        let value: u64 = if v < 0 {
            0
        } else if v > 511 {
            511
        } else {
            v as u64
        };
        values.push(value);
        i += 1;
        assert(values@ =~= height_values(chunk.surface_y@).take(i as int));
    }
    assert(values@ =~= height_values(chunk.surface_y@));
    let words = pack(&values, 9, 7);
    assert(words@.len() == 37);
    write_varint(buf, 3);
    write_varint(buf, 1);
    write_varint(buf, words.len() as i32);
    push_words(buf, &words);
    write_varint(buf, 4);
    write_varint(buf, words.len() as i32);
    push_words(buf, &words);
    write_varint(buf, 5);
    write_varint(buf, words.len() as i32);
    push_words(buf, &words);
    assert(buf@ =~= old(buf)@ + heightmaps_bytes(chunk.surface_y@));
}

/// A length, where the layout has one.
pub open spec fn array_length(layout: ChunkLayout, n: u32) -> Seq<u8> {
    if layout.sized_arrays {
        varint_bytes(n)
    } else {
        Seq::empty()
    }
}

pub open spec fn all_same(blocks: Seq<u16>) -> bool {
    forall|i: int| 0 <= i < blocks.len() ==> #[trigger] blocks[i] == blocks[0]
}

pub open spec fn wide(blocks: Seq<u16>) -> Seq<u64> {
    Seq::new(blocks.len(), |i: int| blocks[i] as u64)
}

/// The blocks of a section: one state for all of them, or fifteen bits each
/// and four to a word.
pub open spec fn block_palette_bytes(blocks: Seq<u16>, layout: ChunkLayout) -> Seq<u8> {
    if all_same(blocks) {
        seq![0u8] + varint_bytes(blocks[0] as u32) + array_length(layout, 0)
    } else {
        let words = packed(wide(blocks), 15, 4);
        seq![15u8] + array_length(layout, words.len() as u32) + words_bytes(words)
    }
}

fn is_uniform(blocks: &[u16]) -> (r: bool)
    requires
        blocks@.len() > 0,
    ensures
        r == all_same(blocks@),
{
    let mut i: usize = 0;
    while i < blocks.len()
        invariant
            i <= blocks.len(),
            forall|k: int| 0 <= k < i ==> #[trigger] blocks@[k] == blocks@[0],
        decreases blocks.len() - i,
    {
        if blocks[i] != blocks[0] {
            assert(blocks@[i as int] != blocks@[0]);
            return false;
        }
        i += 1;
    }
    true
}

pub fn write_block_palette(buf: &mut Vec<u8>, blocks: &[u16], layout: ChunkLayout)
    requires
        0 < blocks@.len(),
        word_count(blocks@.len(), 4) <= i32::MAX,
    ensures
        final(buf)@ == old(buf)@ + block_palette_bytes(blocks@, layout),
{
    if is_uniform(blocks) {
        buf.push(0);
        write_varint(buf, blocks[0] as i32);
        if layout.sized_arrays {
            write_varint(buf, 0);
        }
        assert((blocks@[0] as i32) as u32 == blocks@[0] as u32);
        assert(buf@ =~= old(buf)@ + block_palette_bytes(blocks@, layout));
        return ;
    }
    let mut values: Vec<u64> = Vec::new();
    let mut i: usize = 0;
    while i < blocks.len()
        invariant
            i <= blocks.len(),
            values@ == wide(blocks@).take(i as int),
        decreases blocks.len() - i,
    {
        values.push(blocks[i] as u64);
        i += 1;
        assert(values@ =~= wide(blocks@).take(i as int));
    }
    assert(values@ =~= wide(blocks@));
    let words = pack(&values, 15, 4);
    buf.push(15);
    if layout.sized_arrays {
        assert(words@.len() == word_count(blocks@.len(), 4));
        write_varint(buf, words.len() as i32);
    }
    push_words(buf, &words);
    assert(buf@ =~= old(buf)@ + block_palette_bytes(blocks@, layout));
}

/// The biome cells of a section: four by four by four, each with the biome of
/// the column in its middle.
pub open spec fn biome_values(biomes: Seq<u8>) -> Seq<u64> {
    Seq::new(64, |i: int| biomes[(((i / 4) % 4) * 4 + 2) * 16 + (i % 4) * 4 + 2] as u64)
}

pub open spec fn biome_palette_bytes(biomes: Seq<u8>, layout: ChunkLayout) -> Seq<u8> {
    seq![7u8] + array_length(layout, 8) + words_bytes(packed(biome_values(biomes), 7, 9))
}

pub fn write_biome_palette(buf: &mut Vec<u8>, chunk: &SavedChunk, layout: ChunkLayout)
    requires
        chunk.wf(),
    ensures
        final(buf)@ == old(buf)@ + biome_palette_bytes(chunk.biomes@, layout),
{
    let mut values: Vec<u64> = Vec::new();
    let mut i: usize = 0;
    while i < 64
        invariant
            i <= 64,
            chunk.wf(),
            values@ == biome_values(chunk.biomes@).take(i as int),
        decreases 64 - i,
    {
        let column: usize = column_index((i % 4) * 4 + 2, ((i / 4) % 4) * 4 + 2);
        values.push(chunk.biomes[column] as u64);
        i += 1;
        assert(values@ =~= biome_values(chunk.biomes@).take(i as int));
    }
    assert(values@ =~= biome_values(chunk.biomes@));
    let words = pack(&values, 7, 9);
    assert(words@.len() == 8);
    buf.push(7);
    if layout.sized_arrays {
        write_varint(buf, words.len() as i32);
    }
    push_words(buf, &words);
    assert(buf@ =~= old(buf)@ + biome_palette_bytes(chunk.biomes@, layout));
}

/// How many of the blocks are not air.
pub open spec fn solid_count(blocks: Seq<u16>, air: u16) -> nat
    decreases blocks.len(),
{
    if blocks.len() == 0 {
        0
    } else {
        solid_count(blocks.drop_last(), air) + (if blocks.last() != air {
            1nat
        } else {
            0nat
        })
    }
}

fn count_solid(blocks: &[u16], air: u16) -> (r: i16)
    requires
        blocks@.len() <= BLOCKS_PER_SECTION,
    ensures
        r == solid_count(blocks@, air),
{
    let mut n: i16 = 0;
    let mut i: usize = 0;
    while i < blocks.len()
        invariant
            i <= blocks.len(),
            blocks@.len() <= BLOCKS_PER_SECTION,
            0 <= n <= i,
            n == solid_count(blocks@.take(i as int), air),
        decreases blocks.len() - i,
    {
        proof {
            assert(blocks@.take(i + 1).drop_last() =~= blocks@.take(i as int));
            assert(blocks@.take(i + 1).last() == blocks@[i as int]);
        }
        if blocks[i] != air {
            n += 1;
        }
        i += 1;
    }
    assert(blocks@.take(i as int) =~= blocks@);
    n
}

/// The part of a list of blocks that belongs to a section.
pub open spec fn section_of(blocks: Seq<u16>, section: int) -> Seq<u16> {
    blocks.subrange(section * BLOCKS_PER_SECTION, (section + 1) * BLOCKS_PER_SECTION)
}

/// One section: how many of its blocks are not air, the blocks by the numbers
/// that the client knows them by, and the biomes.
pub open spec fn section_bytes(
    blocks: Seq<u16>,
    network: Seq<u16>,
    biomes: Seq<u8>,
    air: u16,
    layout: ChunkLayout,
    section: int,
) -> Seq<u8> {
    i16_bytes(solid_count(section_of(blocks, section), air) as i16) + (if layout.second_counter {
        i16_bytes(0)
    } else {
        Seq::empty()
    }) + block_palette_bytes(section_of(network, section), layout) + biome_palette_bytes(
        biomes,
        layout,
    )
}

/// The first `n` sections.
pub open spec fn sections_bytes(
    blocks: Seq<u16>,
    network: Seq<u16>,
    biomes: Seq<u8>,
    air: u16,
    layout: ChunkLayout,
    n: nat,
) -> Seq<u8>
    decreases n,
{
    if n == 0 {
        Seq::empty()
    } else {
        sections_bytes(blocks, network, biomes, air, layout, (n - 1) as nat) + section_bytes(
            blocks,
            network,
            biomes,
            air,
            layout,
            n - 1,
        )
    }
}

/// The light of a chunk: all of its sections are announced as empty.
pub open spec fn light_bytes() -> Seq<u8> {
    let none = varint_bytes(1) + be_bytes(0, 8);
    let all = varint_bytes(1) + be_bytes(0x3ff_ffff, 8);
    none + none + all + all + varint_bytes(0) + varint_bytes(0)
}

fn push_light(buf: &mut Vec<u8>)
    ensures
        final(buf)@ == old(buf)@ + light_bytes(),
{
    // 24 sections and one below and above them, one bit each
    let all: u128 = 0x3ff_ffff;
    write_varint(buf, 1);
    push_be(buf, 0, 8);
    write_varint(buf, 1);
    push_be(buf, 0, 8);
    write_varint(buf, 1);
    push_be(buf, all, 8);
    write_varint(buf, 1);
    push_be(buf, all, 8);
    write_varint(buf, 0);
    write_varint(buf, 0);
    assert(buf@ =~= old(buf)@ + light_bytes());
}

/// The identifier of the packet: what the packet tables give, or what newer
/// and older versions are known to have where the tables have nothing.
pub open spec fn chunk_packet_id(table_id: i32, protocol_version: i32) -> i32 {
    if table_id >= 0 {
        table_id
    } else if protocol_version >= 775 {
        45
    } else {
        44
    }
}

/// A chunk packet.
pub open spec fn chunk_packet_bytes(
    x: i32,
    z: i32,
    id: i32,
    surface: Seq<i16>,
    biomes: Seq<u8>,
    blocks: Seq<u16>,
    network: Seq<u16>,
    air: u16,
    layout: ChunkLayout,
) -> Seq<u8> {
    let sections = sections_bytes(blocks, network, biomes, air, layout, SECTION_COUNT as nat);
    varint_bytes(id as u32) + i32_bytes(x) + i32_bytes(z) + heightmaps_bytes(surface)
        + varint_bytes((sections.len() as i32) as u32) + sections + varint_bytes(0) + light_bytes()
}

/// Builds the packet of a chunk. `blocks` are its blocks with the changes to
/// it, and `network` the numbers that the client knows them by.
pub fn build_chunk_packet(
    chunk_x: i32,
    chunk_z: i32,
    table_id: i32,
    protocol_version: i32,
    chunk: &SavedChunk,
    blocks: &Vec<u16>,
    network: &Vec<u16>,
    air: u16,
    layout: ChunkLayout,
) -> (buf: Vec<u8>)
    requires
        chunk.wf(),
        blocks@.len() == BLOCKS_PER_CHUNK,
        network@.len() == BLOCKS_PER_CHUNK,
    ensures
        buf@ == chunk_packet_bytes(
            chunk_x,
            chunk_z,
            chunk_packet_id(table_id, protocol_version),
            chunk.surface_y@,
            chunk.biomes@,
            blocks@,
            network@,
            air,
            layout,
        ),
{
    let packet_id: i32 = if table_id < 0 {
        if protocol_version >= 775 {
            45
        } else {
            44
        }
    } else {
        table_id
    };
    let mut buf: Vec<u8> = Vec::new();
    write_varint(&mut buf, packet_id);
    push_i32(&mut buf, chunk_x);
    push_i32(&mut buf, chunk_z);
    push_heightmaps(&mut buf, chunk);
    let mut sections: Vec<u8> = Vec::new();
    let mut section: usize = 0;
    while section < SECTION_COUNT
        invariant
            section <= SECTION_COUNT,
            chunk.wf(),
            blocks@.len() == BLOCKS_PER_CHUNK,
            network@.len() == BLOCKS_PER_CHUNK,
            sections@ == sections_bytes(
                blocks@,
                network@,
                chunk.biomes@,
                air,
                layout,
                section as nat,
            ),
        decreases SECTION_COUNT - section,
    {
        let ghost before = sections@;
        let start: usize = section * BLOCKS_PER_SECTION;
        let here = slice_subrange(blocks.as_slice(), start, start + BLOCKS_PER_SECTION);
        let there = slice_subrange(network.as_slice(), start, start + BLOCKS_PER_SECTION);
        assert(here@ =~= section_of(blocks@, section as int));
        assert(there@ =~= section_of(network@, section as int));
        let solid: i16 = count_solid(here, air);
        push_i16(&mut sections, solid);
        if layout.second_counter {
            push_i16(&mut sections, 0);
        }
        write_block_palette(&mut sections, there, layout);
        write_biome_palette(&mut sections, chunk, layout);
        assert(sections@ =~= before + section_bytes(
            blocks@,
            network@,
            chunk.biomes@,
            air,
            layout,
            section as int,
        ));
        section += 1;
    }
    write_varint(&mut buf, sections.len() as i32);
    buf.extend_from_slice(sections.as_slice());
    write_varint(&mut buf, 0);
    push_light(&mut buf);
    assert(buf@ =~= chunk_packet_bytes(
        chunk_x,
        chunk_z,
        packet_id,
        chunk.surface_y@,
        chunk.biomes@,
        blocks@,
        network@,
        air,
        layout,
    ));
    buf
}

} // verus!
