//! A chunk packet as a client reads it: where each part stands, and what it
//! says.

use vstd::prelude::*;
use crate::big_endian::{be_bytes, be_value, i16_bytes, i32_bytes, lemma_be_bytes_len, lemma_be_limits, lemma_be_round_trip};
use crate::viakraken::utils::{law_varint_round_trip, lemma_stands_split, lemma_varint_bytes_len, stands_at, varint_bytes, varint_read};
use crate::world::chunk_packet::{all_same, array_length, biome_palette_bytes, biome_values, block_palette_bytes, chunk_packet_bytes, chunk_packet_id, height_value, height_values, height_words, heightmaps_bytes, law_packed_blocks_read_back, light_bytes, packed, section_bytes, section_of, sections_bytes, solid_count, unpacked, wide, word_bits, words_bytes, ChunkLayout};

verus! {

/// The integer of variable length at a place; nothing where it cannot be read.
pub open spec fn number_at(data: Seq<u8>, at: int) -> int {
    match varint_read(data, at).0 {
        Ok(v) => v as int,
        Err(_) => -1,
    }
}

/// The place behind the integer at a place.
pub open spec fn behind_number(data: Seq<u8>, at: int) -> int {
    varint_read(data, at).1
}

/// The word with the given number in a list of words.
pub open spec fn word_at(data: Seq<u8>, at: int, k: int) -> u64 {
    be_value(data.subrange(at + 8 * k, at + 8 * k + 8)) as u64
}

/// Where the words of a list of cells start: behind the width of a cell, and
/// behind the number of words, if the layout has it.
pub open spec fn cells_start(data: Seq<u8>, at: int, layout: ChunkLayout) -> int {
    if layout.sized_arrays {
        behind_number(data, at + 1)
    } else {
        at + 1
    }
}

/// The cell with the given number in a list of cells. A list whose cells have
/// no width has one value for all of them; else a word holds as many cells as
/// fit, the first one lowest.
pub open spec fn cell_read(data: Seq<u8>, at: int, layout: ChunkLayout, i: int) -> int {
    let bits = data[at];
    if bits == 0 {
        number_at(data, at + 1)
    } else {
        let per = 64int / bits as int;
        unpacked(
            word_at(data, cells_start(data, at, layout), i / per),
            bits as u64,
            i % per,
        ) as int
    }
}

/// The place behind a list of `n` cells.
pub open spec fn cells_end(data: Seq<u8>, at: int, layout: ChunkLayout, n: int) -> int {
    let bits = data[at];
    if bits == 0 {
        let value_end = behind_number(data, at + 1);
        if layout.sized_arrays {
            behind_number(data, value_end)
        } else {
            value_end
        }
    } else {
        let per = 64int / bits as int;
        cells_start(data, at, layout) + 8 * ((n + per - 1) / per)
    }
}

/// Where the blocks of the section at a place start: behind its counters.
pub open spec fn section_blocks(layout: ChunkLayout, at: int) -> int {
    if layout.second_counter {
        at + 4
    } else {
        at + 2
    }
}

/// Where the biomes of the section at a place start: behind its 4096 blocks.
pub open spec fn section_biomes(data: Seq<u8>, layout: ChunkLayout, at: int) -> int {
    cells_end(data, section_blocks(layout, at), layout, 4096)
}

/// Where the section with the given number starts, the first one at `start`:
/// behind the 64 biome cells of the one before.
pub open spec fn section_start(data: Seq<u8>, layout: ChunkLayout, start: int, s: nat) -> int
    decreases s,
{
    if s == 0 {
        start
    } else {
        let before = section_start(data, layout, start, (s - 1) as nat);
        cells_end(data, section_biomes(data, layout, before), layout, 64)
    }
}

/// Where the coordinates of a chunk packet stand: behind its number.
pub open spec fn coordinates_start(data: Seq<u8>) -> int {
    behind_number(data, 0)
}

/// Where the height map with the given number starts: the first behind the
/// coordinates and the number of maps, each other behind the words of the one
/// before.
pub open spec fn map_start(data: Seq<u8>, m: nat) -> int
    decreases m,
{
    if m == 0 {
        behind_number(data, coordinates_start(data) + 8)
    } else {
        let before = map_start(data, (m - 1) as nat);
        map_words(data, before) + 8 * number_at(data, behind_number(data, before))
    }
}

/// Where the words of the height map at a place start: behind the kind of map
/// and the number of words.
pub open spec fn map_words(data: Seq<u8>, at: int) -> int {
    behind_number(data, behind_number(data, at))
}

/// The height of a column in the height map at a place: nine bits, seven
/// columns to a word.
pub open spec fn height_read(data: Seq<u8>, at: int, column: int) -> int {
    unpacked(word_at(data, map_words(data, at), column / 7), 9, column % 7) as int
}

/// Where the first section starts: behind the three height maps and the size of
/// all sections.
pub open spec fn first_section(data: Seq<u8>) -> int {
    behind_number(data, map_start(data, 3))
}

proof fn lemma_number(data: Seq<u8>, at: int, n: u32)
    requires
        stands_at(data, at, varint_bytes(n)),
        n <= i32::MAX,
    ensures
        number_at(data, at) == n,
        behind_number(data, at) == at + varint_bytes(n).len(),
{
    assert((n as i32) as u32 == n);
    law_varint_round_trip(data, at, n as i32);
}

proof fn lemma_words_len(ws: Seq<u64>)
    ensures
        words_bytes(ws).len() == 8 * ws.len(),
    decreases ws.len(),
{
    if ws.len() > 0 {
        lemma_words_len(ws.drop_last());
        lemma_be_bytes_len(ws.last() as nat, 8);
    }
}

proof fn lemma_word(data: Seq<u8>, at: int, ws: Seq<u64>, k: int)
    requires
        stands_at(data, at, words_bytes(ws)),
        0 <= k < ws.len(),
    ensures
        word_at(data, at, k) == ws[k],
    decreases ws.len(),
{
    let front = words_bytes(ws.drop_last());
    let last = be_bytes(ws.last() as nat, 8);
    lemma_words_len(ws.drop_last());
    lemma_stands_split(data, at, front, last);
    if k == ws.len() - 1 {
        lemma_be_limits();
        lemma_be_bytes_len(ws.last() as nat, 8);
        lemma_be_round_trip(ws.last() as nat, 8);
    } else {
        lemma_word(data, at, ws.drop_last(), k);
    }
}

proof fn lemma_packed_biomes(values: Seq<u64>, i: int)
    requires
        values.len() == 64,
        0 <= i < 64,
        forall|k: int| 0 <= k < values.len() ==> #[trigger] values[k] < 128,
    ensures
        packed(values, 7, 9).len() == 8,
        i / 9 < 8,
        unpacked(packed(values, 7, 9)[i / 9], 7, i % 9) == values[i],
{
    let k = i / 9;
    let j = i % 9;
    let at = |d: int|
        if 9 * k + d < 64 {
            values[9 * k + d]
        } else {
            0u64
        };
    let (a, b, c) = (at(0), at(1), at(2));
    let (d, e, f) = (at(3), at(4), at(5));
    let (g, h, l) = (at(6), at(7), at(8));
    reveal_with_fuel(word_bits, 10);
    let word = packed(values, 7, 9)[k];
    assert(0u64 << 7u64 == 0 && 0u64 << 14u64 == 0 && 0u64 << 21u64 == 0 && 0u64 << 28u64 == 0
        && 0u64 << 35u64 == 0 && 0u64 << 42u64 == 0 && 0u64 << 49u64 == 0 && 0u64 << 56u64 == 0)
        by (bit_vector);
    assert(word == (((((((((0u64 | (a << 0u64)) | (b << 7u64)) | (c << 14u64)) | (d << 21u64)) | (e
        << 28u64)) | (f << 35u64)) | (g << 42u64)) | (h << 49u64)) | (l << 56u64)));
    assert(((word >> 0u64) & 0x7f == a) && ((word >> 7u64) & 0x7f == b) && ((word >> 14u64) & 0x7f
        == c) && ((word >> 21u64) & 0x7f == d) && ((word >> 28u64) & 0x7f == e) && ((word >> 35u64)
        & 0x7f == f) && ((word >> 42u64) & 0x7f == g) && ((word >> 49u64) & 0x7f == h) && ((word
        >> 56u64) & 0x7f == l) && ((1u64 << 7u64) - 1 == 0x7f)) by (bit_vector)
        requires
            word == (((((((((0u64 | (a << 0u64)) | (b << 7u64)) | (c << 14u64)) | (d << 21u64)) | (e
                << 28u64)) | (f << 35u64)) | (g << 42u64)) | (h << 49u64)) | (l << 56u64)),
            a < 128,
            b < 128,
            c < 128,
            d < 128,
            e < 128,
            f < 128,
            g < 128,
            h < 128,
            l < 128,
    ;
}

proof fn lemma_packed_heights(values: Seq<u64>, i: int)
    requires
        values.len() == 256,
        0 <= i < 256,
        forall|k: int| 0 <= k < values.len() ==> #[trigger] values[k] < 512,
    ensures
        packed(values, 9, 7).len() == 37,
        i / 7 < 37,
        unpacked(packed(values, 9, 7)[i / 7], 9, i % 7) == values[i],
{
    let k = i / 7;
    let j = i % 7;
    let at = |d: int|
        if 7 * k + d < 256 {
            values[7 * k + d]
        } else {
            0u64
        };
    let (a, b, c) = (at(0), at(1), at(2));
    let (d, e, f, g) = (at(3), at(4), at(5), at(6));
    reveal_with_fuel(word_bits, 8);
    let word = packed(values, 9, 7)[k];
    assert(0u64 << 9u64 == 0 && 0u64 << 18u64 == 0 && 0u64 << 27u64 == 0 && 0u64 << 36u64 == 0
        && 0u64 << 45u64 == 0 && 0u64 << 54u64 == 0) by (bit_vector);
    assert(word == (((((((0u64 | (a << 0u64)) | (b << 9u64)) | (c << 18u64)) | (d << 27u64)) | (e
        << 36u64)) | (f << 45u64)) | (g << 54u64)));
    assert(((word >> 0u64) & 0x1ff == a) && ((word >> 9u64) & 0x1ff == b) && ((word >> 18u64)
        & 0x1ff == c) && ((word >> 27u64) & 0x1ff == d) && ((word >> 36u64) & 0x1ff == e) && ((word
        >> 45u64) & 0x1ff == f) && ((word >> 54u64) & 0x1ff == g) && ((1u64 << 9u64) - 1 == 0x1ff))
        by (bit_vector)
        requires
            word == (((((((0u64 | (a << 0u64)) | (b << 9u64)) | (c << 18u64)) | (d << 27u64)) | (e
                << 36u64)) | (f << 45u64)) | (g << 54u64)),
            a < 512,
            b < 512,
            c < 512,
            d < 512,
            e < 512,
            f < 512,
            g < 512,
    ;
}

/// The blocks of a section are read as they were written.
proof fn lemma_blocks_read(data: Seq<u8>, at: int, blocks: Seq<u16>, layout: ChunkLayout, i: int)
    requires
        blocks.len() == 4096,
        0 <= i < 4096,
        forall|k: int| 0 <= k < 4096 ==> #[trigger] blocks[k] < 0x8000,
        stands_at(data, at, block_palette_bytes(blocks, layout)),
    ensures
        cell_read(data, at, layout, i) == blocks[i],
        cells_end(data, at, layout, 4096) == at + block_palette_bytes(blocks, layout).len(),
{
    if all_same(blocks) {
        let value = varint_bytes(blocks[0] as u32);
        let length = array_length(layout, 0);
        assert(block_palette_bytes(blocks, layout) =~= seq![0u8] + (value + length));
        lemma_stands_split(data, at, seq![0u8], value + length);
        lemma_stands_split(data, at + 1, value, length);
        assert(data.subrange(at, at + 1)[0] == 0u8);
        assert(data[at] == 0);
        lemma_number(data, at + 1, blocks[0] as u32);
        if layout.sized_arrays {
            lemma_number(data, at + 1 + value.len(), 0);
        }
        assert(blocks[i] == blocks[0]);
    } else {
        let ws = packed(wide(blocks), 15, 4);
        let length = array_length(layout, ws.len() as u32);
        assert(ws.len() == 1024);
        assert(block_palette_bytes(blocks, layout) =~= seq![15u8] + (length + words_bytes(ws)));
        lemma_stands_split(data, at, seq![15u8], length + words_bytes(ws));
        lemma_stands_split(data, at + 1, length, words_bytes(ws));
        assert(data.subrange(at, at + 1)[0] == 15u8);
        assert(data[at] == 15);
        if layout.sized_arrays {
            lemma_number(data, at + 1, 1024);
        }
        lemma_words_len(ws);
        assert(cells_start(data, at, layout) == at + 1 + length.len());
        lemma_word(data, at + 1 + length.len(), ws, i / 4);
        assert forall|k: int| 0 <= k < 4096 implies #[trigger] wide(blocks)[k] < 0x8000 by {
            assert(blocks[k] < 0x8000);
        }
        law_packed_blocks_read_back(wide(blocks), i);
    }
}

/// The biomes of a section are read as they were written.
proof fn lemma_biomes_read(data: Seq<u8>, at: int, biomes: Seq<u8>, layout: ChunkLayout, i: int)
    requires
        biomes.len() == 256,
        0 <= i < 64,
        forall|k: int| 0 <= k < 256 ==> #[trigger] biomes[k] < 128,
        stands_at(data, at, biome_palette_bytes(biomes, layout)),
    ensures
        cell_read(data, at, layout, i) == biome_values(biomes)[i],
        cells_end(data, at, layout, 64) == at + biome_palette_bytes(biomes, layout).len(),
{
    let values = biome_values(biomes);
    let ws = packed(values, 7, 9);
    let length = array_length(layout, 8);
    assert forall|k: int| 0 <= k < 64 implies #[trigger] values[k] < 128 by {
        let c = (((k / 4) % 4) * 4 + 2) * 16 + (k % 4) * 4 + 2;
        assert(0 <= c < 256);
        assert(biomes[c] < 128);
    }
    lemma_packed_biomes(values, i);
    assert(biome_palette_bytes(biomes, layout) =~= seq![7u8] + (length + words_bytes(ws)));
    lemma_stands_split(data, at, seq![7u8], length + words_bytes(ws));
    lemma_stands_split(data, at + 1, length, words_bytes(ws));
    assert(data.subrange(at, at + 1)[0] == 7u8);
    assert(data[at] == 7);
    if layout.sized_arrays {
        lemma_number(data, at + 1, 8);
    }
    lemma_words_len(ws);
    assert(cells_start(data, at, layout) == at + 1 + length.len());
    lemma_word(data, at + 1 + length.len(), ws, i / 9);
}

proof fn lemma_counter(data: Seq<u8>, at: int, n: int)
    requires
        0 <= n <= 4096,
        stands_at(data, at, i16_bytes(n as i16)),
    ensures
        be_value(data.subrange(at, at + 2)) == n,
        i16_bytes(n as i16).len() == 2,
{
    lemma_be_limits();
    assert(((n as i16) as u16) as int == n);
    lemma_be_bytes_len(n as nat, 2);
    lemma_be_round_trip(n as nat, 2);
}

proof fn lemma_solid_count_bound(blocks: Seq<u16>, air: u16)
    ensures
        solid_count(blocks, air) <= blocks.len(),
        solid_count(blocks, air) == blocks.filter(|b: u16| b != air).len(),
    decreases blocks.len(),
{
    reveal(Seq::filter);
    if blocks.len() > 0 {
        lemma_solid_count_bound(blocks.drop_last(), air);
    }
}

/// Where the parts of a section stand.
proof fn lemma_section(
    data: Seq<u8>,
    at: int,
    blocks: Seq<u16>,
    network: Seq<u16>,
    biomes: Seq<u8>,
    air: u16,
    layout: ChunkLayout,
    s: int,
)
    requires
        0 <= s < 24,
        blocks.len() == 98304,
        network.len() == 98304,
        biomes.len() == 256,
        forall|k: int| 0 <= k < 98304 ==> #[trigger] network[k] < 0x8000,
        forall|k: int| 0 <= k < 256 ==> #[trigger] biomes[k] < 128,
        stands_at(data, at, section_bytes(blocks, network, biomes, air, layout, s)),
    ensures
        be_value(data.subrange(at, at + 2)) == blocks.subrange(4096 * s, 4096 * s + 4096).filter(
            |b: u16| b != air,
        ).len(),
        forall|i: int|
            0 <= i < 4096 ==> #[trigger] cell_read(data, section_blocks(layout, at), layout, i)
                == network[4096 * s + i],
        forall|i: int|
            0 <= i < 64 ==> #[trigger] cell_read(
                data,
                section_biomes(data, layout, at),
                layout,
                i,
            ) == biome_values(biomes)[i],
        cells_end(data, section_biomes(data, layout, at), layout, 64) == at + section_bytes(
            blocks,
            network,
            biomes,
            air,
            layout,
            s,
        ).len(),
{
    let here = section_of(blocks, s);
    let there = section_of(network, s);
    assert(here =~= blocks.subrange(4096 * s, 4096 * s + 4096));
    assert(there =~= network.subrange(4096 * s, 4096 * s + 4096));
    lemma_solid_count_bound(here, air);
    let n = solid_count(here, air) as int;
    let first = i16_bytes(n as i16);
    let second = if layout.second_counter {
        i16_bytes(0)
    } else {
        Seq::empty()
    };
    let cells = block_palette_bytes(there, layout);
    let last = biome_palette_bytes(biomes, layout);
    assert(section_bytes(blocks, network, biomes, air, layout, s) =~= first + (second + (cells
        + last)));
    lemma_stands_split(data, at, first, second + (cells + last));
    lemma_counter(data, at, n);
    lemma_stands_split(data, at + 2, second, cells + last);
    if layout.second_counter {
        lemma_be_bytes_len((0i16 as u16) as nat, 2);
    }
    let from = section_blocks(layout, at);
    assert(from == at + 2 + second.len());
    lemma_stands_split(data, from, cells, last);
    assert forall|k: int| 0 <= k < 4096 implies #[trigger] there[k] < 0x8000 by {
        assert(there[k] == network[4096 * s + k]);
    }
    lemma_blocks_read(data, from, there, layout, 0);
    assert forall|i: int| 0 <= i < 4096 implies #[trigger] cell_read(data, from, layout, i)
        == network[4096 * s + i] by {
        lemma_blocks_read(data, from, there, layout, i);
    }
    let behind = from + cells.len();
    assert(section_biomes(data, layout, at) == behind);
    lemma_biomes_read(data, behind, biomes, layout, 0);
    assert forall|i: int| 0 <= i < 64 implies #[trigger] cell_read(data, behind, layout, i)
        == biome_values(biomes)[i] by {
        lemma_biomes_read(data, behind, biomes, layout, i);
    }
}

/// The sections stand one behind the other.
proof fn lemma_sections(
    data: Seq<u8>,
    start: int,
    blocks: Seq<u16>,
    network: Seq<u16>,
    biomes: Seq<u8>,
    air: u16,
    layout: ChunkLayout,
    n: nat,
    s: nat,
)
    requires
        s <= n <= 24,
        blocks.len() == 98304,
        network.len() == 98304,
        biomes.len() == 256,
        forall|k: int| 0 <= k < 98304 ==> #[trigger] network[k] < 0x8000,
        forall|k: int| 0 <= k < 256 ==> #[trigger] biomes[k] < 128,
        stands_at(data, start, sections_bytes(blocks, network, biomes, air, layout, n)),
    ensures
        section_start(data, layout, start, s) == start + sections_bytes(
            blocks,
            network,
            biomes,
            air,
            layout,
            s,
        ).len(),
        s < n ==> stands_at(
            data,
            section_start(data, layout, start, s),
            section_bytes(blocks, network, biomes, air, layout, s as int),
        ),
    decreases n, s,
{
    if n > 0 {
        let front = sections_bytes(blocks, network, biomes, air, layout, (n - 1) as nat);
        let last = section_bytes(blocks, network, biomes, air, layout, n - 1);
        lemma_stands_split(data, start, front, last);
        if s < n {
            lemma_sections(
                data,
                start,
                blocks,
                network,
                biomes,
                air,
                layout,
                (n - 1) as nat,
                s,
            );
        } else {
            lemma_sections(
                data,
                start,
                blocks,
                network,
                biomes,
                air,
                layout,
                (n - 1) as nat,
                (n - 1) as nat,
            );
            let before = section_start(data, layout, start, (n - 1) as nat);
            assert(before == start + front.len());
            lemma_section(data, before, blocks, network, biomes, air, layout, n - 1);
        }
    }
}

/// The parts of a chunk packet, each behind the one before.
proof fn lemma_packet_parts(
    x: i32,
    z: i32,
    id: i32,
    surface: Seq<i16>,
    biomes: Seq<u8>,
    blocks: Seq<u16>,
    network: Seq<u16>,
    air: u16,
    layout: ChunkLayout,
)
    requires
        surface.len() == 256,
        sections_bytes(blocks, network, biomes, air, layout, 24).len() <= i32::MAX,
    ensures
        ({
            let data = chunk_packet_bytes(
                x,
                z,
                id,
                surface,
                biomes,
                blocks,
                network,
                air,
                layout,
            );
            let sections = sections_bytes(blocks, network, biomes, air, layout, 24);
            let at = coordinates_start(data);
            &&& varint_read(data, 0).0 == Ok::<i32, crate::error::PacketError>(id)
            &&& be_value(data.subrange(at, at + 4)) == x as u32
            &&& be_value(data.subrange(at + 4, at + 8)) == z as u32
            &&& stands_at(data, at + 8, heightmaps_bytes(surface))
            &&& ({
                let size = at + 8 + heightmaps_bytes(surface).len();
                &&& number_at(data, size) == sections.len()
                &&& stands_at(data, behind_number(data, size), sections)
                &&& stands_at(
                    data,
                    behind_number(data, size) + sections.len(),
                    varint_bytes(0) + light_bytes(),
                )
                &&& data.len() == behind_number(data, size) + sections.len() + (varint_bytes(0)
                    + light_bytes()).len()
            })
        }),
{
    let data = chunk_packet_bytes(x, z, id, surface, biomes, blocks, network, air, layout);
    let sections = sections_bytes(blocks, network, biomes, air, layout, 24);
    let head = varint_bytes(id as u32);
    let maps = heightmaps_bytes(surface);
    let size = varint_bytes((sections.len() as i32) as u32);
    let end = varint_bytes(0) + light_bytes();
    assert((sections.len() as i32) as u32 == sections.len());
    lemma_be_limits();
    lemma_be_bytes_len((x as u32) as nat, 4);
    lemma_be_bytes_len((z as u32) as nat, 4);
    lemma_be_round_trip((x as u32) as nat, 4);
    lemma_be_round_trip((z as u32) as nat, 4);
    let from_end = end;
    let from_sections = sections + from_end;
    let from_size = size + from_sections;
    let from_maps = maps + from_size;
    let from_z = i32_bytes(z) + from_maps;
    let from_x = i32_bytes(x) + from_z;
    assert(data =~= head + from_x);
    assert(data.subrange(0, data.len() as int) =~= data);
    lemma_stands_split(data, 0, head, from_x);
    law_varint_round_trip(data, 0, id);
    let at = head.len() as int;
    lemma_stands_split(data, at, i32_bytes(x), from_z);
    lemma_stands_split(data, at + 4, i32_bytes(z), from_maps);
    lemma_stands_split(data, at + 8, maps, from_size);
    let size_at = at + 8 + maps.len();
    lemma_stands_split(data, size_at, size, from_sections);
    lemma_number(data, size_at, sections.len() as u32);
    lemma_stands_split(data, size_at + size.len(), sections, from_end);
}

proof fn lemma_map(data: Seq<u8>, at: int, kind: u32, surface: Seq<i16>)
    requires
        surface.len() == 256,
        kind < 128,
        stands_at(
            data,
            at,
            varint_bytes(kind) + (varint_bytes(37) + words_bytes(height_words(surface))),
        ),
    ensures
        number_at(data, at) == kind,
        number_at(data, behind_number(data, at)) == 37,
        map_words(data, at) + 8 * 37 == at + (varint_bytes(kind) + (varint_bytes(37) + words_bytes(
            height_words(surface),
        ))).len(),
        forall|c: int|
            0 <= c < 256 ==> #[trigger] height_read(data, at, c) == height_values(surface)[c],
{
    let ws = height_words(surface);
    let values = height_values(surface);
    lemma_stands_split(data, at, varint_bytes(kind), varint_bytes(37) + words_bytes(ws));
    lemma_number(data, at, kind);
    let next = at + varint_bytes(kind).len();
    lemma_stands_split(data, next, varint_bytes(37), words_bytes(ws));
    lemma_number(data, next, 37);
    lemma_words_len(ws);
    lemma_packed_heights(values, 0);
    assert forall|c: int| 0 <= c < 256 implies #[trigger] height_read(data, at, c) == values[c] by {
        lemma_packed_heights(values, c);
        lemma_word(data, map_words(data, at), ws, c / 7);
    }
}

/// The three maps stand one behind the other.
proof fn lemma_maps(data: Seq<u8>, surface: Seq<i16>)
    requires
        surface.len() == 256,
        0 <= coordinates_start(data),
        stands_at(data, coordinates_start(data) + 8, heightmaps_bytes(surface)),
    ensures
        number_at(data, coordinates_start(data) + 8) == 3,
        number_at(data, map_start(data, 0)) == 1,
        number_at(data, map_start(data, 1)) == 4,
        number_at(data, map_start(data, 2)) == 5,
        forall|m: nat, c: int|
            m < 3 && 0 <= c < 256 ==> #[trigger] height_read(data, map_start(data, m), c)
                == height_values(surface)[c],
        map_start(data, 3) == coordinates_start(data) + 8 + heightmaps_bytes(surface).len(),
{
    let at = coordinates_start(data) + 8;
    let map = varint_bytes(37) + words_bytes(height_words(surface));
    let one = varint_bytes(1) + map;
    let four = varint_bytes(4) + map;
    let five = varint_bytes(5) + map;
    let count = varint_bytes(3);
    assert(heightmaps_bytes(surface) =~= count + (one + (four + five)));
    lemma_stands_split(data, at, count, one + (four + five));
    lemma_number(data, at, 3);
    let a = at + count.len();
    lemma_stands_split(data, a, one, four + five);
    lemma_map(data, a, 1, surface);
    reveal_with_fuel(map_start, 4);
    assert(map_start(data, 0) == a);
    let b = a + one.len();
    assert(map_start(data, 1) == b);
    lemma_stands_split(data, b, four, five);
    lemma_map(data, b, 4, surface);
    let c = b + four.len();
    assert(map_start(data, 2) == c);
    lemma_map(data, c, 5, surface);
    assert forall|m: nat, k: int| m < 3 && 0 <= k < 256 implies #[trigger] height_read(
        data,
        map_start(data, m),
        k,
    ) == height_values(surface)[k] by {
        assert(m == 0 || m == 1 || m == 2);
    }
}

/// One block and one biome cell of a section.
proof fn lemma_cells(
    data: Seq<u8>,
    section: int,
    blocks: Seq<u16>,
    network: Seq<u16>,
    biomes: Seq<u8>,
    air: u16,
    layout: ChunkLayout,
    s: int,
    cell_x: int,
    cell_y: int,
    cell_z: int,
)
    requires
        0 <= s < 24,
        blocks.len() == 98304,
        network.len() == 98304,
        biomes.len() == 256,
        forall|k: int| 0 <= k < 98304 ==> #[trigger] network[k] < 0x8000,
        forall|k: int| 0 <= k < 256 ==> #[trigger] biomes[k] < 128,
        stands_at(data, section, section_bytes(blocks, network, biomes, air, layout, s)),
        0 <= cell_x < 16,
        0 <= cell_y < 16,
        0 <= cell_z < 16,
    ensures
        be_value(data.subrange(section, section + 2)) == blocks.subrange(
            4096 * s,
            4096 * s + 4096,
        ).filter(|b: u16| b != air).len(),
        cell_read(
            data,
            section_blocks(layout, section),
            layout,
            cell_y * 256 + cell_z * 16 + cell_x,
        ) == network[(16 * s + cell_y) * 256 + cell_z * 16 + cell_x],
        cell_read(
            data,
            section_biomes(data, layout, section),
            layout,
            (cell_y / 4) * 16 + (cell_z / 4) * 4 + cell_x / 4,
        ) == biomes[((cell_z / 4) * 4 + 2) * 16 + (cell_x / 4) * 4 + 2],
{
    lemma_section(data, section, blocks, network, biomes, air, layout, s);
    let i = cell_y * 256 + cell_z * 16 + cell_x;
    assert(0 <= i < 4096);
    assert(cell_read(data, section_blocks(layout, section), layout, i) == network[4096 * s + i]);
    let (bx, by, bz) = (cell_x / 4, cell_y / 4, cell_z / 4);
    let k = by * 16 + bz * 4 + bx;
    assert(0 <= k < 64);
    assert(k % 4 == bx);
    assert(k / 4 == by * 4 + bz);
    assert((k / 4) % 4 == bz);
    assert(cell_read(data, section_biomes(data, layout, section), layout, k) == biome_values(
        biomes,
    )[k]);
}

/// A client that reads a chunk packet gets the chunk: its coordinates, and at
/// every height of the world the block that was put there. Section `s` holds
/// the sixteen layers from `16 * s` above the bottom on; its counter says how
/// many of its blocks are not air, and its biome cells are those of the columns
/// in the middle of each four by four.
pub proof fn law_chunk_packet_reads_back(
    x: i32,
    z: i32,
    id: i32,
    surface: Seq<i16>,
    biomes: Seq<u8>,
    blocks: Seq<u16>,
    network: Seq<u16>,
    air: u16,
    layout: ChunkLayout,
    s: nat,
    cell_x: int,
    cell_y: int,
    cell_z: int,
)
    requires
        surface.len() == 256,
        biomes.len() == 256,
        blocks.len() == 98304,
        network.len() == 98304,
        forall|k: int| 0 <= k < 98304 ==> #[trigger] network[k] < 0x8000,
        forall|k: int| 0 <= k < 256 ==> #[trigger] biomes[k] < 128,
        s < 24,
        0 <= cell_x < 16,
        0 <= cell_y < 16,
        0 <= cell_z < 16,
    ensures
        ({
            let data = chunk_packet_bytes(
                x,
                z,
                id,
                surface,
                biomes,
                blocks,
                network,
                air,
                layout,
            );
            let at = coordinates_start(data);
            let section = section_start(data, layout, first_section(data), s);
            &&& varint_read(data, 0).0 == Ok::<i32, crate::error::PacketError>(id)
            &&& be_value(data.subrange(at, at + 4)) == x as u32
            &&& be_value(data.subrange(at + 4, at + 8)) == z as u32
            &&& be_value(data.subrange(section, section + 2)) == blocks.subrange(
                4096 * (s as int),
                4096 * (s as int) + 4096,
            ).filter(|b: u16| b != air).len()
            &&& cell_read(
                data,
                section_blocks(layout, section),
                layout,
                cell_y * 256 + cell_z * 16 + cell_x,
            ) == network[(16 * s + cell_y) * 256 + cell_z * 16 + cell_x]
            &&& cell_read(
                data,
                section_biomes(data, layout, section),
                layout,
                (cell_y / 4) * 16 + (cell_z / 4) * 4 + cell_x / 4,
            ) == biomes[((cell_z / 4) * 4 + 2) * 16 + (cell_x / 4) * 4 + 2]
        }),
{
    let data = chunk_packet_bytes(x, z, id, surface, biomes, blocks, network, air, layout);
    lemma_sections_len(blocks, network, biomes, air, layout, 24);
    lemma_packet_parts(x, z, id, surface, biomes, blocks, network, air, layout);
    lemma_maps(data, surface);
    let start = first_section(data);
    lemma_sections(data, start, blocks, network, biomes, air, layout, 24, s);
    let section = section_start(data, layout, start, s);
    lemma_cells(
        data,
        section,
        blocks,
        network,
        biomes,
        air,
        layout,
        s as int,
        cell_x,
        cell_y,
        cell_z,
    );
}

/// A client reads three height maps, of the kinds 1, 4 and 5, and in each of
/// them how far the surface of a column reaches above the bottom of the world.
pub proof fn law_height_maps_read_back(
    x: i32,
    z: i32,
    id: i32,
    surface: Seq<i16>,
    biomes: Seq<u8>,
    blocks: Seq<u16>,
    network: Seq<u16>,
    air: u16,
    layout: ChunkLayout,
    m: nat,
    column: int,
)
    requires
        surface.len() == 256,
        biomes.len() == 256,
        blocks.len() == 98304,
        network.len() == 98304,
        m < 3,
        0 <= column < 256,
        -65 <= surface[column] <= 446,
    ensures
        ({
            let data = chunk_packet_bytes(
                x,
                z,
                id,
                surface,
                biomes,
                blocks,
                network,
                air,
                layout,
            );
            &&& number_at(data, coordinates_start(data) + 8) == 3
            &&& number_at(data, map_start(data, 0)) == 1
            &&& number_at(data, map_start(data, 1)) == 4
            &&& number_at(data, map_start(data, 2)) == 5
            &&& height_read(data, map_start(data, m), column) == surface[column] + 65
        }),
{
    let data = chunk_packet_bytes(x, z, id, surface, biomes, blocks, network, air, layout);
    lemma_sections_len(blocks, network, biomes, air, layout, 24);
    lemma_packet_parts(x, z, id, surface, biomes, blocks, network, air, layout);
    lemma_maps(data, surface);
    assert(height_read(data, map_start(data, m), column) == height_values(surface)[column]);
}

proof fn lemma_sections_len(
    blocks: Seq<u16>,
    network: Seq<u16>,
    biomes: Seq<u8>,
    air: u16,
    layout: ChunkLayout,
    n: nat,
)
    requires
        n <= 24,
        network.len() == 98304,
    ensures
        sections_bytes(blocks, network, biomes, air, layout, n).len() <= 10000 * n,
    decreases n,
{
    if n > 0 {
        lemma_sections_len(blocks, network, biomes, air, layout, (n - 1) as nat);
        let there = section_of(network, n - 1);
        lemma_be_bytes_len(
            ((solid_count(section_of(blocks, n - 1), air) as i16) as u16) as nat,
            2,
        );
        lemma_be_bytes_len((0i16 as u16) as nat, 2);
        lemma_varint_bytes_len(there[0] as u32);
        lemma_varint_bytes_len(0);
        lemma_varint_bytes_len(8);
        let ws = packed(wide(there), 15, 4);
        lemma_varint_bytes_len(ws.len() as u32);
        assert(there.len() == 4096);
        assert(ws.len() == 1024);
        lemma_words_len(ws);
        lemma_words_len(packed(biome_values(biomes), 7, 9));
        assert(block_palette_bytes(there, layout).len() <= 9000);
        assert(biome_palette_bytes(biomes, layout).len() <= 100);
    }
}

proof fn lemma_tail(data: Seq<u8>, end: int)
    requires
        stands_at(data, end, varint_bytes(0) + light_bytes()),
    ensures
        (varint_bytes(0) + light_bytes()).len() == 39,
        data[end] == 0,
        data[end + 1] == 1 && word_at(data, end + 2, 0) == 0,
        data[end + 10] == 1 && word_at(data, end + 11, 0) == 0,
        data[end + 19] == 1 && word_at(data, end + 20, 0) == 0x3ff_ffff,
        data[end + 28] == 1 && word_at(data, end + 29, 0) == 0x3ff_ffff,
        data[end + 37] == 0 && data[end + 38] == 0,
{
    let none = be_bytes(0, 8);
    let all = be_bytes(0x3ff_ffff, 8);
    lemma_be_limits();
    lemma_be_bytes_len(0, 8);
    lemma_be_bytes_len(0x3ff_ffff, 8);
    lemma_be_round_trip(0, 8);
    lemma_be_round_trip(0x3ff_ffff, 8);
    let tail = seq![0u8] + (seq![1u8] + none) + (seq![1u8] + none) + (seq![1u8] + all) + (seq![1u8]
        + all) + seq![0u8] + seq![0u8];
    assert(varint_bytes(0) + light_bytes() =~= tail);
    assert(data.subrange(end, end + 39) =~= tail);
    let part = data.subrange(end, end + 39);
    assert(part[0] == 0 && part[1] == 1 && part[10] == 1 && part[19] == 1 && part[28] == 1
        && part[37] == 0 && part[38] == 0);
    assert(tail.subrange(2, 10) =~= none);
    assert(tail.subrange(11, 19) =~= none);
    assert(tail.subrange(20, 28) =~= all);
    assert(tail.subrange(29, 37) =~= all);
    assert(data.subrange(end + 2, end + 10) =~= part.subrange(2, 10));
    assert(data.subrange(end + 11, end + 19) =~= part.subrange(11, 19));
    assert(data.subrange(end + 20, end + 28) =~= part.subrange(20, 28));
    assert(data.subrange(end + 29, end + 37) =~= part.subrange(29, 37));
}

/// Behind the sections a chunk packet has no block entities and no light: of the
/// four masks the first two name no section, and the other two name all
/// twenty-six as empty; two empty lists of light end the packet.
pub proof fn law_chunk_packet_ends_without_light(
    x: i32,
    z: i32,
    id: i32,
    surface: Seq<i16>,
    biomes: Seq<u8>,
    blocks: Seq<u16>,
    network: Seq<u16>,
    air: u16,
    layout: ChunkLayout,
)
    requires
        surface.len() == 256,
        biomes.len() == 256,
        blocks.len() == 98304,
        network.len() == 98304,
    ensures
        ({
            let data = chunk_packet_bytes(
                x,
                z,
                id,
                surface,
                biomes,
                blocks,
                network,
                air,
                layout,
            );
            let end = first_section(data) + number_at(data, map_start(data, 3));
            &&& data.len() == end + 39
            &&& data[end] == 0
            &&& data[end + 1] == 1 && word_at(data, end + 2, 0) == 0
            &&& data[end + 10] == 1 && word_at(data, end + 11, 0) == 0
            &&& data[end + 19] == 1 && word_at(data, end + 20, 0) == 0x3ff_ffff
            &&& data[end + 28] == 1 && word_at(data, end + 29, 0) == 0x3ff_ffff
            &&& data[end + 37] == 0 && data[end + 38] == 0
        }),
{
    let data = chunk_packet_bytes(x, z, id, surface, biomes, blocks, network, air, layout);
    lemma_sections_len(blocks, network, biomes, air, layout, 24);
    lemma_packet_parts(x, z, id, surface, biomes, blocks, network, air, layout);
    lemma_maps(data, surface);
    let end = first_section(data) + number_at(data, map_start(data, 3));
    lemma_tail(data, end);
}

/// The number of a chunk packet is that of the tables, and where they have none
/// 45 from version 775 on and 44 before.
pub proof fn law_number_of_chunk_packets(table_id: i32, version: i32)
    ensures
        table_id >= 0 ==> chunk_packet_id(table_id, version) == table_id,
        table_id < 0 && version >= 775 ==> chunk_packet_id(table_id, version) == 45,
        table_id < 0 && version < 775 ==> chunk_packet_id(table_id, version) == 44,
{
}

/// A section of one block alone is written as that block; any other with fifteen
/// bits to a block.
pub proof fn law_uniform_sections_are_short(blocks: Seq<u16>, layout: ChunkLayout)
    requires
        blocks.len() == 4096,
    ensures
        (forall|i: int| 0 <= i < 4096 ==> #[trigger] blocks[i] == blocks[0]) <==> block_palette_bytes(
            blocks,
            layout,
        )[0] == 0,
        block_palette_bytes(blocks, layout)[0] == 0 || block_palette_bytes(blocks, layout)[0] == 15,
        biome_palette_bytes(Seq::new(256, |i: int| 0u8), layout)[0] == 7,
{
}

/// Heights that nine bits cannot hold are cut off at either end.
pub proof fn law_heights_are_cut_off(surface: i16)
    ensures
        surface < -65 ==> height_value(surface) == 0,
        surface > 446 ==> height_value(surface) == 511,
        -65 <= surface <= 446 ==> height_value(surface) == surface + 65,
{
}

} // verus!
