//! What holds of stored blocks, players and keys.

use vstd::prelude::*;
use crate::big_endian::{be_bytes, lemma_be_bytes_len};
use crate::number::{hex_fixed, lemma_hex_fixed_len, signed_decimal};
use crate::record::{items_form, list_form, number_form, signed_form};
use crate::systems::interactions::{overrides_bytes, stored_overrides, Override};
use crate::systems::persistence::{state_record_bytes, state_value, PlayerState};
use crate::text::{ascii_lower_all, contains_text, has_prefix_at};
use crate::world::chunk_packet::effective_block;
use crate::world::database::{open_step, speaks_of_lock, OpenStep};
use crate::world::grid::{chunk_of, local_of};
use crate::world::player_store::{hyphenated, player_record_bytes, record_of, PlayerView};
use crate::world::chunk_gen::SavedChunk;
use crate::world::storage::{block_in, change_noted, changes_key_text, changes_value, chunk_key, chunk_record_bytes, gz_compressed, law_block_changes_override_terrain, old_changes_value, record_complete, saved_chunk_bytes, seed_of, stored_changes, widened, world_index, ChunkRecord};

verus! {

/// A block of the world belongs to the chunk that its coordinates divided by
/// sixteen give, rounded down, and lies in it at the remainders.
pub proof fn law_blocks_belong_to_chunks(block: int)
    ensures
        16 * chunk_of(block) <= block < 16 * chunk_of(block) + 16,
        local_of(block) == block - 16 * chunk_of(block),
{
}

/// The blocks of a chunk are numbered from its lowest layer up, 256 to a layer,
/// row by row towards greater z, and in a row towards greater x.
pub proof fn law_numbering_of_blocks(x: int, y: int, z: int)
    ensures
        world_index(x, y, z) == (y + 64) * 256 + (z % 16) * 16 + x % 16,
        -64 <= y <= 319 ==> 0 <= world_index(x, y, z) < 98304,
        x % 16 < 15 ==> world_index(x + 1, y, z) == world_index(x, y, z) + 1,
        z % 16 < 15 ==> world_index(x, y, z + 1) == world_index(x, y, z) + 16,
        world_index(x, y + 1, z) == world_index(x, y, z) + 256,
{
}

/// What the server says of a block is what a client is sent at its place; above
/// and below the world there is air.
pub proof fn law_clients_see_what_the_server_sees(
    changes: Map<u32, u16>,
    terrain: Seq<u16>,
    air: u16,
    x: int,
    y: int,
    z: int,
)
    ensures
        -64 <= y <= 319 ==> block_in(changes, terrain, air, x, y, z) == effective_block(
            terrain,
            changes,
            (y + 64) * 256 + (z % 16) * 16 + x % 16,
        ),
        y < -64 || y > 319 ==> block_in(changes, terrain, air, x, y, z) == air,
        -64 <= y <= 319 && changes == Map::<u32, u16>::empty() ==> block_in(
            changes,
            terrain,
            air,
            x,
            y,
            z,
        ) == terrain[(y + 64) * 256 + (z % 16) * 16 + x % 16],
{
}

/// A block that is set is sent to the clients in its new state, and all other
/// blocks of the chunk as before.
pub proof fn law_set_blocks_are_sent(
    changes: Map<u32, u16>,
    terrain: Seq<u16>,
    x: int,
    y: int,
    z: int,
    state: u16,
    i: int,
)
    requires
        -64 <= y <= 319,
        0 <= i < 98304,
    ensures
        ({
            let after = changes.insert(world_index(x, y, z) as u32, state);
            &&& effective_block(terrain, after, (y + 64) * 256 + (z % 16) * 16 + x % 16) == state
            &&& i != (y + 64) * 256 + (z % 16) * 16 + x % 16 ==> effective_block(terrain, after, i)
                == effective_block(terrain, changes, i)
        }),
{
}

/// In a list of changes the last one to a block counts.
pub proof fn law_later_changes_count(pairs: Seq<(u16, u16)>, index: u16, state: u16, other: u16)
    requires
        other != index,
    ensures
        widened(pairs.push((index, state)))[index as u32] == state,
        widened(pairs.push((index, state))).dom().contains(index as u32),
        widened(pairs.push((index, state))).dom().contains(other as u32) <==> widened(
            pairs,
        ).dom().contains(other as u32),
        widened(pairs).dom().contains(other as u32) ==> widened(
            pairs.push((index, state)),
        )[other as u32] == widened(pairs)[other as u32],
        widened(Seq::empty()) == Map::<u32, u16>::empty(),
{
    assert(pairs.push((index, state)).drop_last() =~= pairs);
}

/// A chunk is stored under the four bytes of its x and the four of its z, the
/// highest first; the changes to it under the two numbers as text.
pub proof fn law_layout_of_chunk_keys(x: i32, z: i32)
    ensures
        chunk_key(x, z).len() == 8,
        chunk_key(x, z).subrange(0, 4) == be_bytes((x as u32) as nat, 4),
        chunk_key(x, z).subrange(4, 8) == be_bytes((z as u32) as nat, 4),
        changes_key_text(x as int, z as int) == signed_decimal(x as int) + seq![','] + signed_decimal(
            z as int,
        ),
{
    lemma_be_bytes_len((x as u32) as nat, 4);
    lemma_be_bytes_len((z as u32) as nat, 4);
    assert(chunk_key(x, z).subrange(0, 4) =~= be_bytes((x as u32) as nat, 4));
    assert(chunk_key(x, z).subrange(4, 8) =~= be_bytes((z as u32) as nat, 4));
    reveal_strlit(",");
    assert(","@ =~= seq![',']);
}

/// A world that has no seed yet, or one of the wrong length, gets 42.
pub proof fn law_seed_of_a_new_world(stored: Seq<u8>)
    ensures
        seed_of(None) == 42,
        stored.len() != 8 ==> seed_of(Some(stored)) == 42,
{
}

/// A stored chunk counts if it is of the first format, with an entry for every
/// block and every column.
pub proof fn law_complete_chunks(r: ChunkRecord)
    ensures
        record_complete(r) <==> r.0 == 1 && r.1.len() == 98304 && r.2.len() == 256 && r.3.len()
            == 256 && r.4.len() == 256,
{
}

/// The layout of a player record: x, y and z in eight bytes each, yaw and pitch
/// in four, the mode, and behind the inventory the highest point, the held slot
/// and the health; numbers have their lowest byte first.
pub proof fn law_layout_of_player_records(p: PlayerView)
    ensures
        ({
            let bytes = player_record_bytes(record_of(p));
            let n = bytes.len() as int;
            &&& n >= 46
            &&& bytes.subrange(0, 8) == be_bytes(p.x as nat, 8).reverse()
            &&& bytes.subrange(8, 16) == be_bytes(p.y as nat, 8).reverse()
            &&& bytes.subrange(16, 24) == be_bytes(p.z as nat, 8).reverse()
            &&& bytes.subrange(24, 28) == be_bytes(p.yaw as nat, 4).reverse()
            &&& bytes.subrange(28, 32) == be_bytes(p.pitch as nat, 4).reverse()
            &&& bytes[32] == p.gamemode
            &&& bytes.subrange(n - 13, n - 5) == be_bytes(p.highest_y as nat, 8).reverse()
            &&& bytes[n - 5] == p.held_slot
            &&& bytes.subrange(n - 4, n) == be_bytes(p.health as nat, 4).reverse()
        }),
{
    lemma_be_bytes_len(p.x as nat, 8);
    lemma_be_bytes_len(p.y as nat, 8);
    lemma_be_bytes_len(p.z as nat, 8);
    lemma_be_bytes_len(p.yaw as nat, 4);
    lemma_be_bytes_len(p.pitch as nat, 4);
    lemma_be_bytes_len(p.highest_y as nat, 8);
    lemma_be_bytes_len(p.health as nat, 4);
    let bytes = player_record_bytes(record_of(p));
    let n = bytes.len() as int;
    assert(bytes.subrange(0, 8) =~= be_bytes(p.x as nat, 8).reverse());
    assert(bytes.subrange(8, 16) =~= be_bytes(p.y as nat, 8).reverse());
    assert(bytes.subrange(16, 24) =~= be_bytes(p.z as nat, 8).reverse());
    assert(bytes.subrange(24, 28) =~= be_bytes(p.yaw as nat, 4).reverse());
    assert(bytes.subrange(28, 32) =~= be_bytes(p.pitch as nat, 4).reverse());
    assert(bytes.subrange(n - 13, n - 5) =~= be_bytes(p.highest_y as nat, 8).reverse());
    assert(bytes.subrange(n - 4, n) =~= be_bytes(p.health as nat, 4).reverse());
}

/// An identity is written in 36 characters: hexadecimal digits from the highest
/// to the lowest, with hyphens behind the first eight and behind each of the
/// next three groups of four.
pub proof fn law_layout_of_identities(id: u128)
    ensures
        hyphenated(id).len() == 36,
        hyphenated(id)[8] == '-' && hyphenated(id)[13] == '-' && hyphenated(id)[18] == '-'
            && hyphenated(id)[23] == '-',
        hyphenated(id).subrange(24, 36) == hex_fixed(id as nat, 12),
        hyphenated(id).subrange(0, 8) == hex_fixed(
            id as nat / 0x1_0000_0000_0000_0000_0000_0000,
            8,
        ),
{
    reveal_strlit("-");
    let n = id as nat;
    lemma_hex_fixed_len(n / 0x1_0000_0000_0000_0000_0000_0000, 8);
    lemma_hex_fixed_len(n / 0x1_0000_0000_0000_0000_0000, 4);
    lemma_hex_fixed_len(n / 0x1_0000_0000_0000_0000, 4);
    lemma_hex_fixed_len(n / 0x1_0000_0000_0000, 4);
    lemma_hex_fixed_len(n, 12);
    assert(hyphenated(id).subrange(24, 36) =~= hex_fixed(n, 12));
    assert(hyphenated(id).subrange(0, 8) =~= hex_fixed(
        n / 0x1_0000_0000_0000_0000_0000_0000,
        8,
    ));
}

/// An error that says the database is locked, in capitals or not, has the lock
/// files removed; after the third failure the server gives up.
pub proof fn law_locks_are_removed(front: Seq<char>, lock: Seq<char>, back: Seq<char>, attempt: u8)
    requires
        ascii_lower_all(lock) == "locked"@ || ascii_lower_all(lock) == "acquire lock"@
            || ascii_lower_all(lock) == "wouldblock"@,
    ensures
        speaks_of_lock(front + lock + back),
        attempt < 3 ==> open_step(attempt, Some(front + lock + back)) == (OpenStep::Retry {
            remove_locks: true,
            attempt: (attempt + 1) as u8,
        }),
        attempt >= 3 ==> open_step(attempt, Some(front + lock + back)) == (OpenStep::GiveUp {
            remove_locks: true,
        }),
        open_step(attempt, None) == (OpenStep::Ready { recovered: attempt > 1 }),
{
    let m = ascii_lower_all(front + lock + back);
    let part = ascii_lower_all(lock);
    let at = front.len() as int;
    assert(m.subrange(at, at + part.len()) =~= part);
    assert(has_prefix_at(m, part, at));
    assert(contains_text(m, part));
}

/// A block change is found again: the server reads the new state at its place,
/// and at every other place of the chunk what it read before.
pub proof fn law_noted_changes_are_found(
    changes: Map<u32, u16>,
    terrain: Seq<u16>,
    air: u16,
    x: int,
    y: int,
    z: int,
    state: u16,
    x2: int,
    y2: int,
    z2: int,
)
    requires
        x / 16 == x2 / 16,
        z / 16 == z2 / 16,
    ensures
        ({
            let after = change_noted(changes, x, y, z, state);
            &&& -64 <= y <= 319 ==> block_in(after, terrain, air, x, y, z) == state
            &&& (x, y, z) != (x2, y2, z2) ==> block_in(after, terrain, air, x2, y2, z2) == block_in(
                changes,
                terrain,
                air,
                x2,
                y2,
                z2,
            )
            &&& y < -64 || y > 319 ==> after == changes
        }),
{
    if -64 <= y <= 319 {
        law_block_changes_override_terrain(changes, terrain, air, x, y, z, state, x2, y2, z2);
    }
}

/// Chunks are compressed fast, at level 1.
pub proof fn law_chunks_are_compressed_fast(chunk: SavedChunk)
    ensures
        saved_chunk_bytes(chunk) == gz_compressed(
            chunk_record_bytes(
                chunk.format_version,
                chunk.blocks@,
                chunk.biomes@,
                chunk.temperatures@,
                chunk.surface_y@,
            ),
            1,
        ),
        crate::world::storage::record_of(chunk) == (
            chunk.format_version,
            chunk.blocks@,
            chunk.biomes@,
            chunk.temperatures@,
            chunk.surface_y@,
        ),
{
}

/// The changes to a chunk are read in the current format, else in the older one;
/// without anything that can be read there are none.
pub proof fn law_changes_are_read_in_either_format(bytes: Seq<u8>)
    ensures
        stored_changes(None) == Map::<u32, u16>::empty(),
        changes_value(bytes) matches Some(changes) ==> stored_changes(Some(bytes)) == changes,
        changes_value(bytes) is None && old_changes_value(bytes) is Some ==> stored_changes(
            Some(bytes),
        ) == widened(old_changes_value(bytes)->0),
        changes_value(bytes) is None && old_changes_value(bytes) is None ==> stored_changes(
            Some(bytes),
        ) == Map::<u32, u16>::empty(),
{
}

/// The layout of a stored chunk: the version, and behind their numbers the
/// blocks, the biomes, the temperatures and the heights.
pub proof fn law_layout_of_chunk_records(version: u8, block: u16, biome: u8, warmth: i16, y: i16)
    ensures
        chunk_record_bytes(version, seq![block], seq![biome], seq![warmth], seq![y]) == seq![
            version,
            1u8,
        ] + number_form(block as nat) + seq![1u8, biome] + (seq![1u8] + signed_form(warmth as int))
            + (seq![1u8] + signed_form(y as int)),
{
    let blocks = |b: u16| number_form(b as nat);
    let heights = |h: i16| signed_form(h as int);
    lemma_one_item(block, blocks);
    lemma_one_item(warmth, heights);
    lemma_one_item(y, heights);
    assert(chunk_record_bytes(version, seq![block], seq![biome], seq![warmth], seq![y]) =~= seq![
        version,
        1u8,
    ] + number_form(block as nat) + seq![1u8, biome] + (seq![1u8] + signed_form(warmth as int)) + (
    seq![1u8] + signed_form(y as int)));
}

proof fn lemma_one_item<T>(item: T, form: spec_fn(T) -> Seq<u8>)
    ensures
        list_form(seq![item], form) == seq![1u8] + form(item),
{
    let s = seq![item];
    assert(s.drop_last() =~= Seq::<T>::empty());
    assert(items_form(s.drop_last(), form) =~= Seq::<u8>::empty());
    assert(items_form(s, form) =~= form(item));
    assert(number_form(1) == seq![1u8]);
}

/// The layout of stored overrides: behind their number x, y and z of each, and
/// its state.
pub proof fn law_layout_of_overrides(x: i32, y: i32, z: i32, state: u16)
    ensures
        overrides_bytes(seq![((x, y, z), state)]) == seq![1u8] + (signed_form(x as int)
            + signed_form(y as int) + signed_form(z as int) + number_form(state as nat)),
        overrides_bytes(Seq::empty()) == seq![0u8],
{
    lemma_one_item(
        ((x, y, z), state),
        |o: Override|
            signed_form(o.0.0 as int) + signed_form(o.0.1 as int) + signed_form(o.0.2 as int)
                + number_form(o.1 as nat),
    );
    assert(overrides_bytes(Seq::empty()) =~= seq![0u8]);
}

/// The entry of a player's state: under the identity, compressed at level 6.
pub proof fn law_entries_of_states(s: PlayerState)
    ensures
        state_value(s).0 == "player_"@ + hyphenated(s.uuid),
        state_value(s).1 == gz_compressed(state_record_bytes(s), 6),
        stored_overrides(None) == Seq::<Override>::empty(),
{
}

} // verus!
