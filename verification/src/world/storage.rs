//! How chunks and block changes are stored: keys, records and their
//! compression.

use std::collections::HashMap;
use std::io::{Read, Write};
use std::sync::Arc;
use flate2::read::GzDecoder;
use flate2::write::GzEncoder;
use flate2::Compression;
use vstd::prelude::*;
use vstd::string::StringExecFns;
use crate::big_endian::{be_value, i32_bytes, i64_bytes, lemma_be_bytes_len, lemma_be_limits, lemma_be_round_trip, push_i32, push_i64, read_be};
use crate::number::{lemma_signed_decimal_chars, lemma_signed_decimal_injective, push_signed_decimal, signed_decimal};
use crate::record::{bytes_form, list_form, number_form, signed_form};
use crate::text::lemma_split_unique;
use crate::world::cache::{CacheKey, ChunkCache};
use crate::world::chunk_gen::{SavedChunk, CHUNK_FORMAT_VERSION};
use crate::world::grid::{block_index, chunk_coord, chunk_of, index_of, law_indices_and_positions_agree, local_coord, local_of, ChunkPosition, BLOCKS_PER_CHUNK, MAX_Y, MIN_Y};

verus! {

/// The bytes of an outcome.
pub open spec fn bytes_of(r: Option<Vec<u8>>) -> Option<Seq<u8>> {
    match r {
        Some(v) => Some(v@),
        None => None,
    }
}

/// What gzip compression at a level makes of some data.
pub uninterp spec fn gz_compressed(data: Seq<u8>, level: u32) -> Option<Seq<u8>>;

/// What gzip decompression makes of some data.
pub uninterp spec fn gz_decompressed(data: Seq<u8>) -> Option<Seq<u8>>;

/// `flate2::write::GzEncoder` compresses what is written to it. What it gives
/// depends on the data and the level only, and decompresses to the data.
#[verifier::external_body]
pub(crate) fn gz_encode(data: &[u8], level: u32) -> (r: Option<Vec<u8>>)
    requires
        level <= 9,
    ensures
        bytes_of(r) == gz_compressed(data@, level),
        r matches Some(z) ==> gz_decompressed(z@) == Some(data@),
{
    let mut encoder = GzEncoder::new(Vec::new(), Compression::new(level));
    encoder.write_all(data).ok()?;
    encoder.finish().ok()
}

/// `flate2::read::GzDecoder`, read to its end, decompresses the data, or fails.
#[verifier::external_body]
fn gz_decode(data: &[u8]) -> (r: Option<Vec<u8>>)
    ensures
        bytes_of(r) == gz_decompressed(data@),
{
    let mut decoded = Vec::new();
    GzDecoder::new(data).read_to_end(&mut decoded).ok()?;
    Some(decoded)
}

/// What a chunk record holds: the format version, the blocks, and the biomes,
/// temperatures and surface heights of the columns.
pub type ChunkRecord = (u8, Seq<u16>, Seq<u8>, Seq<i16>, Seq<i16>);

/// The bytes of a chunk record: its fields one behind the other.
pub open spec fn chunk_record_bytes(
    version: u8,
    blocks: Seq<u16>,
    biomes: Seq<u8>,
    temperatures: Seq<i16>,
    surface: Seq<i16>,
) -> Seq<u8> {
    seq![version] + list_form(blocks, |b: u16| number_form(b as nat)) + bytes_form(biomes)
        + list_form(temperatures, |t: i16| signed_form(t as int)) + list_form(
        surface,
        |y: i16| signed_form(y as int),
    )
}

/// The chunk record that bytes in the postcard format hold.
pub uninterp spec fn chunk_record_value(bytes: Seq<u8>) -> Option<ChunkRecord>;

/// `postcard::to_allocvec` encodes the fields of a chunk one behind the other:
/// single bytes as they are, other integers with a variable length, and lists
/// behind their length. It has nothing to fail on with these, and the bytes
/// decode to the fields again.
#[verifier::external_body]
fn chunk_record_encode(
    version: u8,
    blocks: &Vec<u16>,
    biomes: &Vec<u8>,
    temperatures: &Vec<i16>,
    surface: &Vec<i16>,
) -> (r: Option<Vec<u8>>)
    ensures
        bytes_of(r) == Some(
            chunk_record_bytes(version, blocks@, biomes@, temperatures@, surface@),
        ),
        chunk_record_value(r->0@) == Some(
            (version, blocks@, biomes@, temperatures@, surface@),
        ),
{
    postcard::to_allocvec(&(version, blocks, biomes, temperatures, surface)).ok()
}

/// `postcard::from_bytes` decodes the fields of a chunk, or fails.
#[verifier::external_body]
fn chunk_record_decode(bytes: &[u8]) -> (r: Option<
    (u8, Vec<u16>, Vec<u8>, Vec<i16>, Vec<i16>),
>)
    ensures
        (match r {
            Some((v, b, i, t, s)) => Some((v, b@, i@, t@, s@)),
            None => None,
        }) == chunk_record_value(bytes@),
{
    postcard::from_bytes(bytes).ok()
}

/// The bytes under which a chunk is stored: its two coordinates.
pub open spec fn chunk_key(x: i32, z: i32) -> Seq<u8> {
    i32_bytes(x) + i32_bytes(z)
}

pub fn chunk_storage_key(chunk_x: i32, chunk_z: i32) -> (key: [u8; 8])
    ensures
        key@ == chunk_key(chunk_x, chunk_z),
{
    let mut v: Vec<u8> = Vec::new();
    push_i32(&mut v, chunk_x);
    push_i32(&mut v, chunk_z);
    proof {
        lemma_be_bytes_len((chunk_x as u32) as nat, 4);
        lemma_be_bytes_len((chunk_z as u32) as nat, 4);
    }
    let key = [v[0], v[1], v[2], v[3], v[4], v[5], v[6], v[7]];
    assert(key@ =~= chunk_key(chunk_x, chunk_z));
    key
}

/// Different chunks are stored under different keys.
pub proof fn law_chunk_keys_differ(x1: i32, z1: i32, x2: i32, z2: i32)
    requires
        chunk_key(x1, z1) == chunk_key(x2, z2),
    ensures
        x1 == x2,
        z1 == z2,
{
    let k1 = chunk_key(x1, z1);
    let k2 = chunk_key(x2, z2);
    lemma_be_limits();
    lemma_be_bytes_len((x1 as u32) as nat, 4);
    lemma_be_bytes_len((x2 as u32) as nat, 4);
    lemma_be_bytes_len((z1 as u32) as nat, 4);
    lemma_be_bytes_len((z2 as u32) as nat, 4);
    assert(k1.take(4) =~= i32_bytes(x1));
    assert(k2.take(4) =~= i32_bytes(x2));
    assert(k1.skip(4) =~= i32_bytes(z1));
    assert(k2.skip(4) =~= i32_bytes(z2));
    lemma_i32_bytes_differ(x1, x2);
    lemma_i32_bytes_differ(z1, z2);
}

proof fn lemma_i32_bytes_differ(a: i32, b: i32)
    requires
        i32_bytes(a) == i32_bytes(b),
    ensures
        a == b,
{
    lemma_be_limits();
    lemma_be_round_trip((a as u32) as nat, 4);
    lemma_be_round_trip((b as u32) as nat, 4);
    assert(a as u32 == b as u32);
    assert(a == b) by (bit_vector)
        requires
            a as u32 == b as u32,
    ;
}

pub const DEFAULT_WORLD_SEED: i64 = 42;

/// The seed that a stored value holds: eight bytes, else the default.
pub open spec fn seed_of(stored: Option<Seq<u8>>) -> i64 {
    match stored {
        Some(bytes) => if bytes.len() == 8 {
            (be_value(bytes) as u64) as i64
        } else {
            DEFAULT_WORLD_SEED
        },
        None => DEFAULT_WORLD_SEED,
    }
}

/// The seed of a world, from what is stored of it. The second value is what
/// has to be stored now, if anything.
pub fn world_seed(stored: Option<&[u8]>) -> (r: (i64, Option<Vec<u8>>))
    ensures
        r.0 == seed_of(
            match stored {
                Some(bytes) => Some(bytes@),
                None => None,
            },
        ),
        bytes_of(r.1) == (if stored is Some && stored->0@.len() == 8 {
            None
        } else {
            Some(i64_bytes(DEFAULT_WORLD_SEED))
        }),
{
    match stored {
        Some(bytes) => {
            if bytes.len() == 8 {
                let value: u128 = read_be(bytes);
                proof {
                    lemma_be_limits();
                }
                return ((value as u64) as i64, None);
            }
        },
        None => {},
    }
    let mut v: Vec<u8> = Vec::new();
    push_i64(&mut v, DEFAULT_WORLD_SEED);
    assert(v@ =~= i64_bytes(DEFAULT_WORLD_SEED));
    (DEFAULT_WORLD_SEED, Some(v))
}

/// The seed that is stored when a world is first opened is the one that later
/// runs read.
pub proof fn law_stored_seed_is_read_back()
    ensures
        seed_of(Some(i64_bytes(DEFAULT_WORLD_SEED))) == DEFAULT_WORLD_SEED,
        seed_of(None) == DEFAULT_WORLD_SEED,
{
    lemma_be_limits();
    lemma_be_bytes_len((DEFAULT_WORLD_SEED as u64) as nat, 8);
    lemma_be_round_trip((DEFAULT_WORLD_SEED as u64) as nat, 8);
}

/// The stored form of a chunk: its record, compressed.
pub open spec fn saved_chunk_bytes(chunk: SavedChunk) -> Option<Seq<u8>> {
    gz_compressed(
        chunk_record_bytes(
            chunk.format_version,
            chunk.blocks@,
            chunk.biomes@,
            chunk.temperatures@,
            chunk.surface_y@,
        ),
        1,
    )
}

pub fn encode_saved_chunk(chunk: &SavedChunk) -> (r: Option<Vec<u8>>)
    ensures
        bytes_of(r) == saved_chunk_bytes(*chunk),
        r matches Some(b) ==> stored_record(b@) == Some(record_of(*chunk)),
{
    match chunk_record_encode(
        chunk.format_version,
        &chunk.blocks,
        &chunk.biomes,
        &chunk.temperatures,
        &chunk.surface_y,
    ) {
        Some(serialized) => gz_encode(serialized.as_slice(), 1),
        None => None,
    }
}

/// The record that stored bytes hold, if they decompress to one.
pub open spec fn stored_record(bytes: Seq<u8>) -> Option<ChunkRecord> {
    match gz_decompressed(bytes) {
        Some(serialized) => chunk_record_value(serialized),
        None => None,
    }
}

/// Whether a record has the current version and an entry for everything.
pub open spec fn record_complete(r: ChunkRecord) -> bool {
    r.0 == CHUNK_FORMAT_VERSION && r.1.len() == BLOCKS_PER_CHUNK && r.2.len() == 256 && r.3.len()
        == 256 && r.4.len() == 256
}

/// The chunk that a record holds; none where the record is not complete.
pub fn chunk_from_record(record: (u8, Vec<u16>, Vec<u8>, Vec<i16>, Vec<i16>)) -> (r: Option<
    SavedChunk,
>)
    ensures
        r is Some <==> record_complete(
            (record.0, record.1@, record.2@, record.3@, record.4@),
        ),
        r matches Some(c) ==> c.wf() && c.format_version == record.0 && c.blocks == record.1
            && c.biomes == record.2 && c.temperatures == record.3 && c.surface_y == record.4,
{
    let (format_version, blocks, biomes, temperatures, surface_y) = record;
    if format_version != CHUNK_FORMAT_VERSION || blocks.len() != BLOCKS_PER_CHUNK || biomes.len()
        != 256 || temperatures.len() != 256 || surface_y.len() != 256 {
        return None;
    }
    Some(SavedChunk { format_version, blocks, biomes, temperatures, surface_y })
}

/// The chunk that stored bytes hold; none where they are damaged, of another
/// version or incomplete.
pub fn decode_saved_chunk(bytes: &[u8]) -> (r: Option<SavedChunk>)
    ensures
        match stored_record(bytes@) {
            Some(record) => {
                &&& r is Some <==> record_complete(record)
                &&& r matches Some(c) ==> c.wf() && record_of(c) == record
            },
            None => r is None,
        },
{
    match gz_decode(bytes) {
        Some(decoded) => match chunk_record_decode(decoded.as_slice()) {
            Some(record) => chunk_from_record(record),
            None => None,
        },
        None => None,
    }
}

/// The record of a chunk.
pub open spec fn record_of(chunk: SavedChunk) -> ChunkRecord {
    (
        chunk.format_version,
        chunk.blocks@,
        chunk.biomes@,
        chunk.temperatures@,
        chunk.surface_y@,
    )
}

/// What a stored chunk record comes to: a chunk, if the bytes hold a complete
/// one.
pub open spec fn usable_record(stored: Option<Seq<u8>>) -> Option<ChunkRecord> {
    match stored {
        Some(bytes) => match stored_record(bytes) {
            Some(record) => if record_complete(record) {
                Some(record)
            } else {
                None
            },
            None => None,
        },
        None => None,
    }
}

pub open spec fn slice_bytes(stored: Option<&[u8]>) -> Option<Seq<u8>> {
    match stored {
        Some(bytes) => Some(bytes@),
        None => None,
    }
}

/// Whether looking a chunk up gives `chunk` and leaves the cache as `after`. What
/// is cached is given back as it is. Else the chunk is what is stored of it, or
/// a new one, of which `new` has to be stored; it is entered next to what stays
/// of the cache.
pub open spec fn chunk_looked_up(
    before: Map<CacheKey, Arc<SavedChunk>>,
    kept: Map<CacheKey, Arc<SavedChunk>>,
    after: Map<CacheKey, Arc<SavedChunk>>,
    key: CacheKey,
    stored: Option<Seq<u8>>,
    chunk: Arc<SavedChunk>,
    new: Option<Seq<u8>>,
) -> bool {
    if before.dom().contains(key) {
        chunk == before[key] && new is None && after == before
    } else {
        &&& after == kept.insert(key, chunk)
        &&& match usable_record(stored) {
            Some(record) => record_of(*chunk) == record && new is None,
            None => new == saved_chunk_bytes(*chunk) && (new matches Some(b) ==> stored_record(b)
                == Some(record_of(*chunk))),
        }
    }
}

/// A chunk of the world: from the cache, else from what is stored of it, else
/// newly generated. The second value is what has to be stored of a new chunk,
/// unless it could not be encoded.
pub fn get_or_generate_chunk<F: FnOnce() -> SavedChunk>(
    cache: &mut ChunkCache<Arc<SavedChunk>>,
    key: CacheKey,
    stored: Option<&[u8]>,
    generate: F,
) -> (r: (Arc<SavedChunk>, Option<Vec<u8>>))
    requires
        old(cache).wf(),
        generate.requires(()),
    ensures
        final(cache).wf(),
        final(cache).bound() == old(cache).bound(),
        chunk_looked_up(
            old(cache)@,
            old(cache).kept(),
            final(cache)@,
            key,
            slice_bytes(stored),
            r.0,
            bytes_of(r.1),
        ),
        !old(cache)@.dom().contains(key) && usable_record(slice_bytes(stored)) is None
            ==> generate.ensures((), *r.0),
{
    match cache.get(key) {
        Some(chunk) => {
            return (chunk.clone(), None);
        },
        None => {},
    }
    let decoded: Option<SavedChunk> = match stored {
        Some(bytes) => decode_saved_chunk(bytes),
        None => None,
    };
    let (chunk, bytes): (SavedChunk, Option<Vec<u8>>) = match decoded {
        Some(chunk) => (chunk, None),
        None => {
            let chunk = generate();
            let bytes = encode_saved_chunk(&chunk);
            (chunk, bytes)
        },
    };
    let chunk = Arc::new(chunk);
    cache.insert(key, chunk.clone());
    (chunk, bytes)
}

/// A chunk that was stored once is found as it was: it is not generated anew.
pub proof fn law_stored_chunk_is_found(chunk: SavedChunk, bytes: Seq<u8>)
    requires
        chunk.wf(),
        stored_record(bytes) == Some(record_of(chunk)),
    ensures
        usable_record(Some(bytes)) == Some(record_of(chunk)),
{
}

/// What a tree of the database holds for a chunk.
pub open spec fn stored_at(tree: Map<Seq<u8>, Seq<u8>>, x: i32, z: i32) -> Option<Seq<u8>> {
    if tree.dom().contains(chunk_key(x, z)) {
        Some(tree[chunk_key(x, z)])
    } else {
        None
    }
}

/// Whether the tree holds the record of a chunk, unless the chunk cannot be
/// encoded at all.
pub open spec fn kept_in(
    tree: Map<Seq<u8>, Seq<u8>>,
    key: CacheKey,
    chunk: SavedChunk,
) -> bool {
    usable_record(stored_at(tree, key.x, key.z)) == Some(record_of(chunk)) || saved_chunk_bytes(
        chunk,
    ) is None
}

/// Whether everything that is cached for a database is also in its tree.
pub open spec fn cache_in_step(
    cache: Map<CacheKey, Arc<SavedChunk>>,
    database: usize,
    tree: Map<Seq<u8>, Seq<u8>>,
) -> bool {
    forall|key: CacheKey|
        cache.dom().contains(key) && key.database == database ==> kept_in(
            tree,
            key,
            *(#[trigger] cache[key]),
        )
}

/// The tree after what has to be stored of a new chunk was stored.
pub open spec fn tree_after(
    tree: Map<Seq<u8>, Seq<u8>>,
    x: i32,
    z: i32,
    new: Option<Seq<u8>>,
) -> Map<Seq<u8>, Seq<u8>> {
    match new {
        Some(bytes) => tree.insert(chunk_key(x, z), bytes),
        None => tree,
    }
}

/// Every chunk that is cached is stored too: looking a chunk up, and storing
/// what has to be stored of it, keeps it so.
pub proof fn law_cached_chunks_are_stored(
    before: Map<CacheKey, Arc<SavedChunk>>,
    kept: Map<CacheKey, Arc<SavedChunk>>,
    after: Map<CacheKey, Arc<SavedChunk>>,
    key: CacheKey,
    tree: Map<Seq<u8>, Seq<u8>>,
    chunk: Arc<SavedChunk>,
    new: Option<Seq<u8>>,
)
    requires
        cache_in_step(before, key.database, tree),
        kept == before || kept == Map::<CacheKey, Arc<SavedChunk>>::empty(),
        chunk_looked_up(before, kept, after, key, stored_at(tree, key.x, key.z), chunk, new),
        chunk.wf(),
    ensures
        cache_in_step(after, key.database, tree_after(tree, key.x, key.z, new)),
        kept_in(tree_after(tree, key.x, key.z, new), key, *chunk),
{
    let stored = tree_after(tree, key.x, key.z, new);
    if before.dom().contains(key) {
        assert(kept_in(tree, key, *before[key]));
    } else {
        assert(new matches Some(bytes) ==> usable_record(Some(bytes)) == Some(record_of(*chunk)));
        assert(kept_in(stored, key, *chunk));
        assert forall|k: CacheKey|
            after.dom().contains(k) && k.database == key.database implies kept_in(
            stored,
            k,
            *(#[trigger] after[k]),
        ) by {
            if k != key {
                assert(kept_in(tree, k, *before[k]));
                if chunk_key(k.x, k.z) == chunk_key(key.x, key.z) {
                    law_chunk_keys_differ(k.x, k.z, key.x, key.z);
                }
            }
        }
    }
}

/// A chunk that was given out, new or not, is the same when it is looked up
/// again after the cache was emptied, for instance by a restart.
pub proof fn law_chunks_last(
    before: Map<CacheKey, Arc<SavedChunk>>,
    kept: Map<CacheKey, Arc<SavedChunk>>,
    after: Map<CacheKey, Arc<SavedChunk>>,
    key: CacheKey,
    tree: Map<Seq<u8>, Seq<u8>>,
    first: Arc<SavedChunk>,
    new: Option<Seq<u8>>,
    filled: Map<CacheKey, Arc<SavedChunk>>,
    second: Arc<SavedChunk>,
    again: Option<Seq<u8>>,
)
    requires
        cache_in_step(before, key.database, tree),
        kept == before || kept == Map::<CacheKey, Arc<SavedChunk>>::empty(),
        chunk_looked_up(before, kept, after, key, stored_at(tree, key.x, key.z), first, new),
        first.wf(),
        saved_chunk_bytes(*first) is Some,
        chunk_looked_up(
            Map::empty(),
            Map::empty(),
            filled,
            key,
            stored_at(tree_after(tree, key.x, key.z, new), key.x, key.z),
            second,
            again,
        ),
    ensures
        record_of(*second) == record_of(*first),
        again is None,
{
    law_cached_chunks_are_stored(before, kept, after, key, tree, first, new);
}

/// A chunk packet, from the cache or newly built.
pub fn encode_chunk_packet<F: FnOnce() -> Vec<u8>>(
    cache: &mut ChunkCache<Arc<Vec<u8>>>,
    key: CacheKey,
    build: F,
) -> (r: Arc<Vec<u8>>)
    requires
        old(cache).wf(),
        build.requires(()),
    ensures
        final(cache).wf(),
        final(cache).bound() == old(cache).bound(),
        old(cache)@.dom().contains(key) ==> r == old(cache)@[key] && final(cache)@ == old(cache)@,
        !old(cache)@.dom().contains(key) ==> build.ensures((), *r)
            && final(cache)@ == old(cache).kept().insert(key, r),
{
    match cache.get(key) {
        Some(packet) => {
            return packet.clone();
        },
        None => {},
    }
    let packet = Arc::new(build());
    cache.insert(key, packet.clone());
    packet
}

/// The changes to a chunk: block states by index.
pub uninterp spec fn changes_value(bytes: Seq<u8>) -> Option<Map<u32, u16>>;

/// The changes in the older format, with 16-bit indices, as a list.
pub uninterp spec fn old_changes_value(bytes: Seq<u8>) -> Option<Seq<(u16, u16)>>;

/// `postcard::to_allocvec` encodes a map of changes. It has nothing to fail on
/// with integers, and the bytes decode to the same map. The order of the pairs
/// in the bytes is that in which the map is walked, so the bytes themselves are
/// left open.
#[verifier::external_body]
fn changes_encode(changes: &HashMap<u32, u16>) -> (r: Option<Vec<u8>>)
    ensures
        r is Some,
        changes_value(r->0@) == Some(changes@),
{
    postcard::to_allocvec(changes).ok()
}

/// `postcard::from_bytes` decodes a map of changes, or fails.
#[verifier::external_body]
fn changes_decode(bytes: &[u8]) -> (r: Option<HashMap<u32, u16>>)
    ensures
        (match r {
            Some(m) => Some(m@),
            None => None,
        }) == changes_value(bytes@),
{
    postcard::from_bytes(bytes).ok()
}

/// `postcard::from_bytes` decodes a list of changes with 16-bit indices, or
/// fails. A map is stored as the list of its pairs.
#[verifier::external_body]
fn old_changes_decode(bytes: &[u8]) -> (r: Option<Vec<(u16, u16)>>)
    ensures
        (match r {
            Some(v) => Some(v@),
            None => None,
        }) == old_changes_value(bytes@),
{
    postcard::from_bytes(bytes).ok()
}

/// The map that a list of pairs makes: a later pair replaces an earlier one.
pub open spec fn widened(pairs: Seq<(u16, u16)>) -> Map<u32, u16>
    decreases pairs.len(),
{
    if pairs.len() == 0 {
        Map::empty()
    } else {
        widened(pairs.drop_last()).insert(pairs.last().0 as u32, pairs.last().1)
    }
}

pub fn widen_changes(pairs: &Vec<(u16, u16)>) -> (r: HashMap<u32, u16>)
    ensures
        r@ == widened(pairs@),
{
    let mut r: HashMap<u32, u16> = HashMap::new();
    let mut i: usize = 0;
    while i < pairs.len()
        invariant
            i <= pairs.len(),
            r@ == widened(pairs@.take(i as int)),
        decreases pairs.len() - i,
    {
        let (index, state) = pairs[i];
        r.insert(index as u32, state);
        proof {
            assert(pairs@.take(i + 1).drop_last() =~= pairs@.take(i as int));
            assert(pairs@.take(i + 1).last() == pairs@[i as int]);
        }
        i += 1;
    }
    assert(pairs@.take(i as int) =~= pairs@);
    r
}

/// The changes that stored bytes hold, in either format; none where there is
/// nothing stored or it cannot be read.
pub open spec fn stored_changes(stored: Option<Seq<u8>>) -> Map<u32, u16> {
    match stored {
        Some(bytes) => match changes_value(bytes) {
            Some(changes) => changes,
            None => match old_changes_value(bytes) {
                Some(pairs) => widened(pairs),
                None => Map::empty(),
            },
        },
        None => Map::empty(),
    }
}

pub fn get_chunk_mods(stored: Option<&[u8]>) -> (r: HashMap<u32, u16>)
    ensures
        r@ == stored_changes(
            match stored {
                Some(bytes) => Some(bytes@),
                None => None,
            },
        ),
{
    match stored {
        Some(bytes) => {
            match changes_decode(bytes) {
                Some(changes) => return changes,
                None => {},
            }
            match old_changes_decode(bytes) {
                Some(pairs) => widen_changes(&pairs),
                None => HashMap::new(),
            }
        },
        None => HashMap::new(),
    }
}

/// The text under which the changes to a chunk are stored.
pub open spec fn changes_key_text(x: int, z: int) -> Seq<char> {
    signed_decimal(x) + ","@ + signed_decimal(z)
}

pub fn changes_key(chunk_x: i32, chunk_z: i32) -> (s: String)
    ensures
        s@ == changes_key_text(chunk_x as int, chunk_z as int),
{
    let mut s = String::new();
    push_signed_decimal(&mut s, chunk_x as i64);
    s.append(",");
    push_signed_decimal(&mut s, chunk_z as i64);
    assert(s@ =~= changes_key_text(chunk_x as int, chunk_z as int));
    s
}

/// The changes to different chunks are stored under different keys.
pub proof fn law_changes_keys_differ(x1: int, z1: int, x2: int, z2: int)
    requires
        changes_key_text(x1, z1) == changes_key_text(x2, z2),
    ensures
        x1 == x2,
        z1 == z2,
{
    reveal_strlit(",");
    assert(","@ =~= seq![',']);
    lemma_signed_decimal_chars(x1);
    lemma_signed_decimal_chars(x2);
    lemma_split_unique(
        signed_decimal(x1),
        signed_decimal(z1),
        signed_decimal(x2),
        signed_decimal(z2),
        ',',
    );
    lemma_signed_decimal_injective(x1, x2);
    lemma_signed_decimal_injective(z1, z2);
}

/// The index of a block of the world in its chunk.
pub open spec fn world_index(x: int, y: int, z: int) -> int {
    index_of(local_of(x), y, local_of(z))
}

/// The changes to a chunk once a block of it has a new state; blocks above or
/// below the world are not noted.
pub open spec fn change_noted(
    changes: Map<u32, u16>,
    x: int,
    y: int,
    z: int,
    state_id: u16,
) -> Map<u32, u16> {
    if MIN_Y <= y <= MAX_Y {
        changes.insert(world_index(x, y, z) as u32, state_id)
    } else {
        changes
    }
}

/// Notes the new state of a block among the changes to its chunk. Blocks above
/// or below the world are not noted.
pub fn note_block_change(changes: &mut HashMap<u32, u16>, x: i32, y: i32, z: i32, state_id: u16)
    ensures
        final(changes)@ == change_noted(old(changes)@, x as int, y as int, z as int, state_id),
{
    match block_index(local_coord(x), y, local_coord(z)) {
        Some(index) => {
            changes.insert(index as u32, state_id);
        },
        None => {},
    }
}

/// What has to be stored for a block change.
#[derive(Debug)]
pub struct StoredChange {
    pub key: String,
    pub bytes: Vec<u8>,
    pub chunk: ChunkPosition,
}

/// The keys that do not belong to a chunk of a database.
pub open spec fn keys_elsewhere(database: usize, chunk: ChunkPosition) -> Set<CacheKey> {
    Set::new(
        |key: CacheKey| !(key.database == database && key.x == chunk.x && key.z == chunk.z),
    )
}

/// Whether a cache lost what it held for a chunk of a database, and nothing
/// else.
pub open spec fn forgotten<V>(
    before: Map<CacheKey, V>,
    after: Map<CacheKey, V>,
    database: usize,
    chunk: ChunkPosition,
) -> bool {
    after == before.restrict(keys_elsewhere(database, chunk))
}

/// The changes to the chunk of a block, with the block's new state among them,
/// ready to be stored; nothing for a block above or below the world. `stored`
/// is what is stored for that chunk of the database so far. The packets that
/// the cache holds for the chunk are out of date and leave it.
pub fn save_block_change(
    cache: &mut ChunkCache<Arc<Vec<u8>>>,
    database: usize,
    stored: Option<&[u8]>,
    x: i32,
    y: i32,
    z: i32,
    state_id: u16,
) -> (r: Option<StoredChange>)
    requires
        old(cache).wf(),
    ensures
        final(cache).wf(),
        final(cache).bound() == old(cache).bound(),
        r is Some <==> MIN_Y <= y <= MAX_Y,
        match r {
            Some(change) => forgotten(old(cache)@, final(cache)@, database, change.chunk),
            None => final(cache)@ == old(cache)@,
        },
        r matches Some(change) ==> change.key@ == changes_key_text(
            chunk_of(x as int),
            chunk_of(z as int),
        ) && change.chunk.x == chunk_of(x as int) && change.chunk.z == chunk_of(z as int)
            && stored_changes(Some(change.bytes@)) == change_noted(
            stored_changes(
                match stored {
                    Some(bytes) => Some(bytes@),
                    None => None,
                },
            ),
            x as int,
            y as int,
            z as int,
            state_id,
        ),
{
    if y < MIN_Y || y > MAX_Y {
        return None;
    }
    let chunk = ChunkPosition { x: chunk_coord(x), z: chunk_coord(z) };
    let mut changes = get_chunk_mods(stored);
    note_block_change(&mut changes, x, y, z, state_id);
    match changes_encode(&changes) {
        Some(bytes) => {
            cache.forget_chunk(database, chunk.x, chunk.z);
            assert(cache@ =~= old(cache)@.restrict(keys_elsewhere(database, chunk)));
            Some(StoredChange { key: changes_key(chunk.x, chunk.z), bytes, chunk })
        },
        None => None,
    }
}

/// After a block change no packet of its chunk is cached, for any version, so the
/// next one is built anew; packets of other chunks stay.
pub proof fn law_changed_chunks_are_built_anew<V>(
    before: Map<CacheKey, V>,
    after: Map<CacheKey, V>,
    database: usize,
    chunk: ChunkPosition,
    key: CacheKey,
)
    requires
        forgotten(before, after, database, chunk),
    ensures
        key.database == database && key.x == chunk.x && key.z == chunk.z ==> !after.dom().contains(
            key,
        ),
        !(key.database == database && key.x == chunk.x && key.z == chunk.z) ==> (
        after.dom().contains(key) <==> before.dom().contains(key)) && (after.dom().contains(key)
            ==> after[key] == before[key]),
{
}

/// The state of a block: what was changed last, else what the terrain has;
/// air above and below the world.
pub open spec fn block_in(
    changes: Map<u32, u16>,
    terrain: Seq<u16>,
    air: u16,
    x: int,
    y: int,
    z: int,
) -> u16 {
    let i = world_index(x, y, z);
    if !(MIN_Y <= y <= MAX_Y) {
        air
    } else if changes.dom().contains(i as u32) {
        changes[i as u32]
    } else {
        terrain[i]
    }
}

pub fn get_block_state(
    changes: &HashMap<u32, u16>,
    chunk: &SavedChunk,
    air: u16,
    x: i32,
    y: i32,
    z: i32,
) -> (r: u16)
    requires
        chunk.wf(),
    ensures
        r == block_in(changes@, chunk.blocks@, air, x as int, y as int, z as int),
{
    match block_index(local_coord(x), y, local_coord(z)) {
        Some(index) => match changes.get(&(index as u32)) {
            Some(state) => *state,
            None => chunk.blocks[index],
        },
        None => air,
    }
}

/// A block change replaces the terrain and every earlier change at its
/// position, and nothing at any other position of the chunk.
pub proof fn law_block_changes_override_terrain(
    changes: Map<u32, u16>,
    terrain: Seq<u16>,
    air: u16,
    x: int,
    y: int,
    z: int,
    state: u16,
    x2: int,
    y2: int,
    z2: int,
)
    requires
        MIN_Y <= y <= MAX_Y,
        chunk_of(x) == chunk_of(x2),
        chunk_of(z) == chunk_of(z2),
    ensures
        ({
            let after = changes.insert(world_index(x, y, z) as u32, state);
            &&& block_in(after, terrain, air, x, y, z) == state
            &&& (x, y, z) != (x2, y2, z2) ==> block_in(after, terrain, air, x2, y2, z2) == block_in(
                changes,
                terrain,
                air,
                x2,
                y2,
                z2,
            )
        }),
{
    law_indices_and_positions_agree(local_of(x), y, local_of(z), 0);
    if MIN_Y <= y2 <= MAX_Y {
        law_indices_and_positions_agree(local_of(x2), y2, local_of(z2), 0);
        if world_index(x, y, z) == world_index(x2, y2, z2) {
            assert(local_of(x) == local_of(x2) && y == y2 && local_of(z) == local_of(z2));
            assert(x == x2 && z == z2);
        }
    }
}

} // verus!
