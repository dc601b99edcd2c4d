use std::collections::HashMap;
use std::io::Read;
use std::sync::Arc;

use kraken::world::cache::{CacheKey, ChunkCache};
use kraken::world::chunk_gen::{generate_chunk, place_tree, tree_site, SavedChunk};
use kraken::world::chunk_packet::{
    build_chunk_packet, effective_blocks, write_biome_palette, write_block_palette, ChunkLayout,
};
use kraken::world::database::{initialize_world_db, is_lock_error, OpenStep};
use kraken::world::grid::{
    block_index, chunk_coord, column_index, local_coord, BlockPosition, ChunkPosition,
    BLOCKS_PER_CHUNK, MIN_Y,
};
use kraken::world::storage::{
    changes_key, chunk_from_record, chunk_storage_key, decode_saved_chunk, encode_chunk_packet,
    encode_saved_chunk, get_block_state, get_chunk_mods, get_or_generate_chunk, save_block_change,
    widen_changes, world_seed, DEFAULT_WORLD_SEED,
};
use kraken::world::terrain::{
    climate_anchor, climate_at, coordinate_hash, ground_block, is_hollow, noise_seeds, ore_state,
    surface_height, BiomeIds, ColumnSample, TerrainBiome, TerrainBlocks,
};
use noise::{NoiseFn, Perlin};

fn blocks() -> TerrainBlocks {
    TerrainBlocks {
        air: 0,
        bedrock: 85,
        stone: 1,
        deepslate: 25964,
        dirt: 10,
        grass: 9,
        sand: 118,
        sandstone: 578,
        snow: 5780,
        diamond_ore: 4274,
        redstone_ore: 5735,
        gold_ore: 129,
        lapis_ore: 563,
        iron_ore: 131,
        copper_ore: 23950,
        coal_ore: 133,
        deepslate_diamond_ore: 4275,
        deepslate_redstone_ore: 5737,
        deepslate_gold_ore: 130,
        deepslate_lapis_ore: 564,
        deepslate_iron_ore: 132,
        deepslate_copper_ore: 23951,
        deepslate_coal_ore: 134,
        spruce_log: 140,
        spruce_leaves: 280,
        acacia_log: 149,
        acacia_leaves: 364,
        oak_log: 137,
        oak_leaves: 252,
    }
}

fn biome_ids() -> BiomeIds {
    BiomeIds { snowy_plains: 46, taiga: 55, forest: 21, plains: 40, savanna: 43, desert: 14 }
}

struct Fields {
    terrain: Perlin,
    temperature: Perlin,
    moisture: Perlin,
    cave: Perlin,
    tunnel: Perlin,
}

impl Fields {
    fn new(seed: i64) -> Fields {
        let seeds = noise_seeds(seed);
        Fields {
            terrain: Perlin::new(seeds.terrain),
            temperature: Perlin::new(seeds.temperature),
            moisture: Perlin::new(seeds.moisture),
            cave: Perlin::new(seeds.cave),
            tunnel: Perlin::new(seeds.tunnel),
        }
    }

    fn column(&self, x: i32, z: i32) -> ColumnSample {
        let raw = contextual_noise(&self.temperature, x, z, 128);
        let moisture = contextual_noise(&self.moisture, x, z, 112);
        let temperature = (raw * 0.72 + 0.55).clamp(-0.25, 1.35);
        let biome = climate_at(temperature.to_bits(), moisture.to_bits());
        let broad = self.terrain.get([x as f64 / 180.0, z as f64 / 180.0]);
        let detail = self.terrain.get([x as f64 / 42.0, z as f64 / 42.0]);
        let offset = biome.surface_offset() as f64;
        ColumnSample {
            biome,
            temperature: (temperature * 1000.0).round() as i16,
            surface: (67.0 + offset + broad * 13.0 + detail * 3.0).round() as i32,
        }
    }

    fn hollow(&self, x: i32, y: i32, z: i32) -> bool {
        let cave = self.cave.get([x as f64 / 31.0, y as f64 / 23.0, z as f64 / 31.0]);
        let tunnel = self.tunnel.get([x as f64 / 57.0, y as f64 / 19.0, z as f64 / 57.0]);
        is_hollow(cave.to_bits(), tunnel.to_bits())
    }
}

fn smoothstep(value: f64) -> f64 {
    value * value * (3.0 - 2.0 * value)
}

fn contextual_noise(noise: &Perlin, x: i32, z: i32, anchor_size: i32) -> f64 {
    let (anchor_x, behind_x) = climate_anchor(x, anchor_size);
    let (anchor_z, behind_z) = climate_anchor(z, anchor_size);
    let fraction_x = smoothstep(behind_x as f64 / anchor_size as f64);
    let fraction_z = smoothstep(behind_z as f64 / anchor_size as f64);
    let sample = |x: i32, z: i32| noise.get([x as f64 / 3.0, z as f64 / 3.0]);
    let north = sample(anchor_x, anchor_z) * (1.0 - fraction_x)
        + sample(anchor_x + 1, anchor_z) * fraction_x;
    let south = sample(anchor_x, anchor_z + 1) * (1.0 - fraction_x)
        + sample(anchor_x + 1, anchor_z + 1) * fraction_x;
    north * (1.0 - fraction_z) + south * fraction_z
}

fn sampled_chunk(x: i32, z: i32, seed: i64) -> SavedChunk {
    let fields = Fields::new(seed);
    let position = ChunkPosition { x, z };
    let mut columns = Vec::new();
    for local_z in 0..16 {
        for local_x in 0..16 {
            columns.push(fields.column(x * 16 + local_x, z * 16 + local_z));
        }
    }
    let mut hollow = Vec::new();
    for y in -64..320 {
        for local_z in 0..16 {
            for local_x in 0..16 {
                let column = &columns[column_index(local_x as usize, local_z as usize)];
                hollow.push(
                    y < surface_height(column)
                        && fields.hollow(x * 16 + local_x, y, z * 16 + local_z),
                );
            }
        }
    }
    let mut trees = Vec::new();
    for k in 0..36 {
        let site = tree_site(position, seed, k);
        trees.push(fields.column(site.x, site.z));
    }
    generate_chunk(position, seed, &blocks(), &biome_ids(), &columns, &hollow, &trees)
}

/// The parts of a database that chunks need.
struct World {
    saved: sled::Tree,
    changes: sled::Tree,
    cache: ChunkCache<Arc<SavedChunk>>,
    packets: ChunkCache<Arc<Vec<u8>>>,
}

impl World {
    fn temporary() -> World {
        let db = sled::Config::new().temporary(true).open().unwrap();
        World {
            saved: db.open_tree("saved_chunks_v1").unwrap(),
            changes: db.open_tree("chunk_mods").unwrap(),
            cache: ChunkCache::new(128),
            packets: ChunkCache::new(512),
        }
    }

    fn chunk(&mut self, x: i32, z: i32) -> Arc<SavedChunk> {
        let key = CacheKey { database: 1, x, z, protocol: 0 };
        let stored = self.saved.get(chunk_storage_key(x, z)).unwrap();
        let (chunk, bytes) = get_or_generate_chunk(&mut self.cache, key, stored.as_deref(), || {
            sampled_chunk(x, z, DEFAULT_WORLD_SEED)
        });
        if let Some(bytes) = bytes {
            self.saved.insert(chunk_storage_key(x, z), bytes).unwrap();
        }
        chunk
    }

    fn changes(&self, x: i32, z: i32) -> HashMap<u32, u16> {
        let stored = self.changes.get(changes_key(x, z)).unwrap();
        get_chunk_mods(stored.as_deref())
    }

    fn block(&mut self, x: i32, y: i32, z: i32) -> u16 {
        let (cx, cz) = (chunk_coord(x), chunk_coord(z));
        let changes = self.changes(cx, cz);
        let chunk = self.chunk(cx, cz);
        get_block_state(&changes, &chunk, 0, x, y, z)
    }

    fn set(&mut self, x: i32, y: i32, z: i32, state: u16) {
        let stored = self.changes.get(changes_key(chunk_coord(x), chunk_coord(z))).unwrap();
        if let Some(change) = save_block_change(&mut self.packets, 1, stored.as_deref(), x, y, z, state) {
            self.changes.insert(change.key.as_bytes(), change.bytes).unwrap();
        }
    }
}

#[test]
fn generated_chunks_are_saved_and_stable() {
    let mut world = World::temporary();
    let first = world.chunk(4, -3);
    world.cache = ChunkCache::new(128);
    let second = world.chunk(4, -3);
    assert_eq!(first.blocks, second.blocks);
    assert_eq!(first.biomes, second.biomes);
    assert_eq!(first.temperatures, second.temperatures);
    assert!(!Arc::ptr_eq(&first, &second));
    assert!(Arc::ptr_eq(&second, &world.chunk(4, -3)));
}

#[test]
fn neighboring_chunks_share_tree_canopies_without_seams() {
    let b = blocks();
    let empty_chunk = || SavedChunk {
        format_version: 1,
        blocks: vec![b.air; BLOCKS_PER_CHUNK],
        biomes: vec![TerrainBiome::Forest.protocol_id(&biome_ids()); 256],
        temperatures: vec![700; 256],
        surface_y: vec![69; 256],
    };
    let mut left = empty_chunk();
    let mut right = empty_chunk();
    let origin = BlockPosition { x: 15, y: 70, z: 8 };
    place_tree(&mut left, &b, ChunkPosition { x: 0, z: 0 }, origin, TerrainBiome::Forest, 1);
    place_tree(&mut right, &b, ChunkPosition { x: 1, z: 0 }, origin, TerrainBiome::Forest, 1);
    let leaves = [b.oak_leaves, b.spruce_leaves, b.acacia_leaves];
    assert!(left.blocks.iter().any(|state| leaves.contains(state)));
    assert!(right.blocks.iter().any(|state| leaves.contains(state)));
    assert_eq!(left.blocks[block_index(15, 70, 8).unwrap()], b.oak_log);
    assert!(!right.blocks.contains(&b.oak_log));
}

#[test]
fn block_changes_override_saved_terrain() {
    let mut world = World::temporary();
    let original = world.block(17, 70, -1);
    world.set(17, 70, -1, 42);
    assert_eq!(world.block(17, 70, -1), 42);
    assert_ne!(original, 42);
}

#[test]
fn underground_contains_caves_and_ores() {
    let chunk = sampled_chunk(0, 0, DEFAULT_WORLD_SEED);
    let air = blocks().air;
    let diamond = blocks().deepslate_diamond_ore;
    let underground = &chunk.blocks[..((60 - MIN_Y) as usize * 256)];
    assert!(underground.iter().any(|state| *state == air));
    assert!(underground.iter().any(|state| *state == diamond));
}

#[test]
fn other_blocks_keep_their_state() {
    let mut world = World::temporary();
    let before = world.block(17, 71, -1);
    world.set(17, 70, -1, 42);
    world.set(1, 70, -1, 43);
    assert_eq!(world.block(17, 71, -1), before);
    assert_eq!(world.block(17, 70, -1), 42);
    assert_eq!(world.block(17, 400, -1), 0);
    assert!(save_block_change(&mut world.packets, 1, None, 0, 320, 0, 1).is_none());
    assert!(save_block_change(&mut world.packets, 1, None, 0, -65, 0, 1).is_none());
}

#[test]
fn generated_chunks_lie_between_bedrock_and_sky() {
    let chunk = sampled_chunk(2, 5, 7);
    for z in 0..16 {
        for x in 0..16 {
            assert_eq!(chunk.blocks[block_index(x, -64, z).unwrap()], 85);
            assert_eq!(chunk.blocks[block_index(x, 319, z).unwrap()], 0);
            let surface = chunk.surface_y[column_index(x, z)];
            assert!((48..=110).contains(&surface));
        }
    }
    assert_eq!(chunk.biomes.len(), 256);
    assert_eq!(chunk.temperatures.len(), 256);
}

#[test]
fn chunks_round_trip_through_storage() {
    let chunk = sampled_chunk(-1, 0, 42);
    let bytes = encode_saved_chunk(&chunk).unwrap();
    assert!(bytes.len() < 98304);
    assert_eq!(&bytes[..2], &[0x1f, 0x8b]);
    let decoded = decode_saved_chunk(&bytes).unwrap();
    assert_eq!(decoded.blocks, chunk.blocks);
    assert_eq!(decoded.surface_y, chunk.surface_y);
    assert_eq!(decoded.format_version, 1);
    assert!(decode_saved_chunk(&[1, 2, 3]).is_none());
    assert!(decode_saved_chunk(&bytes[..bytes.len() / 2]).is_none());
}

#[test]
fn incomplete_chunk_records_are_refused() {
    let record = |version: u8, blocks: usize, columns: usize| {
        (version, vec![0u16; blocks], vec![0u8; columns], vec![0i16; columns], vec![0i16; columns])
    };
    assert!(chunk_from_record(record(1, 98304, 256)).is_some());
    assert!(chunk_from_record(record(2, 98304, 256)).is_none());
    assert!(chunk_from_record(record(1, 98303, 256)).is_none());
    assert!(chunk_from_record(record(1, 98304, 255)).is_none());
}

#[test]
fn chunk_keys_are_the_coordinates() {
    assert_eq!(chunk_storage_key(1, -1), [0, 0, 0, 1, 0xff, 0xff, 0xff, 0xff]);
    assert_ne!(chunk_storage_key(1, 2), chunk_storage_key(2, 1));
    assert_eq!(changes_key(-3, 12), "-3,12");
    assert_ne!(changes_key(1, 11), changes_key(11, 1));
}

#[test]
fn the_world_seed_is_stored_once() {
    let (seed, store) = world_seed(None);
    assert_eq!(seed, 42);
    let bytes = store.unwrap();
    assert_eq!(bytes, vec![0, 0, 0, 0, 0, 0, 0, 42]);
    assert_eq!(world_seed(Some(&bytes)), (42, None));
    assert_eq!(world_seed(Some(&[0xff; 8])), (-1, None));
    assert_eq!(world_seed(Some(&[1, 2])).0, 42);
    assert!(world_seed(Some(&[1, 2])).1.is_some());
}

#[test]
fn old_changes_are_widened() {
    let old: HashMap<u16, u16> = HashMap::from([(7, 70), (65535, 9)]);
    let bytes = postcard::to_allocvec(&old).unwrap();
    let changes = get_chunk_mods(Some(&bytes));
    assert_eq!(changes.get(&7), Some(&70));
    assert_eq!(changes.get(&65535), Some(&9));
    assert_eq!(changes.len(), 2);
    assert!(get_chunk_mods(Some(&[])).is_empty());
    assert!(get_chunk_mods(None).is_empty());
    assert_eq!(widen_changes(&vec![(1, 2), (1, 3)]).get(&1), Some(&3));
}

#[test]
fn indices_and_positions_agree() {
    assert_eq!(block_index(0, -64, 0), Some(0));
    assert_eq!(block_index(15, 319, 15), Some(98303));
    assert_eq!(block_index(3, -63, 2), Some(256 + 35));
    assert_eq!(block_index(16, 0, 0), None);
    assert_eq!(block_index(0, 320, 0), None);
    assert_eq!(block_index(0, -65, 0), None);
    assert_eq!((chunk_coord(-1), local_coord(-1)), (-1, 15));
    assert_eq!((chunk_coord(16), local_coord(16)), (1, 0));
    assert_eq!((chunk_coord(i32::MIN), local_coord(i32::MIN)), (-134217728, 0));
}

#[test]
fn coordinate_hashes_are_those_of_the_world() {
    let slow = |seed: i64, x: i32, y: i32, z: i32| {
        let mut value = seed as u64
            ^ (x as i64 as u64).wrapping_mul(0x9e3779b185ebca87)
            ^ (y as i64 as u64).wrapping_mul(0xc2b2ae3d27d4eb4f)
            ^ (z as i64 as u64).wrapping_mul(0x165667b19e3779f9);
        value ^= value >> 30;
        value = value.wrapping_mul(0xbf58476d1ce4e5b9);
        value ^= value >> 27;
        value = value.wrapping_mul(0x94d049bb133111eb);
        value ^ (value >> 31)
    };
    for (seed, x, y, z) in [(42, 0, 0, 0), (42, -17, -60, 900), (-5, i32::MIN, 7, i32::MAX)] {
        assert_eq!(coordinate_hash(seed, x, y, z), slow(seed, x, y, z));
    }
}

#[test]
fn ores_depend_on_height_and_roll() {
    let b = blocks();
    let mut seen = Vec::new();
    for y in -59..128 {
        for x in 0..60 {
            for z in 0..10 {
                let state = ore_state(&b, 42, x, y, z, 1);
                let roll = coordinate_hash(42, x, y, z) % 10_000;
                if roll >= 235 {
                    assert_eq!(state, 1);
                }
                if roll < 10 && y < 0 {
                    assert_eq!(state, b.deepslate_diamond_ore);
                }
                if state != 1 && !seen.contains(&state) {
                    seen.push(state);
                }
            }
        }
    }
    assert!(seen.len() >= 10);
    assert!(!seen.contains(&b.deepslate_copper_ore));
}

#[test]
fn climates_become_biomes() {
    let at = |temperature: f64, moisture: f64| climate_at(temperature.to_bits(), moisture.to_bits());
    assert_eq!(at(0.1, 0.06), TerrainBiome::Taiga);
    assert_eq!(at(0.1, 0.05), TerrainBiome::SnowyPlains);
    assert_eq!(at(0.18, 0.0), TerrainBiome::Plains);
    assert_eq!(at(0.18, 0.19), TerrainBiome::Forest);
    assert_eq!(at(1.0, 0.18), TerrainBiome::Plains);
    assert_eq!(at(1.01, 0.04), TerrainBiome::Desert);
    assert_eq!(at(1.01, 0.05), TerrainBiome::Savanna);
    assert_eq!(TerrainBiome::Forest.tree_density(), 72);
    assert_eq!(TerrainBiome::Desert.surface_offset(), -1);
}

#[test]
fn caves_are_hollow() {
    let at = |cave: f64, tunnel: f64| is_hollow(cave.to_bits(), tunnel.to_bits());
    assert!(at(0.65, 0.5));
    assert!(at(-0.65, 0.5));
    assert!(!at(0.64, 0.5));
    assert!(at(0.5, -0.08));
    assert!(!at(0.48, 0.0));
    assert!(!at(0.5, 0.09));
}

#[test]
fn anchors_lie_at_or_below() {
    assert_eq!(climate_anchor(130, 128), (1, 2));
    assert_eq!(climate_anchor(-1, 128), (-1, 127));
    assert_eq!(climate_anchor(-128, 128), (-1, 0));
    assert_eq!(noise_seeds(-1).temperature, 0x51f1);
    assert_eq!(noise_seeds(42).terrain, 42);
}

#[test]
fn columns_are_built_in_layers() {
    let b = blocks();
    let column = ColumnSample { biome: TerrainBiome::Desert, temperature: 900, surface: 70 };
    let at = |hollow: bool, y: i32| ground_block(&b, 42, &column, hollow, 3, y, 4);
    assert_eq!(at(false, -64), b.bedrock);
    assert_eq!(at(true, 70), b.sand);
    assert_eq!(at(true, 69), b.sand);
    assert_eq!(at(true, 67), b.sandstone);
    assert_eq!(at(true, 40), b.air);
    let snowy = ColumnSample { biome: TerrainBiome::SnowyPlains, temperature: 0, surface: 200 };
    assert_eq!(surface_height(&snowy), 110);
    assert_eq!(ground_block(&b, 42, &snowy, false, 0, 110, 0), b.grass);
}

#[test]
fn palettes_are_written_whole() {
    let new = ChunkLayout { sized_arrays: false, second_counter: true };
    let old = ChunkLayout { sized_arrays: true, second_counter: false };
    let mut buf = Vec::new();
    write_block_palette(&mut buf, &[300; 4096], new);
    assert_eq!(buf, vec![0, 0xac, 0x02]);
    buf.clear();
    write_block_palette(&mut buf, &[300; 4096], old);
    assert_eq!(buf, vec![0, 0xac, 0x02, 0]);
    buf.clear();
    let mut mixed = vec![0u16; 4096];
    mixed[1] = 1;
    mixed[4] = 3;
    write_block_palette(&mut buf, &mixed, old);
    assert_eq!(&buf[..3], &[15, 0x80, 0x08]);
    assert_eq!(&buf[3..11], &[0, 0, 0, 0, 0, 0, 0x80, 0]);
    assert_eq!(&buf[11..19], &[0, 0, 0, 0, 0, 0, 0, 3]);
    assert_eq!(buf.len(), 3 + 1024 * 8);
    let chunk = SavedChunk {
        format_version: 1,
        blocks: vec![0; BLOCKS_PER_CHUNK],
        biomes: vec![5; 256],
        temperatures: vec![0; 256],
        surface_y: vec![0; 256],
    };
    buf.clear();
    write_biome_palette(&mut buf, &chunk, old);
    assert_eq!(&buf[..2], &[7, 8]);
    assert_eq!(buf.len(), 2 + 64);
}

#[test]
fn chunk_packets_start_with_number_and_position() {
    let chunk = SavedChunk {
        format_version: 1,
        blocks: vec![0; BLOCKS_PER_CHUNK],
        biomes: vec![5; 256],
        temperatures: vec![0; 256],
        surface_y: vec![-64; 256],
    };
    let changes = HashMap::from([(0u32, 1u16)]);
    let effective = effective_blocks(&chunk, &changes);
    assert_eq!(effective[0], 1);
    assert_eq!(effective[1], 0);
    let layout = ChunkLayout { sized_arrays: false, second_counter: false };
    let packet = build_chunk_packet(2, -1, -1, 774, &chunk, &effective, &effective, 0, layout);
    assert_eq!(packet[0], 44);
    assert_eq!(&packet[1..9], &[0, 0, 0, 2, 0xff, 0xff, 0xff, 0xff]);
    assert_eq!(&packet[9..12], &[3, 1, 37]);
    let newer = build_chunk_packet(2, -1, -1, 775, &chunk, &effective, &effective, 0, layout);
    assert_eq!(newer[0], 45);
    let listed = build_chunk_packet(2, -1, 39, 766, &chunk, &effective, &effective, 0, layout);
    assert_eq!(listed[0], 39);
    let (zero, full) = ([0u8; 8], [0u8, 0, 0, 0, 0x03, 0xff, 0xff, 0xff]);
    let mut light = Vec::new();
    for mask in [zero, zero, full, full] {
        light.push(1);
        light.extend_from_slice(&mask);
    }
    light.extend_from_slice(&[0, 0]);
    assert!(packet.ends_with(&light));
}

#[test]
fn full_caches_start_over() {
    let key = |x: i32, protocol: i32| CacheKey { database: 9, x, z: 0, protocol };
    let mut cache: ChunkCache<u32> = ChunkCache::new(2);
    cache.insert(key(1, 0), 10);
    cache.insert(key(1, 0), 11);
    assert_eq!(cache.get(key(1, 0)), Some(&11));
    cache.insert(key(2, 0), 20);
    cache.insert(key(3, 0), 30);
    assert_eq!(cache.get(key(1, 0)), None);
    assert_eq!(cache.get(key(3, 0)), Some(&30));
}

#[test]
fn forgetting_a_chunk_takes_every_version() {
    let key = |x: i32, protocol: i32| CacheKey { database: 9, x, z: 0, protocol };
    let mut cache: ChunkCache<Arc<Vec<u8>>> = ChunkCache::new(512);
    let first = encode_chunk_packet(&mut cache, key(1, 766), || vec![1]);
    let again = encode_chunk_packet(&mut cache, key(1, 766), || vec![2]);
    assert!(Arc::ptr_eq(&first, &again));
    encode_chunk_packet(&mut cache, key(1, 774), || vec![3]);
    encode_chunk_packet(&mut cache, key(2, 774), || vec![4]);
    cache.forget_chunk(9, 1, 0);
    assert!(cache.get(key(1, 766)).is_none());
    assert!(cache.get(key(1, 774)).is_none());
    assert!(cache.get(key(2, 774)).is_some());
}

#[test]
fn the_database_is_tried_three_times() {
    assert_eq!(initialize_world_db(1, None), OpenStep::Ready { recovered: false });
    assert_eq!(initialize_world_db(2, None), OpenStep::Ready { recovered: true });
    let locked = "IO error: could not Acquire Lock on \"world_data\"";
    assert_eq!(
        initialize_world_db(1, Some(locked)),
        OpenStep::Retry { remove_locks: true, attempt: 2 }
    );
    assert_eq!(initialize_world_db(3, Some(locked)), OpenStep::GiveUp { remove_locks: true });
    assert_eq!(initialize_world_db(3, Some("disk full")), OpenStep::GiveUp { remove_locks: false });
    assert!(is_lock_error("Os { code: 33, kind: Other }"));
    assert!(is_lock_error("WouldBlock"));
    assert!(is_lock_error("file is LOCKED"));
    assert!(!is_lock_error("corruption"));
}

#[test]
fn changed_chunks_are_built_anew() {
    let mut world = World::temporary();
    let key = |database: usize, x: i32, protocol: i32| CacheKey { database, x, z: -1, protocol };
    for (i, k) in [key(1, 1, 774), key(1, 1, 775), key(1, 2, 774), key(2, 1, 774)].iter().enumerate() {
        encode_chunk_packet(&mut world.packets, *k, || vec![i as u8]);
    }
    assert!(save_block_change(&mut world.packets, 1, None, 17, 400, -1, 9).is_none());
    assert_eq!(encode_chunk_packet(&mut world.packets, key(1, 1, 774), || vec![77])[0], 0);
    world.set(17, 70, -1, 9);
    assert_eq!(encode_chunk_packet(&mut world.packets, key(1, 1, 774), || vec![77])[0], 77);
    assert_eq!(encode_chunk_packet(&mut world.packets, key(1, 1, 775), || vec![78])[0], 78);
    assert_eq!(encode_chunk_packet(&mut world.packets, key(1, 2, 774), || vec![79])[0], 2);
    assert_eq!(encode_chunk_packet(&mut world.packets, key(2, 1, 774), || vec![80])[0], 3);
}

#[test]
fn surfaces_are_grass_or_sand() {
    let b = blocks();
    for (cx, cz) in [(0, 0), (4, -3), (-40, 25)] {
        let chunk = sampled_chunk(cx, cz, DEFAULT_WORLD_SEED);
        for z in 0..16 {
            for x in 0..16 {
                let column = column_index(x, z);
                let surface = chunk.surface_y[column] as i32;
                let block = chunk.blocks[block_index(x, surface, z).unwrap()];
                let desert = chunk.biomes[column] == biome_ids().desert;
                assert_eq!(block, if desert { b.sand } else { b.grass });
            }
        }
        assert_eq!(chunk.blocks, sampled_chunk(cx, cz, DEFAULT_WORLD_SEED).blocks);
    }
}

fn number_form(mut n: u32) -> Vec<u8> {
    let mut bytes = Vec::new();
    while n >= 128 {
        bytes.push((n % 128 + 128) as u8);
        n /= 128;
    }
    bytes.push(n as u8);
    bytes
}

fn signed_form(i: i16) -> Vec<u8> {
    let i = i as i32;
    number_form(if i >= 0 { 2 * i as u32 } else { (-2 * i - 1) as u32 })
}

#[test]
fn chunk_records_have_their_layout() {
    let mut chunk = sampled_chunk(0, 0, DEFAULT_WORLD_SEED);
    chunk.temperatures[0] = -250;
    chunk.temperatures[1] = i16::MIN;
    let bytes = encode_saved_chunk(&chunk).unwrap();
    let mut plain = Vec::new();
    flate2::read::GzDecoder::new(&bytes[..]).read_to_end(&mut plain).unwrap();
    let mut expected = vec![1];
    expected.extend(number_form(98304));
    chunk.blocks.iter().for_each(|block| expected.extend(number_form(*block as u32)));
    expected.extend(number_form(256));
    expected.extend_from_slice(&chunk.biomes);
    for list in [&chunk.temperatures, &chunk.surface_y] {
        expected.extend(number_form(256));
        list.iter().for_each(|number| expected.extend(signed_form(*number)));
    }
    assert_eq!(plain, expected);
}

#[test]
fn given_chunks_last() {
    let mut world = World::temporary();
    let first = world.chunk(7, 7);
    assert!(Arc::ptr_eq(&first, &world.chunk(7, 7)));
    world.cache = ChunkCache::new(128);
    let second = world.chunk(7, 7);
    assert_eq!(first.blocks, second.blocks);
    assert_eq!(first.surface_y, second.surface_y);
}
