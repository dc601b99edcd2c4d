use kraken::chunk::{
    chunk_worker, column_position, is_pregenerated, ChunkBlocks, ChunkWorkerState, ColumnNoise,
};
use kraken::systems::commands::{
    in_game_commands, GameMode, OpLevel, ReplyStyle,
};
use kraken::systems::interactions::{
    dig_block, next_position, override_key_at, place_block, set_override, store_override,
    DiggingState, DugBlock, Face,
};
use kraken::systems::persistence::{flush_dirty, state_entry, FlushTimer, PlayerState};
use kraken::test_events::test_system;
use std::io::Read;

#[test]
fn chat_commands_are_answered() {
    let help = in_game_commands(" help me", OpLevel(4));
    assert_eq!(help.message, "Kraken Commands: /help, /gm, /say");
    assert_eq!(help.style, ReplyStyle::Italic);
    let survival = in_game_commands("gm s", OpLevel(4));
    assert_eq!(survival.game_mode, Some(GameMode::Survival));
    assert_eq!(survival.message, "Gamemode set to Survival");
    assert_eq!(in_game_commands("gamemode 3", OpLevel(4)).game_mode, Some(GameMode::Spectator));
    assert_eq!(in_game_commands("gm a", OpLevel(4)).message, "Gamemode set to Adventure");
    assert_eq!(in_game_commands("gm", OpLevel(4)).game_mode, Some(GameMode::Creative));
    assert_eq!(in_game_commands("gm what", OpLevel(4)).game_mode, Some(GameMode::Creative));
    let said = in_game_commands("say  hello   world", OpLevel(4));
    assert_eq!(said.message, "[Server] hello world");
    assert_eq!(said.style, ReplyStyle::Gold);
    assert_eq!(in_game_commands("op", OpLevel(4)).message, "You are now OP!");
    let unknown = in_game_commands("fly away", OpLevel(4));
    assert_eq!(unknown.message, "Unknown command: /fly");
    assert_eq!(unknown.style, ReplyStyle::Red);
    assert_eq!(in_game_commands("", OpLevel(4)).message, "Unknown command: /");
}

#[test]
fn game_modes_need_permission() {
    let denied = in_game_commands("gm creative", OpLevel(1));
    assert_eq!(denied.game_mode, None);
    assert_eq!(denied.message, "You do not have permission (Level 2 required).");
    assert_eq!(in_game_commands("gm creative", OpLevel(2)).game_mode, Some(GameMode::Creative));
    assert_eq!(OpLevel::default(), OpLevel(0));
}

#[test]
fn overrides_replace_each_other() {
    let list = vec![((1, 2, 3), 4), ((5, 6, 7), 8), ((1, 2, 3), 9)];
    assert_eq!(set_override(&list, (1, 2, 3), 10), vec![((5, 6, 7), 8), ((1, 2, 3), 10)]);
    let (key, first) = store_override(None, (-1, 70, 33), 5);
    assert_eq!(key, "c_-1_2");
    assert_eq!(override_key_at(-1, 33), key);
    let first = first.unwrap();
    assert_eq!(&first[..], &[1, 1, 0x8c, 0x01, 66, 5]);
    let (_, second) = store_override(Some(&first), (-1, 71, 33), 6);
    let stored: Vec<((i32, i32, i32), u16)> =
        postcard::from_bytes(&second.unwrap()).unwrap();
    assert_eq!(stored, vec![((-1, 70, 33), 5), ((-1, 71, 33), 6)]);
    let (_, fresh) = store_override(Some(&[0xff]), (0, 0, 0), 1);
    let stored: Vec<((i32, i32, i32), u16)> = postcard::from_bytes(&fresh.unwrap()).unwrap();
    assert_eq!(stored, vec![((0, 0, 0), 1)]);
}

#[test]
fn blocks_are_placed_at_the_face() {
    assert_eq!(next_position((1, 2, 3), Face::Down), (1, 1, 3));
    assert_eq!(next_position((1, 2, 3), Face::Up), (1, 3, 3));
    assert_eq!(next_position((1, 2, 3), Face::North), (1, 2, 2));
    assert_eq!(next_position((1, 2, 3), Face::South), (1, 2, 4));
    assert_eq!(next_position((1, 2, 3), Face::West), (0, 2, 3));
    assert_eq!(next_position((1, 2, 3), Face::East), (2, 2, 3));
    assert_eq!(place_block((1, 2, 3), Face::Up, Some(9)), Some(((1, 3, 3), 9)));
    assert_eq!(place_block((1, 2, 3), Face::Up, None), None);
}

#[test]
fn digging_breaks_and_drops() {
    let stone = Some(DugBlock { tnt: false, item: 7 });
    let dug = dig_block(DiggingState::Stop, GameMode::Survival, (1, 2, 3), stone, 0, 0);
    assert_eq!(dug.changes, vec![((1, 2, 3), 0)]);
    assert_eq!(dug.dropped, Some(7));
    let creative = dig_block(DiggingState::Start, GameMode::Creative, (1, 2, 3), stone, 0, 0);
    assert_eq!(creative.changes.len(), 1);
    assert_eq!(creative.dropped, None);
    let started = dig_block(DiggingState::Start, GameMode::Survival, (1, 2, 3), stone, 0, 0);
    assert!(started.changes.is_empty());
    let aborted = dig_block(DiggingState::Abort, GameMode::Creative, (1, 2, 3), stone, 0, 0);
    assert!(aborted.changes.is_empty());
    let nothing = dig_block(DiggingState::Stop, GameMode::Survival, (1, 2, 3), None, 0, 0);
    assert!(nothing.changes.is_empty());
    let plain = Some(DugBlock { tnt: false, item: 0 });
    let bare = dig_block(DiggingState::Stop, GameMode::Survival, (1, 2, 3), plain, 0, 0);
    assert_eq!(bare.changes.len(), 1);
    assert_eq!(bare.dropped, None);
}

#[test]
fn blasts_are_cubes() {
    let tnt = Some(DugBlock { tnt: true, item: 7 });
    let blast = dig_block(DiggingState::Stop, GameMode::Survival, (10, 20, 30), tnt, 0, 0);
    assert_eq!(blast.dropped, None);
    let mut expected = Vec::new();
    for x in -1..=1 {
        for y in -1..=1 {
            for z in -1..=1 {
                expected.push(((10 + x, 20 + y, 30 + z), 0));
            }
        }
    }
    assert_eq!(blast.changes, expected);
}

#[test]
fn finished_digging_leaves_air() {
    assert_eq!(test_system(DiggingState::Stop, (1, 2, 3), 0), Some(((1, 2, 3), 0)));
    assert_eq!(test_system(DiggingState::Start, (1, 2, 3), 0), None);
}

#[test]
fn every_hundredth_tick_flushes() {
    let state = PlayerState {
        x: 1.5f64.to_bits(),
        y: 70.0f64.to_bits(),
        z: (-2.0f64).to_bits(),
        yaw: 90.0f32.to_bits(),
        pitch: 0.0f32.to_bits(),
        uuid: 0x8667ba71_b85a_4004_af54_457a9734eed7,
    };
    let dirty = vec![state];
    let mut timer = FlushTimer::default();
    let mut flushes = Vec::new();
    for tick in 1..=250 {
        if let Some(entries) = flush_dirty(&mut timer, &dirty) {
            assert_eq!(entries.len(), 1);
            assert_eq!(entries[0].0, "player_8667ba71-b85a-4004-af54-457a9734eed7");
            flushes.push(tick);
        }
    }
    assert_eq!(flushes, vec![100, 200]);
}

#[test]
fn states_are_compressed_records() {
    let state = PlayerState {
        x: 1.5f64.to_bits(),
        y: 70.0f64.to_bits(),
        z: (-2.0f64).to_bits(),
        yaw: 90.0f32.to_bits(),
        pitch: 0.25f32.to_bits(),
        uuid: 7,
    };
    let (_, bytes) = state_entry(&state);
    let bytes = bytes.unwrap();
    let mut plain = Vec::new();
    flate2::read::GzDecoder::new(&bytes[..]).read_to_end(&mut plain).unwrap();
    let record = ((1.5f64, 70.0f64, -2.0f64), 90.0f32, 0.25f32, uuid::Uuid::from_u128(7));
    assert_eq!(plain, postcard::to_allocvec(&record).unwrap());
    let mut expected = Vec::new();
    for number in [1.5f64, 70.0, -2.0] {
        expected.extend_from_slice(&number.to_le_bytes());
    }
    expected.extend_from_slice(&90.0f32.to_le_bytes());
    expected.extend_from_slice(&0.25f32.to_le_bytes());
    expected.push(16);
    expected.extend_from_slice(&[0, 0, 0, 0, 0, 0, 0, 0, 0, 0, 0, 0, 0, 0, 0, 7]);
    assert_eq!(plain, expected);
}

fn chunk_blocks() -> ChunkBlocks {
    ChunkBlocks {
        air: 0,
        deepslate: 1,
        bedrock: 2,
        stone: 3,
        dirt: 4,
        grass_block: 5,
        water: 6,
        oak_log: 7,
        oak_leaves: 8,
    }
}

fn flat(world_height: i32, tree: f64) -> Vec<ColumnNoise> {
    vec![
        ColumnNoise { world_height, bedrock: (-0.6f64).to_bits(), tree: tree.to_bits() };
        256
    ]
}

#[test]
fn eight_chunks_are_generated_ahead() {
    assert!(is_pregenerated(3, 1));
    assert!(!is_pregenerated(4, 1));
    assert!(!is_pregenerated(0, 2));
    assert!(!is_pregenerated(-1, 0));
    assert_eq!(column_position(3, 1, 17), (49, 17));
    let state = ChunkWorkerState { min_y: -64, height: 384 };
    let other = chunk_worker(&state, &chunk_blocks(), 9, 9, &Vec::new());
    assert_eq!(other.len(), 384 * 256);
    assert!(other.iter().all(|state| *state == 0));
}

#[test]
fn prototype_columns_have_layers() {
    let state = ChunkWorkerState { min_y: -64, height: 384 };
    let at = |chunk: &Vec<u16>, y: usize| chunk[y * 256 + 5 * 16 + 5];
    let hill = chunk_worker(&state, &chunk_blocks(), 0, 0, &flat(100, 0.0));
    assert_eq!(at(&hill, 0), 1);
    assert_eq!(at(&hill, 128), 1);
    assert_eq!(at(&hill, 129), 3);
    assert_eq!(at(&hill, 160), 3);
    assert_eq!(at(&hill, 161), 4);
    assert_eq!(at(&hill, 164), 5);
    assert_eq!(at(&hill, 165), 0);
    let lake = chunk_worker(&state, &chunk_blocks(), 0, 0, &flat(50, 0.0));
    assert_eq!(at(&lake, 114), 4);
    assert_eq!(at(&lake, 115), 6);
    assert_eq!(at(&lake, 126), 6);
    assert_eq!(at(&lake, 127), 0);
}

#[test]
fn prototype_bedrock_needs_a_higher_bottom() {
    let mut columns = flat(100, 0.0);
    columns[0].bedrock = (-0.4f64).to_bits();
    let low = ChunkWorkerState { min_y: -64, height: 384 };
    let high = ChunkWorkerState { min_y: 0, height: 384 };
    assert_eq!(chunk_worker(&low, &chunk_blocks(), 0, 0, &columns)[0], 1);
    let chunk = chunk_worker(&high, &chunk_blocks(), 0, 0, &columns);
    assert_eq!(chunk[0], 2);
    assert_eq!(chunk[1], 1);
}

#[test]
fn prototype_oaks_stand_on_dry_ground() {
    let state = ChunkWorkerState { min_y: -64, height: 384 };
    let mut columns = flat(100, 0.8);
    columns[5 * 16 + 5].tree = 0.81f64.to_bits();
    let chunk = chunk_worker(&state, &chunk_blocks(), 0, 0, &columns);
    let at = |x: usize, y: usize, z: usize| chunk[y * 256 + z * 16 + x];
    for y in 165..=168 {
        assert_eq!(at(5, y, 5), 7);
    }
    assert_eq!(at(5, 169, 5), 8);
    assert_eq!(at(4, 167, 6), 8);
    assert_eq!(at(4, 166, 6), 0);
    assert_eq!(at(3, 167, 5), 0);
    assert_eq!(chunk.iter().filter(|state| **state == 7).count(), 4);
    assert_eq!(chunk.iter().filter(|state| **state == 8).count(), 25);
    let wet = chunk_worker(&state, &chunk_blocks(), 0, 0, &flat(63, 0.9));
    assert!(!wet.contains(&7));
}
