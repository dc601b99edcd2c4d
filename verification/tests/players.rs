use kraken::world::player_store::{load_player, player_key, save_player, PlayerData};
use uuid::Uuid;

fn store(db: &sled::Db, uuid: Uuid, player: &PlayerData) {
    let (key, bytes) = save_player(uuid.as_u128(), player);
    db.insert(key.as_bytes(), bytes.unwrap()).unwrap();
}

fn load(db: &sled::Db, uuid: Uuid) -> PlayerData {
    let stored = db.get(player_key(uuid.as_u128())).unwrap();
    load_player(stored.as_deref())
}

#[test]
fn player_transform_and_inventory_round_trip() {
    let db = sled::Config::new().temporary(true).open().unwrap();
    let uuid = Uuid::new_v4();
    let mut player = PlayerData::default();
    player.x = (-31.5f64).to_bits();
    player.y = 82.0f64.to_bits();
    player.z = 144.25f64.to_bits();
    player.yaw = 123.0f32.to_bits();
    player.pitch = (-42.5f32).to_bits();
    player.inventory[36] = vec![1, 2, 3, 4];
    player.operator_level = 4;

    store(&db, uuid, &player);
    let loaded = load(&db, uuid);

    assert_eq!(
        (f64::from_bits(loaded.x), f64::from_bits(loaded.y), f64::from_bits(loaded.z)),
        (-31.5, 82.0, 144.25)
    );
    assert_eq!((f32::from_bits(loaded.yaw), f32::from_bits(loaded.pitch)), (123.0, -42.5));
    assert_eq!(loaded.inventory[36], vec![1, 2, 3, 4]);
    assert_eq!(loaded.operator_level, 0);
}

#[test]
fn new_players_start_in_survival() {
    let db = sled::Config::new().temporary(true).open().unwrap();
    let player = load(&db, Uuid::new_v4());

    assert_eq!(player.gamemode, 0);
}

#[test]
fn new_players_stand_at_the_spawn() {
    let player = PlayerData::default();
    assert_eq!(f64::from_bits(player.y), 70.0);
    assert_eq!(f64::from_bits(player.highest_y), 70.0);
    assert_eq!(f32::from_bits(player.health), 20.0);
    assert_eq!(player.inventory.len(), 46);
    assert!(player.inventory.iter().all(|slot| slot.is_empty()));
}

#[test]
fn unreadable_players_are_new() {
    let player = load_player(Some(&[1, 2, 3]));
    assert_eq!(player.gamemode, 0);
    assert_eq!(f64::from_bits(player.y), 70.0);
}

#[test]
fn the_cursor_is_not_stored() {
    let mut player = PlayerData::default();
    player.carried_item = vec![9];
    player.held_slot = 7;
    player.health = 3.5f32.to_bits();
    let (_, bytes) = save_player(1, &player);
    let loaded = load_player(bytes.as_deref());
    assert!(loaded.carried_item.is_empty());
    assert_eq!(loaded.held_slot, 7);
    assert_eq!(f32::from_bits(loaded.health), 3.5);
}

#[test]
fn records_have_the_layout_of_their_fields() {
    let mut player = PlayerData::default();
    player.inventory = vec![vec![5, 6]];
    let (_, bytes) = save_player(0, &player);
    let record = (
        (0.0f64, 70.0f64, 0.0f64),
        (0.0f32, 0.0f32),
        0u8,
        vec![vec![5u8, 6]],
        70.0f64,
        0u8,
        20.0f32,
    );
    assert_eq!(bytes.unwrap(), postcard::to_allocvec(&record).unwrap());
}

#[test]
fn player_keys_show_the_identity() {
    let uuid = Uuid::parse_str("8667ba71-b85a-4004-af54-457a9734eed7").unwrap();
    assert_eq!(player_key(uuid.as_u128()), "player:8667ba71-b85a-4004-af54-457a9734eed7");
    assert_ne!(player_key(1), player_key(2));
}

#[test]
fn player_records_have_their_layout() {
    let mut player = PlayerData::default();
    player.x = 1.5f64.to_bits();
    player.yaw = 90.0f32.to_bits();
    player.gamemode = 2;
    player.held_slot = 7;
    player.inventory[1] = vec![9; 200];
    let (_, bytes) = save_player(5, &player);
    let mut expected = Vec::new();
    for number in [1.5f64, 70.0, 0.0] {
        expected.extend_from_slice(&number.to_le_bytes());
    }
    expected.extend_from_slice(&90.0f32.to_le_bytes());
    expected.extend_from_slice(&0.0f32.to_le_bytes());
    expected.extend_from_slice(&[2, 46, 0, 0xc8, 0x01]);
    expected.extend_from_slice(&[9; 200]);
    expected.extend_from_slice(&[0; 44]);
    expected.extend_from_slice(&70.0f64.to_le_bytes());
    expected.push(7);
    expected.extend_from_slice(&20.0f32.to_le_bytes());
    assert_eq!(bytes.unwrap(), expected);
}
