use kraken::console::EntityLookup;
use kraken::error::PacketError;
use kraken::float_bits::{
    abs, floor_i32, is_negative_f32, is_positive_f32, le, lt, nan, total_order_of, trunc_i64,
};
use kraken::viakraken::java::backend::effects::{ClientPacket, Effect, EntityKind, SlotContent};
use kraken::viakraken::java::backend::handler::{
    apply_action, attack, block_drop_item, change_gamemode, classify, decide_action, decide_pick,
    decode_position, equipped_totem_slot, finish_packet, handle_command, held_block_state,
    held_network_item, inventory_item_id, is_void_lethal, process_fall_damage, read_command,
    read_movement, read_player_action, respawn, run_command, send_command_tree,
    send_permission_status, set_creative_slot, set_held_item, split_packet, switch_gamemode,
    try_pop_totem, use_item_on, ActionKind, BlockDrop, CommandRequest, ItemDrop, Movement, Pick,
    PlayPacket, PlayPacketIds, PlayerAction, HOTBAR_START_SLOT, OFFHAND_SLOT,
};
use kraken::viakraken::java::backend::packet::{
    handle_play_packet, read_play_packet, PacketData, PlayRequest, SummonLookup,
};
use kraken::viakraken::java::backend::play::{
    chunk_coordinate, inventory_body, inventory_packet, next_packet, streaming_effects,
    ChunkStream, EventNumbers, StreamStep,
};
use kraken::viakraken::java::backend::session::{handle_play, PlaySession, SessionEvent};
use kraken::viakraken::java::backend::state::{
    claim_nearby_dropped_item, gamemode_abilities, register_summoned_entity,
    restore_dropped_item, spawn_dropped_item, BlockUpdateEvent, ConsoleCommand, DroppedItem,
    ItemEvent, OnlinePlayer, PlayerEvent,
};
use kraken::viakraken::utils::{write_framed_payload, write_string, write_varint};
use kraken::world::player_store::{load_player, save_player, PlayerData};
use std::collections::HashMap;

fn ids() -> PlayPacketIds {
    PlayPacketIds {
        use_item_on: 1,
        pick_block: 2,
        interact: 3,
        player_action: 4,
        creative_slot: 5,
        held_item: 6,
        change_gamemode: -1,
        chat_command: 8,
        move_pos_rot: 9,
        move_pos: 10,
        move_rot: 11,
        chat: 12,
        client_command: 13,
    }
}

fn online(entity_id: i32, uuid: u128, gamemode: u8) -> OnlinePlayer {
    OnlinePlayer {
        entity_id,
        uuid,
        username: "Other".to_string(),
        x: 1.0f64.to_bits(),
        y: 70.0f64.to_bits(),
        z: 2.0f64.to_bits(),
        yaw: 0,
        pitch: 0,
        gamemode,
    }
}

/// The canonical item of each slot, where the client counts as the tables do.
fn canonical(player: &PlayerData) -> Vec<Option<u16>> {
    player.inventory.iter().map(|slot| inventory_item_id(slot)).collect()
}

fn no_numbers() -> EventNumbers {
    EventNumbers { reduced_health: 0, knockback_x: 0, knockback_z: 0, head_yaw: 0 }
}

fn no_summon() -> SummonLookup {
    SummonLookup {
        lookup: EntityLookup::Unknown,
        parsed: None,
        entity_id: 0,
        place: String::new(),
    }
}

fn session() -> PlaySession {
    let (session, _) =
        PlaySession::open(PlayerData::default(), 0, 5, 77, "Ann".to_string(), 8, &Vec::new());
    session
}

#[test]
fn empty_hand_has_no_placeable_block() {
    let player = PlayerData::default();
    assert_eq!(held_block_state(&player, 0, |item| Some(item)), None);
    assert_eq!(held_network_item(&player, 0), None);
}

#[test]
fn void_only_becomes_lethal_below_the_fall_zone() {
    assert!(!is_void_lethal((-64.1f64).to_bits()));
    assert!(!is_void_lethal((-127.9f64).to_bits()));
    assert!(is_void_lethal((-128.0f64).to_bits()));
}

#[test]
fn detects_totems_in_selected_hand_and_offhand() {
    let totem = 1261;
    let mut bytes = Vec::new();
    write_varint(&mut bytes, 1);
    write_varint(&mut bytes, totem as i32);
    bytes.extend_from_slice(&[0, 0]);

    let mut player = PlayerData::default();
    player.held_slot = 2;
    player.inventory[HOTBAR_START_SLOT + 2] = bytes.clone();
    assert_eq!(
        equipped_totem_slot(&player, &canonical(&player), totem),
        Some(HOTBAR_START_SLOT + 2)
    );

    player.inventory[HOTBAR_START_SLOT + 2].clear();
    player.inventory[OFFHAND_SLOT] = bytes;
    assert_eq!(equipped_totem_slot(&player, &canonical(&player), totem), Some(OFFHAND_SLOT));
    assert_eq!(equipped_totem_slot(&player, &canonical(&player), totem + 1), None);
}

#[test]
fn terrain_blocks_use_survival_style_drops() {
    assert_eq!(block_drop_item("stone", 1), BlockDrop::Cobblestone);
    assert_eq!(block_drop_item("copper_ore", 71), BlockDrop::RawCopper);
    assert_eq!(block_drop_item("air", 0), BlockDrop::Nothing);
    assert_eq!(block_drop_item("deepslate_redstone_ore", 9), BlockDrop::Redstone);
    assert_eq!(block_drop_item("grass_block", 27), BlockDrop::Dirt);
    assert_eq!(block_drop_item("oak_log", 134), BlockDrop::Own(134));
}

#[test]
fn chunk_coordinates_floor_negative_positions() {
    assert_eq!(chunk_coordinate(0.0f64.to_bits()), 0);
    assert_eq!(chunk_coordinate(15.99f64.to_bits()), 0);
    assert_eq!(chunk_coordinate(16.0f64.to_bits()), 1);
    assert_eq!(chunk_coordinate((-0.01f64).to_bits()), -1);
    assert_eq!(chunk_coordinate((-16.0f64).to_bits()), -1);
    assert_eq!(chunk_coordinate((-16.01f64).to_bits()), -2);
}

#[test]
fn bit_patterns_compare_as_numbers() {
    let numbers = [
        f64::NEG_INFINITY,
        -1e300,
        -3.5,
        -1.0,
        -1e-310,
        -0.0,
        0.0,
        1e-310,
        0.5,
        1.0,
        2.999,
        3.0,
        1e18,
        f64::INFINITY,
        f64::NAN,
    ];
    for a in numbers {
        for b in numbers {
            assert_eq!(lt(a.to_bits(), b.to_bits()), a < b);
            assert_eq!(le(a.to_bits(), b.to_bits()), a <= b);
            assert_eq!(
                total_order_of(a.to_bits()) < total_order_of(b.to_bits()),
                a.total_cmp(&b).is_lt()
            );
        }
        assert_eq!(abs(a.to_bits()), a.abs().to_bits());
        assert_eq!(nan(a.to_bits()), a.is_nan());
        assert_eq!(floor_i32(a.to_bits()), a.floor() as i32);
        assert_eq!(trunc_i64(a.to_bits()), a as i64);
        let small = a as f32;
        assert_eq!(is_positive_f32(small.to_bits()), small > 0.0);
        assert_eq!(is_negative_f32(small.to_bits()), small < 0.0);
    }
    assert_eq!(floor_i32((-2147483648.5f64).to_bits()), i32::MIN);
    assert_eq!(floor_i32(1234.999f64.to_bits()), 1234);
    assert_eq!(trunc_i64((-7.9f64).to_bits()), -7);
}

#[test]
fn packets_are_classified() {
    assert_eq!(classify(9, &ids()), PlayPacket::MovePosRot);
    assert_eq!(classify(-1, &ids()), PlayPacket::Other);
    assert_eq!(classify(99, &ids()), PlayPacket::Other);
    assert_eq!(split_packet(&[], &ids()), Ok(None));
    assert_eq!(split_packet(&[4, 1], &ids()), Ok(Some((PlayPacket::PlayerAction, 1))));
    assert_eq!(split_packet(&[0x80], &ids()), Err(PacketError::VarIntEof));
    assert!(matches!(read_play_packet(&[], &ids()), Ok(PlayRequest::Nothing)));
    assert!(matches!(read_play_packet(&[99], &ids()), Ok(PlayRequest::Unread)));
    assert!(matches!(
        read_play_packet(&[6, 0, 3], &ids()),
        Ok(PlayRequest::Decode { kind: PlayPacket::HeldItem, payload }) if payload == vec![0, 3]
    ));
    let mut command = vec![8];
    write_string(&mut command, "gamemode 1").unwrap();
    assert!(matches!(
        read_play_packet(&command, &ids()),
        Ok(PlayRequest::Command(text)) if text == "gamemode 1"
    ));
    assert!(matches!(read_play_packet(&[8, 9, b'x'], &ids()), Ok(PlayRequest::Unread)));
}

#[test]
fn positions_round_trip() {
    for (x, y, z) in [(0, 0, 0), (-1, -1, -1), (33554431, 2047, -33554432), (17, 70, -1)] {
        let bits = ((x as i64 & 0x3ff_ffff) << 38)
            | ((z as i64 & 0x3ff_ffff) << 12)
            | (y as i64 & 0xfff);
        assert_eq!(decode_position(bits as u64), (x, y, z));
    }
    let mut payload = vec![2];
    payload.extend_from_slice(&(((5i64) << 38) | (7i64 << 12) | 70).to_be_bytes());
    assert_eq!(
        read_player_action(&payload),
        Some(PlayerAction { status: 2, x: 5, y: 70, z: 7, sequence: 0 })
    );
    payload.extend_from_slice(&[1, 9]);
    assert_eq!(read_player_action(&payload).unwrap().sequence, 9);
    assert_eq!(read_player_action(&payload[..8]), None);
}

#[test]
fn blocks_are_placed_beside() {
    let placed = use_item_on(1, 2, 3, 4, 11, Some(9));
    assert!(matches!(placed[0], Effect::SaveBlock { x: 0, y: 2, z: 3, state_id: 9 }));
    assert!(matches!(
        placed[1],
        Effect::TellBlocks(BlockUpdateEvent { x: 0, y: 2, z: 3, state_id: 9 })
    ));
    assert!(matches!(
        placed[2],
        Effect::Send(ClientPacket::AcknowledgeBlock { sequence: 11 })
    ));
    assert!(use_item_on(1, 2, 3, 4, 0, None).is_empty());
    let above = use_item_on(1, 2, 3, 77, 0, Some(9));
    assert!(matches!(above[0], Effect::SaveBlock { y: 3, .. }));
}

#[test]
fn creative_players_pick_blocks() {
    let mut player = PlayerData::default();
    player.held_slot = 4;
    assert_eq!(decide_pick(&player, Some(9), &canonical(&player)), Pick::Refused);
    player.gamemode = 1;
    assert_eq!(decide_pick(&player, None, &canonical(&player)), Pick::Refused);
    assert_eq!(
        decide_pick(&player, Some(9), &canonical(&player)),
        Pick::Select { slot: 4, fill: Some(9) }
    );
    player.inventory[38] = vec![1, 9];
    assert_eq!(
        decide_pick(&player, Some(9), &canonical(&player)),
        Pick::Select { slot: 2, fill: None }
    );
    let data = PacketData::PickBlock { item: Some(8), canonical: canonical(&player), stack: vec![1, 8] };
    let effects = handle_play_packet(&mut player, "Ann", 77, 5, data);
    assert_eq!(player.inventory[40], vec![1, 8]);
    assert!(matches!(
        effects[0],
        Effect::Send(ClientPacket::Slot { slot: 40, content: SlotContent::Item(8) })
    ));
    assert!(matches!(effects[1], Effect::Send(ClientPacket::SelectedSlot { slot: 4 })));
}

#[test]
fn attacks_spare_creative_players() {
    let player = PlayerData::default();
    let hurt = attack(&player, 1, &Some(online(3, 30, 0)));
    assert!(matches!(
        hurt[0],
        Effect::TellPlayers(PlayerEvent::Hurt { entity_id: 3, uuid: 30, damage, .. })
            if f32::from_bits(damage) == 2.0
    ));
    assert!(attack(&player, 1, &Some(online(3, 30, 1))).is_empty());
    assert!(attack(&player, 1, &Some(online(3, 30, 3))).is_empty());
    assert!(attack(&player, 0, &Some(online(3, 30, 0))).is_empty());
    assert!(attack(&player, 1, &None).is_empty());
}

#[test]
fn actions_break_and_throw() {
    assert_eq!(decide_action(2, 0), ActionKind::Break { drops: true });
    assert_eq!(decide_action(2, 1), ActionKind::Break { drops: false });
    assert_eq!(decide_action(2, 3), ActionKind::Nothing);
    assert_eq!(decide_action(0, 1), ActionKind::Break { drops: false });
    assert_eq!(decide_action(0, 0), ActionKind::Nothing);
    assert_eq!(decide_action(3, 3), ActionKind::Throw);
    let action = PlayerAction { status: 2, x: 1, y: 2, z: 3, sequence: 6 };
    let drop = ItemDrop { entity_id: 40, item_id: 22, x: 1, y: 2, z: 3, vx: 0, vy: 0, vz: 0 };
    let effects = apply_action(&action, 0, 0, Some(drop));
    assert!(matches!(effects[0], Effect::SaveBlock { x: 1, y: 2, z: 3, state_id: 0 }));
    assert!(matches!(
        effects[2],
        Effect::TellItems(ItemEvent::Spawn { entity_id: 40, item_id: 22, count: 1, .. })
    ));
    assert!(matches!(
        effects[3],
        Effect::TrySend(ClientPacket::AcknowledgeBlock { sequence: 6 })
    ));
    assert_eq!(apply_action(&action, 1, 0, Some(drop)).len(), 3);
}

#[test]
fn landings_hurt_or_use_a_totem_up() {
    let mut player = PlayerData::default();
    player.y = 60.0f64.to_bits();
    let far = 10.0f64.to_bits();
    let damage = 7.0f32.to_bits();
    let hurt = process_fall_damage(&mut player, true, 5, 77, far, damage, None);
    assert!(matches!(hurt[0], Effect::TellPlayers(PlayerEvent::Hurt { damage: d, .. }) if d == damage));
    assert_eq!(player.highest_y, player.y);
    player.inventory[45] = vec![1];
    let saved = process_fall_damage(&mut player, true, 5, 77, far, damage, Some(45));
    assert!(player.inventory[45].is_empty());
    assert!(matches!(saved[1], Effect::Send(ClientPacket::EntityStatus { status: 35, .. })));
    assert!(process_fall_damage(&mut player, true, 5, 77, 3.0f64.to_bits(), 0, None).is_empty());
    player.y = 90.0f64.to_bits();
    assert!(process_fall_damage(&mut player, false, 5, 77, far, 0, None).is_empty());
    assert_eq!(player.highest_y, 90.0f64.to_bits());
    player.gamemode = 1;
    assert!(process_fall_damage(&mut player, true, 5, 77, far, damage, None).is_empty());
    assert!(try_pop_totem(&mut player, 5, None).is_none());
}

#[test]
fn creative_slots_are_checked() {
    let mut player = PlayerData::default();
    assert_eq!(
        set_creative_slot(&mut player, 36, false, 1, 64, Some(vec![1])).unwrap().len(),
        0
    );
    player.gamemode = 1;
    assert!(set_creative_slot(&mut player, 36, false, 65, 64, Some(vec![1])).is_none());
    let done = set_creative_slot(&mut player, 36, false, 64, 64, Some(vec![1, 2])).unwrap();
    assert_eq!(player.inventory[36], vec![1, 2]);
    assert_eq!(done.len(), 1);
    assert!(set_creative_slot(&mut player, 0, true, 0, 0, Some(vec![])).unwrap().is_empty());
    set_held_item(&mut player, 8);
    assert_eq!(player.held_slot, 8);
    set_held_item(&mut player, 9);
    set_held_item(&mut player, -1);
    assert_eq!(player.held_slot, 8);
}

#[test]
fn only_operators_change_modes() {
    let mut player = PlayerData::default();
    assert!(switch_gamemode(&mut player, 77, &[1]).is_empty());
    assert_eq!(player.gamemode, 0);
    player.operator_level = 1;
    assert_eq!(switch_gamemode(&mut player, 77, &[1]).len(), 5);
    assert_eq!(player.gamemode, 1);
    assert!(switch_gamemode(&mut player, 77, &[4]).is_empty());
    assert!(matches!(handle_command("gamemode 1", 0), CommandRequest::Denied));
    assert!(matches!(handle_command("summon pig", 0), CommandRequest::Denied));
    assert!(matches!(
        handle_command("gamemode Creative", 2),
        CommandRequest::Gamemode { gamemode: 1, typed } if typed == "Creative"
    ));
    assert!(matches!(handle_command("gamemode 7", 2), CommandRequest::UnknownGamemode));
    assert!(matches!(handle_command("gamemode", 2), CommandRequest::Unknown));
    assert!(matches!(handle_command("  ", 2), CommandRequest::Nothing));
    assert_eq!(change_gamemode(&mut player, 77, 3).len(), 5);
    assert_eq!(gamemode_abilities(1).0, 13);
    assert_eq!(gamemode_abilities(3).0, 6);
    assert_eq!(f32::from_bits(gamemode_abilities(0).1), 0.05);
}

#[test]
fn commands_are_answered() {
    let mut player = PlayerData::default();
    player.operator_level = 4;
    let text = |effects: &Vec<Effect>| match effects.last() {
        Some(Effect::Send(ClientPacket::Chat { text })) => text.clone(),
        _ => panic!("no answer"),
    };
    let request = handle_command("gamemode creative", 4);
    let effects = run_command(&mut player, 77, &request, "gamemode creative");
    assert_eq!(text(&effects), "Set own game mode to creative Mode");
    assert_eq!(player.gamemode, 1);
    let request = handle_command("fly", 4);
    assert_eq!(text(&run_command(&mut player, 77, &request, "fly")), "Unknown command: /fly");
    let summon = SummonLookup {
        lookup: EntityLookup::Known { id: 5, summonable: true, is_player: false },
        parsed: Some((1, 2, 3)),
        entity_id: 60,
        place: "0.0, 0.0, 0.0".to_string(),
    };
    let data = PacketData::Command { command: "summon minecraft:pig 0 0 0".to_string(), summon };
    let effects = handle_play_packet(&mut player, "Ann", 77, 5, data);
    assert!(matches!(
        effects[0],
        Effect::RegisterSummoned { entity_id: 60, entity_type: 5, x: 1, y: 2, z: 3 }
    ));
    assert_eq!(text(&effects), "Summoned pig at 0.0, 0.0, 0.0");
    let data = PacketData::Command { command: "summon dragon".to_string(), summon: no_summon() };
    let effects = handle_play_packet(&mut player, "Ann", 77, 5, data);
    assert_eq!(text(&effects), "Unknown entity type.");
}

#[test]
fn command_texts_are_read() {
    assert_eq!(read_command(b"\x04help"), Some("help".to_string()));
    assert_eq!(read_command(b"\x05help"), None);
    assert_eq!(read_command(&[1, 0xff]), None);
    assert_eq!(read_command(&[0xff, 0xff, 0xff, 0xff, 0x0f]), None);
    assert_eq!(read_command(&[]), Some(String::new()));
}

#[test]
fn movements_are_read() {
    let mut payload = Vec::new();
    for v in [1.5f64, 70.0, -2.0] {
        payload.extend_from_slice(&v.to_be_bytes());
    }
    payload.push(1);
    assert_eq!(
        read_movement(PlayPacket::MovePos, &payload),
        Some(Movement {
            position: Some((1.5f64.to_bits(), 70.0f64.to_bits(), (-2.0f64).to_bits())),
            rotation: None,
            on_ground: Some(true),
        })
    );
    assert_eq!(read_movement(PlayPacket::MovePosRot, &payload), None);
    assert_eq!(read_movement(PlayPacket::MovePos, &payload[..24]), None);
    let rotation = read_movement(PlayPacket::MoveRot, &[0x42, 0xb4, 0, 0, 0, 0, 0, 0]).unwrap();
    assert_eq!(rotation.rotation, Some((90.0f32.to_bits(), 0)));
    assert_eq!(rotation.on_ground, None);
}

#[test]
fn moves_are_told_to_the_others() {
    let mut player = PlayerData::default();
    let movement = Movement {
        position: Some((1.0f64.to_bits(), (-200.0f64).to_bits(), 0)),
        rotation: None,
        on_ground: Some(false),
    };
    let data = PacketData::Move { movement, distance: 0, damage: 0, totem: None };
    let effects = handle_play_packet(&mut player, "Ann", 77, 5, data);
    assert_eq!(player.health, 0);
    assert!(matches!(effects[0], Effect::Send(ClientPacket::Health { health: 0, food: 20, .. })));
    assert!(matches!(effects[1], Effect::MoveOnline { uuid: 77, .. }));
    assert!(matches!(effects[2], Effect::TellPlayers(PlayerEvent::Move { entity_id: 5, .. })));
    let again = finish_packet(&mut player, 77, 5, false);
    assert!(again.is_empty());
}

#[test]
fn refused_picks_end_the_packet() {
    let mut player = PlayerData::default();
    player.y = (-200.0f64).to_bits();
    let data = PacketData::PickBlock { item: Some(1), canonical: Vec::new(), stack: Vec::new() };
    assert!(handle_play_packet(&mut player, "Ann", 77, 5, data).is_empty());
    assert!(handle_play_packet(&mut player, "Ann", 77, 5, PacketData::UnreadPick).is_empty());
    let effects = handle_play_packet(&mut player, "Ann", 77, 5, PacketData::Unread);
    assert_eq!(effects.len(), 1);
    assert_eq!(player.health, 0);
}

#[test]
fn the_dead_respawn() {
    let mut player = PlayerData::default();
    player.health = 0;
    player.x = 900.0f64.to_bits();
    let effects = respawn(&mut player, 5);
    assert_eq!(f32::from_bits(player.health), 20.0);
    assert_eq!(player.x, 0);
    assert_eq!(effects.len(), 58);
    assert!(matches!(effects[8], Effect::TrySend(ClientPacket::Chunk { x: -3, z: -3 })));
    assert!(matches!(effects[56], Effect::TrySend(ClientPacket::Chunk { x: 3, z: 3 })));
    assert!(matches!(effects[57], Effect::TrySend(ClientPacket::BatchEnd { count: 49 })));
    let data = PacketData::ClientCommand { action: 0 };
    assert_eq!(handle_play_packet(&mut player, "Ann", 77, 5, data).len(), 60);
    let data = PacketData::ClientCommand { action: 1 };
    assert!(handle_play_packet(&mut player, "Ann", 77, 5, data).is_empty());
}

#[test]
fn permissions_are_shown() {
    assert!(matches!(
        send_permission_status(5, 2),
        ClientPacket::EntityStatus { entity_id: 5, status: 26 }
    ));
    assert!(matches!(send_permission_status(5, 9), ClientPacket::EntityStatus { status: 28, .. }));
    match send_command_tree(true) {
        ClientPacket::Commands { nodes } => {
            assert_eq!(nodes.len(), 6);
            assert_eq!(nodes[0].children, vec![1]);
            assert_eq!(nodes[1].name, Some("gamemode"));
            assert!(nodes[1].restricted);
            assert_eq!(nodes[5].name, Some("spectator"));
        }
        _ => panic!("no tree"),
    }
    assert!(matches!(
        send_command_tree(false),
        ClientPacket::Commands { nodes } if nodes[0].children.is_empty()
    ));
}

#[test]
fn sessions_open_with_the_world() {
    let others = vec![online(3, 30, 0)];
    let mut loaded = PlayerData::default();
    loaded.inventory.clear();
    let (session, effects) =
        PlaySession::open(loaded, 3, 5, 77, "Ann".to_string(), 20, &others);
    assert_eq!(session.player.inventory.len(), 46);
    assert_eq!(session.player.operator_level, 3);
    assert_eq!(effects.len(), 15);
    assert!(matches!(
        &effects[0],
        Effect::Send(ClientPacket::Login(login))
            if login.view_distance == 20 && login.simulation_distance == 12 && login.sea_level == 63
    ));
    assert!(matches!(
        &effects[5],
        Effect::TrySend(ClientPacket::SpawnEntity { entity_id: 3, kind: EntityKind::Player, .. })
    ));
    assert!(matches!(&effects[6], Effect::JoinOnline(player) if player.uuid == 77));
    assert!(matches!(&effects[8], Effect::TellChat(line) if line == "Ann joined the game"));
    assert!(matches!(
        &effects[10],
        Effect::TrySend(ClientPacket::Inventory { body }) if body.len() == 50 && body[2] == 46
    ));
    assert!(matches!(&effects[14], Effect::Send(ClientPacket::WaitForChunks)));
}

#[test]
fn inventories_are_shown_as_written() {
    let mut player = PlayerData::default();
    player.inventory[1] = vec![1, 9, 0, 0];
    let body = inventory_body(&player);
    assert_eq!(&body[..8], &[0, 0, 46, 0, 1, 9, 0, 0]);
    assert_eq!(body.len(), 3 + 45 + 4 + 1);
    assert_eq!(inventory_packet(300, &[7]), vec![0xac, 0x02, 7]);
}

#[test]
fn console_commands_reach_their_session() {
    let mut session = session();
    let level = ConsoleCommand::OperatorLevel { uuid: 77, level: 9 };
    assert_eq!(handle_play(&mut session, SessionEvent::Console(level)).len(), 2);
    assert_eq!(session.player.operator_level, 4);
    let other = ConsoleCommand::Kill { uuid: 1 };
    assert!(handle_play(&mut session, SessionEvent::Console(other)).is_empty());
    assert_ne!(session.player.health, 0);
    let mode = ConsoleCommand::Gamemode { uuid: 77, gamemode: 2 };
    assert_eq!(handle_play(&mut session, SessionEvent::Console(mode)).len(), 5);
    assert_eq!(session.player.gamemode, 2);
    let kill = ConsoleCommand::Kill { uuid: 77 };
    assert_eq!(handle_play(&mut session, SessionEvent::Console(kill)).len(), 1);
    assert_eq!(session.player.health, 0);
    let summon = ConsoleCommand::Summon { entity_id: 8, entity_type: 5, x: 1, y: 2, z: 3 };
    assert!(matches!(
        handle_play(&mut session, SessionEvent::Console(summon))[0],
        Effect::Send(ClientPacket::SpawnEntity { kind: EntityKind::Numbered(5), .. })
    ));
}

#[test]
fn sessions_show_the_others() {
    let mut session = session();
    let moved = |uuid: u128| SessionEvent::Player {
        event: PlayerEvent::Move { entity_id: 3, uuid, x: 1, y: 2, z: 3, yaw: 4, pitch: 5 },
        numbers: EventNumbers { head_yaw: 64, ..no_numbers() },
    };
    assert!(handle_play(&mut session, moved(77)).is_empty());
    let effects = handle_play(&mut session, moved(30));
    assert!(matches!(
        effects[1],
        Effect::TrySend(ClientPacket::HeadRotation { entity_id: 3, yaw: 64 })
    ));
    let left = SessionEvent::Player {
        event: PlayerEvent::Leave { entity_id: 3, uuid: 30 },
        numbers: no_numbers(),
    };
    assert_eq!(handle_play(&mut session, left).len(), 2);
    let hurt = |uuid: u128, attacker_x: Option<u64>| SessionEvent::Player {
        event: PlayerEvent::Hurt {
            entity_id: 5,
            uuid,
            damage: 0,
            x: 0,
            y: 0,
            z: 0,
            attacker_x,
            attacker_z: attacker_x,
        },
        numbers: EventNumbers { reduced_health: (-2.0f32).to_bits(), ..no_numbers() },
    };
    assert_eq!(handle_play(&mut session, hurt(30, Some(0))).len(), 3);
    assert_ne!(session.player.health, 0);
    assert_eq!(handle_play(&mut session, hurt(77, None)).len(), 4);
    assert_eq!(session.player.health, 0);
}

#[test]
fn sessions_keep_alive_and_close() {
    let mut session = session();
    assert!(matches!(
        handle_play(&mut session, SessionEvent::KeepAliveDue)[0],
        Effect::TrySend(ClientPacket::KeepAlive { id: 1 })
    ));
    assert!(matches!(
        handle_play(&mut session, SessionEvent::KeepAliveDue)[0],
        Effect::TrySend(ClientPacket::KeepAlive { id: 2 })
    ));
    assert!(matches!(
        handle_play(&mut session, SessionEvent::SaveDue)[0],
        Effect::SavePlayer { always_flush: false }
    ));
    let said = PacketData::Chat { message: "hi".to_string() };
    assert!(matches!(
        &handle_play(&mut session, SessionEvent::Packet(said))[0],
        Effect::TellChat(line) if line == "<Ann> hi"
    ));
    assert!(matches!(
        &handle_play(&mut session, SessionEvent::Chat("x".to_string()))[0],
        Effect::TrySend(ClientPacket::Chat { text }) if text == "x"
    ));
    let update = BlockUpdateEvent { x: 1, y: 2, z: 3, state_id: 4 };
    assert!(matches!(
        handle_play(&mut session, SessionEvent::Block(update))[0],
        Effect::TrySend(ClientPacket::BlockUpdate { state_id: 4, .. })
    ));
    let item = ItemEvent::Spawn {
        entity_id: 9,
        item_id: 1,
        count: 1,
        x: 0,
        y: 0,
        z: 0,
        vx: 0,
        vy: 0,
        vz: 0,
    };
    assert_eq!(
        handle_play(&mut session, SessionEvent::Item { event: item, known: true }).len(),
        3
    );
    assert_eq!(
        handle_play(&mut session, SessionEvent::Item { event: item, known: false }).len(),
        2
    );
    assert!(!session.ended);
    let closing = handle_play(&mut session, SessionEvent::Closed);
    assert!(session.ended);
    assert!(matches!(closing[0], Effect::SavePlayer { always_flush: true }));
    assert!(matches!(&closing[3], Effect::TellChat(line) if line == "Ann left the game"));
}

#[test]
fn frames_are_taken_whole() {
    let mut pending = Vec::new();
    pending.extend_from_slice(write_framed_payload(&[1, 2, 3]).unwrap().as_slice());
    pending.extend_from_slice(write_framed_payload(&[4; 200]).unwrap().as_slice());
    let last = pending.pop().unwrap();
    assert_eq!(next_packet(&mut pending), Some(vec![1, 2, 3]));
    assert_eq!(next_packet(&mut pending), None);
    pending.push(last);
    assert_eq!(next_packet(&mut pending), Some(vec![4; 200]));
    assert!(pending.is_empty());
    pending.extend_from_slice(&[0, 9, 9]);
    assert_eq!(next_packet(&mut pending), None);
    assert!(pending.is_empty());
}

#[test]
fn streams_follow_the_player() {
    let mut stream = ChunkStream::new(8.0f64.to_bits(), (-1.0f64).to_bits(), 2);
    let plan = stream.plan_for(0, -1);
    assert_eq!(plan.load.len(), 25);
    assert_eq!(plan.load[0], (0, -1));
    let effects = streaming_effects(0, -1, &plan);
    assert_eq!(effects.len(), 28);
    assert!(matches!(effects[27], Effect::Send(ClientPacket::BatchEnd { count: 25 })));
    stream.commit(0, -1, plan.sent);
    assert_eq!(stream.new_center(15.9f64.to_bits(), (-0.5f64).to_bits()), None);
    assert_eq!(stream.new_center(16.0f64.to_bits(), (-0.5f64).to_bits()), Some((1, -1)));
    let plan = stream.plan_for(1, -1);
    assert_eq!(plan.load.len(), 5);
    assert_eq!(plan.unload.len(), 5);
    assert!(plan.unload.iter().all(|(x, _)| *x == -2));
    stream.commit(1, -1, plan.sent);
    let plan = stream.plan_for(1, -1);
    assert_eq!(streaming_effects(1, -1, &plan).len(), 1);
}

#[test]
fn the_nearest_item_is_claimed() {
    let mut items = HashMap::new();
    let item = |entity_id: i32| DroppedItem {
        entity_id,
        item_id: 1,
        count: 1,
        x: 0,
        y: 0,
        z: 0,
        spawned_at: 1000,
    };
    spawn_dropped_item(&mut items, item(1), 0, 0, 0);
    spawn_dropped_item(&mut items, item(2), 0, 0, 0);
    let near = [(1, 2.25f64.to_bits()), (2, 0.5f64.to_bits())];
    assert_eq!(claim_nearby_dropped_item(&mut items, &near, 1499), None);
    let far = [(1, 2.26f64.to_bits()), (2, f64::NAN.to_bits())];
    assert_eq!(claim_nearby_dropped_item(&mut items, &far, 2000), None);
    let claimed = claim_nearby_dropped_item(&mut items, &near, 1500).unwrap();
    assert_eq!(claimed.entity_id, 2);
    assert_eq!(items.len(), 1);
    restore_dropped_item(&mut items, claimed);
    assert_eq!(items.len(), 2);
    assert_eq!(items[&2], item(2));
}

#[test]
fn summoned_entities_are_registered() {
    let mut entities = HashMap::new();
    register_summoned_entity(&mut entities, 7, 5, 1, 2, 3, 900);
    let entity = entities[&7];
    assert_eq!(f32::from_bits(entity.health), 20.0);
    assert!(!entity.burning);
    assert_eq!(entity.last_burn_damage, 900);
}

#[test]
fn operator_changes_apply_at_once() {
    let mut s = session();
    let uuid = s.uuid;
    let switch = |mode: u8| SessionEvent::Packet(PacketData::ChangeGamemode { payload: vec![mode] });
    let level = |level: u8| SessionEvent::Console(ConsoleCommand::OperatorLevel { uuid, level });
    handle_play(&mut s, level(0));
    handle_play(&mut s, switch(1));
    assert_eq!(s.player.gamemode, 0);
    handle_play(&mut s, level(2));
    handle_play(&mut s, switch(3));
    assert_eq!(s.player.gamemode, 3);
    handle_play(&mut s, level(0));
    handle_play(&mut s, switch(1));
    assert_eq!(s.player.gamemode, 3);
}

#[test]
fn players_come_back_as_they_left() {
    let mut s = session();
    s.player.x = 12.5f64.to_bits();
    s.player.health = 7.0f32.to_bits();
    s.player.held_slot = 4;
    s.player.inventory[40] = vec![1, 2, 3];
    s.player.carried_item = vec![9];
    s.player.operator_level = 4;
    let (_, stored) = save_player(s.uuid, &s.player);
    let loaded = load_player(stored.as_deref());
    let (back, _) = PlaySession::open(loaded, 1, 8, s.uuid, s.username.clone(), 4, &Vec::new());
    assert_eq!(back.player.x, 12.5f64.to_bits());
    assert_eq!(back.player.health, 7.0f32.to_bits());
    assert_eq!(back.player.held_slot, 4);
    assert_eq!(back.player.inventory, s.player.inventory);
    assert!(back.player.carried_item.is_empty());
    assert_eq!(back.player.operator_level, 1);
}

fn client_after(mut held: Vec<(i32, i32)>, effects: &[Effect]) -> Vec<(i32, i32)> {
    for effect in effects {
        match effect {
            Effect::Send(ClientPacket::UnloadChunk { x, z }) => held.retain(|p| *p != (*x, *z)),
            Effect::Send(ClientPacket::Chunk { x, z }) => held.push((*x, *z)),
            _ => {}
        }
    }
    held.sort();
    held
}

fn view(center_x: i32, center_z: i32, radius: i32) -> Vec<(i32, i32)> {
    let mut view = Vec::new();
    for x in center_x - radius..=center_x + radius {
        for z in center_z - radius..=center_z + radius {
            view.push((x, z));
        }
    }
    view
}

#[test]
fn clients_join_with_the_distance_they_like() {
    for (preferred, limit, granted) in
        [(Some(5), 16, 5), (Some(32), 3, 3), (Some(-1), 16, 0), (None, 4, 4)]
    {
        let mut loaded = PlayerData::default();
        loaded.x = (-20.0f64).to_bits();
        let (s, stream, effects) = PlaySession::join(
            loaded,
            2,
            5,
            77,
            "Ann".to_string(),
            preferred,
            limit,
            &vec![online(3, 30, 0)],
        );
        assert!(matches!(
            &effects[0],
            Effect::Send(ClientPacket::Login(login)) if login.view_distance == granted
        ));
        assert!(matches!(effects.last(), Some(Effect::Send(ClientPacket::Brand))));
        assert_eq!(client_after(Vec::new(), &effects), view(-2, 0, granted));
        assert_eq!(s.player.operator_level, 2);
        assert!(stream.follow(&s.player).is_none());
    }
}

#[test]
fn the_view_follows_the_player() {
    let (mut s, mut stream, effects) = PlaySession::join(
        PlayerData::default(),
        0,
        5,
        77,
        "Ann".to_string(),
        Some(2),
        16,
        &Vec::new(),
    );
    let mut held = client_after(Vec::new(), &effects);
    for (x, z) in [(17.0f64, 3.0f64), (-900.0, 40.0), (-901.0, 41.0)] {
        s.player.x = x.to_bits();
        s.player.z = z.to_bits();
        if let Some(step) = stream.follow(&s.player) {
            let StreamStep { center_x, center_z, ref effects, .. } = step;
            assert_eq!((center_x, center_z), ((x.floor() as i32) >> 4, (z.floor() as i32) >> 4));
            held = client_after(held, effects);
            stream.arrive(step);
        }
        assert_eq!(held, view((x.floor() as i32) >> 4, (z.floor() as i32) >> 4, 2));
        assert!(stream.follow(&s.player).is_none());
    }
}
