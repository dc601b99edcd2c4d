//! A play session: how it starts, what it does on each event, and how it ends.

use vstd::prelude::*;
use vstd::slice::{slice_subrange, slice_to_vec};
use vstd::string::StringExecFns;
use crate::float_bits::{f32_below_zero, floor_i32, floor_to_i32, is_negative_f32, trunc_i64, trunc_to_i64};
use crate::viakraken::java::backend::effects::{ClientPacket, Effect, EntityKind, LoginPlay, SoundKind, WALK_SPEED};
use crate::viakraken::java::backend::handler::{change_gamemode, gamemode_effects, health_packet, is_command_tree, permission_packet, send_command_tree, send_permission_status, set_health_packet};
use crate::viakraken::java::backend::state::{ability_flags, gamemode_abilities, BlockUpdateEvent, ConsoleCommand, ItemEvent, OnlinePlayer, PlayerEvent, FLY_SPEED};
use crate::viakraken::java::backend::view::{nearest_first, stream_chunks, view_set, ChunkSet, StreamPlan};
use crate::viakraken::utils::{frame_bytes, law_streamed_varint, law_varint_round_trip, read_varint_from_slice, varint_bytes, varint_read, write_varint};
use crate::world::grid::{chunk_coord, chunk_of};
use crate::world::player_store::{byte_lists, cleared_inventory, empty_inventory, PlayerData, PlayerView, INVENTORY_SLOTS};

verus! {

/// The chunk that a coordinate lies in, from its bit pattern.
pub open spec fn chunk_at(coordinate: u64) -> int {
    chunk_of(floor_to_i32(coordinate) as int)
}

pub fn chunk_coordinate(block_coordinate: u64) -> (r: i32)
    ensures
        r == chunk_at(block_coordinate),
        -0x800_0000 <= r <= 0x7ff_ffff,
{
    chunk_coord(floor_i32(block_coordinate))
}

/// The player data that a session starts with: the permission level of the
/// session, and an empty inventory where the stored one has the wrong size.
pub open spec fn session_player(p: PlayerView, operator_level: u8) -> PlayerView {
    PlayerView {
        operator_level,
        inventory: if p.inventory.len() == INVENTORY_SLOTS {
            p.inventory
        } else {
            empty_inventory()
        },
        ..p
    }
}

pub fn prepare_player(loaded: PlayerData, operator_level: u8) -> (p: PlayerData)
    ensures
        p@ == session_player(loaded@, operator_level),
        p.inventory@.len() == INVENTORY_SLOTS,
{
    let mut player = loaded;
    player.operator_level = operator_level;
    if player.inventory.len() != INVENTORY_SLOTS {
        player.inventory = cleared_inventory();
        assert(byte_lists(player.inventory@).len() == INVENTORY_SLOTS);
    }
    player
}

/// The body of the packet that shows a player their inventory: an empty slot
/// is a zero, another one stands as the client wrote it.
pub open spec fn slots_bytes(slots: Seq<Seq<u8>>) -> Seq<u8>
    decreases slots.len(),
{
    if slots.len() == 0 {
        Seq::empty()
    } else {
        slots_bytes(slots.drop_last()) + (if slots.last().len() == 0 {
            varint_bytes(0)
        } else {
            slots.last()
        })
    }
}

pub open spec fn inventory_bytes(slots: Seq<Seq<u8>>) -> Seq<u8> {
    varint_bytes(0) + varint_bytes(0) + varint_bytes(46) + slots_bytes(slots) + varint_bytes(0)
}

pub fn inventory_body(player: &PlayerData) -> (body: Vec<u8>)
    requires
        player.inventory@.len() == INVENTORY_SLOTS,
    ensures
        body@ == inventory_bytes(player@.inventory),
{
    let mut body: Vec<u8> = Vec::new();
    write_varint(&mut body, 0);
    write_varint(&mut body, 0);
    write_varint(&mut body, 46);
    let ghost head = body@;
    let ghost slots = player@.inventory;
    let mut i: usize = 0;
    assert(slots.take(0) =~= Seq::<Seq<u8>>::empty());
    assert(body@ =~= head + slots_bytes(slots.take(0)));
    while i < INVENTORY_SLOTS
        invariant
            i <= INVENTORY_SLOTS,
            player.inventory@.len() == INVENTORY_SLOTS,
            slots == player@.inventory,
            body@ == head + slots_bytes(slots.take(i as int)),
        decreases INVENTORY_SLOTS - i,
    {
        let ghost before = body@;
        assert(slots[i as int] == player.inventory@[i as int]@);
        assert(slots.take(i + 1).drop_last() =~= slots.take(i as int));
        assert(slots.take(i + 1).last() == slots[i as int]);
        if player.inventory[i].len() == 0 {
            write_varint(&mut body, 0);
        } else {
            body.extend_from_slice(player.inventory[i].as_slice());
        }
        assert(body@ =~= head + slots_bytes(slots.take(i + 1)));
        i += 1;
    }
    write_varint(&mut body, 0);
    assert(slots.take(i as int) =~= slots);
    assert(body@ =~= inventory_bytes(slots));
    body
}

/// The packet that shows an inventory: its number, then the body.
pub fn inventory_packet(packet_id: i32, body: &[u8]) -> (r: Vec<u8>)
    ensures
        r@ == varint_bytes(packet_id as u32) + body@,
{
    let mut packet: Vec<u8> = Vec::new();
    write_varint(&mut packet, packet_id);
    packet.extend_from_slice(body);
    assert(packet@ =~= varint_bytes(packet_id as u32) + body@);
    packet
}

/// The packet that starts play.
pub open spec fn login_packet(p: PlayerView, entity_id: i32, view_distance: i32) -> LoginPlay {
    LoginPlay {
        entity_id,
        hardcore: false,
        max_players: 3,
        view_distance,
        simulation_distance: if view_distance < 12 {
            view_distance
        } else {
            12
        },
        reduced_debug_info: false,
        respawn_screen: true,
        limited_crafting: false,
        hashed_seed: trunc_to_i64(p.x),
        gamemode: p.gamemode,
        previous_gamemode: 1,
        debug: false,
        flat: true,
        portal_cooldown: 0,
        sea_level: 63,
        secure_chat: false,
    }
}

/// How a player looks to the others.
pub open spec fn is_online_form(
    o: OnlinePlayer,
    p: PlayerView,
    entity_id: i32,
    uuid: u128,
    username: Seq<char>,
) -> bool {
    &&& o.entity_id == entity_id
    &&& o.uuid == uuid
    &&& o.username@ == username
    &&& o.x == p.x
    &&& o.y == p.y
    &&& o.z == p.z
    &&& o.yaw == p.yaw
    &&& o.pitch == p.pitch
    &&& o.gamemode == p.gamemode
}

/// How another player appears: on the list, and in the world.
pub open spec fn player_appears(e0: Effect, e1: Effect, o: OnlinePlayer) -> bool {
    &&& e0 matches Effect::TrySend(ClientPacket::AddPlayer { uuid, name, gamemode }) && uuid
        == o.uuid && name@ == o.username@ && gamemode == o.gamemode
    &&& e1 == Effect::TrySend(
        ClientPacket::SpawnEntity {
            entity_id: o.entity_id,
            uuid: Some(o.uuid),
            kind: EntityKind::Player,
            x: o.x,
            y: o.y,
            z: o.z,
            pitch: o.pitch,
            yaw: o.yaw,
        },
    )
}

fn show_player(effects: &mut Vec<Effect>, o: &OnlinePlayer)
    ensures
        final(effects)@.len() == old(effects)@.len() + 2,
        final(effects)@.take(old(effects)@.len() as int) == old(effects)@,
        player_appears(
            final(effects)@[old(effects)@.len() as int],
            final(effects)@[old(effects)@.len() as int + 1],
            *o,
        ),
{
    effects.push(
        Effect::TrySend(
            ClientPacket::AddPlayer {
                uuid: o.uuid,
                name: o.username.clone(),
                gamemode: o.gamemode,
            },
        ),
    );
    effects.push(
        Effect::TrySend(
            ClientPacket::SpawnEntity {
                entity_id: o.entity_id,
                uuid: Some(o.uuid),
                kind: EntityKind::Player,
                x: o.x,
                y: o.y,
                z: o.z,
                pitch: o.pitch,
                yaw: o.yaw,
            },
        ),
    );
    assert(effects@.take(old(effects)@.len() as int) =~= old(effects)@);
}

/// Whether the effects open a session: the client learns where it is and what
/// it may do, sees itself and the others, and enters the world.
pub open spec fn is_opening(
    effects: Seq<Effect>,
    p: PlayerView,
    entity_id: i32,
    uuid: u128,
    username: Seq<char>,
    view_distance: i32,
    others: Seq<OnlinePlayer>,
) -> bool {
    let n = 4 + 2 * others.len() as int;
    &&& effects.len() == n + 9
    &&& effects[0] == Effect::Send(
        ClientPacket::Login(login_packet(p, entity_id, view_distance)),
    )
    &&& effects[1] == Effect::Send(permission_packet(entity_id, p.operator_level))
    &&& effects[2] matches Effect::Send(ClientPacket::Commands { nodes }) && is_command_tree(
        nodes@,
        p.operator_level > 0,
    )
    &&& effects[3] matches Effect::Send(ClientPacket::AddPlayer { uuid: id, name, gamemode }) && id
        == uuid && name@ == username && gamemode == p.gamemode
    &&& forall|i: int|
        0 <= i < others.len() ==> player_appears(
            effects[4 + 2 * i],
            effects[5 + 2 * i],
            #[trigger] others[i],
        )
    &&& effects[n] matches Effect::JoinOnline(o) && is_online_form(
        o,
        p,
        entity_id,
        uuid,
        username,
    )
    &&& effects[n + 1] matches Effect::TellPlayers(
        PlayerEvent::Join { entity_id: e, uuid: id, username: name, x, y, z, yaw, pitch, gamemode },
    ) && e == entity_id && id == uuid && name@ == username && x == p.x && y == p.y && z == p.z && yaw
        == p.yaw && pitch == p.pitch && gamemode == p.gamemode
    &&& effects[n + 2] matches Effect::TellChat(line) && line@ == username + " joined the game"@
    &&& effects[n + 3] == Effect::Send(health_packet(p.health))
    &&& effects[n + 4] matches Effect::TrySend(ClientPacket::Inventory { body }) && body@
        == inventory_bytes(p.inventory)
    &&& effects[n + 5] == Effect::Send(
        ClientPacket::Abilities {
            flags: ability_flags(p.gamemode),
            fly_speed: FLY_SPEED,
            walk_speed: WALK_SPEED,
        },
    )
    &&& effects[n + 6] == Effect::Send(ClientPacket::SpawnPosition { x: 0, y: 70, z: 0 })
    &&& effects[n + 7] == Effect::Send(
        ClientPacket::Position { x: p.x, y: p.y, z: p.z, yaw: p.yaw, pitch: p.pitch },
    )
    &&& effects[n + 8] == Effect::Send(ClientPacket::WaitForChunks)
}

fn opening_head(
    player: &PlayerData,
    entity_id: i32,
    uuid: u128,
    username: &String,
    view_distance: i32,
) -> (effects: Vec<Effect>)
    ensures
        effects@.len() == 4,
        effects@[0] == Effect::Send(
            ClientPacket::Login(login_packet(player@, entity_id, view_distance)),
        ),
        effects@[1] == Effect::Send(permission_packet(entity_id, player.operator_level)),
        effects@[2] matches Effect::Send(ClientPacket::Commands { nodes }) && is_command_tree(
            nodes@,
            player.operator_level > 0,
        ),
        effects@[3] matches Effect::Send(ClientPacket::AddPlayer { uuid: id, name, gamemode }) && id
            == uuid && name@ == username@ && gamemode == player.gamemode,
{
    let simulation_distance: i32 = if view_distance < 12 {
        view_distance
    } else {
        12
    };
    let login = LoginPlay {
        entity_id,
        hardcore: false,
        max_players: 3,
        view_distance,
        simulation_distance,
        reduced_debug_info: false,
        respawn_screen: true,
        limited_crafting: false,
        hashed_seed: trunc_i64(player.x),
        gamemode: player.gamemode,
        previous_gamemode: 1,
        debug: false,
        flat: true,
        portal_cooldown: 0,
        sea_level: 63,
        secure_chat: false,
    };
    let mut effects: Vec<Effect> = Vec::new();
    effects.push(Effect::Send(ClientPacket::Login(login)));
    effects.push(Effect::Send(send_permission_status(entity_id, player.operator_level)));
    effects.push(Effect::Send(send_command_tree(player.operator_level > 0)));
    effects.push(
        Effect::Send(
            ClientPacket::AddPlayer { uuid, name: username.clone(), gamemode: player.gamemode },
        ),
    );
    effects
}

fn opening_tail(player: &PlayerData, entity_id: i32, uuid: u128, username: &String) -> (effects: Vec<
    Effect,
>)
    requires
        player.inventory@.len() == INVENTORY_SLOTS,
    ensures
        effects@.len() == 9,
        effects@[0] matches Effect::JoinOnline(o) && is_online_form(
            o,
            player@,
            entity_id,
            uuid,
            username@,
        ),
        effects@[1] matches Effect::TellPlayers(
            PlayerEvent::Join {
                entity_id: e,
                uuid: id,
                username: name,
                x,
                y,
                z,
                yaw,
                pitch,
                gamemode,
            },
        ) && e == entity_id && id == uuid && name@ == username@ && x == player.x && y == player.y
            && z == player.z && yaw == player.yaw && pitch == player.pitch && gamemode
            == player.gamemode,
        effects@[2] matches Effect::TellChat(line) && line@ == username@ + " joined the game"@,
        effects@[3] == Effect::Send(health_packet(player.health)),
        effects@[4] matches Effect::TrySend(ClientPacket::Inventory { body }) && body@
            == inventory_bytes(player@.inventory),
        effects@[5] == Effect::Send(
            ClientPacket::Abilities {
                flags: ability_flags(player.gamemode),
                fly_speed: FLY_SPEED,
                walk_speed: WALK_SPEED,
            },
        ),
        effects@[6] == Effect::Send(ClientPacket::SpawnPosition { x: 0, y: 70, z: 0 }),
        effects@[7] == Effect::Send(
            ClientPacket::Position {
                x: player.x,
                y: player.y,
                z: player.z,
                yaw: player.yaw,
                pitch: player.pitch,
            },
        ),
        effects@[8] == Effect::Send(ClientPacket::WaitForChunks),
{
    let mut effects: Vec<Effect> = Vec::new();
    effects.push(
        Effect::JoinOnline(
            OnlinePlayer {
                entity_id,
                uuid,
                username: username.clone(),
                x: player.x,
                y: player.y,
                z: player.z,
                yaw: player.yaw,
                pitch: player.pitch,
                gamemode: player.gamemode,
            },
        ),
    );
    effects.push(
        Effect::TellPlayers(
            PlayerEvent::Join {
                entity_id,
                uuid,
                username: username.clone(),
                x: player.x,
                y: player.y,
                z: player.z,
                yaw: player.yaw,
                pitch: player.pitch,
                gamemode: player.gamemode,
            },
        ),
    );
    let mut line = username.clone();
    line.append(" joined the game");
    effects.push(Effect::TellChat(line));
    effects.push(Effect::Send(set_health_packet(player.health)));
    effects.push(Effect::TrySend(ClientPacket::Inventory { body: inventory_body(player) }));
    let (flags, fly_speed) = gamemode_abilities(player.gamemode);
    effects.push(
        Effect::Send(ClientPacket::Abilities { flags, fly_speed, walk_speed: WALK_SPEED }),
    );
    effects.push(Effect::Send(ClientPacket::SpawnPosition { x: 0, y: 70, z: 0 }));
    effects.push(
        Effect::Send(
            ClientPacket::Position {
                x: player.x,
                y: player.y,
                z: player.z,
                yaw: player.yaw,
                pitch: player.pitch,
            },
        ),
    );
    effects.push(Effect::Send(ClientPacket::WaitForChunks));
    effects
}

/// The effects that open a session, up to the chunks. `others` are the players
/// who are online already.
pub fn open_session(
    player: &PlayerData,
    entity_id: i32,
    uuid: u128,
    username: &String,
    view_distance: i32,
    others: &Vec<OnlinePlayer>,
) -> (effects: Vec<Effect>)
    requires
        player.inventory@.len() == INVENTORY_SLOTS,
    ensures
        is_opening(
            effects@,
            player@,
            entity_id,
            uuid,
            username@,
            view_distance,
            others@,
        ),
{
    let mut effects = opening_head(player, entity_id, uuid, username, view_distance);
    let ghost head = effects@;
    let mut i: usize = 0;
    while i < others.len()
        invariant
            i <= others.len(),
            head.len() == 4,
            effects@.len() == 4 + 2 * i,
            effects@.take(4) == head,
            forall|k: int|
                0 <= k < i ==> player_appears(
                    effects@[4 + 2 * k],
                    effects@[5 + 2 * k],
                    #[trigger] others@[k],
                ),
        decreases others.len() - i,
    {
        let ghost before = effects@;
        show_player(&mut effects, &others[i]);
        proof {
            assert forall|k: int| 0 <= k < before.len() implies effects@[k] == before[k] by {
                assert(effects@.take(before.len() as int)[k] == before[k]);
            }
            assert(effects@.take(4) =~= before.take(4));
            assert forall|k: int| 0 <= k < i + 1 implies player_appears(
                effects@[4 + 2 * k],
                effects@[5 + 2 * k],
                #[trigger] others@[k],
            ) by {
                if k < i {
                    assert(effects@[4 + 2 * k] == before[4 + 2 * k]);
                    assert(effects@[5 + 2 * k] == before[5 + 2 * k]);
                }
            }
        }
        i += 1;
    }
    let ghost middle = effects@;
    let mut tail = opening_tail(player, entity_id, uuid, username);
    let ghost end = tail@;
    effects.append(&mut tail);
    proof {
        assert(effects@ == middle + end);
        let n = 4 + 2 * others@.len() as int;
        assert(middle.len() == n);
        assert forall|k: int| 0 <= k < 4 implies effects@[k] == head[k] by {
            assert(middle.take(4)[k] == head[k]);
        }
        assert forall|k: int| 0 <= k < 9 implies effects@[n + k] == #[trigger] end[k] by {}
        assert(effects@[0] == head[0] && effects@[1] == head[1] && effects@[2] == head[2]
            && effects@[3] == head[3]);
        assert(effects@[n] == end[0] && effects@[n + 1] == end[1] && effects@[n + 2]
            == end[2] && effects@[n + 3] == end[3] && effects@[n + 4] == end[4] && effects@[n + 5]
            == end[5] && effects@[n + 6] == end[6] && effects@[n + 7] == end[7] && effects@[n + 8]
            == end[8]);
        assert forall|k: int| 0 <= k < others@.len() implies player_appears(
            effects@[4 + 2 * k],
            effects@[5 + 2 * k],
            #[trigger] others@[k],
        ) by {
            assert(effects@[4 + 2 * k] == middle[4 + 2 * k]);
            assert(effects@[5 + 2 * k] == middle[5 + 2 * k]);
        }
    }
    effects
}

/// Whom an event is about.
pub open spec fn concerns(event: PlayerEvent) -> u128 {
    match event {
        PlayerEvent::Join { uuid, .. } => uuid,
        PlayerEvent::Move { uuid, .. } => uuid,
        PlayerEvent::Leave { uuid, .. } => uuid,
        PlayerEvent::GamemodeChange { uuid, .. } => uuid,
        PlayerEvent::Hurt { uuid, .. } => uuid,
    }
}

/// Whether a command from the console leaves a session's player as `after`, with
/// these effects. Commands for other players do nothing; a summoned entity
/// appears to everyone.
pub open spec fn console_done(
    before: PlayerView,
    after: PlayerView,
    effects: Seq<Effect>,
    entity_id: i32,
    uuid: u128,
    command: ConsoleCommand,
) -> bool {
    match command {
        ConsoleCommand::OperatorLevel { uuid: target, level } => if target == uuid {
            let granted = if level > 4 {
                4
            } else {
                level
            };
            &&& after == (PlayerView { operator_level: granted, ..before })
            &&& effects.len() == 2
            &&& effects[0] == Effect::Send(permission_packet(entity_id, granted))
            &&& effects[1] matches Effect::Send(ClientPacket::Commands { nodes })
                && is_command_tree(nodes@, granted > 0)
        } else {
            after == before && effects == Seq::<Effect>::empty()
        },
        ConsoleCommand::Kill { uuid: target } => if target == uuid {
            &&& after == (PlayerView { health: 0, ..before })
            &&& effects == seq![Effect::Send(health_packet(0))]
        } else {
            after == before && effects == Seq::<Effect>::empty()
        },
        ConsoleCommand::Gamemode { uuid: target, gamemode } => if target == uuid {
            &&& after == (PlayerView { gamemode, ..before })
            &&& effects == gamemode_effects(uuid, gamemode)
        } else {
            after == before && effects == Seq::<Effect>::empty()
        },
        ConsoleCommand::Summon { entity_id: e, entity_type, x, y, z } => {
            &&& after == before
            &&& effects == seq![
                Effect::Send(
                    ClientPacket::SpawnEntity {
                        entity_id: e,
                        uuid: None,
                        kind: EntityKind::Numbered(entity_type),
                        x,
                        y,
                        z,
                        pitch: 0,
                        yaw: 0,
                    },
                ),
            ]
        },
    }
}

/// What a command from the console does to a session.
pub fn on_console_command(
    player: &mut PlayerData,
    entity_id: i32,
    uuid: u128,
    command: ConsoleCommand,
) -> (r: Vec<Effect>)
    ensures
        console_done(old(player)@, final(player)@, r@, entity_id, uuid, command),
{
    let mut effects: Vec<Effect> = Vec::new();
    match command {
        ConsoleCommand::OperatorLevel { uuid: target, level } => {
            if target == uuid {
                player.operator_level = if level > 4 {
                    4
                } else {
                    level
                };
                effects.push(
                    Effect::Send(send_permission_status(entity_id, player.operator_level)),
                );
                effects.push(Effect::Send(send_command_tree(player.operator_level > 0)));
            }
        },
        ConsoleCommand::Kill { uuid: target } => {
            if target == uuid {
                player.health = 0;
                effects.push(Effect::Send(set_health_packet(0)));
            }
        },
        ConsoleCommand::Gamemode { uuid: target, gamemode } => {
            if target == uuid {
                return change_gamemode(player, uuid, gamemode);
            }
        },
        ConsoleCommand::Summon { entity_id: e, entity_type, x, y, z } => {
            effects.push(
                Effect::Send(
                    ClientPacket::SpawnEntity {
                        entity_id: e,
                        uuid: None,
                        kind: EntityKind::Numbered(entity_type),
                        x,
                        y,
                        z,
                        pitch: 0,
                        yaw: 0,
                    },
                ),
            );
        },
    }
    effects
}

/// 0.35
pub const KNOCKBACK_UP: u64 = 0x3fd6_6666_6666_6666;

/// What the arithmetic of an event comes to: the health that damage leaves,
/// the knockback, and the direction of a head in 256 parts.
#[derive(Clone, Copy, Debug, PartialEq, Eq, Structural)]
pub struct EventNumbers {
    pub reduced_health: u32,
    pub knockback_x: u64,
    pub knockback_z: u64,
    pub head_yaw: u8,
}

/// Health does not go below zero.
pub open spec fn health_left(reduced: u32) -> u32 {
    if f32_below_zero(reduced) {
        0
    } else {
        reduced
    }
}

/// The effects of damage on the one who is hurt.
pub open spec fn own_hurt_effects(entity_id: i32, n: EventNumbers) -> Seq<Effect> {
    seq![
        Effect::TrySend(health_packet(health_left(n.reduced_health))),
        Effect::TrySend(
            ClientPacket::Velocity {
                entity_id,
                x: n.knockback_x,
                y: KNOCKBACK_UP,
                z: n.knockback_z,
            },
        ),
    ]
}

/// The effects of damage that everybody sees and hears.
pub open spec fn shown_hurt_effects(
    entity_id: i32,
    x: u64,
    y: u64,
    z: u64,
    attacked: bool,
) -> Seq<Effect> {
    seq![
        Effect::TrySend(ClientPacket::EntityStatus { entity_id, status: 2 }),
        Effect::TrySend(ClientPacket::Sound { sound: SoundKind::PlayerHurt, x, y, z }),
    ] + (if attacked {
        seq![
            Effect::TrySend(ClientPacket::Sound { sound: SoundKind::PlayerAttackStrong, x, y, z }),
        ]
    } else {
        Seq::<Effect>::empty()
    })
}

fn on_hurt(
    player: &mut PlayerData,
    my_entity_id: i32,
    mine: bool,
    entity_id: i32,
    x: u64,
    y: u64,
    z: u64,
    attacked: bool,
    numbers: &EventNumbers,
) -> (r: Vec<Effect>)
    ensures
        final(player)@ == (if mine {
            PlayerView { health: health_left(numbers.reduced_health), ..old(player)@ }
        } else {
            old(player)@
        }),
        r@ == (if mine {
            own_hurt_effects(my_entity_id, *numbers)
        } else {
            Seq::<Effect>::empty()
        }) + shown_hurt_effects(entity_id, x, y, z, attacked),
{
    let mut effects: Vec<Effect> = Vec::new();
    if mine {
        player.health = if is_negative_f32(numbers.reduced_health) {
            0
        } else {
            numbers.reduced_health
        };
        effects.push(Effect::TrySend(set_health_packet(player.health)));
        effects.push(
            Effect::TrySend(
                ClientPacket::Velocity {
                    entity_id: my_entity_id,
                    x: numbers.knockback_x,
                    y: KNOCKBACK_UP,
                    z: numbers.knockback_z,
                },
            ),
        );
    }
    effects.push(Effect::TrySend(ClientPacket::EntityStatus { entity_id, status: 2 }));
    effects.push(
        Effect::TrySend(ClientPacket::Sound { sound: SoundKind::PlayerHurt, x, y, z }),
    );
    if attacked {
        effects.push(
            Effect::TrySend(ClientPacket::Sound { sound: SoundKind::PlayerAttackStrong, x, y, z }),
        );
    }
    assert(effects@ =~= (if mine {
        own_hurt_effects(my_entity_id, *numbers)
    } else {
        Seq::<Effect>::empty()
    }) + shown_hurt_effects(entity_id, x, y, z, attacked));
    effects
}

/// Whether an event of a player leaves the player of a session as `after`, with
/// these effects. Sessions do not react to their own events, except to damage.
pub open spec fn player_event_done(
    before: PlayerView,
    after: PlayerView,
    effects: Seq<Effect>,
    my_entity_id: i32,
    my_uuid: u128,
    event: PlayerEvent,
    numbers: EventNumbers,
) -> bool {
    match event {
        PlayerEvent::Hurt { entity_id, uuid, x, y, z, attacker_x, .. } => {
            &&& after == (if uuid == my_uuid {
                PlayerView { health: health_left(numbers.reduced_health), ..before }
            } else {
                before
            })
            &&& effects == (if uuid == my_uuid {
                own_hurt_effects(my_entity_id, numbers)
            } else {
                Seq::<Effect>::empty()
            }) + shown_hurt_effects(entity_id, x, y, z, attacker_x is Some)
        },
        _ => {
            &&& after == before
            &&& if concerns(event) == my_uuid {
                effects == Seq::<Effect>::empty()
            } else {
                shown_event(effects, event, numbers)
            }
        },
    }
}

/// Whether these effects show an event of another player.
pub open spec fn shown_event(
    effects: Seq<Effect>,
    event: PlayerEvent,
    numbers: EventNumbers,
) -> bool {
    match event {
        PlayerEvent::Join { entity_id, uuid, username, x, y, z, yaw, pitch, gamemode } => {
            effects.len() == 2 && player_appears(
                effects[0],
                effects[1],
                OnlinePlayer { entity_id, uuid, username, x, y, z, yaw, pitch, gamemode },
            )
        },
        PlayerEvent::Move { entity_id, x, y, z, yaw, pitch, .. } => effects == seq![
            Effect::TrySend(ClientPacket::TeleportEntity { entity_id, x, y, z, yaw, pitch }),
            Effect::TrySend(ClientPacket::HeadRotation { entity_id, yaw: numbers.head_yaw }),
        ],
        PlayerEvent::Leave { entity_id, uuid } => effects == seq![
            Effect::TrySend(ClientPacket::RemoveEntity { entity_id }),
            Effect::TrySend(ClientPacket::RemovePlayer { uuid }),
        ],
        PlayerEvent::GamemodeChange { uuid, gamemode } => effects == seq![
            Effect::TrySend(ClientPacket::UpdateGamemode { uuid, gamemode }),
        ],
        PlayerEvent::Hurt { .. } => true,
    }
}

/// What an event of a player does to a session.
pub fn on_player_event(
    player: &mut PlayerData,
    my_entity_id: i32,
    my_uuid: u128,
    event: &PlayerEvent,
    numbers: &EventNumbers,
) -> (r: Vec<Effect>)
    ensures
        player_event_done(
            old(player)@,
            final(player)@,
            r@,
            my_entity_id,
            my_uuid,
            *event,
            *numbers,
        ),
{
    let mut effects: Vec<Effect> = Vec::new();
    match event {
        PlayerEvent::Join { entity_id, uuid, username, x, y, z, yaw, pitch, gamemode } => {
            if *uuid != my_uuid {
                let other = OnlinePlayer {
                    entity_id: *entity_id,
                    uuid: *uuid,
                    username: username.clone(),
                    x: *x,
                    y: *y,
                    z: *z,
                    yaw: *yaw,
                    pitch: *pitch,
                    gamemode: *gamemode,
                };
                show_player(&mut effects, &other);
            }
        },
        PlayerEvent::Move { entity_id, uuid, x, y, z, yaw, pitch } => {
            if *uuid != my_uuid {
                effects.push(
                    Effect::TrySend(
                        ClientPacket::TeleportEntity {
                            entity_id: *entity_id,
                            x: *x,
                            y: *y,
                            z: *z,
                            yaw: *yaw,
                            pitch: *pitch,
                        },
                    ),
                );
                effects.push(
                    Effect::TrySend(
                        ClientPacket::HeadRotation {
                            entity_id: *entity_id,
                            yaw: numbers.head_yaw,
                        },
                    ),
                );
                assert(effects@ =~= seq![
                    Effect::TrySend(
                        ClientPacket::TeleportEntity {
                            entity_id: *entity_id,
                            x: *x,
                            y: *y,
                            z: *z,
                            yaw: *yaw,
                            pitch: *pitch,
                        },
                    ),
                    Effect::TrySend(
                        ClientPacket::HeadRotation {
                            entity_id: *entity_id,
                            yaw: numbers.head_yaw,
                        },
                    ),
                ]);
            }
        },
        PlayerEvent::Leave { entity_id, uuid } => {
            if *uuid != my_uuid {
                effects.push(
                    Effect::TrySend(ClientPacket::RemoveEntity { entity_id: *entity_id }),
                );
                effects.push(Effect::TrySend(ClientPacket::RemovePlayer { uuid: *uuid }));
                assert(effects@ =~= seq![
                    Effect::TrySend(ClientPacket::RemoveEntity { entity_id: *entity_id }),
                    Effect::TrySend(ClientPacket::RemovePlayer { uuid: *uuid }),
                ]);
            }
        },
        PlayerEvent::GamemodeChange { uuid, gamemode } => {
            if *uuid != my_uuid {
                effects.push(
                    Effect::TrySend(
                        ClientPacket::UpdateGamemode { uuid: *uuid, gamemode: *gamemode },
                    ),
                );
                assert(effects@ =~= seq![
                    Effect::TrySend(
                        ClientPacket::UpdateGamemode { uuid: *uuid, gamemode: *gamemode },
                    ),
                ]);
            }
        },
        PlayerEvent::Hurt { entity_id, uuid, x, y, z, attacker_x, .. } => {
            return on_hurt(
                player,
                my_entity_id,
                *uuid == my_uuid,
                *entity_id,
                *x,
                *y,
                *z,
                attacker_x.is_some(),
                numbers,
            );
        },
    }
    effects
}

/// A line of chat reaches the client.
pub fn on_chat(text: String) -> (r: Effect)
    ensures
        r == Effect::TrySend(ClientPacket::Chat { text }),
{
    Effect::TrySend(ClientPacket::Chat { text })
}

/// A stack appears in the world: the entity, what it is where the item is
/// known, and its speed. Nothing is shown of a stack that is picked up.
pub open spec fn item_effects(event: ItemEvent, known: bool) -> Seq<Effect> {
    match event {
        ItemEvent::Spawn { entity_id, item_id, count, x, y, z, vx, vy, vz } => seq![
            Effect::TrySend(
                ClientPacket::SpawnEntity {
                    entity_id,
                    uuid: None,
                    kind: EntityKind::Item,
                    x,
                    y,
                    z,
                    pitch: 0,
                    yaw: 0,
                },
            ),
        ] + (if known {
            seq![Effect::TrySend(ClientPacket::ItemMetadata { entity_id, item_id, count })]
        } else {
            Seq::<Effect>::empty()
        }) + seq![
            Effect::TrySend(ClientPacket::Velocity { entity_id, x: vx, y: vy, z: vz }),
        ],
        ItemEvent::Pickup { .. } => Seq::<Effect>::empty(),
    }
}

pub fn on_item_event(event: ItemEvent, known: bool) -> (effects: Vec<Effect>)
    ensures
        effects@ == item_effects(event, known),
{
    let mut effects: Vec<Effect> = Vec::new();
    match event {
        ItemEvent::Spawn { entity_id, item_id, count, x, y, z, vx, vy, vz } => {
            effects.push(
                Effect::TrySend(
                    ClientPacket::SpawnEntity {
                        entity_id,
                        uuid: None,
                        kind: EntityKind::Item,
                        x,
                        y,
                        z,
                        pitch: 0,
                        yaw: 0,
                    },
                ),
            );
            if known {
                effects.push(
                    Effect::TrySend(ClientPacket::ItemMetadata { entity_id, item_id, count }),
                );
            }
            effects.push(
                Effect::TrySend(ClientPacket::Velocity { entity_id, x: vx, y: vy, z: vz }),
            );
        },
        ItemEvent::Pickup { .. } => {},
    }
    assert(effects@ =~= item_effects(event, known));
    effects
}

/// A block changes.
pub fn on_block_update(event: BlockUpdateEvent) -> (r: Effect)
    ensures
        r == Effect::TrySend(
            ClientPacket::BlockUpdate {
                x: event.x,
                y: event.y,
                z: event.z,
                state_id: event.state_id,
            },
        ),
{
    Effect::TrySend(
        ClientPacket::BlockUpdate {
            x: event.x,
            y: event.y,
            z: event.z,
            state_id: event.state_id,
        },
    )
}

/// The next keep-alive: each one has the number behind the last.
pub fn next_keep_alive(id: &mut i64) -> (r: Effect)
    ensures
        *final(id) == old(id).wrapping_add(1),
        r == Effect::TrySend(ClientPacket::KeepAlive { id: *final(id) }),
{
    *id = id.wrapping_add(1);
    Effect::TrySend(ClientPacket::KeepAlive { id: *id })
}

/// Whether these effects end a session: the player is stored and leaves.
pub open spec fn is_closing(
    effects: Seq<Effect>,
    entity_id: i32,
    uuid: u128,
    username: Seq<char>,
) -> bool {
    &&& effects.len() == 4
    &&& effects[0] == (Effect::SavePlayer { always_flush: true })
    &&& effects[1] == (Effect::LeaveOnline { uuid })
    &&& effects[2] == Effect::TellPlayers(PlayerEvent::Leave { entity_id, uuid })
    &&& effects[3] matches Effect::TellChat(line) && line@ == username + " left the game"@
}

/// The end of a session.
pub fn close_session(entity_id: i32, uuid: u128, username: &str) -> (r: Vec<Effect>)
    ensures
        is_closing(r@, entity_id, uuid, username@),
{
    let mut effects: Vec<Effect> = Vec::new();
    effects.push(Effect::SavePlayer { always_flush: true });
    effects.push(Effect::LeaveOnline { uuid });
    effects.push(Effect::TellPlayers(PlayerEvent::Leave { entity_id, uuid }));
    let mut line = username.to_owned();
    line.append(" left the game");
    effects.push(Effect::TellChat(line));
    effects
}

/// The first packet in the bytes that have arrived, and the bytes behind it.
/// While it is not complete the bytes stay; an empty frame throws everything
/// away.
pub open spec fn frame_step(pending: Seq<u8>) -> (Option<Seq<u8>>, Seq<u8>) {
    let (len, start) = varint_read(pending, 0);
    match len {
        Err(_) => (None, pending),
        Ok(n) => if n <= 0 {
            (None, Seq::empty())
        } else if start + n > pending.len() {
            (None, pending)
        } else {
            (Some(pending.subrange(start, start + n)), pending.skip(start + n))
        },
    }
}

pub fn next_packet(pending: &mut Vec<u8>) -> (r: Option<Vec<u8>>)
    ensures
        final(pending)@ == frame_step(old(pending)@).1,
        match frame_step(old(pending)@).0 {
            Some(packet) => r matches Some(p) && p@ == packet,
            None => r is None,
        },
{
    let mut offset: usize = 0;
    let len: i32 = match read_varint_from_slice(pending.as_slice(), &mut offset) {
        Ok(len) => len,
        Err(_) => return None,
    };
    if len <= 0 {
        pending.clear();
        return None;
    }
    let n: usize = len as usize;
    if n > pending.len() - offset {
        return None;
    }
    let packet = slice_to_vec(slice_subrange(pending.as_slice(), offset, offset + n));
    let rest = slice_to_vec(slice_subrange(pending.as_slice(), offset + n, pending.len()));
    assert(rest@ =~= pending@.skip(offset + n));
    *pending = rest;
    Some(packet)
}

/// A complete frame at the front of the bytes is taken out whole, whatever
/// follows it; a frame that has arrived only in part is waited for.
pub proof fn law_frames_are_taken_whole(payload: Seq<u8>, rest: Seq<u8>, k: int)
    requires
        0 < payload.len() <= i32::MAX,
        0 <= k < frame_bytes(payload).len(),
    ensures
        frame_step(frame_bytes(payload) + rest) == (Some(payload), rest),
        frame_step(frame_bytes(payload).take(k)) == (
            None::<Seq<u8>>,
            frame_bytes(payload).take(k),
        ),
{
    let n = payload.len() as i32;
    let head = varint_bytes(n as u32);
    let whole = frame_bytes(payload) + rest;
    assert(n as u32 == payload.len() as u32);
    assert(whole.subrange(0, head.len() as int) =~= head);
    law_varint_round_trip(whole, 0, n);
    let start = head.len() as int;
    assert(whole.subrange(start, start + n) =~= payload);
    assert(whole.skip(start + n) =~= rest);
    let part = frame_bytes(payload).take(k);
    if k < start {
        if k > 0 {
            law_streamed_varint(n, k);
            assert(part =~= head.take(k));
        } else {
            assert(part =~= Seq::<u8>::empty());
        }
    } else {
        assert(part.subrange(0, start) =~= head);
        law_varint_round_trip(part, 0, n);
    }
}

/// The chunks that a client holds, and the center of its view.
#[derive(Debug)]
pub struct ChunkStream {
    center_x: i32,
    center_z: i32,
    view_distance: i32,
    sent: ChunkSet,
}

impl ChunkStream {
    /// The view fits round every center.
    pub closed spec fn wf(&self) -> bool {
        &&& self.sent.wf()
        &&& 0 <= self.view_distance <= 0x3fff_ffff
        &&& -0x800_0000 <= self.center_x <= 0x7ff_ffff
        &&& -0x800_0000 <= self.center_z <= 0x7ff_ffff
    }

    pub closed spec fn center(&self) -> (int, int) {
        (self.center_x as int, self.center_z as int)
    }

    pub closed spec fn distance(&self) -> int {
        self.view_distance as int
    }

    /// The chunks that the client holds.
    pub closed spec fn held(&self) -> Set<(i32, i32)> {
        self.sent@
    }

    /// A client that holds nothing yet, at a position given by bit patterns.
    pub fn new(x: u64, z: u64, view_distance: i32) -> (s: Self)
        requires
            0 <= view_distance <= 0x3fff_ffff,
        ensures
            s.wf(),
            s.center() == (chunk_at(x), chunk_at(z)),
            s.distance() == view_distance,
            s.held() == Set::<(i32, i32)>::empty(),
    {
        ChunkStream {
            center_x: chunk_coordinate(x),
            center_z: chunk_coordinate(z),
            view_distance,
            sent: ChunkSet::new(),
        }
    }

    /// What the client has to be told to see the chunks round a center.
    pub fn plan_for(&self, center_x: i32, center_z: i32) -> (plan: StreamPlan)
        requires
            self.wf(),
            -0x800_0000 <= center_x <= 0x7ff_ffff,
            -0x800_0000 <= center_z <= 0x7ff_ffff,
        ensures
            plan.sent.wf(),
            plan.sent@ == view_set(center_x as int, center_z as int, self.distance()),
            plan.unload@.no_duplicates(),
            plan.unload@.to_set() == self.held().difference(plan.sent@),
            plan.load@.no_duplicates(),
            plan.load@.to_set() == plan.sent@.difference(self.held()),
            nearest_first(center_x as int, center_z as int, plan.load@),
            plan.batch_size == plan.load.len() as u16,
    {
        stream_chunks(center_x, center_z, &self.sent, self.view_distance)
    }

    /// Whether the client holds exactly the view round the center.
    pub open spec fn settled(&self) -> bool {
        self.held() == view_set(self.center().0, self.center().1, self.distance())
    }

    /// What has to be done when the player is where they are: nothing as long
    /// as that is the chunk in the center.
    pub fn follow(&self, player: &PlayerData) -> (r: Option<StreamStep>)
        requires
            self.wf(),
        ensures
            r is Some <==> player_chunk(player@) != self.center(),
            r matches Some(step) ==> step.leads(self, player_chunk(player@)),
    {
        match self.new_center(player.x, player.z) {
            Some((center_x, center_z)) => Some(self.step_to(center_x, center_z)),
            None => None,
        }
    }

    /// The step that brings the client the view round a center.
    pub fn step_to(&self, center_x: i32, center_z: i32) -> (step: StreamStep)
        requires
            self.wf(),
            -0x800_0000 <= center_x <= 0x7ff_ffff,
            -0x800_0000 <= center_z <= 0x7ff_ffff,
        ensures
            step.leads(self, (center_x as int, center_z as int)),
    {
        let plan = self.plan_for(center_x, center_z);
        let effects = streaming_effects(center_x, center_z, &plan);
        let ghost view = view_set(center_x as int, center_z as int, self.distance());
        assert(is_streaming_with(
            effects@,
            self.held(),
            view,
            center_x,
            center_z,
            plan.unload@,
            plan.load@,
        ));
        StreamStep { center_x, center_z, effects, sent: plan.sent }
    }

    /// Notes that a step has been made.
    pub fn arrive(&mut self, step: StreamStep)
        requires
            old(self).wf(),
            step.lands(&*old(self)),
        ensures
            final(self).wf(),
            final(self).settled(),
            final(self).center() == (step.center_x as int, step.center_z as int),
            final(self).distance() == old(self).distance(),
    {
        self.commit(step.center_x, step.center_z, step.sent);
    }

    /// The chunk that a position lies in, if it is not the center any more.
    pub fn new_center(&self, x: u64, z: u64) -> (r: Option<(i32, i32)>)
        ensures
            r is Some <==> (chunk_at(x), chunk_at(z)) != self.center(),
            r matches Some(c) ==> (c.0 as int, c.1 as int) == (chunk_at(x), chunk_at(z))
                && -0x800_0000 <= c.0 <= 0x7ff_ffff && -0x800_0000 <= c.1 <= 0x7ff_ffff,
    {
        let cx: i32 = chunk_coordinate(x);
        let cz: i32 = chunk_coordinate(z);
        if cx != self.center_x || cz != self.center_z {
            Some((cx, cz))
        } else {
            None
        }
    }

    /// Notes that a plan has been carried out.
    pub fn commit(&mut self, center_x: i32, center_z: i32, sent: ChunkSet)
        requires
            old(self).wf(),
            sent.wf(),
            -0x800_0000 <= center_x <= 0x7ff_ffff,
            -0x800_0000 <= center_z <= 0x7ff_ffff,
        ensures
            final(self).wf(),
            final(self).center() == (center_x as int, center_z as int),
            final(self).distance() == old(self).distance(),
            final(self).held() == sent@,
    {
        self.center_x = center_x;
        self.center_z = center_z;
        self.sent = sent;
    }
}

/// The effects of a plan: the new center, the chunks to unload, and a batch
/// with the missing ones, if there are any.
pub open spec fn plan_effects(
    center_x: i32,
    center_z: i32,
    unload: Seq<(i32, i32)>,
    load: Seq<(i32, i32)>,
    batch_size: u16,
) -> Seq<Effect> {
    let unloads = Seq::new(
        unload.len(),
        |i: int| Effect::Send(ClientPacket::UnloadChunk { x: unload[i].0, z: unload[i].1 }),
    );
    let loads = Seq::new(
        load.len(),
        |i: int| Effect::Send(ClientPacket::Chunk { x: load[i].0, z: load[i].1 }),
    );
    seq![Effect::Send(ClientPacket::CenterChunk { x: center_x, z: center_z })] + unloads + (
    if load.len() > 0 {
        seq![Effect::Send(ClientPacket::BatchStart)] + loads + seq![
            Effect::Send(ClientPacket::BatchEnd { count: batch_size }),
        ]
    } else {
        Seq::<Effect>::empty()
    })
}

pub fn streaming_effects(center_x: i32, center_z: i32, plan: &StreamPlan) -> (effects: Vec<Effect>)
    ensures
        effects@ == plan_effects(
            center_x,
            center_z,
            plan.unload@,
            plan.load@,
            plan.batch_size,
        ),
{
    let mut effects: Vec<Effect> = Vec::new();
    effects.push(Effect::Send(ClientPacket::CenterChunk { x: center_x, z: center_z }));
    let ghost unloads = Seq::new(
        plan.unload@.len(),
        |i: int|
            Effect::Send(ClientPacket::UnloadChunk { x: plan.unload@[i].0, z: plan.unload@[i].1 }),
    );
    let ghost loads = Seq::new(
        plan.load@.len(),
        |i: int| Effect::Send(ClientPacket::Chunk { x: plan.load@[i].0, z: plan.load@[i].1 }),
    );
    let ghost head = effects@;
    let mut i: usize = 0;
    assert(effects@ =~= head + unloads.take(0));
    while i < plan.unload.len()
        invariant
            i <= plan.unload.len(),
            unloads.len() == plan.unload@.len(),
            forall|k: int|
                0 <= k < unloads.len() ==> #[trigger] unloads[k] == Effect::Send(
                    ClientPacket::UnloadChunk { x: plan.unload@[k].0, z: plan.unload@[k].1 },
                ),
            effects@ == head + unloads.take(i as int),
        decreases plan.unload.len() - i,
    {
        let (x, z) = plan.unload[i];
        effects.push(Effect::Send(ClientPacket::UnloadChunk { x, z }));
        assert(unloads.take(i + 1) =~= unloads.take(i as int).push(unloads[i as int]));
        assert(effects@ =~= head + unloads.take(i + 1));
        i += 1;
    }
    assert(unloads.take(i as int) =~= unloads);
    if plan.load.len() > 0 {
        effects.push(Effect::Send(ClientPacket::BatchStart));
        let ghost start = effects@;
        let mut j: usize = 0;
        assert(effects@ =~= start + loads.take(0));
        while j < plan.load.len()
            invariant
                j <= plan.load.len(),
                loads.len() == plan.load@.len(),
                forall|k: int|
                    0 <= k < loads.len() ==> #[trigger] loads[k] == Effect::Send(
                        ClientPacket::Chunk { x: plan.load@[k].0, z: plan.load@[k].1 },
                    ),
                effects@ == start + loads.take(j as int),
            decreases plan.load.len() - j,
        {
            let (x, z) = plan.load[j];
            effects.push(Effect::Send(ClientPacket::Chunk { x, z }));
            assert(loads.take(j + 1) =~= loads.take(j as int).push(loads[j as int]));
            assert(effects@ =~= start + loads.take(j + 1));
            j += 1;
        }
        assert(loads.take(j as int) =~= loads);
        effects.push(Effect::Send(ClientPacket::BatchEnd { count: plan.batch_size }));
    }
    assert(effects@ =~= plan_effects(
        center_x,
        center_z,
        plan.unload@,
        plan.load@,
        plan.batch_size,
    ));
    effects
}

/// The chunk that a player is in.
pub open spec fn player_chunk(p: PlayerView) -> (int, int) {
    (chunk_at(p.x), chunk_at(p.z))
}

/// A step of the view to a new center: what the client is told, and what it then
/// holds.
#[derive(Debug)]
pub struct StreamStep {
    pub center_x: i32,
    pub center_z: i32,
    pub effects: Vec<Effect>,
    pub sent: ChunkSet,
}

impl StreamStep {
    /// Whether what the client holds after the step is the view round the new
    /// center.
    pub open spec fn lands(&self, stream: &ChunkStream) -> bool {
        &&& -0x800_0000 <= self.center_x <= 0x7ff_ffff
        &&& -0x800_0000 <= self.center_z <= 0x7ff_ffff
        &&& self.sent.wf()
        &&& self.sent@ == view_set(
            self.center_x as int,
            self.center_z as int,
            stream.distance(),
        )
    }

    /// Whether the step brings a client from what it holds to the view round a
    /// center.
    pub open spec fn leads(&self, stream: &ChunkStream, center: (int, int)) -> bool {
        &&& (self.center_x as int, self.center_z as int) == center
        &&& self.lands(stream)
        &&& is_streaming(
            self.effects@,
            stream.held(),
            self.sent@,
            self.center_x,
            self.center_z,
        )
    }
}

/// Whether the effects bring a client that holds some chunks to a view: it
/// unloads what is not in view, and is sent what is missing, nearest first.
pub open spec fn is_streaming(
    effects: Seq<Effect>,
    held: Set<(i32, i32)>,
    view: Set<(i32, i32)>,
    center_x: i32,
    center_z: i32,
) -> bool {
    exists|unload: Seq<(i32, i32)>, load: Seq<(i32, i32)>| #[trigger]
        is_streaming_with(effects, held, view, center_x, center_z, unload, load)
}

pub open spec fn is_streaming_with(
    effects: Seq<Effect>,
    held: Set<(i32, i32)>,
    view: Set<(i32, i32)>,
    center_x: i32,
    center_z: i32,
    unload: Seq<(i32, i32)>,
    load: Seq<(i32, i32)>,
) -> bool {
    &&& effects == plan_effects(center_x, center_z, unload, load, load.len() as u16)
    &&& unload.no_duplicates()
    &&& unload.to_set() == held.difference(view)
    &&& load.no_duplicates()
    &&& load.to_set() == view.difference(held)
    &&& nearest_first(center_x as int, center_z as int, load)
}

/// The chunks that a client holds after it has received what the effects send.
pub open spec fn client_chunks(held: Set<(i32, i32)>, effects: Seq<Effect>) -> Set<(i32, i32)>
    decreases effects.len(),
{
    if effects.len() == 0 {
        held
    } else {
        let before = client_chunks(held, effects.drop_last());
        match effects.last() {
            Effect::Send(ClientPacket::UnloadChunk { x, z }) => before.remove((x, z)),
            Effect::Send(ClientPacket::Chunk { x, z }) => before.insert((x, z)),
            _ => before,
        }
    }
}

proof fn lemma_client_chunks_add(held: Set<(i32, i32)>, a: Seq<Effect>, b: Seq<Effect>)
    ensures
        client_chunks(held, a + b) == client_chunks(client_chunks(held, a), b),
    decreases b.len(),
{
    if b.len() == 0 {
        assert(a + b =~= a);
    } else {
        assert((a + b).drop_last() =~= a + b.drop_last());
        lemma_client_chunks_add(held, a, b.drop_last());
    }
}

proof fn lemma_client_unloads(held: Set<(i32, i32)>, unload: Seq<(i32, i32)>)
    ensures
        client_chunks(
            held,
            Seq::new(
                unload.len(),
                |i: int|
                    Effect::Send(ClientPacket::UnloadChunk { x: unload[i].0, z: unload[i].1 }),
            ),
        ) == held.difference(unload.to_set()),
    decreases unload.len(),
{
    let effects = Seq::new(
        unload.len(),
        |i: int| Effect::Send(ClientPacket::UnloadChunk { x: unload[i].0, z: unload[i].1 }),
    );
    if unload.len() == 0 {
        assert(held.difference(unload.to_set()) =~= held);
    } else {
        let rest = unload.drop_last();
        lemma_client_unloads(held, rest);
        assert(effects.drop_last() =~= Seq::new(
            rest.len(),
            |i: int| Effect::Send(ClientPacket::UnloadChunk { x: rest[i].0, z: rest[i].1 }),
        ));
        assert(unload =~= rest.push(unload.last()));
        lemma_to_set_push(rest, unload.last());
        assert(held.difference(rest.to_set()).remove(unload.last()) =~= held.difference(
            unload.to_set(),
        ));
    }
}

proof fn lemma_client_loads(held: Set<(i32, i32)>, load: Seq<(i32, i32)>)
    ensures
        client_chunks(
            held,
            Seq::new(
                load.len(),
                |i: int| Effect::Send(ClientPacket::Chunk { x: load[i].0, z: load[i].1 }),
            ),
        ) == held.union(load.to_set()),
    decreases load.len(),
{
    let effects = Seq::new(
        load.len(),
        |i: int| Effect::Send(ClientPacket::Chunk { x: load[i].0, z: load[i].1 }),
    );
    if load.len() == 0 {
        assert(held.union(load.to_set()) =~= held);
    } else {
        let rest = load.drop_last();
        lemma_client_loads(held, rest);
        assert(effects.drop_last() =~= Seq::new(
            rest.len(),
            |i: int| Effect::Send(ClientPacket::Chunk { x: rest[i].0, z: rest[i].1 }),
        ));
        assert(load =~= rest.push(load.last()));
        lemma_to_set_push(rest, load.last());
        assert(held.union(rest.to_set()).insert(load.last()) =~= held.union(load.to_set()));
    }
}

proof fn lemma_to_set_push(s: Seq<(i32, i32)>, p: (i32, i32))
    ensures
        s.push(p).to_set() == s.to_set().insert(p),
{
    let t = s.push(p);
    assert forall|q: (i32, i32)| #[trigger]
        t.to_set().contains(q) <==> s.to_set().insert(p).contains(q) by {
        if s.contains(q) {
            let k = choose|k: int| 0 <= k < s.len() && s[k] == q;
            assert(t[k] == q);
        }
        if q == p {
            assert(t[s.len() as int] == q);
        }
        if t.contains(q) {
            let k = choose|k: int| 0 <= k < t.len() && t[k] == q;
            if k < s.len() {
                assert(s[k] == q);
            }
        }
    }
    assert(t.to_set() =~= s.to_set().insert(p));
}

/// A client that receives what it is told holds exactly the chunks of the view,
/// whatever it held before.
pub proof fn law_streaming_keeps_the_view(
    effects: Seq<Effect>,
    held: Set<(i32, i32)>,
    view: Set<(i32, i32)>,
    center_x: i32,
    center_z: i32,
)
    requires
        is_streaming(effects, held, view, center_x, center_z),
    ensures
        client_chunks(held, effects) == view,
{
    let (unload, load) = choose|unload: Seq<(i32, i32)>, load: Seq<(i32, i32)>| #[trigger]
        is_streaming_with(effects, held, view, center_x, center_z, unload, load);
    let head = seq![Effect::Send(ClientPacket::CenterChunk { x: center_x, z: center_z })];
    let unloads = Seq::new(
        unload.len(),
        |i: int| Effect::Send(ClientPacket::UnloadChunk { x: unload[i].0, z: unload[i].1 }),
    );
    let loads = Seq::new(
        load.len(),
        |i: int| Effect::Send(ClientPacket::Chunk { x: load[i].0, z: load[i].1 }),
    );
    let start = seq![Effect::Send(ClientPacket::BatchStart)];
    let end = seq![Effect::Send(ClientPacket::BatchEnd { count: load.len() as u16 })];
    assert(head.drop_last() =~= Seq::<Effect>::empty());
    assert(client_chunks(held, head.drop_last()) == held);
    assert(client_chunks(held, head) == held);
    lemma_client_chunks_add(held, head, unloads);
    lemma_client_unloads(held, unload);
    let left = held.difference(unload.to_set());
    assert(client_chunks(held, head + unloads) == left);
    if load.len() > 0 {
        let batch = start + loads + end;
        assert(effects == head + unloads + batch);
        lemma_client_chunks_add(held, head + unloads, batch);
        lemma_client_chunks_add(left, start + loads, end);
        lemma_client_chunks_add(left, start, loads);
        lemma_client_loads(left, load);
        assert(start.drop_last() =~= Seq::<Effect>::empty());
        assert(client_chunks(left, start.drop_last()) == left);
        assert(client_chunks(left, start) == left);
        let full = left.union(load.to_set());
        assert(end.drop_last() =~= Seq::<Effect>::empty());
        assert(client_chunks(full, end.drop_last()) == full);
        assert(client_chunks(full, end) == full);
        assert(full =~= view);
    } else {
        assert(effects =~= head + unloads);
        assert(load.to_set() =~= Set::<(i32, i32)>::empty());
        assert forall|p: (i32, i32)| left.contains(p) <==> view.contains(p) by {
            assert(!view.difference(held).contains(p));
        }
        assert(left =~= view);
    }
}

} // verus!
