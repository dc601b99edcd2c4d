//! What holds of a session from its opening to its end.

use vstd::prelude::*;
use crate::float_bits::{floor_to_i32, is_nan, law_floor_is_the_integer_below, lemma_nine_quarters, lemma_seventy, one, trunc_to_i64, units};
use crate::viakraken::java::backend::effects::{ClientPacket, Effect, EntityKind, SoundKind};
use crate::viakraken::java::backend::handler::{command_done, gamemode_effects, switch_done, CommandRequest};
use crate::viakraken::java::backend::laws::law_operators_switch_modes;
use crate::viakraken::java::backend::play::{chunk_at, client_chunks, console_done, frame_step, inventory_bytes, is_closing, is_opening, is_streaming_with, item_effects, law_frames_are_taken_whole, law_streaming_keeps_the_view, login_packet, player_appears, player_event_done, session_player, shown_event, slots_bytes, EventNumbers};
use crate::viakraken::java::backend::session::{event_done, is_joining_with, join_distance, PlaySession, SessionEvent};
use crate::viakraken::java::backend::state::{ability_flags, eligible, ConsoleCommand, DroppedItem, ItemEvent, OnlinePlayer, PlayerEvent};
use crate::viakraken::java::backend::view::view_set;
use crate::viakraken::utils::{frame_bytes, law_varint_round_trip, varint_bytes};
use crate::world::player_store::{new_player, PlayerView};

verus! {

/// A position lies in its chunk: not below sixteen times the number of the
/// chunk, and below sixteen times the next number.
pub proof fn law_positions_lie_in_their_chunk(coordinate: u64)
    requires
        !is_nan(coordinate),
        i32::MIN * one() <= units(coordinate) < (i32::MAX + 1) * one(),
    ensures
        16 * chunk_at(coordinate) * one() <= units(coordinate) < 16 * (chunk_at(coordinate) + 1)
            * one(),
{
    law_floor_is_the_integer_below(coordinate);
    let f = floor_to_i32(coordinate) as int;
    let c = chunk_at(coordinate);
    assert(16 * c <= f && f + 1 <= 16 * (c + 1));
    assert(16 * c * one() <= f * one() && (f + 1) * one() <= 16 * (c + 1) * one())
        by (nonlinear_arith)
        requires
            16 * c <= f,
            f + 1 <= 16 * (c + 1),
            one() > 0,
    ;
}

/// A new player is in survival mode at the spawn, 70 blocks up, in full health,
/// with nothing in forty-six slots and without permissions.
pub proof fn law_new_players_start_at_the_spawn()
    ensures
        new_player().x == 0 && new_player().z == 0,
        !is_nan(new_player().y) && units(new_player().y) == 70 * one(),
        new_player().highest_y == new_player().y,
        new_player().yaw == 0 && new_player().pitch == 0,
        new_player().carried_item.len() == 0,
        new_player().gamemode == 0,
        new_player().health == 0x41a0_0000,
        new_player().operator_level == 0,
        new_player().held_slot == 0,
        new_player().inventory.len() == 46,
        forall|i: int| 0 <= i < 46 ==> #[trigger] new_player().inventory[i].len() == 0,
{
    lemma_seventy();
}

/// A session starts with the stored player, the permission level that was looked
/// up, and an inventory of forty-six slots.
pub proof fn law_sessions_start_with_the_stored_player(p: PlayerView, level: u8)
    ensures
        session_player(p, level).operator_level == level,
        session_player(p, level).inventory.len() == 46,
        p.inventory.len() == 46 ==> session_player(p, level).inventory == p.inventory,
        session_player(p, level) == (PlayerView {
            operator_level: level,
            inventory: session_player(p, level).inventory,
            ..p
        }),
{
}

/// The bytes of an inventory are those of its slots, one behind the other: a
/// zero for an empty slot, and else what the slot holds.
pub proof fn law_slots_follow_each_other(slots: Seq<Seq<u8>>, slot: Seq<u8>)
    ensures
        slot.len() == 0 ==> slots_bytes(slots.push(slot)) == slots_bytes(slots).push(0u8),
        slot.len() > 0 ==> slots_bytes(slots.push(slot)) == slots_bytes(slots) + slot,
        slots_bytes(Seq::empty()) == Seq::<u8>::empty(),
        inventory_bytes(slots) == seq![0u8, 0, 46] + slots_bytes(slots) + seq![0u8],
{
    assert(slots.push(slot).drop_last() =~= slots);
    if slot.len() == 0 {
        assert(slots_bytes(slots.push(slot)) =~= slots_bytes(slots).push(0u8));
    }
    assert(inventory_bytes(slots) =~= seq![0u8, 0, 46] + slots_bytes(slots) + seq![0u8]);
}

/// A client is told its number, its mode, and how far it sees; the world moves
/// at most twelve chunks far.
pub proof fn law_clients_learn_who_and_where_they_are(
    p: PlayerView,
    entity_id: i32,
    view_distance: i32,
)
    ensures
        login_packet(p, entity_id, view_distance).entity_id == entity_id,
        login_packet(p, entity_id, view_distance).gamemode == p.gamemode,
        login_packet(p, entity_id, view_distance).view_distance == view_distance,
        login_packet(p, entity_id, view_distance).simulation_distance <= view_distance,
        login_packet(p, entity_id, view_distance).simulation_distance <= 12,
        login_packet(p, entity_id, view_distance).simulation_distance == view_distance
            || login_packet(p, entity_id, view_distance).simulation_distance == 12,
        login_packet(p, entity_id, view_distance).sea_level == 63,
        login_packet(p, entity_id, view_distance).respawn_screen,
        login_packet(p, entity_id, view_distance).flat,
        login_packet(p, entity_id, view_distance).max_players == 3,
        login_packet(p, entity_id, view_distance).hashed_seed == trunc_to_i64(p.x),
        login_packet(p, entity_id, view_distance).previous_gamemode == 1,
        login_packet(p, entity_id, view_distance).portal_cooldown == 0,
        !login_packet(p, entity_id, view_distance).hardcore,
        !login_packet(p, entity_id, view_distance).debug,
        !login_packet(p, entity_id, view_distance).reduced_debug_info,
        !login_packet(p, entity_id, view_distance).limited_crafting,
        !login_packet(p, entity_id, view_distance).secure_chat,
{
}

/// The opening places the client, the entry among those online, and the news to
/// the others at one and the same place: where the player is.
pub proof fn law_opening_shows_the_player_where_they_are(
    effects: Seq<Effect>,
    p: PlayerView,
    entity_id: i32,
    uuid: u128,
    username: Seq<char>,
    view_distance: i32,
    others: Seq<OnlinePlayer>,
)
    requires
        is_opening(effects, p, entity_id, uuid, username, view_distance, others),
    ensures
        ({
            let n = effects.len() - 9;
            &&& effects[n] matches Effect::JoinOnline(o) && o.x == p.x && o.y == p.y && o.z == p.z
                && o.yaw == p.yaw && o.pitch == p.pitch && o.entity_id == entity_id && o.uuid
                == uuid && o.username@ == username && o.gamemode == p.gamemode
            &&& effects[n + 1] matches Effect::TellPlayers(
                PlayerEvent::Join { x, y, z, yaw, pitch, gamemode, .. },
            ) && x == p.x && y == p.y && z == p.z && yaw == p.yaw && pitch == p.pitch && gamemode
                == p.gamemode
            &&& effects[n + 2] matches Effect::TellChat(line) && line@ == username
                + " joined the game"@
            &&& effects[n + 3] matches Effect::Send(
                ClientPacket::Health { health, food, saturation },
            ) && health == p.health && food == 20 && saturation == 0x41a0_0000
            &&& effects[n + 6] == Effect::Send(ClientPacket::SpawnPosition { x: 0, y: 70, z: 0 })
            &&& effects[n + 7] == Effect::Send(
                ClientPacket::Position { x: p.x, y: p.y, z: p.z, yaw: p.yaw, pitch: p.pitch },
            )
            &&& effects[0] matches Effect::Send(ClientPacket::Login(login)) && login.entity_id
                == entity_id && login.view_distance == view_distance
        }),
{
}

/// Whoever joins sees each of the others, on the list and in the world where
/// they are.
pub proof fn law_opening_shows_the_others(
    effects: Seq<Effect>,
    p: PlayerView,
    entity_id: i32,
    uuid: u128,
    username: Seq<char>,
    view_distance: i32,
    others: Seq<OnlinePlayer>,
    i: int,
)
    requires
        is_opening(effects, p, entity_id, uuid, username, view_distance, others),
        0 <= i < others.len(),
    ensures
        effects[4 + 2 * i] matches Effect::TrySend(
            ClientPacket::AddPlayer { uuid: u, name, gamemode },
        ) && u == others[i].uuid && name@ == others[i].username@ && gamemode == others[i].gamemode,
        effects[5 + 2 * i] matches Effect::TrySend(
            ClientPacket::SpawnEntity { entity_id: e, uuid: u, kind, x, y, z, pitch, yaw },
        ) && e == others[i].entity_id && u == Some(others[i].uuid) && kind == EntityKind::Player && x
            == others[i].x && y == others[i].y && z == others[i].z && pitch == others[i].pitch && yaw
            == others[i].yaw,
{
    assert(player_appears(effects[4 + 2 * i], effects[5 + 2 * i], others[i]));
}

/// Another player who joins or moves is seen where they say they are; one who
/// leaves is gone from the world and from the list.
pub proof fn law_others_are_seen_where_they_are(
    effects: Seq<Effect>,
    event: PlayerEvent,
    numbers: EventNumbers,
)
    requires
        shown_event(effects, event, numbers),
    ensures
        event matches PlayerEvent::Join { entity_id, uuid, x, y, z, yaw, pitch, gamemode, .. } ==> {
            &&& effects[0] matches Effect::TrySend(
                ClientPacket::AddPlayer { uuid: u, gamemode: g, .. },
            ) && u == uuid && g == gamemode
            &&& effects[1] == Effect::TrySend(
                ClientPacket::SpawnEntity {
                    entity_id,
                    uuid: Some(uuid),
                    kind: EntityKind::Player,
                    x,
                    y,
                    z,
                    pitch,
                    yaw,
                },
            )
        },
        event matches PlayerEvent::Move { entity_id, x, y, z, yaw, pitch, .. } ==> effects[0]
            == Effect::TrySend(ClientPacket::TeleportEntity { entity_id, x, y, z, yaw, pitch }),
        event matches PlayerEvent::Leave { entity_id, uuid } ==> effects[0] == Effect::TrySend(
            ClientPacket::RemoveEntity { entity_id },
        ) && effects[1] == Effect::TrySend(ClientPacket::RemovePlayer { uuid }),
        event matches PlayerEvent::GamemodeChange { uuid, gamemode } ==> effects[0]
            == Effect::TrySend(ClientPacket::UpdateGamemode { uuid, gamemode }),
{
}

/// Damage takes health from the player who is hurt and from nobody else, never
/// below zero; everybody sees and hears it where it happened.
pub proof fn law_damage_hurts_one_player(
    before: PlayerView,
    after: PlayerView,
    effects: Seq<Effect>,
    my_entity_id: i32,
    my_uuid: u128,
    event: PlayerEvent,
    numbers: EventNumbers,
)
    requires
        event is Hurt,
        player_event_done(before, after, effects, my_entity_id, my_uuid, event, numbers),
    ensures
        event->Hurt_uuid != my_uuid ==> after == before,
        event->Hurt_uuid == my_uuid ==> {
            &&& after == (PlayerView { health: after.health, ..before })
            &&& 0x8000_0000 < numbers.reduced_health <= 0xff80_0000 ==> after.health == 0
            &&& numbers.reduced_health <= 0x8000_0000 ==> after.health == numbers.reduced_health
            &&& effects[0] matches Effect::TrySend(ClientPacket::Health { health, .. }) && health
                == after.health
            &&& effects[1] matches Effect::TrySend(ClientPacket::Velocity { entity_id, x, z, .. })
                && entity_id == my_entity_id && x == numbers.knockback_x && z
                == numbers.knockback_z
        },
        ({
            let k: int = if event->Hurt_uuid == my_uuid {
                2
            } else {
                0
            };
            &&& effects[k] == Effect::TrySend(
                ClientPacket::EntityStatus { entity_id: event->Hurt_entity_id, status: 2 },
            )
            &&& effects[k + 1] == Effect::TrySend(
                ClientPacket::Sound {
                    sound: SoundKind::PlayerHurt,
                    x: event->Hurt_x,
                    y: event->Hurt_y,
                    z: event->Hurt_z,
                },
            )
            &&& event->Hurt_attacker_x is Some ==> effects.len() == k + 3 && effects[k + 2]
                == Effect::TrySend(
                ClientPacket::Sound {
                    sound: SoundKind::PlayerAttackStrong,
                    x: event->Hurt_x,
                    y: event->Hurt_y,
                    z: event->Hurt_z,
                },
            )
            &&& event->Hurt_attacker_x is None ==> effects.len() == k + 2
        }),
{
}

/// A stack that is thrown or dropped appears where it lies and flies as fast as
/// it was thrown.
pub proof fn law_stacks_appear_where_they_lie(
    entity_id: i32,
    item_id: u16,
    count: u8,
    x: u64,
    y: u64,
    z: u64,
    vx: u64,
    vy: u64,
    vz: u64,
    known: bool,
)
    ensures
        ({
            let effects = item_effects(
                ItemEvent::Spawn { entity_id, item_id, count, x, y, z, vx, vy, vz },
                known,
            );
            &&& effects[0] == Effect::TrySend(
                ClientPacket::SpawnEntity {
                    entity_id,
                    uuid: None,
                    kind: EntityKind::Item,
                    x,
                    y,
                    z,
                    pitch: 0,
                    yaw: 0,
                },
            )
            &&& effects.last() == Effect::TrySend(
                ClientPacket::Velocity { entity_id, x: vx, y: vy, z: vz },
            )
            &&& known ==> effects.len() == 3 && effects[1] == Effect::TrySend(
                ClientPacket::ItemMetadata { entity_id, item_id, count },
            )
            &&& !known ==> effects.len() == 2
        }),
{
}

/// The console grants a level of at most four, kills, and sets modes, of the
/// player it names.
pub proof fn law_console_commands_reach_their_player(
    before: PlayerView,
    after: PlayerView,
    effects: Seq<Effect>,
    entity_id: i32,
    uuid: u128,
    command: ConsoleCommand,
)
    requires
        console_done(before, after, effects, entity_id, uuid, command),
    ensures
        command matches ConsoleCommand::OperatorLevel { uuid: u, level } ==> {
            &&& u == uuid && level <= 4 ==> after == (PlayerView {
                operator_level: level,
                ..before
            })
            &&& u == uuid && level > 4 ==> after == (PlayerView { operator_level: 4, ..before })
            &&& u != uuid ==> after == before && effects.len() == 0
        },
        command matches ConsoleCommand::Kill { uuid: u } ==> {
            &&& u == uuid ==> after == (PlayerView { health: 0, ..before })
            &&& u != uuid ==> after == before && effects.len() == 0
        },
        command matches ConsoleCommand::Gamemode { uuid: u, gamemode } ==> {
            &&& u == uuid ==> after == (PlayerView { gamemode, ..before })
            &&& u != uuid ==> after == before && effects.len() == 0
        },
        command matches ConsoleCommand::Summon { entity_id: e, entity_type, x, y, z } ==> after
            == before && effects[0] == Effect::Send(
            ClientPacket::SpawnEntity {
                entity_id: e,
                uuid: None,
                kind: EntityKind::Numbered(entity_type),
                x,
                y,
                z,
                pitch: 0,
                yaw: 0,
            },
        ),
{
}

/// What the flags of a mode mean. Creative players cannot be hurt, may fly
/// without doing so at first, and break blocks at once; spectators fly; the
/// other modes have no such powers.
pub proof fn law_abilities_of_each_mode(gamemode: u8)
    ensures
        ({
            let flags = ability_flags(gamemode) as int;
            let (unhurt, flying, flight, instant) = (
                flags % 2 == 1,
                (flags / 2) % 2 == 1,
                (flags / 4) % 2 == 1,
                (flags / 8) % 2 == 1,
            );
            &&& 0 <= flags < 16
            &&& gamemode == 1 ==> unhurt && !flying && flight && instant
            &&& gamemode == 3 ==> !unhurt && flying && flight && !instant
            &&& gamemode == 0 || gamemode == 2 ==> !unhurt && !flying && !flight && !instant
        }),
{
}

/// A change of mode reaches everyone: the list of those online, the sessions,
/// and the client, which also learns what the mode allows.
pub proof fn law_mode_changes_reach_everyone(uuid: u128, gamemode: u8)
    ensures
        gamemode_effects(uuid, gamemode).len() == 5,
        gamemode_effects(uuid, gamemode)[0] == (Effect::GamemodeOnline { uuid, gamemode }),
        gamemode_effects(uuid, gamemode)[1] == Effect::TellPlayers(
            PlayerEvent::GamemodeChange { uuid, gamemode },
        ),
        gamemode_effects(uuid, gamemode)[2] == Effect::Send(
            ClientPacket::ChangeGamemode { gamemode },
        ),
        gamemode_effects(uuid, gamemode)[3] matches Effect::Send(
            ClientPacket::Abilities { flags, fly_speed, walk_speed },
        ) && flags == ability_flags(gamemode) && fly_speed == 0x3d4c_cccd && walk_speed
            == 0x3dcc_cccd,
        gamemode_effects(uuid, gamemode)[4] == Effect::Send(
            ClientPacket::UpdateGamemode { uuid, gamemode },
        ),
{
}

/// The end of a session stores the player before anyone hears that they left.
pub proof fn law_players_are_stored_before_they_leave(
    effects: Seq<Effect>,
    entity_id: i32,
    uuid: u128,
    username: Seq<char>,
)
    requires
        is_closing(effects, entity_id, uuid, username),
    ensures
        effects[0] == (Effect::SavePlayer { always_flush: true }),
        exists|i: int|
            0 < i < effects.len() && #[trigger] effects[i] == (Effect::LeaveOnline { uuid }),
        exists|i: int|
            0 < i < effects.len() && #[trigger] effects[i] == Effect::TellPlayers(
                PlayerEvent::Leave { entity_id, uuid },
            ),
        effects.last() matches Effect::TellChat(line) && line@ == username + " left the game"@,
{
    assert(effects[1] == (Effect::LeaveOnline { uuid }));
    assert(effects[2] == Effect::TellPlayers(PlayerEvent::Leave { entity_id, uuid }));
}

/// A session passes a changed block on to its client as it is, keeps counting
/// its keep-alives, and ends when the client is gone and not before.
pub proof fn law_events_reach_the_client(
    before: PlaySession,
    after: PlaySession,
    event: SessionEvent,
    effects: Seq<Effect>,
)
    requires
        event_done(before, after, event, effects),
    ensures
        event matches SessionEvent::Block(e) ==> effects == seq![
            Effect::TrySend(
                ClientPacket::BlockUpdate { x: e.x, y: e.y, z: e.z, state_id: e.state_id },
            ),
        ],
        event is KeepAliveDue && before.keep_alive_id < i64::MAX ==> after.keep_alive_id
            == before.keep_alive_id + 1,
        event is KeepAliveDue ==> effects == seq![
            Effect::TrySend(ClientPacket::KeepAlive { id: after.keep_alive_id }),
        ],
        !(event is KeepAliveDue) ==> after.keep_alive_id == before.keep_alive_id,
        !before.ended ==> (after.ended <==> event is Closed),
        event is SaveDue ==> effects == seq![Effect::SavePlayer { always_flush: false }],
        event matches SessionEvent::Chat(text) ==> effects == seq![
            Effect::TrySend(ClientPacket::Chat { text }),
        ],
        event matches SessionEvent::Item { event: stack, known } ==> (stack is Pickup
            ==> effects.len() == 0) && (stack is Spawn ==> effects == item_effects(stack, known)),
        event is Chat || event is Item || event is Block || event is KeepAliveDue || event is SaveDue
            || event is Closed ==> after.player@ == before.player@,
{
}

/// A view of distance `d` holds the chunks at most `d` away in either direction,
/// its center among them, and is the larger the greater the distance.
pub proof fn law_views_are_squares(cx: int, cz: int, d: int, p: (i32, i32))
    requires
        0 <= d,
    ensures
        view_set(cx, cz, d).contains(p) <==> -d <= p.0 - cx <= d && -d <= p.1 - cz <= d,
        view_set(cx, cz, d).contains(p) ==> view_set(cx, cz, d + 1).contains(p),
        p.0 == cx && p.1 == cz ==> view_set(cx, cz, d).contains(p),
{
}

/// A client sees as far as it likes but no further than the server allows, and
/// as far as the server allows where it has not said.
pub proof fn law_view_distance_is_limited(preferred: i32, limit: i32)
    requires
        0 <= limit,
    ensures
        0 <= join_distance(Some(preferred), limit) <= limit,
        0 <= preferred <= limit ==> join_distance(Some(preferred), limit) == preferred,
        preferred < 0 ==> join_distance(Some(preferred), limit) == 0,
        preferred > limit ==> join_distance(Some(preferred), limit) == limit,
        join_distance(None, limit) == limit,
{
}

/// Streaming names the center first and closes its batch with the number of
/// chunks in it. Each of them comes no later than any that is further away.
pub proof fn law_streaming_is_a_counted_batch(
    effects: Seq<Effect>,
    held: Set<(i32, i32)>,
    view: Set<(i32, i32)>,
    center_x: i32,
    center_z: i32,
    unload: Seq<(i32, i32)>,
    load: Seq<(i32, i32)>,
)
    requires
        is_streaming_with(effects, held, view, center_x, center_z, unload, load),
        load.len() <= u16::MAX,
    ensures
        effects[0] == Effect::Send(ClientPacket::CenterChunk { x: center_x, z: center_z }),
        load.len() == 0 ==> effects.len() == 1 + unload.len(),
        load.len() > 0 ==> {
            &&& effects.len() == 3 + unload.len() + load.len()
            &&& effects[1 + unload.len() as int] == Effect::Send(ClientPacket::BatchStart)
            &&& effects.last() matches Effect::Send(ClientPacket::BatchEnd { count }) && count
                == load.len()
        },
        forall|i: int|
            0 <= i < unload.len() ==> effects[1 + i] == Effect::Send(
                ClientPacket::UnloadChunk { x: (#[trigger] unload[i]).0, z: unload[i].1 },
            ),
        forall|i: int|
            0 <= i < load.len() ==> effects[2 + unload.len() + i] == Effect::Send(
                ClientPacket::Chunk { x: (#[trigger] load[i]).0, z: load[i].1 },
            ),
        forall|i: int, j: int|
            0 <= i <= j < load.len() ==> ((#[trigger] load[i]).0 - center_x) * (load[i].0
                - center_x) + (load[i].1 - center_z) * (load[i].1 - center_z) <= ((
            #[trigger] load[j]).0 - center_x) * (load[j].0 - center_x) + (load[j].1 - center_z) * (
            load[j].1 - center_z),
{
}

/// An empty frame throws away everything that has arrived; a frame of one byte
/// gives that byte.
pub proof fn law_empty_frames_clear_the_input(rest: Seq<u8>, byte: u8)
    ensures
        frame_step(seq![0u8] + rest) == (None::<Seq<u8>>, Seq::<u8>::empty()),
        frame_step(seq![1u8, byte] + rest) == (Some(seq![byte]), rest),
        frame_step(Seq::empty()) == (None::<Seq<u8>>, Seq::<u8>::empty()),
{
    let none = seq![0u8] + rest;
    assert(none.subrange(0, 1) =~= varint_bytes(0));
    law_varint_round_trip(none, 0, 0);
    law_frames_are_taken_whole(seq![byte], rest, 0);
    assert(frame_bytes(seq![byte]) =~= seq![1u8, byte]);
}

/// A stack can be picked up half a second after it fell, from one and a half
/// blocks away at most: the square of the distance is at most 2.25.
pub proof fn law_reach_of_a_pickup(
    item: DroppedItem,
    distance: spec_fn(DroppedItem) -> u64,
    now: u64,
)
    ensures
        eligible(item, distance, now) <==> now >= item.spawned_at + 500 && !is_nan(distance(item))
            && 4 * units(distance(item)) <= 9 * one(),
{
    lemma_nine_quarters();
}

/// A client that joins is opened to, then sent every chunk of its view, and last
/// the brand. The chunks are those round the one that the player is in.
pub proof fn law_joining_sends_the_whole_view(
    effects: Seq<Effect>,
    p: PlayerView,
    entity_id: i32,
    uuid: u128,
    username: Seq<char>,
    view_distance: i32,
    others: Seq<OnlinePlayer>,
    opening: Seq<Effect>,
    streamed: Seq<Effect>,
)
    requires
        is_joining_with(
            effects,
            p,
            entity_id,
            uuid,
            username,
            view_distance,
            others,
            opening,
            streamed,
        ),
        0 <= view_distance,
    ensures
        effects.last() == Effect::Send(ClientPacket::Brand),
        effects.len() == opening.len() + streamed.len() + 1,
        opening.len() == 13 + 2 * others.len(),
        effects.take(opening.len() as int) == opening,
        effects.subrange(opening.len() as int, effects.len() - 1) == streamed,
        forall|c: (i32, i32)| #[trigger]
            client_chunks(Set::empty(), streamed).contains(c) <==> -view_distance <= c.0 - chunk_at(
                p.x,
            ) <= view_distance && -view_distance <= c.1 - chunk_at(p.z) <= view_distance,
{
    let center = (chunk_at(p.x), chunk_at(p.z));
    law_streaming_keeps_the_view(
        streamed,
        Set::empty(),
        view_set(center.0, center.1, view_distance as int),
        center.0 as i32,
        center.1 as i32,
    );
    assert(effects.take(opening.len() as int) =~= opening);
    assert(effects.subrange(opening.len() as int, effects.len() - 1) =~= streamed);
}

/// A mode that an operator switches to is theirs, and nothing else of them
/// changes; what is not granted changes nothing.
pub proof fn law_switching_changes_the_mode_alone(
    before: PlayerView,
    after: PlayerView,
    effects: Seq<Effect>,
    uuid: u128,
    mode: i32,
    rest: Seq<u8>,
)
    requires
        switch_done(before, after, effects, uuid, varint_bytes(mode as u32) + rest),
    ensures
        before.operator_level > 0 && 0 <= mode <= 3 ==> after == (PlayerView {
            gamemode: mode as u8,
            ..before
        }) && effects == gamemode_effects(uuid, mode as u8),
        before.operator_level == 0 || mode < 0 || mode > 3 ==> after == before && effects.len() == 0,
{
    law_operators_switch_modes(before.operator_level, mode, rest);
}

/// A command that sets a mode sets it on the player who gave it, tells everyone,
/// and is answered last.
pub proof fn law_commands_change_the_mode_alone(
    before: PlayerView,
    after: PlayerView,
    effects: Seq<Effect>,
    uuid: u128,
    request: CommandRequest,
    command: Seq<char>,
)
    requires
        command_done(before, after, effects, uuid, request, command),
    ensures
        request matches CommandRequest::Gamemode { gamemode, .. } ==> after == (PlayerView {
            gamemode,
            ..before
        }) && effects.len() == 6 && effects.drop_last() == gamemode_effects(uuid, gamemode),
        !(request is Gamemode) ==> after == before && effects.len() <= 1,
        request is Denied || request is UnknownGamemode || request is Unknown ==> effects.len() == 1
            && (effects[0] matches Effect::Send(ClientPacket::Chat { .. })),
{
    if request is Denied || request is UnknownGamemode || request is Unknown {
        assert(effects.last() == effects[0]);
    }
}

} // verus!
