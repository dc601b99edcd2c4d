//! What holds of the packets of a player, whatever they say.

use vstd::prelude::*;
use vstd::utf8::encode_utf8;
use crate::big_endian::{be_bytes, lemma_be_bytes_len, lemma_be_limits, lemma_be_round_trip};
use crate::console::{gamemode_named, law_modes_have_names_and_numbers, SummonOutcome};
use crate::float_bits::{f32_positive, is_nan, lemma_minus_128, lemma_seventy, lemma_three, one, units};
use crate::text::{has_prefix, same_ignoring_case};
use crate::viakraken::java::backend::effects::{ClientPacket, Effect, SlotContent};
use crate::viakraken::java::backend::handler::{action_effects, action_kind, action_read, attack_effects, command_text, creative_done, drop_of, fall_effects, fallen_player, fall_hurts, finish_effects, finished_player, hand_slot, held_item, holding_player, hotbar_slot_with, is_command_tree, is_request, is_respawn, is_summoning, law_position_round_trip, moved_player, movement_read, packet_kind, permission_packet, pick_decided, pick_effects, picked_player, position_bits, position_of, reply_text, respawn_chunk, respawned_player, slot_item, summon_refusal, switch_asked, totem_slot, use_effects, ActionKind, BlockDrop, CommandRequest, ItemDrop, Movement, Pick, PlayPacket, PlayPacketIds, PlayerAction};
use crate::viakraken::java::backend::packet::{effects_after, is_play_request, packet_work, player_after, PacketData, PacketWork, PlayRequest};
use crate::viakraken::java::backend::state::{BlockUpdateEvent, ConsoleCommand, OnlinePlayer, PlayerEvent};
use crate::viakraken::utils::{law_varint_round_trip, string_bytes, string_fits, varint_bytes};
use crate::world::player_store::PlayerView;

verus! {

/// Whether the effects begin with storing a block and telling the sessions of
/// it, at this place.
pub open spec fn sets_block(effects: Seq<Effect>, x: int, y: int, z: int, state_id: u16) -> bool {
    &&& effects.len() >= 2
    &&& effects[0] matches Effect::SaveBlock { x: sx, y: sy, z: sz, state_id: s } && sx == x && sy
        == y && sz == z && s == state_id
    &&& effects[1] matches Effect::TellBlocks(event) && event.x == x && event.y == y && event.z == z
        && event.state_id == state_id
}

/// A block is placed one step off the clicked one, towards the clicked side:
/// the sides are numbered 0 down, 1 up, 2 north, 3 south, 4 west and 5 east,
/// east is towards greater x, up towards greater y and south towards greater z.
pub proof fn law_blocks_are_placed_at_the_clicked_side(
    x: i32,
    y: i32,
    z: i32,
    face: i32,
    sequence: i32,
    state_id: u16,
)
    requires
        i32::MIN < x < i32::MAX,
        i32::MIN < y < i32::MAX,
        i32::MIN < z < i32::MAX,
    ensures
        ({
            let effects = use_effects(x, y, z, face, sequence, Some(state_id));
            &&& face == 0 ==> sets_block(effects, x as int, y - 1, z as int, state_id)
            &&& face == 1 ==> sets_block(effects, x as int, y + 1, z as int, state_id)
            &&& face == 2 ==> sets_block(effects, x as int, y as int, z - 1, state_id)
            &&& face == 3 ==> sets_block(effects, x as int, y as int, z + 1, state_id)
            &&& face == 4 ==> sets_block(effects, x - 1, y as int, z as int, state_id)
            &&& face == 5 ==> sets_block(effects, x + 1, y as int, z as int, state_id)
            &&& !(0 <= face <= 5) ==> sets_block(effects, x as int, y + 1, z as int, state_id)
        }),
{
}

/// Whoever uses an item on a block is answered with the number of the request,
/// if it has one, after everything else; an item that is no block changes no
/// block.
pub proof fn law_uses_are_acknowledged(
    x: i32,
    y: i32,
    z: i32,
    face: i32,
    sequence: i32,
    block_state: Option<u16>,
)
    ensures
        ({
            let effects = use_effects(x, y, z, face, sequence, block_state);
            let blocks: nat = if block_state is Some {
                2
            } else {
                0
            };
            &&& sequence > 0 ==> effects.len() == blocks + 1 && effects.last() == Effect::Send(
                ClientPacket::AcknowledgeBlock { sequence },
            )
            &&& sequence <= 0 ==> effects.len() == blocks
        }),
{
}

/// What a movement packet with position and rotation says is read as it was
/// written: three coordinates, two angles, and whether the player stands.
pub proof fn law_position_and_rotation_are_read_back(
    x: u64,
    y: u64,
    z: u64,
    yaw: u32,
    pitch: u32,
    ground: u8,
)
    ensures
        movement_read(
            PlayPacket::MovePosRot,
            be_bytes(x as nat, 8) + be_bytes(y as nat, 8) + be_bytes(z as nat, 8) + be_bytes(
                yaw as nat,
                4,
            ) + be_bytes(pitch as nat, 4) + seq![ground],
        ) == Some(
            Movement {
                position: Some((x, y, z)),
                rotation: Some((yaw, pitch)),
                on_ground: Some(ground != 0),
            },
        ),
{
    lemma_be_limits();
    lemma_u64_read_back(x);
    lemma_u64_read_back(y);
    lemma_u64_read_back(z);
    lemma_u32_read_back(yaw);
    lemma_u32_read_back(pitch);
    let p = be_bytes(x as nat, 8) + be_bytes(y as nat, 8) + be_bytes(z as nat, 8) + be_bytes(
        yaw as nat,
        4,
    ) + be_bytes(pitch as nat, 4) + seq![ground];
    assert(p.subrange(0, 8) =~= be_bytes(x as nat, 8));
    assert(p.subrange(8, 16) =~= be_bytes(y as nat, 8));
    assert(p.subrange(16, 24) =~= be_bytes(z as nat, 8));
    assert(p.subrange(24, 28) =~= be_bytes(yaw as nat, 4));
    assert(p.subrange(28, 32) =~= be_bytes(pitch as nat, 4));
    assert(p[32] == ground);
}

/// What a movement packet with a position alone says is read as it was
/// written.
pub proof fn law_position_is_read_back(x: u64, y: u64, z: u64, ground: u8)
    ensures
        movement_read(
            PlayPacket::MovePos,
            be_bytes(x as nat, 8) + be_bytes(y as nat, 8) + be_bytes(z as nat, 8) + seq![ground],
        ) == Some(
            Movement {
                position: Some((x, y, z)),
                rotation: None,
                on_ground: Some(ground != 0),
            },
        ),
{
    lemma_u64_read_back(x);
    lemma_u64_read_back(y);
    lemma_u64_read_back(z);
    let p = be_bytes(x as nat, 8) + be_bytes(y as nat, 8) + be_bytes(z as nat, 8) + seq![ground];
    assert(p.subrange(0, 8) =~= be_bytes(x as nat, 8));
    assert(p.subrange(8, 16) =~= be_bytes(y as nat, 8));
    assert(p.subrange(16, 24) =~= be_bytes(z as nat, 8));
    assert(p[24] == ground);
}

/// What a movement packet with a rotation alone says is read as it was
/// written, whatever follows the angles.
pub proof fn law_rotation_is_read_back(yaw: u32, pitch: u32, rest: Seq<u8>)
    ensures
        movement_read(
            PlayPacket::MoveRot,
            be_bytes(yaw as nat, 4) + be_bytes(pitch as nat, 4) + rest,
        ) == Some(Movement { position: None, rotation: Some((yaw, pitch)), on_ground: None }),
{
    lemma_u32_read_back(yaw);
    lemma_u32_read_back(pitch);
    let p = be_bytes(yaw as nat, 4) + be_bytes(pitch as nat, 4) + rest;
    assert(p.subrange(0, 4) =~= be_bytes(yaw as nat, 4));
    assert(p.subrange(4, 8) =~= be_bytes(pitch as nat, 4));
}

/// The packets with a position agree on it, and those with a rotation on that:
/// what both hold says the same in either.
pub proof fn law_movement_packets_agree(p: Seq<u8>)
    requires
        p.len() >= 33,
    ensures
        movement_read(PlayPacket::MovePosRot, p)->0.position == movement_read(
            PlayPacket::MovePos,
            p.take(24) + p.skip(32),
        )->0.position,
        movement_read(PlayPacket::MovePosRot, p)->0.on_ground == movement_read(
            PlayPacket::MovePos,
            p.take(24) + p.skip(32),
        )->0.on_ground,
        movement_read(PlayPacket::MovePosRot, p)->0.rotation == movement_read(
            PlayPacket::MoveRot,
            p.skip(24),
        )->0.rotation,
{
    let q = p.take(24) + p.skip(32);
    assert(q.subrange(0, 8) =~= p.subrange(0, 8));
    assert(q.subrange(8, 16) =~= p.subrange(8, 16));
    assert(q.subrange(16, 24) =~= p.subrange(16, 24));
    assert(q[24] == p[32]);
    assert(p.skip(24).subrange(0, 4) =~= p.subrange(24, 28));
    assert(p.skip(24).subrange(4, 8) =~= p.subrange(28, 32));
}

proof fn lemma_u64_read_back(v: u64)
    ensures
        be_bytes(v as nat, 8).len() == 8,
        crate::big_endian::be_value(be_bytes(v as nat, 8)) == v,
{
    lemma_be_limits();
    lemma_be_bytes_len(v as nat, 8);
    lemma_be_round_trip(v as nat, 8);
}

proof fn lemma_u32_read_back(v: u32)
    ensures
        be_bytes(v as nat, 4).len() == 4,
        crate::big_endian::be_value(be_bytes(v as nat, 4)) == v,
{
    lemma_be_limits();
    lemma_be_bytes_len(v as nat, 4);
    lemma_be_round_trip(v as nat, 4);
}

/// A player who moves stands where they said and looks where they said, and
/// keeps everything else; the others are told the same.
pub proof fn law_moves_set_place_and_view(
    p: PlayerView,
    x: u64,
    y: u64,
    z: u64,
    yaw: u32,
    pitch: u32,
    on_ground: Option<bool>,
    uuid: u128,
    entity_id: i32,
)
    ensures
        ({
            let both = moved_player(
                p,
                Movement { position: Some((x, y, z)), rotation: Some((yaw, pitch)), on_ground },
            );
            let placed = moved_player(
                p,
                Movement { position: Some((x, y, z)), rotation: None, on_ground },
            );
            let turned = moved_player(
                p,
                Movement { position: None, rotation: Some((yaw, pitch)), on_ground },
            );
            let told = finish_effects(both, uuid, entity_id, true);
            &&& both.x == x && both.y == y && both.z == z && both.yaw == yaw && both.pitch == pitch
            &&& placed == (PlayerView { yaw: p.yaw, pitch: p.pitch, ..both })
            &&& turned == (PlayerView { x: p.x, y: p.y, z: p.z, ..both })
            &&& p == (PlayerView { x: p.x, y: p.y, z: p.z, yaw: p.yaw, pitch: p.pitch, ..both })
            &&& told.last() == Effect::TellPlayers(
                PlayerEvent::Move { entity_id, uuid, x, y, z, yaw, pitch },
            )
            &&& told[told.len() - 2] == (Effect::MoveOnline { uuid, x, y, z, yaw, pitch })
        }),
{
}

/// The 64 bits of a block position hold x in the highest 26 bits, z in the 26
/// bits below and y in the lowest 12, each as its remainder.
pub proof fn law_position_bits(bits: u64)
    ensures
        (position_of(bits).0 - bits as int / 0x40_0000_0000) % 0x400_0000 == 0,
        (position_of(bits).1 - bits) % 0x1000 == 0,
        (position_of(bits).2 - bits as int / 0x1000) % 0x400_0000 == 0,
        -0x200_0000 <= position_of(bits).0 < 0x200_0000,
        -0x800 <= position_of(bits).1 < 0x800,
        -0x200_0000 <= position_of(bits).2 < 0x200_0000,
{
}

/// An action packet is read as it was written: the status, the block, the
/// side, which does not count, and the number of the request.
pub proof fn law_actions_are_read_back(
    status: i32,
    x: i32,
    y: i32,
    z: i32,
    face: u8,
    sequence: i32,
)
    requires
        -0x200_0000 <= x < 0x200_0000,
        -0x800 <= y < 0x800,
        -0x200_0000 <= z < 0x200_0000,
    ensures
        action_read(
            varint_bytes(status as u32) + be_bytes(
                ((x as int % 0x400_0000) * 0x40_0000_0000 + (z as int % 0x400_0000) * 0x1000 + y
                    as int % 0x1000) as nat,
                8,
            ) + seq![face] + varint_bytes(sequence as u32),
        ) == Some(PlayerAction { status, x, y, z, sequence }),
{
    law_position_round_trip(x as int, y as int, z as int);
    let bits = position_bits(x as int, y as int, z as int) as u64;
    lemma_u64_read_back(bits);
    let head = varint_bytes(status as u32);
    let tail = varint_bytes(sequence as u32);
    let p = head + be_bytes(bits as nat, 8) + seq![face] + tail;
    crate::viakraken::utils::lemma_varint_bytes_len(sequence as u32);
    assert(p.subrange(0, head.len() as int) =~= head);
    law_varint_round_trip(p, 0, status);
    let at = head.len() as int;
    assert(p.subrange(at, at + 8) =~= be_bytes(bits as nat, 8));
    assert(p.subrange(at + 9, at + 9 + tail.len()) =~= tail);
    law_varint_round_trip(p, at + 9, sequence);
}

/// Survivors and adventurers break a block by digging to the end, and get its
/// drop; creative players at the first blow, and get nothing; spectators never
/// break one. What is held can be thrown in any mode.
pub proof fn law_who_breaks_blocks(status: i32, gamemode: u8)
    ensures
        gamemode == 0 || gamemode == 2 ==> (action_kind(status, gamemode) is Break <==> status
            == 2),
        gamemode == 0 || gamemode == 2 ==> (action_kind(status, gamemode) is Break
            ==> action_kind(status, gamemode) == (ActionKind::Break { drops: true })),
        gamemode == 1 ==> (action_kind(status, gamemode) is Break <==> status == 0 || status == 2),
        gamemode == 1 ==> (action_kind(status, gamemode) is Break ==> action_kind(status, gamemode)
            == (ActionKind::Break { drops: false })),
        gamemode == 3 ==> !(action_kind(status, gamemode) is Break),
        action_kind(status, gamemode) is Throw <==> status == 3 || status == 4,
{
}

/// A broken block turns to air where it stood, for the server and for the
/// sessions, and in survival what it drops comes to lie in the world, once.
pub proof fn law_broken_blocks_turn_to_air(
    a: PlayerAction,
    gamemode: u8,
    air: u16,
    drop: ItemDrop,
)
    ensures
        ({
            let effects = action_effects(a, gamemode, air, Some(drop));
            let broken = action_effects(a, gamemode, air, None);
            &&& action_kind(a.status, gamemode) is Break ==> {
                &&& effects[0] == (Effect::SaveBlock { x: a.x, y: a.y, z: a.z, state_id: 0 })
                &&& effects[1] == Effect::TellBlocks(
                    BlockUpdateEvent { x: a.x, y: a.y, z: a.z, state_id: air },
                )
                &&& broken[0] == effects[0] && broken[1] == effects[1]
            }
            &&& a.status == 2 && (gamemode == 0 || gamemode == 2) ==> {
                &&& effects.len() == broken.len() + 1
                &&& effects[2] matches Effect::TellItems(
                    crate::viakraken::java::backend::state::ItemEvent::Spawn {
                        entity_id,
                        item_id,
                        count,
                        x,
                        y,
                        z,
                        vx,
                        vy,
                        vz,
                    },
                ) && entity_id == drop.entity_id && item_id == drop.item_id && count == 1 && x
                    == drop.x && y == drop.y && z == drop.z && vx == drop.vx && vy == drop.vy && vz
                    == drop.vz
            }
            &&& gamemode == 1 && (a.status == 0 || a.status == 2) ==> effects == broken
            &&& a.status == 1 ==> effects.len() <= 1
            &&& a.sequence > 0 ==> effects.last() == Effect::TrySend(
                ClientPacket::AcknowledgeBlock { sequence: a.sequence },
            )
        }),
{
    let effects = action_effects(a, gamemode, air, Some(drop));
    let broken = action_effects(a, gamemode, air, None);
    if gamemode == 1 && (a.status == 0 || a.status == 2) {
        assert(effects =~= broken);
    }
}

/// What stands in a slot is read as it was written: how many, and which item;
/// an empty slot holds none.
pub proof fn law_slots_are_read_back(count: i32, item: u16, rest: Seq<u8>)
    ensures
        count > 0 ==> slot_item(varint_bytes(count as u32) + varint_bytes(item as u32) + rest)
            == Some(item),
        count <= 0 ==> slot_item(varint_bytes(count as u32) + rest) is None,
        slot_item(Seq::empty()) is None,
{
    let n = varint_bytes(count as u32);
    let i = varint_bytes(item as u32);
    let p = n + i + rest;
    assert(p.subrange(0, n.len() as int) =~= n);
    law_varint_round_trip(p, 0, count);
    assert(p.subrange(n.len() as int, (n.len() + i.len()) as int) =~= i);
    assert((item as i32) as u32 == item as u32);
    law_varint_round_trip(p, n.len() as int, item as i32);
    let q = n + rest;
    assert(q.subrange(0, n.len() as int) =~= n);
    law_varint_round_trip(q, 0, count);
}

/// The main hand holds what is in the selected one of the nine slots from
/// thirty-six on, and the other hand what is in slot forty-five.
pub proof fn law_hands_hold_slots(p: PlayerView, hand: i32)
    requires
        p.inventory.len() == 46,
    ensures
        hand == 0 && p.held_slot < 9 ==> held_item(p, hand) == slot_item(
            p.inventory[36 + p.held_slot],
        ),
        hand == 0 && p.held_slot >= 9 ==> held_item(p, hand) is None,
        hand == 1 ==> held_item(p, hand) == slot_item(p.inventory[45]),
        hand != 0 && hand != 1 ==> held_item(p, hand) is None,
{
}

/// After selecting one of the nine slots it is in the main hand; other numbers
/// change nothing.
pub proof fn law_selected_slot_is_held(p: PlayerView, slot: i16)
    ensures
        0 <= slot <= 8 ==> hand_slot(0, holding_player(p, slot).held_slot) == Some(
            (36 + slot) as usize,
        ),
        !(0 <= slot <= 8) ==> holding_player(p, slot) == p,
        holding_player(p, slot) == (PlayerView {
            held_slot: holding_player(p, slot).held_slot,
            ..p
        }),
{
}

proof fn lemma_hotbar(canonical: Seq<Option<u16>>, item: u16, from: int)
    requires
        0 <= from <= 9,
        canonical.len() == 46,
    ensures
        match hotbar_slot_with(canonical, item, from) {
            Some(slot) => from <= slot < 9 && canonical[36 + slot] == Some(item) && forall|i: int|
                from <= i < slot ==> #[trigger] canonical[36 + i] != Some(item),
            None => forall|i: int| from <= i < 9 ==> #[trigger] canonical[36 + i] != Some(item),
        },
    decreases 9 - from,
{
    if from < 9 && canonical[36 + from] != Some(item) {
        lemma_hotbar(canonical, item, from + 1);
    }
}

/// Picking a block puts its item into the main hand of a creative player. A
/// slot that has it already is selected, the first one; else the held slot is
/// filled. Nobody else picks.
pub proof fn law_picked_block_is_held(
    p: PlayerView,
    item: u16,
    canonical: Seq<Option<u16>>,
    stack: Seq<u8>,
)
    requires
        p.inventory.len() == 46,
        canonical.len() == 46,
    ensures
        p.gamemode != 1 ==> pick_decided(p.gamemode, p.held_slot, Some(item), canonical)
            == Pick::Refused,
        pick_decided(p.gamemode, p.held_slot, None, canonical) == Pick::Refused,
        p.gamemode == 1 ==> match pick_decided(
            p.gamemode,
            p.held_slot,
            Some(item),
            canonical,
        ) {
            Pick::Refused => false,
            Pick::Select { slot, fill: None } => {
                &&& slot < 9 && canonical[36 + slot] == Some(item)
                &&& forall|i: int| 0 <= i < slot ==> #[trigger] canonical[36 + i] != Some(item)
                &&& picked_player(p, slot, None, stack) == (PlayerView { held_slot: slot, ..p })
            },
            Pick::Select { slot, fill: Some(filled) } => {
                let after = picked_player(p, slot, Some(filled), stack);
                &&& slot < 9 && filled == item && (p.held_slot < 9 ==> slot == p.held_slot)
                &&& forall|i: int| 0 <= i < 9 ==> #[trigger] canonical[36 + i] != Some(item)
                &&& held_item(after, 0) == slot_item(stack)
                &&& forall|i: int|
                    0 <= i < 46 && i != 36 + slot ==> #[trigger] after.inventory[i]
                        == p.inventory[i]
            },
        },
{
    lemma_hotbar(canonical, item, 0);
}

/// A blow hurts another player, at the place where that player stands, unless
/// they are in creative or spectator mode; it comes from where the attacker
/// stands.
pub proof fn law_blows_hurt_survivors(p: PlayerView, interaction: i32, target: OnlinePlayer)
    ensures
        attack_effects(p, interaction, None).len() == 0,
        attack_effects(p, interaction, Some(target)).len() == (if interaction == 1 && (
        target.gamemode == 0 || target.gamemode == 2 || target.gamemode > 3) {
            1nat
        } else {
            0nat
        }),
        forall|i: int|
            0 <= i < attack_effects(p, interaction, Some(target)).len() ==> (
            #[trigger] attack_effects(p, interaction, Some(target))[i] matches Effect::TellPlayers(
                PlayerEvent::Hurt { entity_id, uuid, damage, x, y, z, attacker_x, attacker_z },
            ) && entity_id == target.entity_id && uuid == target.uuid && x == target.x && y
                == target.y && z == target.z && attacker_x == Some(p.x) && attacker_z == Some(p.z)
                && damage == 0x4000_0000),
{
}

proof fn lemma_drop_names()
    ensures
        "stone"@.len() == 5 && "deepslate"@.len() == 9 && "grass_block"@.len() == 11,
        "coal_ore"@.len() == 8 && "copper_ore"@.len() == 10 && "iron_ore"@.len() == 8,
        "gold_ore"@.len() == 8 && "diamond_ore"@.len() == 11 && "emerald_ore"@.len() == 11,
        "lapis_ore"@.len() == 9 && "redstone_ore"@.len() == 12,
        "deepslate_coal_ore"@.len() == 18 && "deepslate_copper_ore"@.len() == 20,
        "deepslate_iron_ore"@.len() == 18 && "deepslate_gold_ore"@.len() == 18,
        "deepslate_diamond_ore"@.len() == 21 && "deepslate_emerald_ore"@.len() == 21,
        "deepslate_lapis_ore"@.len() == 19 && "deepslate_redstone_ore"@.len() == 22,
        "deepslate"@[0] == 'd' && "lapis_ore"@[0] == 'l',
        "grass_block"@[0] == 'g' && "diamond_ore"@[0] == 'd' && "emerald_ore"@[0] == 'e',
        "coal_ore"@[0] == 'c' && "iron_ore"@[0] == 'i' && "gold_ore"@[0] == 'g',
        "deepslate_coal_ore"@[10] == 'c' && "deepslate_iron_ore"@[10] == 'i',
        "deepslate_gold_ore"@[10] == 'g',
        "deepslate_diamond_ore"@[10] == 'd' && "deepslate_emerald_ore"@[10] == 'e',
{
    reveal_strlit("stone");
    reveal_strlit("deepslate");
    reveal_strlit("grass_block");
    reveal_strlit("coal_ore");
    reveal_strlit("copper_ore");
    reveal_strlit("iron_ore");
    reveal_strlit("gold_ore");
    reveal_strlit("diamond_ore");
    reveal_strlit("emerald_ore");
    reveal_strlit("lapis_ore");
    reveal_strlit("redstone_ore");
    reveal_strlit("deepslate_coal_ore");
    reveal_strlit("deepslate_copper_ore");
    reveal_strlit("deepslate_iron_ore");
    reveal_strlit("deepslate_gold_ore");
    reveal_strlit("deepslate_diamond_ore");
    reveal_strlit("deepslate_emerald_ore");
    reveal_strlit("deepslate_lapis_ore");
    reveal_strlit("deepslate_redstone_ore");
}

/// Rock breaks to rubble and turf to dirt; an ore gives what it is named after,
/// in stone and in deepslate alike.
pub proof fn law_ores_drop_what_they_are_named_after(item_id: u16)
    ensures
        drop_of("stone"@, item_id) == BlockDrop::Cobblestone,
        drop_of("deepslate"@, item_id) == BlockDrop::CobbledDeepslate,
        drop_of("grass_block"@, item_id) == BlockDrop::Dirt,
        drop_of("coal_ore"@, item_id) == BlockDrop::Coal,
        drop_of("copper_ore"@, item_id) == BlockDrop::RawCopper,
        drop_of("iron_ore"@, item_id) == BlockDrop::RawIron,
        drop_of("gold_ore"@, item_id) == BlockDrop::RawGold,
        drop_of("diamond_ore"@, item_id) == BlockDrop::Diamond,
        drop_of("emerald_ore"@, item_id) == BlockDrop::Emerald,
        drop_of("lapis_ore"@, item_id) == BlockDrop::LapisLazuli,
        drop_of("redstone_ore"@, item_id) == BlockDrop::Redstone,
        drop_of("deepslate_coal_ore"@, item_id) == drop_of("coal_ore"@, item_id),
        drop_of("deepslate_copper_ore"@, item_id) == drop_of("copper_ore"@, item_id),
        drop_of("deepslate_iron_ore"@, item_id) == drop_of("iron_ore"@, item_id),
        drop_of("deepslate_gold_ore"@, item_id) == drop_of("gold_ore"@, item_id),
        drop_of("deepslate_diamond_ore"@, item_id) == drop_of("diamond_ore"@, item_id),
        drop_of("deepslate_emerald_ore"@, item_id) == drop_of("emerald_ore"@, item_id),
        drop_of("deepslate_lapis_ore"@, item_id) == drop_of("lapis_ore"@, item_id),
        drop_of("deepslate_redstone_ore"@, item_id) == drop_of("redstone_ore"@, item_id),
{
    lemma_drop_names();
}

/// A block that is none of the rocks, the turf and the ores drops its own item,
/// where it has one.
pub proof fn law_other_blocks_drop_themselves(name: Seq<char>, item_id: u16)
    requires
        name.len() > 22 || name.len() < 5 || name.len() == 6 || name.len() == 7,
    ensures
        item_id != 0 ==> drop_of(name, item_id) == BlockDrop::Own(item_id),
        item_id == 0 ==> drop_of(name, item_id) == BlockDrop::Nothing,
{
    lemma_drop_names();
}

/// A totem counts in either hand, and the one in the main hand is used first.
pub proof fn law_totem_in_the_main_hand_first(
    held_slot: u8,
    canonical: Seq<Option<u16>>,
    totem: u16,
)
    requires
        held_slot < 9,
        canonical.len() == 46,
    ensures
        canonical[36 + held_slot] == Some(totem) ==> totem_slot(held_slot, canonical, totem)
            == Some((36 + held_slot) as usize),
        canonical[36 + held_slot] != Some(totem) && canonical[45] == Some(totem) ==> totem_slot(
            held_slot,
            canonical,
            totem,
        ) == Some(45usize),
        canonical[36 + held_slot] != Some(totem) && canonical[45] != Some(totem) ==> totem_slot(
            held_slot,
            canonical,
            totem,
        ) is None,
{
}

/// A landing hurts survivors and adventurers who fell more than three blocks,
/// and nobody else.
pub proof fn law_long_falls_hurt(p: PlayerView, on_ground: bool, distance: u64)
    ensures
        fall_hurts(p, on_ground, distance) <==> on_ground && (p.gamemode == 0 || p.gamemode == 2)
            && !is_nan(distance) && units(distance) > 3 * one(),
{
    lemma_three();
}

/// The highest point of a flight is where the player is, on the ground or above
/// all points before, and stays what it was below.
pub proof fn law_highest_point_is_kept(
    p: PlayerView,
    on_ground: bool,
    distance: u64,
    totem: Option<usize>,
)
    ensures
        ({
            let after = fallen_player(p, on_ground, distance, totem);
            &&& on_ground ==> after.highest_y == p.y
            &&& !is_nan(p.y) && !is_nan(p.highest_y) ==> units(after.highest_y) >= units(p.y)
            &&& !on_ground && !is_nan(p.y) && !is_nan(p.highest_y) ==> units(after.highest_y)
                >= units(p.highest_y)
            &&& after.highest_y == p.y || after.highest_y == p.highest_y
            &&& after == (PlayerView {
                highest_y: after.highest_y,
                inventory: after.inventory,
                ..p
            })
            &&& totem is None ==> after.inventory == p.inventory
        }),
{
}

/// A creative player puts a stack into any slot but the first, of at most as
/// many items as stack; nobody else, and nowhere else.
pub proof fn law_only_creative_players_fill_slots(
    before: PlayerView,
    after: PlayerView,
    effects: Option<Seq<Effect>>,
    slot: i16,
    empty: bool,
    count: u8,
    max_count: u8,
    stack: Seq<u8>,
)
    requires
        before.inventory.len() == 46,
        creative_done(before, after, effects, slot, empty, count, max_count, Some(stack)),
    ensures
        before.gamemode != 1 || slot < 1 || slot > 45 ==> after == before,
        !empty && count > max_count ==> after == before,
        before.gamemode == 1 && 1 <= slot <= 45 && (empty || count <= max_count)
            ==> after.inventory[slot as int] == stack,
        forall|i: int|
            0 <= i < 46 && i != slot ==> #[trigger] after.inventory[i] == before.inventory[i],
        after == (PlayerView { inventory: after.inventory, ..before }),
{
}

/// An operator who asks for one of the four modes by its number gets it.
pub proof fn law_operators_switch_modes(operator_level: u8, mode: i32, rest: Seq<u8>)
    ensures
        operator_level > 0 && 0 <= mode <= 3 ==> switch_asked(
            operator_level,
            varint_bytes(mode as u32) + rest,
        ) == Some(mode as u8),
        operator_level == 0 || mode < 0 || mode > 3 ==> switch_asked(
            operator_level,
            varint_bytes(mode as u32) + rest,
        ) is None,
{
    let head = varint_bytes(mode as u32);
    let p = head + rest;
    assert(p.subrange(0, head.len() as int) =~= head);
    law_varint_round_trip(p, 0, mode);
}

/// A command is read as it was written.
pub proof fn law_commands_are_read_back(text: Seq<char>, rest: Seq<u8>)
    requires
        string_fits(text),
    ensures
        command_text(string_bytes(text) + rest) == Some(text),
{
    let body = encode_utf8(text);
    let n = body.len() as i32;
    let head = varint_bytes(n as u32);
    let p = string_bytes(text) + rest;
    assert(n as u32 == body.len() as u32);
    assert(p =~= head + (body + rest));
    assert(p.subrange(0, head.len() as int) =~= head);
    law_varint_round_trip(p, 0, n);
    assert(p.subrange(head.len() as int, head.len() + n) =~= body);
    vstd::utf8::encode_utf8_valid_utf8(text);
    vstd::utf8::encode_utf8_decode_utf8(text);
}

/// An operator's game mode command sets the mode that it names or numbers: 0
/// survival, 1 creative, 2 adventure, 3 spectator. Others are refused.
pub proof fn law_command_sets_the_named_mode(
    r: CommandRequest,
    mode: Seq<char>,
    operator_level: u8,
)
    requires
        is_request(r, seq!["gamemode"@, mode], operator_level),
    ensures
        operator_level == 0 ==> r is Denied,
        operator_level > 0 && (mode == seq!['0'] || same_ignoring_case(mode, "survival"@)) ==> (
        r matches CommandRequest::Gamemode { gamemode, typed } && gamemode == 0 && typed@ == mode),
        operator_level > 0 && (mode == seq!['1'] || same_ignoring_case(mode, "creative"@)) ==> (
        r matches CommandRequest::Gamemode { gamemode, typed } && gamemode == 1 && typed@ == mode),
        operator_level > 0 && (mode == seq!['2'] || same_ignoring_case(mode, "adventure"@)) ==> (
        r matches CommandRequest::Gamemode { gamemode, typed } && gamemode == 2 && typed@ == mode),
        operator_level > 0 && (mode == seq!['3'] || same_ignoring_case(mode, "spectator"@)) ==> (
        r matches CommandRequest::Gamemode { gamemode, typed } && gamemode == 3 && typed@ == mode),
        r matches CommandRequest::Gamemode { gamemode, .. } ==> gamemode <= 3,
{
    law_modes_have_names_and_numbers(mode);
}

/// An operator's summon command names an entity and where it appears, in the
/// order x, y and z. Others are refused.
pub proof fn law_command_summons_at_the_named_place(
    r: CommandRequest,
    entity: Seq<char>,
    x: Seq<char>,
    y: Seq<char>,
    z: Seq<char>,
    operator_level: u8,
)
    requires
        !has_prefix(entity, "minecraft:"@),
        is_request(r, seq!["summon"@, "minecraft:"@ + entity, x, y, z], operator_level)
            || is_request(r, seq!["summon"@, entity, x, y, z], operator_level),
    ensures
        operator_level == 0 ==> r is Denied,
        operator_level > 0 ==> (r matches CommandRequest::Summon {
            entity: e,
            coordinates: Some((a, b, c)),
        } && e@ == entity && a@ == x && b@ == y && c@ == z),
{
    reveal_strlit("summon");
    reveal_strlit("gamemode");
    assert("summon"@.len() == 6 && "gamemode"@.len() == 8);
    let full = "minecraft:"@ + entity;
    assert(full.take("minecraft:"@.len() as int) =~= "minecraft:"@);
    assert(full.skip("minecraft:"@.len() as int) =~= entity);
}

/// The levels 0 to 4 are shown to the client as the statuses 24 to 28, and
/// higher levels as the highest.
pub proof fn law_permission_statuses(entity_id: i32, level: u8)
    ensures
        level <= 4 ==> permission_packet(entity_id, level) == (ClientPacket::EntityStatus {
            entity_id,
            status: (24 + level) as i8,
        }),
        level >= 4 ==> permission_packet(entity_id, level) == (ClientPacket::EntityStatus {
            entity_id,
            status: 28,
        }),
{
}

/// The command tree offers the four modes in the order of their numbers: each
/// is a word behind the game mode command that stands for its number.
pub proof fn law_command_tree_offers_every_mode(
    nodes: Seq<crate::viakraken::java::backend::effects::CommandNode>,
    is_operator: bool,
    mode: int,
)
    requires
        is_command_tree(nodes, is_operator),
        0 <= mode <= 3,
    ensures
        nodes[0].children@ == (if is_operator {
            seq![1i32]
        } else {
            Seq::<i32>::empty()
        }),
        nodes[1].name == Some("gamemode"),
        nodes[1].restricted,
        nodes[1].children@.len() == 4,
        nodes[1].children@[mode] == 2 + mode,
        nodes[2 + mode].executable,
        nodes[2 + mode].name matches Some(word) && gamemode_named(word@) == Some(mode as u8),
{
    law_modes_have_names_and_numbers("survival"@);
    law_modes_have_names_and_numbers("creative"@);
    law_modes_have_names_and_numbers("adventure"@);
    law_modes_have_names_and_numbers("spectator"@);
}

/// Whoever respawns is sent each chunk within three chunks of the spawn once,
/// and no other.
pub proof fn law_respawn_sends_the_chunks_round_the_spawn(
    effects: Seq<Effect>,
    gamemode: u8,
    entity_id: i32,
    level: u8,
    x: i32,
    z: i32,
)
    requires
        is_respawn(effects, gamemode, entity_id, level),
    ensures
        -3 <= x <= 3 && -3 <= z <= 3 ==> effects[8 + 7 * (z + 3) + (x + 3)] == Effect::TrySend(
            ClientPacket::Chunk { x, z },
        ),
        forall|i: int|
            0 <= i < effects.len() && #[trigger] effects[i] == Effect::TrySend(
                ClientPacket::Chunk { x, z },
            ) ==> i == 8 + 7 * (z + 3) + (x + 3) && -3 <= x <= 3 && -3 <= z <= 3,
{
    if -3 <= x <= 3 && -3 <= z <= 3 {
        let k = 7 * (z + 3) + (x + 3);
        vstd::arithmetic::div_mod::lemma_fundamental_div_mod_converse(k, 7, z + 3, x + 3);
        assert(effects[8 + k] == respawn_chunk(k));
    }
    assert forall|i: int|
        0 <= i < effects.len() && #[trigger] effects[i] == Effect::TrySend(
            ClientPacket::Chunk { x, z },
        ) implies i == 8 + 7 * (z + 3) + (x + 3) && -3 <= x <= 3 && -3 <= z <= 3 by {
        if 8 <= i < 57 {
            assert(effects[8 + (i - 8)] == respawn_chunk(i - 8));
        }
    }
}

/// Whoever respawns is in full health at the spawn, and keeps the rest.
pub proof fn law_respawn_heals(p: PlayerView)
    ensures
        respawned_player(p).health == 0x41a0_0000,
        respawned_player(p).x == 0,
        respawned_player(p).z == 0,
        !is_nan(respawned_player(p).y) && units(respawned_player(p).y) == 70 * one(),
        respawned_player(p).highest_y == respawned_player(p).y,
        respawned_player(respawned_player(p)) == respawned_player(p),
        p == (PlayerView {
            health: p.health,
            x: p.x,
            y: p.y,
            z: p.z,
            highest_y: p.highest_y,
            ..respawned_player(p)
        }),
{
    lemma_seventy();
}

/// A player at or below 128 blocks under zero dies, unless in creative or
/// spectator mode, and nobody above does.
pub proof fn law_depth_of_the_void(p: PlayerView)
    requires
        f32_positive(p.health),
    ensures
        !is_nan(p.y) && units(p.y) <= -128 * one() && p.gamemode != 1 && p.gamemode != 3
            ==> finished_player(p).health == 0,
        is_nan(p.y) || units(p.y) > -128 * one() || p.gamemode == 1 || p.gamemode == 3
            ==> finished_player(p) == p,
        finished_player(p) == (PlayerView { health: finished_player(p).health, ..p }),
{
    lemma_minus_128();
}

/// A packet is what its number says, where the numbers of a version differ.
pub proof fn law_packets_are_told_apart(ids: PlayPacketIds, id: i32)
    requires
        seq![
            ids.use_item_on,
            ids.pick_block,
            ids.interact,
            ids.player_action,
            ids.creative_slot,
            ids.held_item,
            ids.change_gamemode,
            ids.chat_command,
            ids.move_pos_rot,
            ids.move_pos,
            ids.move_rot,
            ids.chat,
            ids.client_command,
        ].no_duplicates(),
        id >= 0,
    ensures
        id == ids.use_item_on <==> packet_kind(id, ids) == PlayPacket::UseItemOn,
        id == ids.pick_block <==> packet_kind(id, ids) == PlayPacket::PickBlock,
        id == ids.interact <==> packet_kind(id, ids) == PlayPacket::Interact,
        id == ids.player_action <==> packet_kind(id, ids) == PlayPacket::PlayerAction,
        id == ids.creative_slot <==> packet_kind(id, ids) == PlayPacket::CreativeSlot,
        id == ids.held_item <==> packet_kind(id, ids) == PlayPacket::HeldItem,
        id == ids.change_gamemode <==> packet_kind(id, ids) == PlayPacket::ChangeGamemode,
        id == ids.chat_command <==> packet_kind(id, ids) == PlayPacket::ChatCommand,
        id == ids.move_pos_rot <==> packet_kind(id, ids) == PlayPacket::MovePosRot,
        id == ids.move_pos <==> packet_kind(id, ids) == PlayPacket::MovePos,
        id == ids.move_rot <==> packet_kind(id, ids) == PlayPacket::MoveRot,
        id == ids.chat <==> packet_kind(id, ids) == PlayPacket::Chat,
        id == ids.client_command <==> packet_kind(id, ids) == PlayPacket::ClientCommand,
{
    let all = seq![
        ids.use_item_on,
        ids.pick_block,
        ids.interact,
        ids.player_action,
        ids.creative_slot,
        ids.held_item,
        ids.change_gamemode,
        ids.chat_command,
        ids.move_pos_rot,
        ids.move_pos,
        ids.move_rot,
        ids.chat,
        ids.client_command,
    ];
    assert(all[0] == ids.use_item_on && all[1] == ids.pick_block && all[2] == ids.interact && all[3]
        == ids.player_action && all[4] == ids.creative_slot && all[5] == ids.held_item && all[6]
        == ids.change_gamemode && all[7] == ids.chat_command && all[8] == ids.move_pos_rot && all[9]
        == ids.move_pos && all[10] == ids.move_rot && all[11] == ids.chat && all[12]
        == ids.client_command);
}

/// Whatever kind of packet a player sends, the work that it does is that of its
/// kind, on the player who sent it: a use places a block and changes nobody, a
/// selected slot is held, a line is said under the player's own name, and of the
/// client commands only the first is a respawn.
pub proof fn law_packets_do_what_they_ask_for(
    p: PlayerView,
    data: PacketData,
    username: Seq<char>,
    uuid: u128,
    entity_id: i32,
    w: PacketWork,
)
    requires
        packet_work(p, data, username, uuid, entity_id, w),
    ensures
        data matches PacketData::UseItemOn { x, y, z, face, sequence, block_state } ==> w.player == p
            && w.effects == use_effects(x, y, z, face, sequence, block_state) && !w.moved
            && !w.ended,
        data matches PacketData::HeldItem { slot } ==> !w.ended && w.effects.len() == 0 && (0 <= slot
            <= 8 ==> w.player == (PlayerView { held_slot: slot as u8, ..p })) && (!(0 <= slot <= 8)
            ==> w.player == p),
        data matches PacketData::Chat { message } ==> w.player == p && w.effects.len() == 1 && (
        w.effects[0] matches Effect::TellChat(line) && line@ == "<"@ + username + "> "@ + message@),
        data matches PacketData::ClientCommand { action } ==> (action == 0 ==> w.player
            == respawned_player(p) && w.moved) && (action != 0 ==> w.player == p && w.effects.len()
            == 0 && !w.moved),
        data is Unread ==> w.player == p && w.effects.len() == 0 && !w.moved && !w.ended,
        data matches PacketData::PickBlock { .. } ==> (p.gamemode != 1 ==> w.ended && w.player == p
            && w.effects.len() == 0),
        data is UnreadPick ==> (w.ended <==> p.gamemode != 1) && w.player == p && w.effects.len()
            == 0,
        data is Interact || data is Action ==> w.player == p,
        data is Move ==> w.moved && !w.ended,
        !(data is Move) && !(data is ClientCommand) ==> !w.moved,
{
}

/// After a packet that was not refused outright the checks that end every
/// packet follow: their effects come last, and they see the player as the
/// packet left them.
pub proof fn law_checks_end_every_packet(w: PacketWork, uuid: u128, entity_id: i32)
    ensures
        w.ended ==> player_after(w) == w.player && effects_after(w, uuid, entity_id) == w.effects,
        !w.ended ==> player_after(w) == finished_player(w.player) && effects_after(
            w,
            uuid,
            entity_id,
        ) == w.effects + finish_effects(w.player, uuid, entity_id, w.moved),
        !w.moved && f32_positive(w.player.health) && w.player.gamemode == 1 ==> effects_after(
            w,
            uuid,
            entity_id,
        ) == w.effects,
{
    if !w.ended && !w.moved && w.player.gamemode == 1 {
        assert(effects_after(w, uuid, entity_id) =~= w.effects);
    }
}

/// A packet is asked for by its kind: movements as they are read, actions as
/// they are read, commands as text, and the rest still to be decoded, with its
/// payload as it came.
pub proof fn law_packets_are_asked_for_by_kind(q: PlayRequest, kind: PlayPacket, payload: Seq<u8>)
    requires
        is_play_request(q, kind, payload),
    ensures
        kind == PlayPacket::MovePosRot || kind == PlayPacket::MovePos || kind == PlayPacket::MoveRot
            ==> (movement_read(kind, payload) matches Some(m) ==> q == PlayRequest::Move(m)),
        kind == PlayPacket::PlayerAction ==> (action_read(payload) matches Some(a) ==> q
            == PlayRequest::Action(a)),
        kind == PlayPacket::ChatCommand ==> (command_text(payload) matches Some(text) ==> (
        q matches PlayRequest::Command(command) && command@ == text)),
        kind == PlayPacket::ChangeGamemode ==> (q matches PlayRequest::SwitchGamemode { payload: b }
            && b@ == payload),
        kind == PlayPacket::UseItemOn || kind == PlayPacket::PickBlock || kind
            == PlayPacket::Interact || kind == PlayPacket::CreativeSlot || kind
            == PlayPacket::HeldItem || kind == PlayPacket::Chat || kind == PlayPacket::ClientCommand
            ==> (q matches PlayRequest::Decode { kind: k, payload: b } && k == kind && b@
            == payload),
        kind == PlayPacket::Other ==> q is Unread,
{
}

/// The client is shown the picked item in its slot, counted from thirty-six on,
/// and which of the nine slots is selected.
pub proof fn law_picks_are_shown(slot: u8, item: u16)
    requires
        slot < 9,
    ensures
        pick_effects(slot, None) == seq![
            Effect::Send(ClientPacket::SelectedSlot { slot: slot as i8 }),
        ],
        pick_effects(slot, Some(item)) == seq![
            Effect::Send(
                ClientPacket::Slot { slot: (36 + slot) as i16, content: SlotContent::Item(item) },
            ),
            Effect::Send(ClientPacket::SelectedSlot { slot: slot as i8 }),
        ],
{
    assert(pick_effects(slot, None) =~= seq![
        Effect::Send(ClientPacket::SelectedSlot { slot: slot as i8 }),
    ]);
    assert(pick_effects(slot, Some(item)) =~= seq![
        Effect::Send(
            ClientPacket::Slot { slot: (36 + slot) as i16, content: SlotContent::Item(item) },
        ),
        Effect::Send(ClientPacket::SelectedSlot { slot: slot as i8 }),
    ]);
}

/// A landing that hurts is told where the player is, unless a totem is used up:
/// then its slot is emptied and the client shows it, and nobody is hurt.
pub proof fn law_totems_save_from_falls(
    p: PlayerView,
    entity_id: i32,
    uuid: u128,
    distance: u64,
    damage: u32,
    slot: usize,
)
    requires
        p.gamemode == 0 || p.gamemode == 2,
        !is_nan(distance),
        units(distance) > 3 * one(),
        slot < p.inventory.len(),
    ensures
        fall_effects(p, true, entity_id, uuid, distance, damage, None) == seq![
            Effect::TellPlayers(
                PlayerEvent::Hurt {
                    entity_id,
                    uuid,
                    damage,
                    x: p.x,
                    y: p.y,
                    z: p.z,
                    attacker_x: None,
                    attacker_z: None,
                },
            ),
        ],
        fall_effects(p, true, entity_id, uuid, distance, damage, Some(slot)) == seq![
            Effect::Send(ClientPacket::Slot { slot: slot as i16, content: SlotContent::Empty }),
            Effect::Send(ClientPacket::EntityStatus { entity_id, status: 35 }),
        ],
        fallen_player(p, true, distance, Some(slot)).inventory[slot as int].len() == 0,
        fallen_player(p, true, distance, None).inventory == p.inventory,
        fall_effects(p, false, entity_id, uuid, distance, damage, None).len() == 0,
{
    lemma_three();
}

/// A summoned entity is entered, told of and announced at one and the same
/// place, under one number.
pub proof fn law_summoned_entities_appear_at_one_place(
    effects: Seq<Effect>,
    entity_type: u16,
    x: u64,
    y: u64,
    z: u64,
    entity_id: i32,
    entity: Seq<char>,
    place: Seq<char>,
)
    requires
        is_summoning(
            effects,
            SummonOutcome::Summon { entity_type, x, y, z },
            entity_id,
            entity,
            place,
        ),
    ensures
        effects.len() == 3,
        effects[0] == (Effect::RegisterSummoned { entity_id, entity_type, x, y, z }),
        effects[1] == Effect::TellConsole(
            ConsoleCommand::Summon { entity_id, entity_type, x, y, z },
        ),
        effects[2] matches Effect::Send(ClientPacket::Chat { text }) && text@ == "Summoned "@
            + entity + " at "@ + place,
{
}

/// What a player is told about a command.
pub proof fn law_replies_to_commands(r: CommandRequest, command: Seq<char>)
    ensures
        r is Denied ==> reply_text(r, command) == Some(
            "You do not have permission to use this command."@,
        ),
        r is UnknownGamemode ==> reply_text(r, command) == Some(
            "Unknown gamemode. Use: survival, creative, adventure, spectator"@,
        ),
        r matches CommandRequest::Gamemode { typed, .. } ==> reply_text(r, command) == Some(
            "Set own game mode to "@ + typed@ + " Mode"@,
        ),
        r is Unknown ==> reply_text(r, command) == Some("Unknown command: /"@ + command),
        r is Nothing || r is Summon ==> reply_text(r, command) is None,
        summon_refusal(SummonOutcome::UnknownEntity) == Some("Unknown entity type."@),
        summon_refusal(SummonOutcome::NotSummonable) == Some("That entity cannot be summoned."@),
        summon_refusal(SummonOutcome::BadCoordinates) == Some(
            "Summon coordinates must be numbers."@,
        ),
{
}

/// A player who comes back is told so first, with full health and the food that
/// goes with it, and stands at the spawn, round which the chunks then follow.
pub proof fn law_respawn_is_shown_at_the_spawn(
    effects: Seq<Effect>,
    gamemode: u8,
    entity_id: i32,
    level: u8,
)
    requires
        is_respawn(effects, gamemode, entity_id, level),
    ensures
        effects[0] matches Effect::TrySend(ClientPacket::Respawn { gamemode: shown, seed, sea_level })
            && shown == gamemode && seed == 123456789 && sea_level == 63,
        effects[1] matches Effect::TrySend(ClientPacket::Health { health, food, saturation })
            && health == 0x41a0_0000 && food == 20 && saturation == 0x41a0_0000,
        effects[2] == Effect::Send(permission_packet(entity_id, level)),
        effects[4] matches Effect::TrySend(ClientPacket::Position { x, y, z, yaw, pitch }) && x == 0
            && z == 0 && yaw == 0 && pitch == 0 && !is_nan(y) && units(y) == 70 * one(),
        effects[5] == Effect::TrySend(ClientPacket::WaitForChunks),
        effects[6] == Effect::TrySend(ClientPacket::CenterChunk { x: 0, z: 0 }),
        effects[7] == Effect::TrySend(ClientPacket::BatchStart),
        effects.last() == Effect::TrySend(ClientPacket::BatchEnd { count: 49 }),
{
    lemma_seventy();
}

} // verus!
