//! What the packets of a player do.

use vstd::arithmetic::div_mod::lemma_fundamental_div_mod_converse;
use vstd::prelude::*;
use vstd::slice::slice_subrange;
use vstd::string::StringExecFns;
use vstd::utf8::{decode_utf8, valid_utf8};
use crate::big_endian::{be_value, lemma_be_limits, read_be};
use crate::console::{gamemode_named, gamemode_of, SummonOutcome};
use crate::error::PacketError;
use crate::float_bits::{f32_positive, f64_le, f64_lt, is_positive_f32, le, lt};
use crate::text::{chars_of, drop_prefix, is_text, split_words, string_of, texts, without_prefix, words};
use crate::viakraken::java::backend::effects::{ClientPacket, CommandNode, Effect, SlotContent, WALK_SPEED};
use crate::viakraken::java::backend::state::{ability_flags, gamemode_abilities, BlockUpdateEvent, ConsoleCommand, ItemEvent, OnlinePlayer, PlayerEvent, FLY_SPEED};
use crate::viakraken::utils::{read_varint_from_slice, text_from_utf8, varint_read};
use crate::world::player_store::{byte_lists, PlayerData, PlayerView, FULL_HEALTH, INVENTORY_SLOTS, SPAWN_Y};

verus! {

pub const HOTBAR_START_SLOT: usize = 36;

pub const HOTBAR_SLOT_COUNT: u8 = 9;

pub const OFFHAND_SLOT: usize = 45;

/// -128.0
pub const VOID_KILL_Y: u64 = 0xc060_0000_0000_0000;

/// The packet numbers of a protocol version, negative where it has no such
/// packet.
#[derive(Clone, Copy, Debug, PartialEq, Eq, Structural)]
pub struct PlayPacketIds {
    pub use_item_on: i32,
    pub pick_block: i32,
    pub interact: i32,
    pub player_action: i32,
    pub creative_slot: i32,
    pub held_item: i32,
    pub change_gamemode: i32,
    pub chat_command: i32,
    pub move_pos_rot: i32,
    pub move_pos: i32,
    pub move_rot: i32,
    pub chat: i32,
    pub client_command: i32,
}

#[derive(Clone, Copy, Debug, PartialEq, Eq, Structural)]
pub enum PlayPacket {
    UseItemOn,
    PickBlock,
    Interact,
    PlayerAction,
    CreativeSlot,
    HeldItem,
    ChangeGamemode,
    ChatCommand,
    MovePosRot,
    MovePos,
    MoveRot,
    Chat,
    ClientCommand,
    Other,
}

/// The kind of packet that a number stands for: the first in this order.
pub open spec fn packet_kind(id: i32, ids: PlayPacketIds) -> PlayPacket {
    if id == ids.use_item_on {
        PlayPacket::UseItemOn
    } else if id == ids.pick_block && ids.pick_block >= 0 {
        PlayPacket::PickBlock
    } else if id == ids.interact {
        PlayPacket::Interact
    } else if id == ids.player_action {
        PlayPacket::PlayerAction
    } else if id == ids.creative_slot {
        PlayPacket::CreativeSlot
    } else if id == ids.held_item {
        PlayPacket::HeldItem
    } else if id == ids.change_gamemode && ids.change_gamemode >= 0 {
        PlayPacket::ChangeGamemode
    } else if id == ids.chat_command {
        PlayPacket::ChatCommand
    } else if id == ids.move_pos_rot {
        PlayPacket::MovePosRot
    } else if id == ids.move_pos {
        PlayPacket::MovePos
    } else if id == ids.move_rot {
        PlayPacket::MoveRot
    } else if id == ids.chat {
        PlayPacket::Chat
    } else if id == ids.client_command {
        PlayPacket::ClientCommand
    } else {
        PlayPacket::Other
    }
}

pub fn classify(id: i32, ids: &PlayPacketIds) -> (r: PlayPacket)
    ensures
        r == packet_kind(id, *ids),
{
    if id == ids.use_item_on {
        PlayPacket::UseItemOn
    } else if id == ids.pick_block && ids.pick_block >= 0 {
        PlayPacket::PickBlock
    } else if id == ids.interact {
        PlayPacket::Interact
    } else if id == ids.player_action {
        PlayPacket::PlayerAction
    } else if id == ids.creative_slot {
        PlayPacket::CreativeSlot
    } else if id == ids.held_item {
        PlayPacket::HeldItem
    } else if id == ids.change_gamemode && ids.change_gamemode >= 0 {
        PlayPacket::ChangeGamemode
    } else if id == ids.chat_command {
        PlayPacket::ChatCommand
    } else if id == ids.move_pos_rot {
        PlayPacket::MovePosRot
    } else if id == ids.move_pos {
        PlayPacket::MovePos
    } else if id == ids.move_rot {
        PlayPacket::MoveRot
    } else if id == ids.chat {
        PlayPacket::Chat
    } else if id == ids.client_command {
        PlayPacket::ClientCommand
    } else {
        PlayPacket::Other
    }
}

/// The number of a packet, its kind, and where its payload starts; nothing for
/// an empty packet.
pub fn split_packet(packet: &[u8], ids: &PlayPacketIds) -> (r: Result<
    Option<(PlayPacket, usize)>,
    PacketError,
>)
    ensures
        packet@.len() == 0 ==> r == Ok::<Option<(PlayPacket, usize)>, PacketError>(None),
        packet@.len() > 0 ==> match varint_read(packet@, 0) {
            (Ok(id), start) => r matches Ok(Some((kind, at))) && kind == packet_kind(id, *ids) && at
                == start && at <= packet@.len(),
            (Err(e), _) => r == Err::<Option<(PlayPacket, usize)>, PacketError>(e),
        },
{
    if packet.len() == 0 {
        return Ok(None);
    }
    let mut offset: usize = 0;
    match read_varint_from_slice(packet, &mut offset) {
        Ok(id) => Ok(Some((classify(id, ids), offset))),
        Err(e) => Err(e),
    }
}

/// The item number that stands in an inventory slot, as the client wrote it.
pub open spec fn slot_item(slot: Seq<u8>) -> Option<u16> {
    let (count, item_at) = varint_read(slot, 0);
    let (item, _) = varint_read(slot, item_at);
    if count is Err || count->Ok_0 <= 0 || item is Err || !(0 <= item->Ok_0 <= u16::MAX) {
        None
    } else {
        Some(item->Ok_0 as u16)
    }
}

pub fn inventory_item_id(slot: &[u8]) -> (r: Option<u16>)
    ensures
        r == slot_item(slot@),
{
    let mut offset: usize = 0;
    let count: i32 = match read_varint_from_slice(slot, &mut offset) {
        Ok(count) => count,
        Err(_) => return None,
    };
    if count <= 0 {
        return None;
    }
    match read_varint_from_slice(slot, &mut offset) {
        Ok(item) => if 0 <= item && item <= 65535 {
            Some(item as u16)
        } else {
            None
        },
        Err(_) => None,
    }
}

/// The inventory slot that a hand holds: 0 is the main hand, 1 the other one.
pub open spec fn hand_slot(hand: i32, held_slot: u8) -> Option<usize> {
    if hand == 0 && held_slot < HOTBAR_SLOT_COUNT {
        Some((HOTBAR_START_SLOT + held_slot) as usize)
    } else if hand == 1 {
        Some(OFFHAND_SLOT)
    } else {
        None
    }
}

/// The item in a hand, as the client wrote it.
pub open spec fn held_item(p: PlayerView, hand: i32) -> Option<u16> {
    match hand_slot(hand, p.held_slot) {
        Some(slot) => if slot < p.inventory.len() {
            slot_item(p.inventory[slot as int])
        } else {
            None
        },
        None => None,
    }
}

pub fn held_network_item(player: &PlayerData, hand: i32) -> (r: Option<u16>)
    ensures
        r == held_item(player@, hand),
{
    let slot: usize = if hand == 0 && player.held_slot < HOTBAR_SLOT_COUNT {
        HOTBAR_START_SLOT + player.held_slot as usize
    } else if hand == 1 {
        OFFHAND_SLOT
    } else {
        return None;
    };
    if slot >= player.inventory.len() {
        return None;
    }
    inventory_item_id(player.inventory[slot].as_slice())
}

/// The block that the item in a hand becomes. `block_of` gives the block of an
/// item, if it is one.
pub fn held_block_state<F: Fn(u16) -> Option<u16>>(
    player: &PlayerData,
    hand: i32,
    block_of: F,
) -> (r: Option<u16>)
    requires
        forall|item: u16| block_of.requires((item,)),
    ensures
        match held_item(player@, hand) {
            Some(item) => block_of.ensures((item,), r),
            None => r is None,
        },
{
    match held_network_item(player, hand) {
        Some(item) => block_of(item),
        None => None,
    }
}

/// The position next to a block, on the side that was clicked.
pub open spec fn beside(x: int, y: int, z: int, face: int) -> (int, int, int) {
    if face == 0 {
        (x, y - 1, z)
    } else if face == 2 {
        (x, y, z - 1)
    } else if face == 3 {
        (x, y, z + 1)
    } else if face == 4 {
        (x - 1, y, z)
    } else if face == 5 {
        (x + 1, y, z)
    } else {
        (x, y + 1, z)
    }
}

/// What using an item on a block does: the block of the item is placed, if it
/// is one, and the client is told that its request was seen.
pub open spec fn use_effects(
    x: i32,
    y: i32,
    z: i32,
    face: i32,
    sequence: i32,
    block_state: Option<u16>,
) -> Seq<Effect> {
    let (nx, ny, nz) = beside(x as int, y as int, z as int, face as int);
    (match block_state {
        Some(state_id) => seq![
            Effect::SaveBlock { x: nx as i32, y: ny as i32, z: nz as i32, state_id },
            Effect::TellBlocks(
                BlockUpdateEvent { x: nx as i32, y: ny as i32, z: nz as i32, state_id },
            ),
        ],
        None => Seq::<Effect>::empty(),
    }) + (if sequence > 0 {
        seq![Effect::Send(ClientPacket::AcknowledgeBlock { sequence })]
    } else {
        Seq::<Effect>::empty()
    })
}

/// A block is placed against another. `block_state` is the state that the
/// held item becomes, if it is a block.
pub fn use_item_on(
    x: i32,
    y: i32,
    z: i32,
    face: i32,
    sequence: i32,
    block_state: Option<u16>,
) -> (r: Vec<Effect>)
    requires
        i32::MIN < x < i32::MAX,
        i32::MIN < y < i32::MAX,
        i32::MIN < z < i32::MAX,
    ensures
        r@ == use_effects(x, y, z, face, sequence, block_state),
{
    let (nx, ny, nz): (i32, i32, i32) = match face {
        0 => (x, y - 1, z),
        1 => (x, y + 1, z),
        2 => (x, y, z - 1),
        3 => (x, y, z + 1),
        4 => (x - 1, y, z),
        5 => (x + 1, y, z),
        _ => (x, y + 1, z),
    };
    let mut effects: Vec<Effect> = Vec::new();
    match block_state {
        Some(state_id) => {
            effects.push(Effect::SaveBlock { x: nx, y: ny, z: nz, state_id });
            effects.push(
                Effect::TellBlocks(BlockUpdateEvent { x: nx, y: ny, z: nz, state_id }),
            );
        },
        None => {},
    }
    if sequence > 0 {
        effects.push(Effect::Send(ClientPacket::AcknowledgeBlock { sequence }));
    }
    assert(effects@ =~= use_effects(x, y, z, face, sequence, block_state));
    effects
}

/// The first slot of the hotbar, from `from` on, that holds the item.
/// `canonical` gives the canonical item number of each inventory slot.
pub open spec fn hotbar_slot_with(canonical: Seq<Option<u16>>, item: u16, from: int) -> Option<u8>
    decreases 9 - from,
{
    if from >= 9 || from < 0 {
        None
    } else if HOTBAR_START_SLOT + from < canonical.len() && canonical[HOTBAR_START_SLOT + from]
        == Some(item) {
        Some(from as u8)
    } else {
        hotbar_slot_with(canonical, item, from + 1)
    }
}

fn find_in_hotbar(canonical: &Vec<Option<u16>>, item: u16) -> (r: Option<u8>)
    ensures
        r == hotbar_slot_with(canonical@, item, 0),
        r matches Some(slot) ==> slot < 9,
{
    let mut slot: u8 = 0;
    while slot < HOTBAR_SLOT_COUNT
        invariant
            slot <= 9,
            hotbar_slot_with(canonical@, item, 0) == hotbar_slot_with(
                canonical@,
                item,
                slot as int,
            ),
        decreases 9 - slot,
    {
        let index: usize = HOTBAR_START_SLOT + slot as usize;
        if index < canonical.len() {
            match canonical[index] {
                Some(found) => {
                    if found == item {
                        return Some(slot);
                    }
                },
                None => {},
            }
        }
        slot += 1;
    }
    None
}

/// What picking a block does.
#[derive(Clone, Copy, Debug, PartialEq, Eq, Structural)]
pub enum Pick {
    /// Nothing at all, not even the checks that end every packet.
    Refused,
    /// The slot of the hotbar to select; with `Some` item to put there first.
    Select { slot: u8, fill: Option<u16> },
}

/// Only creative players pick blocks, and only blocks that have an item. The
/// slot that holds the item already is selected, else the held one is filled.
pub open spec fn pick_decided(
    gamemode: u8,
    held_slot: u8,
    item: Option<u16>,
    canonical: Seq<Option<u16>>,
) -> Pick {
    match item {
        Some(item) => if gamemode != 1 {
            Pick::Refused
        } else {
            match hotbar_slot_with(canonical, item, 0) {
                Some(slot) => Pick::Select { slot, fill: None },
                None => Pick::Select {
                    slot: if held_slot < 8 {
                        held_slot
                    } else {
                        8
                    },
                    fill: Some(item),
                },
            }
        },
        None => Pick::Refused,
    }
}

pub fn decide_pick(player: &PlayerData, item: Option<u16>, canonical: &Vec<Option<u16>>) -> (r: Pick)
    ensures
        r == pick_decided(player.gamemode, player.held_slot, item, canonical@),
        r matches Pick::Select { slot, .. } ==> slot < 9,
{
    if player.gamemode != 1 {
        return Pick::Refused;
    }
    match item {
        None => Pick::Refused,
        Some(item) => match find_in_hotbar(canonical, item) {
            Some(slot) => Pick::Select { slot, fill: None },
            None => Pick::Select {
                slot: if player.held_slot < 8 {
                    player.held_slot
                } else {
                    8
                },
                fill: Some(item),
            },
        },
    }
}

/// A player after a pick.
pub open spec fn picked_player(
    p: PlayerView,
    slot: u8,
    fill: Option<u16>,
    stack: Seq<u8>,
) -> PlayerView {
    PlayerView {
        held_slot: slot,
        inventory: if fill is Some {
            p.inventory.update(HOTBAR_START_SLOT + slot, stack)
        } else {
            p.inventory
        },
        ..p
    }
}

pub open spec fn pick_effects(slot: u8, fill: Option<u16>) -> Seq<Effect> {
    (match fill {
        Some(item) => seq![
            Effect::Send(
                ClientPacket::Slot {
                    slot: (HOTBAR_START_SLOT + slot) as i16,
                    content: SlotContent::Item(item),
                },
            ),
        ],
        None => Seq::<Effect>::empty(),
    }).push(Effect::Send(ClientPacket::SelectedSlot { slot: slot as i8 }))
}

/// Carries a pick out. `stack` is the encoding of the picked item for the
/// client.
pub fn apply_pick(player: &mut PlayerData, slot: u8, fill: Option<u16>, stack: Vec<u8>) -> (r: Vec<
    Effect,
>)
    requires
        slot < 9,
        old(player).inventory@.len() == INVENTORY_SLOTS,
    ensures
        final(player)@ == picked_player(old(player)@, slot, fill, stack@),
        r@ == pick_effects(slot, fill),
{
    player.held_slot = slot;
    let mut effects: Vec<Effect> = Vec::new();
    match fill {
        Some(item) => {
            let index: usize = HOTBAR_START_SLOT + slot as usize;
            player.inventory.set(index, stack);
            effects.push(
                Effect::Send(
                    ClientPacket::Slot { slot: index as i16, content: SlotContent::Item(item) },
                ),
            );
            assert(byte_lists(player.inventory@) =~= old(player)@.inventory.update(
                index as int,
                stack@,
            ));
        },
        None => {},
    }
    effects.push(Effect::Send(ClientPacket::SelectedSlot { slot: slot as i8 }));
    effects
}

/// 2.0, one heart.
pub const PUNCH_DAMAGE: u32 = 0x4000_0000;

/// What an attack does, with the attacked player, if there is one.
pub open spec fn attack_effects(
    p: PlayerView,
    interaction: i32,
    target: Option<OnlinePlayer>,
) -> Seq<Effect> {
    if interaction == 1 && target is Some && target->0.gamemode != 1 && target->0.gamemode != 3 {
        seq![
            Effect::TellPlayers(
                PlayerEvent::Hurt {
                    entity_id: target->0.entity_id,
                    uuid: target->0.uuid,
                    damage: PUNCH_DAMAGE,
                    x: target->0.x,
                    y: target->0.y,
                    z: target->0.z,
                    attacker_x: Some(p.x),
                    attacker_z: Some(p.z),
                },
            ),
        ]
    } else {
        Seq::<Effect>::empty()
    }
}

/// A player attacks another one, who is hurt unless in creative or spectator
/// mode. `target` is the attacked player, if there is one.
pub fn attack(player: &PlayerData, interaction: i32, target: &Option<OnlinePlayer>) -> (r: Vec<
    Effect,
>)
    ensures
        r@ == attack_effects(player@, interaction, *target),
{
    let mut effects: Vec<Effect> = Vec::new();
    if interaction == 1 {
        match target {
            Some(victim) => {
                if victim.gamemode != 1 && victim.gamemode != 3 {
                    effects.push(
                        Effect::TellPlayers(
                            PlayerEvent::Hurt {
                                entity_id: victim.entity_id,
                                uuid: victim.uuid,
                                damage: PUNCH_DAMAGE,
                                x: victim.x,
                                y: victim.y,
                                z: victim.z,
                                attacker_x: Some(player.x),
                                attacker_z: Some(player.z),
                            },
                        ),
                    );
                }
            },
            None => {},
        }
    }
    effects
}

/// A number of `width` bits that may be negative, from the bits of a larger
/// one.
pub open spec fn signed_bits(n: int, modulus: int) -> int {
    let low = n % modulus;
    if low >= modulus / 2 {
        low - modulus
    } else {
        low
    }
}

/// The block position that 64 bits hold: 26 bits of x, 26 of z, 12 of y.
pub open spec fn position_of(bits: u64) -> (int, int, int) {
    (
        signed_bits(bits as int / 0x40_0000_0000, 0x400_0000),
        signed_bits(bits as int, 0x1000),
        signed_bits(bits as int / 0x1000, 0x400_0000),
    )
}

pub fn decode_position(bits: u64) -> (r: (i32, i32, i32))
    ensures
        (r.0 as int, r.1 as int, r.2 as int) == position_of(bits),
        -0x200_0000 <= r.0 < 0x200_0000,
        -0x800 <= r.1 < 0x800,
        -0x200_0000 <= r.2 < 0x200_0000,
{
    let high: u64 = bits / 0x40_0000_0000;
    let x: i64 = if high >= 0x200_0000 {
        high as i64 - 0x400_0000
    } else {
        high as i64
    };
    let low: u64 = bits % 0x1000;
    let y: i64 = if low >= 0x800 {
        low as i64 - 0x1000
    } else {
        low as i64
    };
    let middle: u64 = (bits / 0x1000) % 0x400_0000;
    let z: i64 = if middle >= 0x200_0000 {
        middle as i64 - 0x400_0000
    } else {
        middle as i64
    };
    (x as i32, y as i32, z as i32)
}

/// The 64 bits of a block position.
pub open spec fn position_bits(x: int, y: int, z: int) -> int {
    (x % 0x400_0000) * 0x40_0000_0000 + (z % 0x400_0000) * 0x1000 + y % 0x1000
}

/// Every block position that fits into its bits is read back as it was
/// written.
pub proof fn law_position_round_trip(x: int, y: int, z: int)
    requires
        -0x200_0000 <= x < 0x200_0000,
        -0x800 <= y < 0x800,
        -0x200_0000 <= z < 0x200_0000,
    ensures
        0 <= position_bits(x, y, z) <= u64::MAX,
        position_of(position_bits(x, y, z) as u64) == (x, y, z),
{
    let n = position_bits(x, y, z);
    let (a, b, c) = (x % 0x400_0000, z % 0x400_0000, y % 0x1000);
    let high = a * 0x400_0000 + b;
    assert(n == high * 0x1000 + c);
    lemma_fundamental_div_mod_converse(n, 0x1000, high, c);
    lemma_fundamental_div_mod_converse(high, 0x400_0000, a, b);
    let low = b * 0x1000 + c;
    assert(n == a * 0x40_0000_0000 + low);
    lemma_fundamental_div_mod_converse(n, 0x40_0000_0000, a, low);
    assert(signed_bits(a, 0x400_0000) == x);
    assert(signed_bits(n, 0x1000) == y);
    assert(signed_bits(high, 0x400_0000) == z);
}

/// What a player does to a block, or with what they hold.
#[derive(Clone, Copy, Debug, PartialEq, Eq, Structural)]
pub struct PlayerAction {
    pub status: i32,
    pub x: i32,
    pub y: i32,
    pub z: i32,
    pub sequence: i32,
}

pub open spec fn or_zero(r: Result<i32, PacketError>) -> i32 {
    match r {
        Ok(v) => v,
        Err(_) => 0,
    }
}

/// What the payload of an action packet says: a status, a position, a face and
/// a sequence number. Nothing where the position is missing.
pub open spec fn action_read(payload: Seq<u8>) -> Option<PlayerAction> {
    let (status, at) = varint_read(payload, 0);
    let (x, y, z) = position_of(be_value(payload.subrange(at, at + 8)) as u64);
    if at + 8 > payload.len() {
        None
    } else {
        Some(
            PlayerAction {
                status: or_zero(status),
                x: x as i32,
                y: y as i32,
                z: z as i32,
                sequence: if at + 9 < payload.len() {
                    or_zero(varint_read(payload, at + 9).0)
                } else {
                    0
                },
            },
        )
    }
}

pub fn read_player_action(payload: &[u8]) -> (r: Option<PlayerAction>)
    ensures
        r == action_read(payload@),
        r matches Some(a) ==> -0x200_0000 <= a.x < 0x200_0000 && -0x800 <= a.y < 0x800
            && -0x200_0000 <= a.z < 0x200_0000,
{
    let mut o: usize = 0;
    let status: i32 = match read_varint_from_slice(payload, &mut o) {
        Ok(status) => status,
        Err(_) => 0,
    };
    if payload.len() - o < 8 {
        return None;
    }
    let bits: u128 = read_be(slice_subrange(payload, o, o + 8));
    proof {
        lemma_be_limits();
    }
    let (x, y, z) = decode_position(bits as u64);
    let sequence: i32 = if payload.len() - o > 9 {
        let mut at: usize = o + 9;
        match read_varint_from_slice(payload, &mut at) {
            Ok(sequence) => sequence,
            Err(_) => 0,
        }
    } else {
        0
    };
    Some(PlayerAction { status, x, y, z, sequence })
}

/// What an action comes to.
#[derive(Clone, Copy, Debug, PartialEq, Eq, Structural)]
pub enum ActionKind {
    /// The block is broken; survivors get what it drops.
    Break { drops: bool },
    /// The held item is thrown.
    Throw,
    Nothing,
}

/// A block breaks when digging is finished, or at once in creative mode; never
/// for spectators. Players in survival and adventure mode get its drop.
pub open spec fn action_kind(status: i32, gamemode: u8) -> ActionKind {
    if (status == 2 && gamemode != 3) || (status == 0 && gamemode == 1) {
        ActionKind::Break { drops: gamemode == 0 || gamemode == 2 }
    } else if status == 3 || status == 4 {
        ActionKind::Throw
    } else {
        ActionKind::Nothing
    }
}

pub fn decide_action(status: i32, gamemode: u8) -> (r: ActionKind)
    ensures
        r == action_kind(status, gamemode),
{
    if (status == 2 && gamemode != 3) || (status == 0 && gamemode == 1) {
        ActionKind::Break { drops: gamemode == 0 || gamemode == 2 }
    } else if status == 3 || status == 4 {
        ActionKind::Throw
    } else {
        ActionKind::Nothing
    }
}

/// A new entity with the item that lies in the world after an action. Its
/// place and its speed are computed by the caller.
#[derive(Clone, Copy, Debug, PartialEq, Eq, Structural)]
pub struct ItemDrop {
    pub entity_id: i32,
    pub item_id: u16,
    pub x: u64,
    pub y: u64,
    pub z: u64,
    pub vx: u64,
    pub vy: u64,
    pub vz: u64,
}

pub open spec fn drop_event(d: ItemDrop) -> Effect {
    Effect::TellItems(
        ItemEvent::Spawn {
            entity_id: d.entity_id,
            item_id: d.item_id,
            count: 1,
            x: d.x,
            y: d.y,
            z: d.z,
            vx: d.vx,
            vy: d.vy,
            vz: d.vz,
        },
    )
}

/// The effects of an action. `drop` is what a broken block drops or what is
/// thrown, and is used only where the action has something to drop.
pub open spec fn action_effects(
    a: PlayerAction,
    gamemode: u8,
    air: u16,
    drop: Option<ItemDrop>,
) -> Seq<Effect> {
    (match action_kind(a.status, gamemode) {
        ActionKind::Break { drops } => seq![
            Effect::SaveBlock { x: a.x, y: a.y, z: a.z, state_id: 0 },
            Effect::TellBlocks(BlockUpdateEvent { x: a.x, y: a.y, z: a.z, state_id: air }),
        ] + (match drop {
            Some(d) => if drops {
                seq![drop_event(d)]
            } else {
                Seq::<Effect>::empty()
            },
            None => Seq::<Effect>::empty(),
        }),
        ActionKind::Throw => match drop {
            Some(d) => seq![drop_event(d)],
            None => Seq::<Effect>::empty(),
        },
        ActionKind::Nothing => Seq::<Effect>::empty(),
    }) + (if a.sequence > 0 {
        seq![Effect::TrySend(ClientPacket::AcknowledgeBlock { sequence: a.sequence })]
    } else {
        Seq::<Effect>::empty()
    })
}

fn push_drop(effects: &mut Vec<Effect>, drop: Option<ItemDrop>)
    ensures
        final(effects)@ == old(effects)@ + (match drop {
            Some(d) => seq![drop_event(d)],
            None => Seq::<Effect>::empty(),
        }),
{
    match drop {
        Some(d) => {
            effects.push(
                Effect::TellItems(
                    ItemEvent::Spawn {
                        entity_id: d.entity_id,
                        item_id: d.item_id,
                        count: 1,
                        x: d.x,
                        y: d.y,
                        z: d.z,
                        vx: d.vx,
                        vy: d.vy,
                        vz: d.vz,
                    },
                ),
            );
        },
        None => {},
    }
}

pub fn apply_action(
    action: &PlayerAction,
    gamemode: u8,
    air: u16,
    drop: Option<ItemDrop>,
) -> (effects: Vec<Effect>)
    ensures
        effects@ == action_effects(*action, gamemode, air, drop),
{
    let mut effects: Vec<Effect> = Vec::new();
    match decide_action(action.status, gamemode) {
        ActionKind::Break { drops } => {
            effects.push(
                Effect::SaveBlock { x: action.x, y: action.y, z: action.z, state_id: 0 },
            );
            effects.push(
                Effect::TellBlocks(
                    BlockUpdateEvent { x: action.x, y: action.y, z: action.z, state_id: air },
                ),
            );
            if drops {
                push_drop(&mut effects, drop);
            }
        },
        ActionKind::Throw => push_drop(&mut effects, drop),
        ActionKind::Nothing => {},
    }
    if action.sequence > 0 {
        effects.push(
            Effect::TrySend(ClientPacket::AcknowledgeBlock { sequence: action.sequence }),
        );
    }
    assert(effects@ =~= action_effects(*action, gamemode, air, drop));
    effects
}

/// What a block drops when it is broken in survival.
#[derive(Clone, Copy, Debug, PartialEq, Eq, Structural)]
pub enum BlockDrop {
    Cobblestone,
    CobbledDeepslate,
    Dirt,
    Coal,
    RawCopper,
    RawIron,
    RawGold,
    Diamond,
    Emerald,
    LapisLazuli,
    Redstone,
    /// The item of the block itself.
    Own(u16),
    Nothing,
}

/// The drop of the block with this name and this item number, which is 0 where
/// the block has no item.
pub open spec fn drop_of(name: Seq<char>, item_id: u16) -> BlockDrop {
    if name == "stone"@ {
        BlockDrop::Cobblestone
    } else if name == "deepslate"@ {
        BlockDrop::CobbledDeepslate
    } else if name == "grass_block"@ {
        BlockDrop::Dirt
    } else if name == "coal_ore"@ || name == "deepslate_coal_ore"@ {
        BlockDrop::Coal
    } else if name == "copper_ore"@ || name == "deepslate_copper_ore"@ {
        BlockDrop::RawCopper
    } else if name == "iron_ore"@ || name == "deepslate_iron_ore"@ {
        BlockDrop::RawIron
    } else if name == "gold_ore"@ || name == "deepslate_gold_ore"@ {
        BlockDrop::RawGold
    } else if name == "diamond_ore"@ || name == "deepslate_diamond_ore"@ {
        BlockDrop::Diamond
    } else if name == "emerald_ore"@ || name == "deepslate_emerald_ore"@ {
        BlockDrop::Emerald
    } else if name == "lapis_ore"@ || name == "deepslate_lapis_ore"@ {
        BlockDrop::LapisLazuli
    } else if name == "redstone_ore"@ || name == "deepslate_redstone_ore"@ {
        BlockDrop::Redstone
    } else if item_id != 0 {
        BlockDrop::Own(item_id)
    } else {
        BlockDrop::Nothing
    }
}

pub fn block_drop_item(name: &str, item_id: u16) -> (r: BlockDrop)
    ensures
        r == drop_of(name@, item_id),
{
    let text = chars_of(name);
    let n = text.as_slice();
    if is_text(n, "stone") {
        BlockDrop::Cobblestone
    } else if is_text(n, "deepslate") {
        BlockDrop::CobbledDeepslate
    } else if is_text(n, "grass_block") {
        BlockDrop::Dirt
    } else if is_text(n, "coal_ore") || is_text(n, "deepslate_coal_ore") {
        BlockDrop::Coal
    } else if is_text(n, "copper_ore") || is_text(n, "deepslate_copper_ore") {
        BlockDrop::RawCopper
    } else if is_text(n, "iron_ore") || is_text(n, "deepslate_iron_ore") {
        BlockDrop::RawIron
    } else if is_text(n, "gold_ore") || is_text(n, "deepslate_gold_ore") {
        BlockDrop::RawGold
    } else if is_text(n, "diamond_ore") || is_text(n, "deepslate_diamond_ore") {
        BlockDrop::Diamond
    } else if is_text(n, "emerald_ore") || is_text(n, "deepslate_emerald_ore") {
        BlockDrop::Emerald
    } else if is_text(n, "lapis_ore") || is_text(n, "deepslate_lapis_ore") {
        BlockDrop::LapisLazuli
    } else if is_text(n, "redstone_ore") || is_text(n, "deepslate_redstone_ore") {
        BlockDrop::Redstone
    } else if item_id != 0 {
        BlockDrop::Own(item_id)
    } else {
        BlockDrop::Nothing
    }
}

/// Whether a height is so far below the world that it kills.
pub fn is_void_lethal(y: u64) -> (r: bool)
    ensures
        r == f64_le(y, VOID_KILL_Y),
{
    le(y, VOID_KILL_Y)
}

/// The slot with a totem in one of the hands, the main hand first.
/// `canonical` gives the canonical item number of each inventory slot.
pub open spec fn totem_slot(held_slot: u8, canonical: Seq<Option<u16>>, totem: u16) -> Option<
    usize,
> {
    let main = HOTBAR_START_SLOT + (if held_slot < 8 {
        held_slot as int
    } else {
        8
    });
    if main < canonical.len() && canonical[main] == Some(totem) {
        Some(main as usize)
    } else if OFFHAND_SLOT < canonical.len() && canonical[OFFHAND_SLOT as int] == Some(totem) {
        Some(OFFHAND_SLOT)
    } else {
        None
    }
}

fn holds(canonical: &Vec<Option<u16>>, slot: usize, item: u16) -> (r: bool)
    ensures
        r == (slot < canonical@.len() && canonical@[slot as int] == Some(item)),
{
    if slot < canonical.len() {
        match canonical[slot] {
            Some(found) => found == item,
            None => false,
        }
    } else {
        false
    }
}

pub fn equipped_totem_slot(player: &PlayerData, canonical: &Vec<Option<u16>>, totem: u16) -> (r:
    Option<usize>)
    ensures
        r == totem_slot(player.held_slot, canonical@, totem),
        r matches Some(slot) ==> slot < INVENTORY_SLOTS,
{
    let main: usize = HOTBAR_START_SLOT + (if player.held_slot < 8 {
        player.held_slot
    } else {
        8
    }) as usize;
    if holds(canonical, main, totem) {
        Some(main)
    } else if holds(canonical, OFFHAND_SLOT, totem) {
        Some(OFFHAND_SLOT)
    } else {
        None
    }
}

/// A totem in a hand is used up: its slot is emptied and the client shows it.
pub fn try_pop_totem(player: &mut PlayerData, entity_id: i32, slot: Option<usize>) -> (r: Option<
    Vec<Effect>,
>)
    requires
        old(player).inventory@.len() == INVENTORY_SLOTS,
        slot matches Some(s) ==> s < INVENTORY_SLOTS,
    ensures
        slot is None ==> r is None && final(player)@ == old(player)@,
        slot matches Some(s) ==> final(player)@ == (PlayerView {
            inventory: old(player)@.inventory.update(s as int, Seq::empty()),
            ..old(player)@
        }) && r is Some && r->0@ == seq![
            Effect::Send(ClientPacket::Slot { slot: s as i16, content: SlotContent::Empty }),
            Effect::Send(ClientPacket::EntityStatus { entity_id, status: 35 }),
        ],
{
    match slot {
        Some(s) => {
            player.inventory.set(s, Vec::new());
            assert(byte_lists(player.inventory@) =~= old(player)@.inventory.update(
                s as int,
                Seq::empty(),
            ));
            let mut effects: Vec<Effect> = Vec::new();
            effects.push(
                Effect::Send(ClientPacket::Slot { slot: s as i16, content: SlotContent::Empty }),
            );
            effects.push(Effect::Send(ClientPacket::EntityStatus { entity_id, status: 35 }));
            Some(effects)
        },
        None => None,
    }
}

/// 3.0
pub const SAFE_FALL: u64 = 0x4008_0000_0000_0000;

/// Whether a landing hurts: after more than three blocks, in survival and
/// adventure mode.
pub open spec fn fall_hurts(p: PlayerView, on_ground: bool, distance: u64) -> bool {
    on_ground && f64_lt(SAFE_FALL, distance) && (p.gamemode == 0 || p.gamemode == 2)
}

/// A player after a fall or a rise: a totem is used up by a landing that hurts.
pub open spec fn fallen_player(
    p: PlayerView,
    on_ground: bool,
    distance: u64,
    totem: Option<usize>,
) -> PlayerView {
    PlayerView {
        highest_y: if on_ground || f64_lt(p.highest_y, p.y) {
            p.y
        } else {
            p.highest_y
        },
        inventory: if fall_hurts(p, on_ground, distance) && totem is Some {
            p.inventory.update(totem->0 as int, Seq::empty())
        } else {
            p.inventory
        },
        ..p
    }
}

pub open spec fn fall_effects(
    p: PlayerView,
    on_ground: bool,
    entity_id: i32,
    uuid: u128,
    distance: u64,
    damage: u32,
    totem: Option<usize>,
) -> Seq<Effect> {
    if !fall_hurts(p, on_ground, distance) {
        Seq::<Effect>::empty()
    } else {
        match totem {
            Some(s) => seq![
                Effect::Send(ClientPacket::Slot { slot: s as i16, content: SlotContent::Empty }),
                Effect::Send(ClientPacket::EntityStatus { entity_id, status: 35 }),
            ],
            None => seq![
                Effect::TellPlayers(
                    PlayerEvent::Hurt {
                        entity_id,
                        uuid,
                        damage,
                        x: p.x,
                        y: p.y,
                        z: p.z,
                        attacker_x: None,
                        attacker_z: None,
                    },
                ),
            ],
        }
    }
}

/// What a fall or a rise does. `distance` is the height that was fallen from
/// the highest point, `damage` what it costs, and `totem` the slot of a totem
/// in a hand.
pub fn process_fall_damage(
    player: &mut PlayerData,
    on_ground: bool,
    entity_id: i32,
    uuid: u128,
    distance: u64,
    damage: u32,
    totem: Option<usize>,
) -> (r: Vec<Effect>)
    requires
        old(player).inventory@.len() == INVENTORY_SLOTS,
        totem matches Some(s) ==> s < INVENTORY_SLOTS,
    ensures
        final(player)@ == fallen_player(old(player)@, on_ground, distance, totem),
        r@ == fall_effects(old(player)@, on_ground, entity_id, uuid, distance, damage, totem),
{
    let mut effects: Vec<Effect> = Vec::new();
    if on_ground {
        if lt(SAFE_FALL, distance) && (player.gamemode == 0 || player.gamemode == 2) {
            match try_pop_totem(player, entity_id, totem) {
                Some(shown) => {
                    player.highest_y = player.y;
                    return shown;
                },
                None => {},
            }
            effects.push(
                Effect::TellPlayers(
                    PlayerEvent::Hurt {
                        entity_id,
                        uuid,
                        damage,
                        x: player.x,
                        y: player.y,
                        z: player.z,
                        attacker_x: None,
                        attacker_z: None,
                    },
                ),
            );
        }
        player.highest_y = player.y;
    } else if lt(player.highest_y, player.y) {
        player.highest_y = player.y;
    }
    effects
}

/// Whether a creative player may put a stack into a slot. An empty stack is
/// always legal, another one if it is no larger than its items stack.
pub fn creative_slot_allowed(
    player: &PlayerData,
    slot: i16,
) -> (r: bool)
    ensures
        r == (player.gamemode == 1 && 1 <= slot < INVENTORY_SLOTS),
{
    player.gamemode == 1 && slot >= 1 && slot < 46
}

/// Whether putting a stack into a slot leaves a player as `after`, with these
/// effects; none at all for an illegal stack.
pub open spec fn creative_done(
    before: PlayerView,
    after: PlayerView,
    effects: Option<Seq<Effect>>,
    slot: i16,
    empty: bool,
    count: u8,
    max_count: u8,
    stack: Option<Seq<u8>>,
) -> bool {
    let allowed = before.gamemode == 1 && 1 <= slot < INVENTORY_SLOTS;
    let legal = empty || count <= max_count;
    if allowed && !legal {
        after == before && effects is None
    } else if allowed && stack is Some {
        &&& after == (PlayerView {
            inventory: before.inventory.update(slot as int, stack->0),
            ..before
        })
        &&& effects == Some(
            seq![Effect::Send(ClientPacket::Slot { slot, content: SlotContent::Clicked })],
        )
    } else {
        after == before && effects == Some(Seq::<Effect>::empty())
    }
}

pub open spec fn bytes_in(v: Option<Vec<u8>>) -> Option<Seq<u8>> {
    match v {
        Some(b) => Some(b@),
        None => None,
    }
}

pub open spec fn effects_in(v: Option<Vec<Effect>>) -> Option<Seq<Effect>> {
    match v {
        Some(e) => Some(e@),
        None => None,
    }
}

/// Puts the stack that a creative player named into a slot. `stack` is its
/// encoding, if it could be encoded; an illegal stack changes nothing and ends
/// the packet.
pub fn set_creative_slot(
    player: &mut PlayerData,
    slot: i16,
    empty: bool,
    count: u8,
    max_count: u8,
    stack: Option<Vec<u8>>,
) -> (r: Option<Vec<Effect>>)
    requires
        old(player).inventory@.len() == INVENTORY_SLOTS,
    ensures
        creative_done(
            old(player)@,
            final(player)@,
            effects_in(r),
            slot,
            empty,
            count,
            max_count,
            bytes_in(stack),
        ),
{
    let mut effects: Vec<Effect> = Vec::new();
    if creative_slot_allowed(player, slot) {
        if !(empty || count <= max_count) {
            return None;
        }
        match stack {
            Some(bytes) => {
                player.inventory.set(slot as usize, bytes);
                assert(byte_lists(player.inventory@) =~= old(player)@.inventory.update(
                    slot as int,
                    bytes@,
                ));
                effects.push(
                    Effect::Send(ClientPacket::Slot { slot, content: SlotContent::Clicked }),
                );
                assert(effects@ =~= seq![
                    Effect::Send(ClientPacket::Slot { slot, content: SlotContent::Clicked }),
                ]);
            },
            None => {},
        }
    }
    Some(effects)
}

/// A player who asked for a slot of the hotbar.
pub open spec fn holding_player(p: PlayerView, slot: i16) -> PlayerView {
    PlayerView {
        held_slot: if 0 <= slot < HOTBAR_SLOT_COUNT {
            slot as u8
        } else {
            p.held_slot
        },
        ..p
    }
}

/// Selects a slot of the hotbar; other numbers are ignored.
pub fn set_held_item(player: &mut PlayerData, slot: i16)
    ensures
        final(player)@ == holding_player(old(player)@, slot),
{
    if 0 <= slot && slot < 9 {
        player.held_slot = slot as u8;
    }
}

/// What changing the game mode of a player comes to.
pub open spec fn gamemode_effects(uuid: u128, gamemode: u8) -> Seq<Effect> {
    seq![
        Effect::GamemodeOnline { uuid, gamemode },
        Effect::TellPlayers(PlayerEvent::GamemodeChange { uuid, gamemode }),
        Effect::Send(ClientPacket::ChangeGamemode { gamemode }),
        Effect::Send(
            ClientPacket::Abilities {
                flags: ability_flags(gamemode),
                fly_speed: FLY_SPEED,
                walk_speed: WALK_SPEED,
            },
        ),
        Effect::Send(ClientPacket::UpdateGamemode { uuid, gamemode }),
    ]
}

pub fn change_gamemode(player: &mut PlayerData, uuid: u128, gamemode: u8) -> (r: Vec<Effect>)
    ensures
        final(player)@ == (PlayerView { gamemode, ..old(player)@ }),
        r@ == gamemode_effects(uuid, gamemode),
{
    player.gamemode = gamemode;
    let (flags, fly_speed) = gamemode_abilities(gamemode);
    let mut effects: Vec<Effect> = Vec::new();
    effects.push(Effect::GamemodeOnline { uuid, gamemode });
    effects.push(Effect::TellPlayers(PlayerEvent::GamemodeChange { uuid, gamemode }));
    effects.push(Effect::Send(ClientPacket::ChangeGamemode { gamemode }));
    effects.push(
        Effect::Send(ClientPacket::Abilities { flags, fly_speed, walk_speed: WALK_SPEED }),
    );
    effects.push(Effect::Send(ClientPacket::UpdateGamemode { uuid, gamemode }));
    effects
}

/// The game mode that a player asks for with the switcher: operators only, and
/// only the four that there are.
pub open spec fn switch_asked(operator_level: u8, payload: Seq<u8>) -> Option<u8> {
    let mode = or_zero(varint_read(payload, 0).0);
    if operator_level > 0 && 0 <= mode <= 3 {
        Some(mode as u8)
    } else {
        None
    }
}

/// Whether the switcher leaves a player as `after`, with these effects.
pub open spec fn switch_done(
    before: PlayerView,
    after: PlayerView,
    effects: Seq<Effect>,
    uuid: u128,
    payload: Seq<u8>,
) -> bool {
    match switch_asked(before.operator_level, payload) {
        Some(gamemode) => after == (PlayerView { gamemode, ..before }) && effects
            == gamemode_effects(uuid, gamemode),
        None => after == before && effects == Seq::<Effect>::empty(),
    }
}

pub fn switch_gamemode(player: &mut PlayerData, uuid: u128, payload: &[u8]) -> (r: Vec<Effect>)
    ensures
        switch_done(old(player)@, final(player)@, r@, uuid, payload@),
{
    if player.operator_level > 0 {
        let mut o: usize = 0;
        let mode: i32 = match read_varint_from_slice(payload, &mut o) {
            Ok(mode) => mode,
            Err(_) => 0,
        };
        if 0 <= mode && mode <= 3 {
            return change_gamemode(player, uuid, mode as u8);
        }
    }
    Vec::new()
}

/// The command that a packet holds: a length-prefixed text. Nothing where it
/// is cut off or no text; a length that cannot be read counts as zero.
pub open spec fn command_text(payload: Seq<u8>) -> Option<Seq<char>> {
    let (len, start) = varint_read(payload, 0);
    let n = or_zero(len);
    if n < 0 || start + n > payload.len() || !valid_utf8(payload.subrange(start, start + n)) {
        None
    } else {
        Some(decode_utf8(payload.subrange(start, start + n)))
    }
}

pub fn read_command(payload: &[u8]) -> (r: Option<String>)
    ensures
        match command_text(payload@) {
            Some(text) => r matches Some(s) && s@ == text,
            None => r is None,
        },
{
    let mut o: usize = 0;
    let len: i32 = match read_varint_from_slice(payload, &mut o) {
        Ok(len) => len,
        Err(_) => 0,
    };
    if len < 0 || len as usize > payload.len() - o {
        return None;
    }
    text_from_utf8(slice_subrange(payload, o, o + len as usize))
}

/// What a player's command asks for.
#[derive(Debug)]
pub enum CommandRequest {
    Nothing,
    Denied,
    /// The game mode, and the word that named it.
    Gamemode { gamemode: u8, typed: String },
    UnknownGamemode,
    Summon { entity: String, coordinates: Option<(String, String, String)> },
    Unknown,
}

/// Whether a request is the one that the words of a command ask for, at the
/// permission level of the player.
pub open spec fn is_request(r: CommandRequest, ws: Seq<Seq<char>>, operator_level: u8) -> bool {
    if ws.len() == 0 {
        r is Nothing
    } else if ws[0] == "gamemode"@ && ws.len() > 1 {
        if operator_level == 0 {
            r is Denied
        } else {
            match gamemode_named(ws[1]) {
                Some(mode) => r matches CommandRequest::Gamemode { gamemode, typed } && gamemode
                    == mode && typed@ == ws[1],
                None => r is UnknownGamemode,
            }
        }
    } else if ws[0] == "summon"@ && (ws.len() == 2 || ws.len() == 5) {
        if operator_level == 0 {
            r is Denied
        } else {
            r matches CommandRequest::Summon { entity, coordinates } && entity@ == without_prefix(
                ws[1],
                "minecraft:"@,
            ) && (if ws.len() == 5 {
                coordinates matches Some((x, y, z)) && x@ == ws[2] && y@ == ws[3] && z@ == ws[4]
            } else {
                coordinates is None
            })
        }
    } else {
        r is Unknown
    }
}

/// Decides what a command asks for.
pub fn handle_command(command: &str, operator_level: u8) -> (r: CommandRequest)
    ensures
        is_request(r, words(command@), operator_level),
{
    let text = chars_of(command);
    let parts = split_words(text.as_slice());
    let n: usize = parts.len();
    let ghost ws = texts(parts@);
    assert(forall|i: int| 0 <= i < n ==> ws[i] == parts@[i]@);
    if n == 0 {
        return CommandRequest::Nothing;
    }
    if is_text(parts[0].as_slice(), "gamemode") && n > 1 {
        if operator_level == 0 {
            return CommandRequest::Denied;
        }
        match gamemode_of(parts[1].as_slice()) {
            Some(gamemode) => CommandRequest::Gamemode {
                gamemode,
                typed: string_of(parts[1].as_slice()),
            },
            None => CommandRequest::UnknownGamemode,
        }
    } else if is_text(parts[0].as_slice(), "summon") && (n == 2 || n == 5) {
        if operator_level == 0 {
            return CommandRequest::Denied;
        }
        let entity = string_of(drop_prefix(parts[1].as_slice(), "minecraft:"));
        let coordinates: Option<(String, String, String)> = if n == 5 {
            Some(
                (
                    string_of(parts[2].as_slice()),
                    string_of(parts[3].as_slice()),
                    string_of(parts[4].as_slice()),
                ),
            )
        } else {
            None
        };
        CommandRequest::Summon { entity, coordinates }
    } else {
        CommandRequest::Unknown
    }
}

/// A line of chat to the player.
pub fn send_system_message(text: String) -> (r: Effect)
    ensures
        r == Effect::Send(ClientPacket::Chat { text }),
{
    Effect::Send(ClientPacket::Chat { text })
}

/// The reply to a command that needs no more than a line of text.
pub open spec fn reply_text(r: CommandRequest, command: Seq<char>) -> Option<Seq<char>> {
    match r {
        CommandRequest::Denied => Some("You do not have permission to use this command."@),
        CommandRequest::UnknownGamemode => Some(
            "Unknown gamemode. Use: survival, creative, adventure, spectator"@,
        ),
        CommandRequest::Gamemode { typed, .. } => Some(
            "Set own game mode to "@ + typed@ + " Mode"@,
        ),
        CommandRequest::Unknown => Some("Unknown command: /"@ + command),
        _ => None,
    }
}

pub fn command_reply(request: &CommandRequest, command: &str) -> (r: Option<String>)
    ensures
        match reply_text(*request, command@) {
            Some(text) => r matches Some(s) && s@ == text,
            None => r is None,
        },
{
    match request {
        CommandRequest::Denied => Some(
            "You do not have permission to use this command.".to_owned(),
        ),
        CommandRequest::UnknownGamemode => Some(
            "Unknown gamemode. Use: survival, creative, adventure, spectator".to_owned(),
        ),
        CommandRequest::Gamemode { typed, .. } => {
            let mut s = "Set own game mode to ".to_owned();
            s.append(typed.as_str());
            s.append(" Mode");
            Some(s)
        },
        CommandRequest::Unknown => {
            let mut s = "Unknown command: /".to_owned();
            s.append(command);
            Some(s)
        },
        _ => None,
    }
}

/// Whether a command leaves a player as `after`, with these effects: those of
/// the game mode that it sets, and then the reply.
pub open spec fn command_done(
    before: PlayerView,
    after: PlayerView,
    effects: Seq<Effect>,
    uuid: u128,
    request: CommandRequest,
    command: Seq<char>,
) -> bool {
    let changed = match request {
        CommandRequest::Gamemode { gamemode, .. } => gamemode_effects(uuid, gamemode),
        _ => Seq::<Effect>::empty(),
    };
    &&& after == (match request {
        CommandRequest::Gamemode { gamemode, .. } => PlayerView { gamemode, ..before },
        _ => before,
    })
    &&& match reply_text(request, command) {
        Some(text) => effects.len() == changed.len() + 1 && effects.drop_last() == changed && (
        effects.last() matches Effect::Send(ClientPacket::Chat { text: line }) && line@ == text),
        None => effects == changed,
    }
}

/// Carries a command out, up to a summoning, which the caller looks up.
pub fn run_command(
    player: &mut PlayerData,
    uuid: u128,
    request: &CommandRequest,
    command: &str,
) -> (r: Vec<Effect>)
    ensures
        command_done(old(player)@, final(player)@, r@, uuid, *request, command@),
{
    let mut effects: Vec<Effect> = match request {
        CommandRequest::Gamemode { gamemode, .. } => change_gamemode(player, uuid, *gamemode),
        _ => Vec::new(),
    };
    let ghost changed = effects@;
    match command_reply(request, command) {
        Some(text) => {
            effects.push(send_system_message(text));
            assert(effects@.drop_last() =~= changed);
        },
        None => {},
    }
    effects
}

/// What a player is told whose summoning fails.
pub open spec fn summon_refusal(outcome: SummonOutcome) -> Option<Seq<char>> {
    match outcome {
        SummonOutcome::UnknownEntity => Some("Unknown entity type."@),
        SummonOutcome::NotSummonable => Some("That entity cannot be summoned."@),
        SummonOutcome::BadCoordinates => Some("Summon coordinates must be numbers."@),
        SummonOutcome::Summon { .. } => None,
    }
}

/// Whether these are the effects of a summoning.
pub open spec fn is_summoning(
    effects: Seq<Effect>,
    outcome: SummonOutcome,
    entity_id: i32,
    entity: Seq<char>,
    place: Seq<char>,
) -> bool {
    match outcome {
        SummonOutcome::Summon { entity_type, x, y, z } => {
            &&& effects.len() == 3
            &&& effects[0] == (Effect::RegisterSummoned { entity_id, entity_type, x, y, z })
            &&& effects[1] == Effect::TellConsole(
                ConsoleCommand::Summon { entity_id, entity_type, x, y, z },
            )
            &&& effects[2] matches Effect::Send(ClientPacket::Chat { text }) && text@
                == "Summoned "@ + entity + " at "@ + place
        },
        _ => effects.len() == 1 && (effects[0] matches Effect::Send(ClientPacket::Chat { text })
            && Some(text@) == summon_refusal(outcome)),
    }
}

/// Carries a summoning out under a new entity number. `place` is the position
/// as text.
pub fn run_summon(outcome: SummonOutcome, entity_id: i32, entity: &str, place: &str) -> (r: Vec<
    Effect,
>)
    ensures
        is_summoning(r@, outcome, entity_id, entity@, place@),
{
    let mut effects: Vec<Effect> = Vec::new();
    let text = match outcome {
        SummonOutcome::UnknownEntity => "Unknown entity type.".to_owned(),
        SummonOutcome::NotSummonable => "That entity cannot be summoned.".to_owned(),
        SummonOutcome::BadCoordinates => "Summon coordinates must be numbers.".to_owned(),
        SummonOutcome::Summon { entity_type, x, y, z } => {
            effects.push(Effect::RegisterSummoned { entity_id, entity_type, x, y, z });
            effects.push(
                Effect::TellConsole(ConsoleCommand::Summon { entity_id, entity_type, x, y, z }),
            );
            let mut s = "Summoned ".to_owned();
            s.append(entity);
            s.append(" at ");
            s.append(place);
            s
        },
    };
    effects.push(send_system_message(text));
    effects
}

/// A movement packet: where the player says that they are, and whether they
/// stand on the ground.
#[derive(Clone, Copy, Debug, PartialEq, Eq)]
pub struct Movement {
    pub position: Option<(u64, u64, u64)>,
    pub rotation: Option<(u32, u32)>,
    pub on_ground: Option<bool>,
}

pub open spec fn be_u64(s: Seq<u8>, at: int) -> u64 {
    be_value(s.subrange(at, at + 8)) as u64
}

pub open spec fn be_u32(s: Seq<u8>, at: int) -> u32 {
    be_value(s.subrange(at, at + 4)) as u32
}

/// What a movement packet of the given kind says; nothing where it is too
/// short.
pub open spec fn movement_read(kind: PlayPacket, p: Seq<u8>) -> Option<Movement> {
    match kind {
        PlayPacket::MovePosRot => if p.len() >= 33 {
            Some(
                Movement {
                    position: Some((be_u64(p, 0), be_u64(p, 8), be_u64(p, 16))),
                    rotation: Some((be_u32(p, 24), be_u32(p, 28))),
                    on_ground: Some(p[32] != 0),
                },
            )
        } else {
            None
        },
        PlayPacket::MovePos => if p.len() >= 25 {
            Some(
                Movement {
                    position: Some((be_u64(p, 0), be_u64(p, 8), be_u64(p, 16))),
                    rotation: None,
                    on_ground: Some(p[24] != 0),
                },
            )
        } else {
            None
        },
        PlayPacket::MoveRot => if p.len() >= 8 {
            Some(
                Movement {
                    position: None,
                    rotation: Some((be_u32(p, 0), be_u32(p, 4))),
                    on_ground: None,
                },
            )
        } else {
            None
        },
        _ => None,
    }
}

fn read_u64(p: &[u8], at: usize) -> (r: u64)
    requires
        at + 8 <= p.len(),
    ensures
        r == be_u64(p@, at as int),
{
    proof {
        lemma_be_limits();
    }
    read_be(slice_subrange(p, at, at + 8)) as u64
}

fn read_u32(p: &[u8], at: usize) -> (r: u32)
    requires
        at + 4 <= p.len(),
    ensures
        r == be_u32(p@, at as int),
{
    proof {
        lemma_be_limits();
    }
    read_be(slice_subrange(p, at, at + 4)) as u32
}

pub fn read_movement(kind: PlayPacket, p: &[u8]) -> (r: Option<Movement>)
    ensures
        r == movement_read(kind, p@),
{
    match kind {
        PlayPacket::MovePosRot => if p.len() >= 33 {
            Some(
                Movement {
                    position: Some((read_u64(p, 0), read_u64(p, 8), read_u64(p, 16))),
                    rotation: Some((read_u32(p, 24), read_u32(p, 28))),
                    on_ground: Some(p[32] != 0),
                },
            )
        } else {
            None
        },
        PlayPacket::MovePos => if p.len() >= 25 {
            Some(
                Movement {
                    position: Some((read_u64(p, 0), read_u64(p, 8), read_u64(p, 16))),
                    rotation: None,
                    on_ground: Some(p[24] != 0),
                },
            )
        } else {
            None
        },
        PlayPacket::MoveRot => if p.len() >= 8 {
            Some(
                Movement {
                    position: None,
                    rotation: Some((read_u32(p, 0), read_u32(p, 4))),
                    on_ground: None,
                },
            )
        } else {
            None
        },
        _ => None,
    }
}

/// A player after a movement.
pub open spec fn moved_player(p: PlayerView, m: Movement) -> PlayerView {
    let placed = match m.position {
        Some((x, y, z)) => PlayerView { x, y, z, ..p },
        None => p,
    };
    match m.rotation {
        Some((yaw, pitch)) => PlayerView { yaw, pitch, ..placed },
        None => placed,
    }
}

/// Takes the position and the rotation of a movement over.
pub fn apply_movement(player: &mut PlayerData, m: &Movement)
    ensures
        final(player)@ == moved_player(old(player)@, *m),
{
    match m.position {
        Some((x, y, z)) => {
            player.x = x;
            player.y = y;
            player.z = z;
        },
        None => {},
    }
    match m.rotation {
        Some((yaw, pitch)) => {
            player.yaw = yaw;
            player.pitch = pitch;
        },
        None => {},
    }
}

/// Whether an effect is that a player says a line.
pub open spec fn is_said(effect: Effect, username: Seq<char>, message: Seq<char>) -> bool {
    effect matches Effect::TellChat(line) && line@ == "<"@ + username + "> "@ + message
}

/// A line of chat that a player says.
pub fn say(username: &str, message: &str) -> (r: Effect)
    ensures
        is_said(r, username@, message@),
{
    let mut s = "<".to_owned();
    s.append(username);
    s.append("> ");
    s.append(message);
    Effect::TellChat(s)
}

/// The health packet for the given health: food and saturation are always full.
pub open spec fn health_packet(health: u32) -> ClientPacket {
    ClientPacket::Health { health, food: 20, saturation: FULL_HEALTH }
}

pub fn set_health_packet(health: u32) -> (r: ClientPacket)
    ensures
        r == health_packet(health),
{
    ClientPacket::Health { health, food: 20, saturation: FULL_HEALTH }
}

/// Whether a player dies of being far below the world.
pub open spec fn dies_in_void(p: PlayerView) -> bool {
    f64_le(p.y, VOID_KILL_Y) && f32_positive(p.health) && p.gamemode != 1 && p.gamemode != 3
}

pub open spec fn finished_player(p: PlayerView) -> PlayerView {
    PlayerView {
        health: if dies_in_void(p) {
            0
        } else {
            p.health
        },
        ..p
    }
}

pub open spec fn finish_effects(p: PlayerView, uuid: u128, entity_id: i32, moved: bool) -> Seq<
    Effect,
> {
    (if dies_in_void(p) {
        seq![Effect::Send(health_packet(0))]
    } else {
        Seq::<Effect>::empty()
    }) + (if moved {
        seq![
            Effect::MoveOnline { uuid, x: p.x, y: p.y, z: p.z, yaw: p.yaw, pitch: p.pitch },
            Effect::TellPlayers(
                PlayerEvent::Move {
                    entity_id,
                    uuid,
                    x: p.x,
                    y: p.y,
                    z: p.z,
                    yaw: p.yaw,
                    pitch: p.pitch,
                },
            ),
        ]
    } else {
        Seq::<Effect>::empty()
    })
}

/// What ends every packet: a player far below the world dies, unless in
/// creative or spectator mode, and the others are told of a move.
pub fn finish_packet(player: &mut PlayerData, uuid: u128, entity_id: i32, moved: bool) -> (r: Vec<
    Effect,
>)
    ensures
        final(player)@ == finished_player(old(player)@),
        r@ == finish_effects(old(player)@, uuid, entity_id, moved),
{
    let mut effects: Vec<Effect> = Vec::new();
    if is_void_lethal(player.y) && is_positive_f32(player.health) && player.gamemode != 1
        && player.gamemode != 3 {
        player.health = 0;
        effects.push(Effect::Send(set_health_packet(0)));
    }
    if moved {
        effects.push(
            Effect::MoveOnline {
                uuid,
                x: player.x,
                y: player.y,
                z: player.z,
                yaw: player.yaw,
                pitch: player.pitch,
            },
        );
        effects.push(
            Effect::TellPlayers(
                PlayerEvent::Move {
                    entity_id,
                    uuid,
                    x: player.x,
                    y: player.y,
                    z: player.z,
                    yaw: player.yaw,
                    pitch: player.pitch,
                },
            ),
        );
    }
    assert(effects@ =~= finish_effects(old(player)@, uuid, entity_id, moved));
    effects
}

/// The status that tells a client its permission level.
pub open spec fn permission_packet(entity_id: i32, operator_level: u8) -> ClientPacket {
    ClientPacket::EntityStatus {
        entity_id,
        status: (24 + (if operator_level > 4 {
            4
        } else {
            operator_level as int
        })) as i8,
    }
}

pub fn send_permission_status(entity_id: i32, operator_level: u8) -> (r: ClientPacket)
    ensures
        r == permission_packet(entity_id, operator_level),
{
    let level: u8 = if operator_level > 4 {
        4
    } else {
        operator_level
    };
    ClientPacket::EntityStatus { entity_id, status: (24 + level) as i8 }
}

/// Whether a node of the command tree has this name, these children and these
/// properties.
pub open spec fn is_node(
    node: CommandNode,
    name: Option<&'static str>,
    children: Seq<i32>,
    executable: bool,
    restricted: bool,
) -> bool {
    &&& node.name == name
    &&& node.children@ == children
    &&& node.executable == executable
    &&& node.restricted == restricted
}

/// The command tree: the game mode command with its four modes. Only for
/// operators does the root lead to it.
pub open spec fn is_command_tree(nodes: Seq<CommandNode>, is_operator: bool) -> bool {
    &&& nodes.len() == 6
    &&& is_node(
        nodes[0],
        None,
        if is_operator {
            seq![1i32]
        } else {
            Seq::empty()
        },
        false,
        false,
    )
    &&& is_node(nodes[1], Some("gamemode"), seq![2i32, 3, 4, 5], false, true)
    &&& is_node(nodes[2], Some("survival"), Seq::empty(), true, false)
    &&& is_node(nodes[3], Some("creative"), Seq::empty(), true, false)
    &&& is_node(nodes[4], Some("adventure"), Seq::empty(), true, false)
    &&& is_node(nodes[5], Some("spectator"), Seq::empty(), true, false)
}

fn mode_node(name: &'static str) -> (node: CommandNode)
    ensures
        is_node(node, Some(name), Seq::empty(), true, false),
{
    CommandNode { name: Some(name), children: Vec::new(), executable: true, restricted: false }
}

pub fn send_command_tree(is_operator: bool) -> (r: ClientPacket)
    ensures
        r matches ClientPacket::Commands { nodes } && is_command_tree(nodes@, is_operator),
{
    let mut root_children: Vec<i32> = Vec::new();
    if is_operator {
        root_children.push(1);
    }
    let mut nodes: Vec<CommandNode> = Vec::new();
    nodes.push(
        CommandNode { name: None, children: root_children, executable: false, restricted: false },
    );
    nodes.push(
        CommandNode {
            name: Some("gamemode"),
            children: vec![2, 3, 4, 5],
            executable: false,
            restricted: true,
        },
    );
    nodes.push(mode_node("survival"));
    nodes.push(mode_node("creative"));
    nodes.push(mode_node("adventure"));
    nodes.push(mode_node("spectator"));
    ClientPacket::Commands { nodes }
}

/// The chunks that are sent on a respawn, row by row.
pub open spec fn respawn_chunk(i: int) -> Effect {
    Effect::TrySend(ClientPacket::Chunk { x: (i % 7 - 3) as i32, z: (i / 7 - 3) as i32 })
}

/// Whether the effects are those of a respawn at the given permission level.
pub open spec fn is_respawn(
    effects: Seq<Effect>,
    gamemode: u8,
    entity_id: i32,
    operator_level: u8,
) -> bool {
    &&& effects.len() == 58
    &&& effects[0] == Effect::TrySend(
        ClientPacket::Respawn { gamemode, seed: 123456789, sea_level: 63 },
    )
    &&& effects[1] == Effect::TrySend(health_packet(FULL_HEALTH))
    &&& effects[2] == Effect::Send(permission_packet(entity_id, operator_level))
    &&& effects[3] matches Effect::Send(ClientPacket::Commands { nodes }) && is_command_tree(
        nodes@,
        operator_level > 0,
    )
    &&& effects[4] == Effect::TrySend(
        ClientPacket::Position { x: 0, y: SPAWN_Y, z: 0, yaw: 0, pitch: 0 },
    )
    &&& effects[5] == Effect::TrySend(ClientPacket::WaitForChunks)
    &&& effects[6] == Effect::TrySend(ClientPacket::CenterChunk { x: 0, z: 0 })
    &&& effects[7] == Effect::TrySend(ClientPacket::BatchStart)
    &&& forall|i: int| 0 <= i < 49 ==> #[trigger] effects[8 + i] == respawn_chunk(i)
    &&& effects[57] == Effect::TrySend(ClientPacket::BatchEnd { count: 49 })
}

pub open spec fn respawned_player(p: PlayerView) -> PlayerView {
    PlayerView { health: FULL_HEALTH, x: 0, y: SPAWN_Y, z: 0, highest_y: SPAWN_Y, ..p }
}

/// A player who died comes back at the spawn, in full health.
pub fn respawn(player: &mut PlayerData, entity_id: i32) -> (r: Vec<Effect>)
    ensures
        final(player)@ == respawned_player(old(player)@),
        is_respawn(r@, old(player)@.gamemode, entity_id, old(player)@.operator_level),
{
    player.health = FULL_HEALTH;
    player.x = 0;
    player.y = SPAWN_Y;
    player.z = 0;
    player.highest_y = SPAWN_Y;
    let mut effects: Vec<Effect> = Vec::new();
    effects.push(
        Effect::TrySend(
            ClientPacket::Respawn { gamemode: player.gamemode, seed: 123456789, sea_level: 63 },
        ),
    );
    effects.push(Effect::TrySend(set_health_packet(player.health)));
    effects.push(Effect::Send(send_permission_status(entity_id, player.operator_level)));
    effects.push(Effect::Send(send_command_tree(player.operator_level > 0)));
    effects.push(
        Effect::TrySend(ClientPacket::Position { x: 0, y: SPAWN_Y, z: 0, yaw: 0, pitch: 0 }),
    );
    effects.push(Effect::TrySend(ClientPacket::WaitForChunks));
    effects.push(Effect::TrySend(ClientPacket::CenterChunk { x: 0, z: 0 }));
    effects.push(Effect::TrySend(ClientPacket::BatchStart));
    let ghost head = effects@;
    let mut i: i32 = 0;
    while i < 49
        invariant
            0 <= i <= 49,
            head.len() == 8,
            effects@.len() == 8 + i,
            forall|k: int| 0 <= k < 8 ==> #[trigger] effects@[k] == head[k],
            forall|k: int| 0 <= k < i ==> #[trigger] effects@[8 + k] == respawn_chunk(k),
        decreases 49 - i,
    {
        effects.push(Effect::TrySend(ClientPacket::Chunk { x: i % 7 - 3, z: i / 7 - 3 }));
        i += 1;
    }
    let ghost before = effects@;
    effects.push(Effect::TrySend(ClientPacket::BatchEnd { count: 49 }));
    proof {
        assert forall|k: int| 0 <= k < 49 implies #[trigger] effects@[8 + k] == respawn_chunk(
            k,
        ) by {
            assert(before[8 + k] == respawn_chunk(k));
        }
        assert forall|k: int| 0 <= k < 8 implies #[trigger] effects@[k] == head[k] by {
            assert(before[k] == head[k]);
        }
        assert(effects@[0] == head[0] && effects@[1] == head[1] && effects@[2] == head[2]
            && effects@[3] == head[3] && effects@[4] == head[4] && effects@[5] == head[5]
            && effects@[6] == head[6] && effects@[7] == head[7]);
    }
    effects
}

} // verus!
