//! One packet of a player, from what it says to what it does.

use vstd::prelude::*;
use vstd::slice::{slice_subrange, slice_to_vec};
use crate::console::{decide_summon, summon_decided, EntityLookup};
use crate::error::PacketError;
use crate::float_bits::{f32_positive, f64_le};
use crate::text::words;
use crate::viakraken::java::backend::effects::Effect;
use crate::viakraken::java::backend::handler::{action_effects, action_read, command_text, movement_read, packet_kind, read_command, read_movement, read_player_action, split_packet, PlayPacket, PlayPacketIds, apply_action, apply_movement, apply_pick, attack, attack_effects, bytes_in, command_done, creative_done, decide_pick, fall_effects, fallen_player, finish_effects, finish_packet, finished_player, handle_command, holding_player, is_request, is_respawn, is_said, is_summoning, moved_player, pick_decided, pick_effects, picked_player, process_fall_damage, respawn, respawn_chunk, respawned_player, run_command, run_summon, say, set_creative_slot, set_held_item, switch_done, switch_gamemode, use_effects, use_item_on, CommandRequest, ItemDrop, Movement, Pick, PlayerAction, VOID_KILL_Y};
use crate::viakraken::java::backend::state::OnlinePlayer;
use crate::viakraken::utils::varint_read;
use crate::world::player_store::{PlayerData, PlayerView, INVENTORY_SLOTS};

verus! {

/// What a packet asks for. Where the layout of the payload differs between
/// protocol versions it is still to be decoded.
#[derive(Debug)]
pub enum PlayRequest {
    /// An empty packet.
    Nothing,
    Decode { kind: PlayPacket, payload: Vec<u8> },
    Action(PlayerAction),
    SwitchGamemode { payload: Vec<u8> },
    Command(String),
    Move(Movement),
    /// A packet that cannot be read or means nothing here.
    Unread,
}

/// Whether a request is that of a packet of this kind with this payload.
pub open spec fn is_play_request(q: PlayRequest, kind: PlayPacket, payload: Seq<u8>) -> bool {
    match kind {
        PlayPacket::PlayerAction => match action_read(payload) {
            Some(action) => q == PlayRequest::Action(action),
            None => q is Unread,
        },
        PlayPacket::ChangeGamemode => q matches PlayRequest::SwitchGamemode { payload: p } && p@
            == payload,
        PlayPacket::ChatCommand => match command_text(payload) {
            Some(text) => q matches PlayRequest::Command(command) && command@ == text,
            None => q is Unread,
        },
        PlayPacket::MovePosRot | PlayPacket::MovePos | PlayPacket::MoveRot => match movement_read(
            kind,
            payload,
        ) {
            Some(movement) => q == PlayRequest::Move(movement),
            None => q is Unread,
        },
        PlayPacket::Other => q is Unread,
        _ => q matches PlayRequest::Decode { kind: k, payload: p } && k == kind && p@ == payload,
    }
}

/// Reads a packet of a player.
pub fn read_play_packet(packet: &[u8], ids: &PlayPacketIds) -> (r: Result<
    PlayRequest,
    PacketError,
>)
    ensures
        packet@.len() == 0 ==> (r matches Ok(q) && q is Nothing),
        packet@.len() > 0 ==> match varint_read(packet@, 0) {
            (Ok(id), start) => r matches Ok(q) && is_play_request(
                q,
                packet_kind(id, *ids),
                packet@.skip(start),
            ),
            (Err(e), _) => r matches Err(f) && f == e,
        },
{
    let (kind, start) = match split_packet(packet, ids) {
        Ok(Some(found)) => found,
        Ok(None) => return Ok(PlayRequest::Nothing),
        Err(e) => return Err(e),
    };
    let payload = slice_subrange(packet, start, packet.len());
    assert(payload@ =~= packet@.skip(start as int));
    Ok(
        match kind {
            PlayPacket::PlayerAction => match read_player_action(payload) {
                Some(action) => PlayRequest::Action(action),
                None => PlayRequest::Unread,
            },
            PlayPacket::ChangeGamemode => PlayRequest::SwitchGamemode {
                payload: slice_to_vec(payload),
            },
            PlayPacket::ChatCommand => match read_command(payload) {
                Some(command) => PlayRequest::Command(command),
                None => PlayRequest::Unread,
            },
            PlayPacket::MovePosRot
            | PlayPacket::MovePos
            | PlayPacket::MoveRot => match read_movement(kind, payload) {
                Some(movement) => PlayRequest::Move(movement),
                None => PlayRequest::Unread,
            },
            PlayPacket::Other => PlayRequest::Unread,
            _ => PlayRequest::Decode { kind, payload: slice_to_vec(payload) },
        },
    )
}

/// What is looked up for a summoning: the entity, the coordinates that were
/// typed if they are numbers, a new entity number, and the place as text.
#[derive(Debug)]
pub struct SummonLookup {
    pub lookup: EntityLookup,
    pub parsed: Option<(u64, u64, u64)>,
    pub entity_id: i32,
    pub place: String,
}

/// A packet of a player as it was read, with what the registries, the world and
/// the arithmetic say of it.
#[derive(Debug)]
pub enum PacketData {
    /// `block_state` is what the held item becomes, if it is a block.
    UseItemOn { x: i32, y: i32, z: i32, face: i32, sequence: i32, block_state: Option<u16> },
    /// `item` is that of the picked block, if it has one, `canonical` the item
    /// in each slot, and `stack` the encoding of the picked item.
    PickBlock { item: Option<u16>, canonical: Vec<Option<u16>>, stack: Vec<u8> },
    /// A pick that cannot be read.
    UnreadPick,
    Interact { interaction: i32, target: Option<OnlinePlayer> },
    /// `drop` is what a broken block drops, or what is thrown.
    Action { action: PlayerAction, air: u16, drop: Option<ItemDrop> },
    CreativeSlot { slot: i16, empty: bool, count: u8, max_count: u8, stack: Option<Vec<u8>> },
    HeldItem { slot: i16 },
    ChangeGamemode { payload: Vec<u8> },
    Command { command: String, summon: SummonLookup },
    /// `distance` is the height of the fall, `damage` what it costs, and
    /// `totem` the slot of a totem in a hand.
    Move { movement: Movement, distance: u64, damage: u32, totem: Option<usize> },
    Chat { message: String },
    ClientCommand { action: i32 },
    /// A packet that cannot be read or means nothing here.
    Unread,
}

impl PacketData {
    /// The next block must have a position, and a totem a slot.
    pub open spec fn wf(&self) -> bool {
        match *self {
            PacketData::UseItemOn { x, y, z, .. } => i32::MIN < x < i32::MAX && i32::MIN < y
                < i32::MAX && i32::MIN < z < i32::MAX,
            PacketData::Move { totem, .. } => totem matches Some(s) ==> s < INVENTORY_SLOTS,
            _ => true,
        }
    }
}

/// What a packet does before the checks that end every packet.
#[verifier::ext_equal]
pub struct PacketWork {
    pub player: PlayerView,
    pub effects: Seq<Effect>,
    /// The others are told of a move.
    pub moved: bool,
    /// The packet ends here, without those checks.
    pub ended: bool,
}

pub open spec fn quiet(player: PlayerView, effects: Seq<Effect>) -> PacketWork {
    PacketWork { player, effects, moved: false, ended: false }
}

/// Whether a command does this work.
pub open spec fn command_work(
    p: PlayerView,
    command: Seq<char>,
    summon: SummonLookup,
    request: CommandRequest,
    uuid: u128,
    w: PacketWork,
) -> bool {
    &&& is_request(request, words(command), p.operator_level)
    &&& match request {
        CommandRequest::Summon { entity, coordinates } => {
            let typed = match coordinates {
                Some(_) => Some(summon.parsed),
                None => None,
            };
            w.player == p && is_summoning(
                w.effects,
                summon_decided(summon.lookup, typed, (p.x, p.y, p.z)),
                summon.entity_id,
                entity@,
                summon.place@,
            )
        },
        _ => command_done(p, w.player, w.effects, uuid, request, command),
    }
}

/// Whether a packet of the player `p` does this work.
pub open spec fn packet_work(
    p: PlayerView,
    data: PacketData,
    username: Seq<char>,
    uuid: u128,
    entity_id: i32,
    w: PacketWork,
) -> bool {
    match data {
        PacketData::UseItemOn { x, y, z, face, sequence, block_state } => w == quiet(
            p,
            use_effects(x, y, z, face, sequence, block_state),
        ),
        PacketData::PickBlock { item, canonical, stack } => match pick_decided(
            p.gamemode,
            p.held_slot,
            item,
            canonical@,
        ) {
            Pick::Refused => w == (PacketWork { ended: true, ..quiet(p, Seq::empty()) }),
            Pick::Select { slot, fill } => w == quiet(
                picked_player(p, slot, fill, stack@),
                pick_effects(slot, fill),
            ),
        },
        PacketData::UnreadPick => w == (PacketWork {
            ended: p.gamemode != 1,
            ..quiet(p, Seq::empty())
        }),
        PacketData::Interact { interaction, target } => w == quiet(
            p,
            attack_effects(p, interaction, target),
        ),
        PacketData::Action { action, air, drop } => w == quiet(
            p,
            action_effects(action, p.gamemode, air, drop),
        ),
        PacketData::CreativeSlot { slot, empty, count, max_count, stack } => {
            &&& creative_done(
                p,
                w.player,
                if w.ended {
                    None
                } else {
                    Some(w.effects)
                },
                slot,
                empty,
                count,
                max_count,
                bytes_in(stack),
            )
            &&& w.ended ==> w.effects == Seq::<Effect>::empty()
            &&& !w.moved
        },
        PacketData::HeldItem { slot } => w == quiet(holding_player(p, slot), Seq::empty()),
        PacketData::ChangeGamemode { payload } => !w.moved && !w.ended && switch_done(
            p,
            w.player,
            w.effects,
            uuid,
            payload@,
        ),
        PacketData::Command { command, summon } => !w.moved && !w.ended && exists|
            request: CommandRequest,
        | #[trigger]
            command_work(p, command@, summon, request, uuid, w),
        PacketData::Move { movement, distance, damage, totem } => {
            let m = moved_player(p, movement);
            w == (match movement.on_ground {
                Some(on_ground) => PacketWork {
                    player: fallen_player(m, on_ground, distance, totem),
                    effects: fall_effects(
                        m,
                        on_ground,
                        entity_id,
                        uuid,
                        distance,
                        damage,
                        totem,
                    ),
                    moved: true,
                    ended: false,
                },
                None => PacketWork { moved: true, ..quiet(m, Seq::empty()) },
            })
        },
        PacketData::Chat { message } => {
            &&& w.player == p && !w.moved && !w.ended
            &&& w.effects.len() == 1 && is_said(w.effects[0], username, message@)
        },
        PacketData::ClientCommand { action } => if action == 0 {
            &&& w.player == respawned_player(p) && w.moved && !w.ended
            &&& is_respawn(w.effects, p.gamemode, entity_id, p.operator_level)
        } else {
            w == quiet(p, Seq::empty())
        },
        PacketData::Unread => w == quiet(p, Seq::empty()),
    }
}

/// The player after a packet.
pub open spec fn player_after(w: PacketWork) -> PlayerView {
    if w.ended {
        w.player
    } else {
        finished_player(w.player)
    }
}

/// The effects of a packet: those of its kind, then those of the checks that
/// end every packet.
pub open spec fn effects_after(w: PacketWork, uuid: u128, entity_id: i32) -> Seq<Effect> {
    if w.ended {
        w.effects
    } else {
        w.effects + finish_effects(w.player, uuid, entity_id, w.moved)
    }
}

/// What a packet does: the effects, whether the player moved, and whether it
/// ends without the usual checks.
struct Done {
    effects: Vec<Effect>,
    moved: bool,
    ended: bool,
}

impl Done {
    spec fn work(&self, player: PlayerView) -> PacketWork {
        PacketWork { player, effects: self.effects@, moved: self.moved, ended: self.ended }
    }

    fn quiet(effects: Vec<Effect>) -> (r: Self)
        ensures
            r.effects == effects && !r.moved && !r.ended,
    {
        Done { effects, moved: false, ended: false }
    }
}

fn do_command(player: &mut PlayerData, uuid: u128, command: &String, summon: &SummonLookup) -> (r:
    Vec<Effect>)
    requires
        old(player).inventory@.len() == INVENTORY_SLOTS,
    ensures
        final(player)@.inventory.len() == INVENTORY_SLOTS,
        exists|request: CommandRequest| #[trigger]
            command_work(
                old(player)@,
                command@,
                *summon,
                request,
                uuid,
                quiet(final(player)@, r@),
            ),
{
    let request = handle_command(command.as_str(), player.operator_level);
    match &request {
        CommandRequest::Summon { entity, coordinates } => {
            let typed: Option<Option<(u64, u64, u64)>> = match coordinates {
                Some(_) => Some(summon.parsed),
                None => None,
            };
            let outcome = decide_summon(summon.lookup, typed, (player.x, player.y, player.z));
            let effects = run_summon(
                outcome,
                summon.entity_id,
                entity.as_str(),
                summon.place.as_str(),
            );
            assert(command_work(
                old(player)@,
                command@,
                *summon,
                request,
                uuid,
                quiet(player@, effects@),
            ));
            effects
        },
        _ => {
            let effects = run_command(player, uuid, &request, command.as_str());
            assert(command_work(
                old(player)@,
                command@,
                *summon,
                request,
                uuid,
                quiet(player@, effects@),
            ));
            effects
        },
    }
}

fn do_packet(
    player: &mut PlayerData,
    username: &str,
    uuid: u128,
    entity_id: i32,
    data: PacketData,
) -> (r: Done)
    requires
        old(player).inventory@.len() == INVENTORY_SLOTS,
        data.wf(),
    ensures
        final(player)@.inventory.len() == INVENTORY_SLOTS,
        packet_work(
            old(player)@,
            data,
            username@,
            uuid,
            entity_id,
            r.work(final(player)@),
        ),
{
    match data {
        PacketData::UseItemOn { x, y, z, face, sequence, block_state } => Done::quiet(
            use_item_on(x, y, z, face, sequence, block_state),
        ),
        PacketData::PickBlock { item, canonical, stack } => match decide_pick(
            player,
            item,
            &canonical,
        ) {
            Pick::Refused => Done { effects: Vec::new(), moved: false, ended: true },
            Pick::Select { slot, fill } => Done::quiet(apply_pick(player, slot, fill, stack)),
        },
        PacketData::UnreadPick => Done {
            effects: Vec::new(),
            moved: false,
            ended: player.gamemode != 1,
        },
        PacketData::Interact { interaction, target } => Done::quiet(
            attack(player, interaction, &target),
        ),
        PacketData::Action { action, air, drop } => Done::quiet(
            apply_action(&action, player.gamemode, air, drop),
        ),
        PacketData::CreativeSlot { slot, empty, count, max_count, stack } => {
            match set_creative_slot(player, slot, empty, count, max_count, stack) {
                Some(effects) => Done::quiet(effects),
                None => Done { effects: Vec::new(), moved: false, ended: true },
            }
        },
        PacketData::HeldItem { slot } => {
            set_held_item(player, slot);
            Done::quiet(Vec::new())
        },
        PacketData::ChangeGamemode { payload } => Done::quiet(
            switch_gamemode(player, uuid, payload.as_slice()),
        ),
        PacketData::Command { command, summon } => {
            let done = Done::quiet(do_command(player, uuid, &command, &summon));
            assert(done.work(player@) == quiet(player@, done.effects@));
            done
        },
        PacketData::Move { movement, distance, damage, totem } => {
            apply_movement(player, &movement);
            match movement.on_ground {
                Some(on_ground) => {
                    assert(player@.inventory.len() == player.inventory@.len());
                    let effects = process_fall_damage(
                        player,
                        on_ground,
                        entity_id,
                        uuid,
                        distance,
                        damage,
                        totem,
                    );
                    Done { effects, moved: true, ended: false }
                },
                None => Done { effects: Vec::new(), moved: true, ended: false },
            }
        },
        PacketData::Chat { message } => {
            let mut effects: Vec<Effect> = Vec::new();
            effects.push(say(username, message.as_str()));
            Done::quiet(effects)
        },
        PacketData::ClientCommand { action } => {
            if action == 0 {
                let effects = respawn(player, entity_id);
                Done { effects, moved: true, ended: false }
            } else {
                Done::quiet(Vec::new())
            }
        },
        PacketData::Unread => Done::quiet(Vec::new()),
    }
}

/// Does what a packet of a player says, and gives the effects in order.
pub fn handle_play_packet(
    player: &mut PlayerData,
    username: &str,
    uuid: u128,
    entity_id: i32,
    data: PacketData,
) -> (r: Vec<Effect>)
    requires
        old(player).inventory@.len() == INVENTORY_SLOTS,
        data.wf(),
    ensures
        final(player).inventory@.len() == INVENTORY_SLOTS,
        exists|w: PacketWork| #[trigger]
            packet_work(old(player)@, data, username@, uuid, entity_id, w) && final(player)@
                == player_after(w) && r@ == effects_after(w, uuid, entity_id),
{
    let done = do_packet(player, username, uuid, entity_id, data);
    let ghost w = done.work(player@);
    let mut effects = done.effects;
    if !done.ended {
        let mut last = finish_packet(player, uuid, entity_id, done.moved);
        effects.append(&mut last);
    }
    assert(effects@ =~= effects_after(w, uuid, entity_id));
    assert(packet_work(old(player)@, data, username@, uuid, entity_id, w));
    assert(player@.inventory.len() == player.inventory@.len());
    effects
}

/// Nobody but an operator changes a game mode or summons anything, whatever
/// packet they send.
pub proof fn law_only_operators_change_modes(
    p: PlayerView,
    data: PacketData,
    username: Seq<char>,
    uuid: u128,
    entity_id: i32,
    w: PacketWork,
)
    requires
        p.operator_level == 0,
        packet_work(p, data, username, uuid, entity_id, w),
    ensures
        w.player.gamemode == p.gamemode,
        w.player.operator_level == 0,
        forall|i: int| 0 <= i < w.effects.len() ==> !(#[trigger] w.effects[i] is RegisterSummoned),
{
    match data {
        PacketData::Command { command, summon } => {
            let request = choose|request: CommandRequest| #[trigger]
                command_work(p, command@, summon, request, uuid, w);
            assert(command_work(p, command@, summon, request, uuid, w));
            assert forall|i: int| 0 <= i < w.effects.len() implies !(
            #[trigger] w.effects[i] is RegisterSummoned) by {
                assert(w.effects.len() == 1);
                assert(w.effects[i] == w.effects.last());
            }
        },
        PacketData::ClientCommand { action } => {
            if action == 0 {
                assert forall|i: int| 0 <= i < w.effects.len() implies !(
                #[trigger] w.effects[i] is RegisterSummoned) by {
                    if 8 <= i < 57 {
                        assert(w.effects[8 + (i - 8)] == respawn_chunk(i - 8));
                    }
                }
            }
        },
        _ => {},
    }
}

/// Whatever packet a player below the world sends, survivors and adventurers are
/// dead after it, unless the packet was refused outright.
pub proof fn law_void_is_lethal(w: PacketWork)
    requires
        !w.ended,
        w.player.gamemode == 0 || w.player.gamemode == 2,
        f64_le(w.player.y, VOID_KILL_Y),
    ensures
        !f32_positive(player_after(w).health),
{
}

} // verus!
