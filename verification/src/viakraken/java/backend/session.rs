//! A session as a whole: one step for every event that reaches it.

use vstd::prelude::*;
use crate::viakraken::java::backend::effects::{ClientPacket, Effect};
use crate::viakraken::java::backend::handler::switch_asked;
use crate::viakraken::java::backend::packet::{effects_after, handle_play_packet, packet_work, player_after, PacketData, PacketWork};
use crate::viakraken::java::backend::play::{chunk_coordinate, client_chunks, close_session, console_done, is_closing, is_opening, is_streaming, item_effects, law_streaming_keeps_the_view, next_keep_alive, on_block_update, on_chat, on_console_command, on_item_event, on_player_event, open_session, player_chunk, player_event_done, prepare_player, session_player, ChunkStream, EventNumbers, StreamStep};
use crate::viakraken::java::backend::state::{BlockUpdateEvent, ConsoleCommand, ItemEvent, OnlinePlayer, PlayerEvent};
use crate::viakraken::java::backend::view::{distance_granted, session_view_distance, view_set};
use crate::world::player_store::{loaded, player_record_value, record_of, PlayerData, PlayerView, INVENTORY_SLOTS};

verus! {

/// A player in the world.
#[derive(Debug)]
pub struct PlaySession {
    pub player: PlayerData,
    pub entity_id: i32,
    pub uuid: u128,
    pub username: String,
    pub keep_alive_id: i64,
    pub ended: bool,
}

/// What reaches a session, with what the arithmetic and the registries say of
/// it.
#[derive(Debug)]
pub enum SessionEvent {
    Console(ConsoleCommand),
    Player { event: PlayerEvent, numbers: EventNumbers },
    Chat(String),
    /// `known` says whether there is such an item.
    Item { event: ItemEvent, known: bool },
    Block(BlockUpdateEvent),
    KeepAliveDue,
    SaveDue,
    Packet(PacketData),
    /// The client is gone.
    Closed,
}

impl PlaySession {
    /// The inventory has all its slots.
    pub open spec fn wf(&self) -> bool {
        self.player.inventory@.len() == INVENTORY_SLOTS
    }

    /// Whether everything but the player, the keep-alive number and the end is
    /// as in another session.
    pub open spec fn same_player(&self, other: &PlaySession) -> bool {
        self.entity_id == other.entity_id && self.uuid == other.uuid && self.username@
            == other.username@
    }

    /// Opens a session with the player that was loaded. `others` are the players
    /// who are online already.
    pub fn open(
        loaded: PlayerData,
        operator_level: u8,
        entity_id: i32,
        uuid: u128,
        username: String,
        view_distance: i32,
        others: &Vec<OnlinePlayer>,
    ) -> (r: (PlaySession, Vec<Effect>))
        ensures
            r.0.wf(),
            r.0.player@ == session_player(loaded@, operator_level),
            r.0.entity_id == entity_id && r.0.uuid == uuid && r.0.username@ == username@,
            r.0.keep_alive_id == 0,
            !r.0.ended,
            is_opening(
                r.1@,
                session_player(loaded@, operator_level),
                entity_id,
                uuid,
                username@,
                view_distance,
                others@,
            ),
    {
        let player = prepare_player(loaded, operator_level);
        let effects = open_session(&player, entity_id, uuid, &username, view_distance, others);
        (
            PlaySession { player, entity_id, uuid, username, keep_alive_id: 0, ended: false },
            effects,
        )
    }

    /// Lets a client in that would like to see `preferred` chunks far, if it has
    /// said so, on a server that allows `limit`: opens the session, and sends
    /// the chunks in view and the brand.
    pub fn join(
        loaded: PlayerData,
        operator_level: u8,
        entity_id: i32,
        uuid: u128,
        username: String,
        preferred: Option<i32>,
        limit: i32,
        others: &Vec<OnlinePlayer>,
    ) -> (r: (PlaySession, ChunkStream, Vec<Effect>))
        requires
            0 <= limit <= 0x3fff_ffff,
        ensures
            r.0.wf(),
            r.0.player@ == session_player(loaded@, operator_level),
            r.0.entity_id == entity_id && r.0.uuid == uuid && r.0.username@ == username@,
            r.0.keep_alive_id == 0,
            !r.0.ended,
            r.1.wf(),
            r.1.settled(),
            r.1.center() == player_chunk(r.0.player@),
            r.1.distance() == join_distance(preferred, limit),
            r.2@.len() > 0,
            r.2@[0] matches Effect::Send(ClientPacket::Login(login)) && login.view_distance
                == join_distance(preferred, limit),
            is_joining(
                r.2@,
                r.0.player@,
                entity_id,
                uuid,
                username@,
                join_distance(preferred, limit),
                others@,
            ),
    {
        let asked: i32 = match preferred {
            Some(distance) => distance,
            None => limit,
        };
        let view_distance: i32 = session_view_distance(asked, limit);
        let (session, mut effects) = PlaySession::open(
            loaded,
            operator_level,
            entity_id,
            uuid,
            username,
            view_distance,
            others,
        );
        let ghost opening = effects@;
        let x: u64 = session.player.x;
        let z: u64 = session.player.z;
        let mut stream = ChunkStream::new(x, z, view_distance);
        let step = stream.step_to(chunk_coordinate(x), chunk_coordinate(z));
        let StreamStep { center_x, center_z, effects: mut chunks, sent } = step;
        let ghost streamed = chunks@;
        effects.append(&mut chunks);
        effects.push(Effect::Send(ClientPacket::Brand));
        stream.commit(center_x, center_z, sent);
        proof {
            assert(effects@ =~= opening + streamed + seq![Effect::Send(ClientPacket::Brand)]);
            assert(is_joining_with(
                effects@,
                session.player@,
                entity_id,
                uuid,
                username@,
                view_distance,
                others@,
                opening,
                streamed,
            ));
            assert(effects@[0] == opening[0]);
        }
        (session, stream, effects)
    }
}

/// How far a client sees that joins: as far as it likes, or as far as it can
/// where it has said nothing, up to the limit of the server.
pub open spec fn join_distance(preferred: Option<i32>, limit: i32) -> i32 {
    match preferred {
        Some(distance) => distance_granted(distance, limit),
        None => limit,
    }
}

/// Whether the effects let a client in: they open the session, send every chunk
/// in view, and then the brand.
pub open spec fn is_joining(
    effects: Seq<Effect>,
    p: PlayerView,
    entity_id: i32,
    uuid: u128,
    username: Seq<char>,
    view_distance: i32,
    others: Seq<OnlinePlayer>,
) -> bool {
    exists|opening: Seq<Effect>, streamed: Seq<Effect>| #[trigger]
        is_joining_with(
            effects,
            p,
            entity_id,
            uuid,
            username,
            view_distance,
            others,
            opening,
            streamed,
        )
}

pub open spec fn is_joining_with(
    effects: Seq<Effect>,
    p: PlayerView,
    entity_id: i32,
    uuid: u128,
    username: Seq<char>,
    view_distance: i32,
    others: Seq<OnlinePlayer>,
    opening: Seq<Effect>,
    streamed: Seq<Effect>,
) -> bool {
    let center = player_chunk(p);
    &&& effects == opening + streamed + seq![Effect::Send(ClientPacket::Brand)]
    &&& is_opening(opening, p, entity_id, uuid, username, view_distance, others)
    &&& is_streaming(
        streamed,
        Set::empty(),
        view_set(center.0, center.1, view_distance as int),
        center.0 as i32,
        center.1 as i32,
    )
}

/// Whether an event leaves the player of a session as `after`, with these
/// effects.
pub open spec fn event_done(
    before: PlaySession,
    after: PlaySession,
    event: SessionEvent,
    effects: Seq<Effect>,
) -> bool {
    &&& after.keep_alive_id == (if event is KeepAliveDue {
        before.keep_alive_id.wrapping_add(1)
    } else {
        before.keep_alive_id
    })
    &&& after.ended == (before.ended || event is Closed)
    &&& match event {
        SessionEvent::Console(command) => console_done(
            before.player@,
            after.player@,
            effects,
            before.entity_id,
            before.uuid,
            command,
        ),
        SessionEvent::Player { event, numbers } => player_event_done(
            before.player@,
            after.player@,
            effects,
            before.entity_id,
            before.uuid,
            event,
            numbers,
        ),
        SessionEvent::Chat(text) => after.player@ == before.player@ && effects == seq![
            Effect::TrySend(ClientPacket::Chat { text }),
        ],
        SessionEvent::Item { event, known } => after.player@ == before.player@ && effects
            == item_effects(event, known),
        SessionEvent::Block(event) => after.player@ == before.player@ && effects == seq![
            Effect::TrySend(
                ClientPacket::BlockUpdate {
                    x: event.x,
                    y: event.y,
                    z: event.z,
                    state_id: event.state_id,
                },
            ),
        ],
        SessionEvent::KeepAliveDue => after.player@ == before.player@ && effects == seq![
            Effect::TrySend(ClientPacket::KeepAlive { id: after.keep_alive_id }),
        ],
        SessionEvent::SaveDue => after.player@ == before.player@ && effects == seq![
            Effect::SavePlayer { always_flush: false },
        ],
        SessionEvent::Packet(data) => exists|w: PacketWork| #[trigger]
            packet_work(
                before.player@,
                data,
                before.username@,
                before.uuid,
                before.entity_id,
                w,
            ) && after.player@ == player_after(w) && effects == effects_after(
                w,
                before.uuid,
                before.entity_id,
            ),
        SessionEvent::Closed => after.player@ == before.player@ && is_closing(
            effects,
            before.entity_id,
            before.uuid,
            before.username@,
        ),
    }
}

/// One step of a session.
pub fn handle_play(session: &mut PlaySession, event: SessionEvent) -> (effects: Vec<Effect>)
    requires
        old(session).wf(),
        event matches SessionEvent::Packet(data) ==> data.wf(),
    ensures
        final(session).wf(),
        final(session).same_player(old(session)),
        event_done(*old(session), *final(session), event, effects@),
{
    let ghost before = session.player;
    assert(session.player@.inventory.len() == session.player.inventory@.len());
    let mut effects: Vec<Effect> = Vec::new();
    match event {
        SessionEvent::Console(command) => {
            effects = on_console_command(
                &mut session.player,
                session.entity_id,
                session.uuid,
                command,
            );
        },
        SessionEvent::Player { event, numbers } => {
            effects = on_player_event(
                &mut session.player,
                session.entity_id,
                session.uuid,
                &event,
                &numbers,
            );
        },
        SessionEvent::Chat(text) => {
            effects.push(on_chat(text));
        },
        SessionEvent::Item { event, known } => {
            effects = on_item_event(event, known);
        },
        SessionEvent::Block(event) => {
            effects.push(on_block_update(event));
        },
        SessionEvent::KeepAliveDue => {
            effects.push(next_keep_alive(&mut session.keep_alive_id));
        },
        SessionEvent::SaveDue => {
            effects.push(Effect::SavePlayer { always_flush: false });
        },
        SessionEvent::Packet(data) => {
            effects = handle_play_packet(
                &mut session.player,
                session.username.as_str(),
                session.uuid,
                session.entity_id,
                data,
            );
        },
        SessionEvent::Closed => {
            session.ended = true;
            effects = close_session(session.entity_id, session.uuid, session.username.as_str());
        },
    }
    assert(session.player@.inventory.len() == session.player.inventory@.len());
    effects
}

/// Only what is meant for a player changes them: commands for others, their
/// movements, chat, items and blocks leave a player as they are.
pub proof fn law_others_do_not_change_a_player(
    before: PlaySession,
    after: PlaySession,
    event: SessionEvent,
    effects: Seq<Effect>,
)
    requires
        event_done(before, after, event, effects),
        match event {
            SessionEvent::Console(ConsoleCommand::OperatorLevel { uuid, .. }) => uuid
                != before.uuid,
            SessionEvent::Console(ConsoleCommand::Kill { uuid }) => uuid != before.uuid,
            SessionEvent::Console(ConsoleCommand::Gamemode { uuid, .. }) => uuid != before.uuid,
            SessionEvent::Player { event: PlayerEvent::Hurt { uuid, .. }, .. } => uuid
                != before.uuid,
            SessionEvent::Packet(_) => false,
            _ => true,
        },
    ensures
        after.player@ == before.player@,
{
}

/// The view follows the player: whatever a packet did to them, the step that
/// follows it, if there is one, makes the client hold exactly the chunks round
/// the one that the player is in.
pub proof fn law_view_follows_the_player(
    session: PlaySession,
    before: ChunkStream,
    after: ChunkStream,
    step: Option<StreamStep>,
)
    requires
        before.settled(),
        step is Some <==> player_chunk(session.player@) != before.center(),
        match step {
            Some(step) => step.leads(&before, player_chunk(session.player@)) && after.settled()
                && after.center() == player_chunk(session.player@) && after.distance()
                == before.distance(),
            None => after == before,
        },
    ensures
        after.settled(),
        after.held() == view_set(
            player_chunk(session.player@).0,
            player_chunk(session.player@).1,
            before.distance(),
        ),
        step matches Some(step) ==> client_chunks(before.held(), step.effects@) == after.held(),
{
    match step {
        Some(step) => {
            law_streaming_keeps_the_view(
                step.effects@,
                before.held(),
                after.held(),
                step.center_x,
                step.center_z,
            );
        },
        None => {},
    }
}

/// An operator level that the console grants or takes away counts from the next
/// packet on: it decides whether the game-mode switcher works.
pub proof fn law_operator_changes_apply_at_once(
    before: PlaySession,
    granted: PlaySession,
    after: PlaySession,
    level: u8,
    payload: Vec<u8>,
    told: Seq<Effect>,
    effects: Seq<Effect>,
)
    requires
        event_done(
            before,
            granted,
            SessionEvent::Console(ConsoleCommand::OperatorLevel { uuid: before.uuid, level }),
            told,
        ),
        granted.same_player(&before),
        event_done(
            granted,
            after,
            SessionEvent::Packet(PacketData::ChangeGamemode { payload }),
            effects,
        ),
    ensures
        after.player@.gamemode == (match switch_asked(level, payload@) {
            Some(gamemode) => gamemode,
            None => before.player@.gamemode,
        }),
{
}

/// A player who leaves and comes back is as before, but for the cursor, which
/// is empty, and the operator level, which is that of the new session.
pub proof fn law_player_comes_back(session: PlaySession, bytes: Seq<u8>, operator_level: u8)
    requires
        session.wf(),
        player_record_value(bytes) == Some(record_of(session.player@)),
    ensures
        session_player(loaded(Some(bytes)), operator_level) == (PlayerView {
            carried_item: Seq::empty(),
            operator_level,
            ..session.player@
        }),
{
}

} // verus!
