//! The login on the backend: from the handshake to the start of play.

use vstd::prelude::*;
use crate::error::PacketError;
use crate::viakraken::java::backend::effects::LoginPlay;
use crate::viakraken::java::types::HandshakeInfo;
use crate::viakraken::utils::{lemma_varint_bytes_len, packet_id, varint_bytes, varint_read, write_varint_buffer, ByteBuffer};

verus! {

/// What a client wants from the backend.
#[derive(Clone, Copy, Debug, PartialEq, Eq, Structural)]
pub enum BackendRoute {
    Status,
    Login,
}

pub fn handle_backend_client(handshake: HandshakeInfo) -> (r: Result<BackendRoute, PacketError>)
    ensures
        r == (if handshake.next_state == 1 {
            Ok::<BackendRoute, PacketError>(BackendRoute::Status)
        } else if handshake.next_state == 2 {
            Ok::<BackendRoute, PacketError>(BackendRoute::Login)
        } else {
            Err::<BackendRoute, PacketError>(PacketError::InvalidNextState)
        }),
{
    match handshake.next_state {
        1 => Ok(BackendRoute::Status),
        2 => Ok(BackendRoute::Login),
        _ => Err(PacketError::InvalidNextState),
    }
}

/// The identity of a player: the one that the client claims, else a fresh one.
pub fn profile_uuid(claimed: Option<u128>, fresh: u128) -> (r: u128)
    ensures
        r == (match claimed {
            Some(uuid) => uuid,
            None => fresh,
        }),
{
    match claimed {
        Some(uuid) => uuid,
        None => fresh,
    }
}

/// The payload of a packet: its number and its body, unless the version with
/// the given protocol number has no such packet.
pub fn encode_java_packet(packet_id: i32, protocol: i32, body: &[u8]) -> (r: Result<
    ByteBuffer,
    PacketError,
>)
    requires
        body@.len() + 5 <= isize::MAX,
    ensures
        packet_id < 0 ==> r == Err::<ByteBuffer, PacketError>(
            PacketError::PacketIdUnavailable(protocol),
        ),
        packet_id >= 0 ==> (r matches Ok(b) && b@ == varint_bytes(packet_id as u32) + body@),
{
    if packet_id < 0 {
        return Err(PacketError::PacketIdUnavailable(protocol));
    }
    let mut payload = ByteBuffer::new();
    proof {
        lemma_varint_bytes_len(packet_id as u32);
    }
    write_varint_buffer(&mut payload, packet_id);
    payload.extend_from_slice(body);
    assert(payload@ =~= varint_bytes(packet_id as u32) + body@);
    Ok(payload)
}

/// How far a login has come after Login Success was sent.
#[derive(Clone, Copy, Debug, PartialEq, Eq, Structural)]
pub enum LoginPhase {
    /// Waiting for the client to acknowledge.
    AwaitAck,
    /// The configuration has been sent; waiting for the client to finish it.
    AwaitFinish,
    Play,
    Abandoned,
}

/// What is to be done next.
#[derive(Clone, Copy, Debug, PartialEq, Eq, Structural)]
pub enum LoginAction {
    /// Send the packs, the registries, the tags and the end of configuration.
    SendConfiguration,
    KeepWaiting,
    EnterPlay,
    GiveUp,
}

/// What a packet, or the lack of one within the time, does to a login. The
/// acknowledgement is waited for but not insisted on; the configuration has to
/// be finished.
pub open spec fn login_step(phase: LoginPhase, packet: Option<Seq<u8>>, finish_id: i32) -> Result<
    (LoginPhase, LoginAction),
    PacketError,
> {
    let id = match packet {
        Some(p) => varint_read(p, 0).0,
        None => Ok(0),
    };
    match phase {
        LoginPhase::AwaitAck => match id {
            Err(e) => Err(e),
            Ok(_) => Ok((LoginPhase::AwaitFinish, LoginAction::SendConfiguration)),
        },
        LoginPhase::AwaitFinish => match (packet, id) {
            (None, _) => Ok((LoginPhase::Abandoned, LoginAction::GiveUp)),
            (Some(_), Err(e)) => Err(e),
            (Some(_), Ok(id)) => if id == finish_id {
                Ok((LoginPhase::Play, LoginAction::EnterPlay))
            } else {
                Ok((phase, LoginAction::KeepWaiting))
            },
        },
        _ => Ok((phase, LoginAction::KeepWaiting)),
    }
}

pub fn handle_login(phase: LoginPhase, packet: Option<&[u8]>, finish_id: i32) -> (r: Result<
    (LoginPhase, LoginAction),
    PacketError,
>)
    ensures
        r == login_step(
            phase,
            match packet {
                Some(p) => Some(p@),
                None => None,
            },
            finish_id,
        ),
{
    match phase {
        LoginPhase::AwaitAck => match packet {
            Some(p) => match packet_id(p) {
                Ok(_) => Ok((LoginPhase::AwaitFinish, LoginAction::SendConfiguration)),
                Err(e) => Err(e),
            },
            None => Ok((LoginPhase::AwaitFinish, LoginAction::SendConfiguration)),
        },
        LoginPhase::AwaitFinish => match packet {
            Some(p) => match packet_id(p) {
                Ok(id) => if id == finish_id {
                    Ok((LoginPhase::Play, LoginAction::EnterPlay))
                } else {
                    Ok((LoginPhase::AwaitFinish, LoginAction::KeepWaiting))
                },
                Err(e) => Err(e),
            },
            None => Ok((LoginPhase::Abandoned, LoginAction::GiveUp)),
        },
        LoginPhase::Play => Ok((LoginPhase::Play, LoginAction::KeepWaiting)),
        LoginPhase::Abandoned => Ok((LoginPhase::Abandoned, LoginAction::KeepWaiting)),
    }
}

/// The state of a login after a run of packets and timeouts.
pub open spec fn login_after(events: Seq<Option<Seq<u8>>>, finish_id: i32) -> LoginPhase
    decreases events.len(),
{
    if events.len() == 0 {
        LoginPhase::AwaitAck
    } else {
        let before = login_after(events.drop_last(), finish_id);
        match login_step(before, events.last(), finish_id) {
            Ok((next, _)) => next,
            Err(_) => before,
        }
    }
}

/// Play begins only after the client has sent the packet that finishes the
/// configuration, and not as its first packet.
pub proof fn law_play_needs_a_finished_configuration(
    events: Seq<Option<Seq<u8>>>,
    finish_id: i32,
)
    ensures
        login_after(events, finish_id) == LoginPhase::Play ==> exists|i: int|
            0 < i < events.len() && (#[trigger] events[i] matches Some(p) && varint_read(p, 0).0
                == Ok::<i32, PacketError>(finish_id)),
        login_after(events, finish_id) != LoginPhase::AwaitAck ==> events.len() > 0,
    decreases events.len(),
{
    if events.len() > 0 {
        let earlier = events.drop_last();
        law_play_needs_a_finished_configuration(earlier, finish_id);
        let before = login_after(earlier, finish_id);
        let last = events.len() - 1;
        if before == LoginPhase::Play {
            let i = choose|i: int|
                0 < i < earlier.len() && (#[trigger] earlier[i] matches Some(p) && varint_read(
                    p,
                    0,
                ).0 == Ok::<i32, PacketError>(finish_id));
            assert(events[i] == earlier[i]);
        } else if login_after(events, finish_id) == LoginPhase::Play {
            assert(events[last] == events.last());
            assert(before == LoginPhase::AwaitFinish);
            assert(last > 0);
        }
    }
}

/// The groups of tags that are sent.
#[derive(Clone, Copy, Debug, PartialEq, Eq, Structural)]
pub enum TagGroup {
    Block,
    Fluid,
    Enchantment,
    WorldgenBiome,
    Item,
    EntityType,
    Dialog,
    Timeline,
    DimensionType,
    DamageType,
    BannerPattern,
}

/// Which of the optional groups a version has tags for.
#[derive(Clone, Copy, Debug, PartialEq, Eq, Structural)]
pub struct OptionalTags {
    pub timeline: bool,
    pub dimension_type: bool,
    pub damage_type: bool,
    pub banner_pattern: bool,
}

pub open spec fn only_if(group: TagGroup, wanted: bool) -> Seq<TagGroup> {
    if wanted {
        seq![group]
    } else {
        Seq::empty()
    }
}

/// The groups of tags for a client: seven always, and four where there are
/// any. Timelines are for versions from `timelines` on.
pub open spec fn tag_groups(protocol: u32, timelines: u32, has: OptionalTags) -> Seq<TagGroup> {
    seq![
        TagGroup::Block,
        TagGroup::Fluid,
        TagGroup::Enchantment,
        TagGroup::WorldgenBiome,
        TagGroup::Item,
        TagGroup::EntityType,
        TagGroup::Dialog,
    ] + only_if(TagGroup::Timeline, protocol >= timelines && has.timeline) + only_if(
        TagGroup::DimensionType,
        has.dimension_type,
    ) + only_if(TagGroup::DamageType, has.damage_type) + only_if(
        TagGroup::BannerPattern,
        has.banner_pattern,
    )
}

pub fn synced_tags(protocol: u32, timelines: u32, has: OptionalTags) -> (r: Vec<TagGroup>)
    ensures
        r@ == tag_groups(protocol, timelines, has),
{
    let mut tags: Vec<TagGroup> = Vec::new();
    tags.push(TagGroup::Block);
    tags.push(TagGroup::Fluid);
    tags.push(TagGroup::Enchantment);
    tags.push(TagGroup::WorldgenBiome);
    tags.push(TagGroup::Item);
    tags.push(TagGroup::EntityType);
    tags.push(TagGroup::Dialog);
    if protocol >= timelines && has.timeline {
        tags.push(TagGroup::Timeline);
    }
    if has.dimension_type {
        tags.push(TagGroup::DimensionType);
    }
    if has.damage_type {
        tags.push(TagGroup::DamageType);
    }
    if has.banner_pattern {
        tags.push(TagGroup::BannerPattern);
    }
    assert(tags@ =~= tag_groups(protocol, timelines, has));
    tags
}

/// The packet that starts play for a client that is only kept alive, with the
/// view distance of its session.
pub fn lobby_login(view_distance: i32) -> (r: LoginPlay)
    ensures
        r == (LoginPlay {
            entity_id: 1,
            hardcore: false,
            max_players: 100,
            view_distance,
            simulation_distance: 10,
            reduced_debug_info: false,
            respawn_screen: true,
            limited_crafting: false,
            hashed_seed: 42,
            gamemode: 1,
            previous_gamemode: (-1) as i8,
            debug: false,
            flat: false,
            portal_cooldown: 0,
            sea_level: 63,
            secure_chat: true,
        }),
{
    LoginPlay {
        entity_id: 1,
        hardcore: false,
        max_players: 100,
        view_distance,
        simulation_distance: 10,
        reduced_debug_info: false,
        respawn_screen: true,
        limited_crafting: false,
        hashed_seed: 42,
        gamemode: 1,
        previous_gamemode: -1,
        debug: false,
        flat: false,
        portal_cooldown: 0,
        sea_level: 63,
        secure_chat: true,
    }
}

} // verus!
