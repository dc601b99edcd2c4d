//! The handoff of a login from the backend to the client: Login Success is
//! rewritten, everything else is relayed until both sides have finished the
//! configuration.

use vstd::prelude::*;
use vstd::slice::{slice_subrange, slice_to_vec};
use crate::big_endian::{be_bytes, be_value, lemma_be_bytes_len, lemma_be_limits, lemma_be_round_trip, read_be};
use crate::error::{PacketError, PacketLabel};
use crate::viakraken::java::packets::{build_login_success_packet, login_success_bytes, login_success_fits, properties_bytes, property_bytes, property_fits};
use crate::viakraken::java::support::{packet_id_for_version, strict_error_handling, strict_for};
use crate::viakraken::java::types::{LoginSuccessCore, LoginSuccessText, Property, PropertyText};
use crate::viakraken::utils::{bool_bytes, bool_read, law_bool_round_trip, law_string_round_trip, law_varint_round_trip, lemma_read_string_len, lemma_read_varint_len, lemma_stands_split, packet_id, read_bool_from_slice, read_string_from_slice, read_varint_from_slice, stands_at, string_bytes, string_read, varint_bytes, varint_read, MAX_PACKET_LEN};

verus! {

/// What reading one property at `offset` gives, and the offset behind it.
pub open spec fn property_read(packet: Seq<u8>, offset: int) -> (
    Result<PropertyText, PacketError>,
    int,
) {
    let (name, value_at) = string_read(packet, offset);
    let (value, flag_at) = string_read(packet, value_at);
    let (flag, signature_at) = bool_read(packet, flag_at);
    let (signature, end) = string_read(packet, signature_at);
    if name is Err {
        (Err(name->Err_0), value_at)
    } else if value is Err {
        (Err(value->Err_0), flag_at)
    } else if flag is Err {
        (Err(flag->Err_0), signature_at)
    } else if !flag->Ok_0 {
        (
            Ok(PropertyText { name: name->Ok_0, value: value->Ok_0, signature: None }),
            signature_at,
        )
    } else if signature is Err {
        (Err(signature->Err_0), end)
    } else {
        (
            Ok(
                PropertyText {
                    name: name->Ok_0,
                    value: value->Ok_0,
                    signature: Some(signature->Ok_0),
                },
            ),
            end,
        )
    }
}

/// What reading `count` properties from `offset` on gives.
pub open spec fn properties_read(packet: Seq<u8>, offset: int, count: nat) -> (
    Result<Seq<PropertyText>, PacketError>,
    int,
)
    decreases count,
{
    if count == 0 {
        (Ok(Seq::empty()), offset)
    } else {
        let (first, next) = property_read(packet, offset);
        let (rest, end) = properties_read(packet, next, (count - 1) as nat);
        if first is Err {
            (Err(first->Err_0), next)
        } else if rest is Err {
            (Err(rest->Err_0), end)
        } else {
            (Ok(seq![first->Ok_0] + rest->Ok_0), end)
        }
    }
}

/// What a Login Success packet says. One boolean may follow the properties,
/// and nothing else.
pub open spec fn login_success_read(packet: Seq<u8>) -> Result<LoginSuccessText, PacketError> {
    let (id, uuid_at) = varint_read(packet, 0);
    let (name, count_at) = string_read(packet, uuid_at + 16);
    let (count, properties_at) = varint_read(packet, count_at);
    let (properties, flag_at) = properties_read(packet, properties_at, count->Ok_0 as nat);
    let (flag, flag_end) = bool_read(packet, flag_at);
    let end = if flag_at < packet.len() {
        flag_end
    } else {
        flag_at
    };
    if id is Err {
        Err(id->Err_0)
    } else if id->Ok_0 != 2 {
        Err(PacketError::NotLoginSuccess(id->Ok_0))
    } else if uuid_at + 16 > packet.len() {
        Err(PacketError::MissingUuid)
    } else if name is Err {
        Err(name->Err_0)
    } else if count is Err {
        Err(count->Err_0)
    } else if count->Ok_0 < 0 {
        Err(PacketError::NegativePropertiesCount)
    } else if properties is Err {
        Err(properties->Err_0)
    } else if flag_at < packet.len() && flag is Err {
        Err(flag->Err_0)
    } else if end != packet.len() {
        Err(PacketError::TrailingBytes((packet.len() - end) as usize))
    } else {
        Ok(
            LoginSuccessText {
                uuid: be_value(packet.subrange(uuid_at, uuid_at + 16)) as u128,
                username: name->Ok_0,
                properties: properties->Ok_0,
            },
        )
    }
}

fn read_property(packet: &[u8], offset: &mut usize) -> (r: Result<Property, PacketError>)
    requires
        *old(offset) <= packet.len(),
    ensures
        *final(offset) <= packet.len(),
        match property_read(packet@, *old(offset) as int).0 {
            Ok(text) => r matches Ok(p) && p@ == text,
            Err(e) => r == Err::<Property, PacketError>(e),
        },
        *final(offset) == property_read(packet@, *old(offset) as int).1,
{
    let name = match read_string_from_slice(packet, offset) {
        Ok(name) => name,
        Err(e) => return Err(e),
    };
    let value = match read_string_from_slice(packet, offset) {
        Ok(value) => value,
        Err(e) => return Err(e),
    };
    let has_signature = match read_bool_from_slice(packet, offset) {
        Ok(flag) => flag,
        Err(e) => return Err(e),
    };
    let signature: Option<String> = if has_signature {
        match read_string_from_slice(packet, offset) {
            Ok(signature) => Some(signature),
            Err(e) => return Err(e),
        }
    } else {
        None
    };
    Ok(Property { name, value, signature })
}

pub open spec fn property_texts(ps: Seq<Property>) -> Seq<PropertyText> {
    Seq::new(ps.len(), |i: int| ps[i]@)
}

fn read_properties(packet: &[u8], offset: &mut usize, count: usize) -> (r: Result<
    Vec<Property>,
    PacketError,
>)
    requires
        *old(offset) <= packet.len(),
    ensures
        *final(offset) <= packet.len(),
        match properties_read(packet@, *old(offset) as int, count as nat).0 {
            Ok(texts) => r matches Ok(ps) && property_texts(ps@) == texts,
            Err(e) => r == Err::<Vec<Property>, PacketError>(e),
        },
        r is Ok ==> *final(offset) == properties_read(
            packet@,
            *old(offset) as int,
            count as nat,
        ).1,
{
    let mut properties: Vec<Property> = Vec::new();
    let ghost goal = properties_read(packet@, *old(offset) as int, count as nat);
    let mut left: usize = count;
    proof {
        let rest = properties_read(packet@, *offset as int, left as nat);
        if rest.0 is Ok {
            assert(property_texts(properties@) + rest.0->Ok_0 =~= rest.0->Ok_0);
        }
    }
    while left > 0
        invariant
            *offset <= packet.len(),
            goal == properties_read(packet@, *old(offset) as int, count as nat),
            goal.1 == properties_read(packet@, *offset as int, left as nat).1,
            match properties_read(packet@, *offset as int, left as nat).0 {
                Ok(rest) => goal.0 == Ok::<Seq<PropertyText>, PacketError>(
                    property_texts(properties@) + rest,
                ),
                Err(e) => goal.0 == Err::<Seq<PropertyText>, PacketError>(e),
            },
        decreases left,
    {
        let ghost here = *offset as int;
        let ghost before = properties@;
        match read_property(packet, offset) {
            Ok(property) => {
                properties.push(property);
                proof {
                    assert(property_texts(properties@) =~= property_texts(before).push(property@));
                    let rest = properties_read(packet@, *offset as int, (left - 1) as nat);
                    if rest.0 is Ok {
                        assert(property_texts(before) + (seq![property@] + rest.0->Ok_0)
                            =~= property_texts(properties@) + rest.0->Ok_0);
                    }
                }
            },
            Err(e) => return Err(e),
        }
        left -= 1;
    }
    assert(property_texts(properties@) + Seq::<PropertyText>::empty() =~= property_texts(
        properties@,
    ));
    Ok(properties)
}

pub fn parse_backend_login_success(packet: &[u8]) -> (r: Result<LoginSuccessCore, PacketError>)
    ensures
        match login_success_read(packet@) {
            Ok(text) => r matches Ok(core) && core@ == text,
            Err(e) => r == Err::<LoginSuccessCore, PacketError>(e),
        },
{
    let mut offset: usize = 0;
    let id: i32 = match read_varint_from_slice(packet, &mut offset) {
        Ok(id) => id,
        Err(e) => return Err(e),
    };
    if id != 0x02 {
        return Err(PacketError::NotLoginSuccess(id));
    }
    if packet.len() - offset < 16 {
        return Err(PacketError::MissingUuid);
    }
    let uuid: u128 = read_be(slice_subrange(packet, offset, offset + 16));
    offset = offset + 16;
    let username = match read_string_from_slice(packet, &mut offset) {
        Ok(name) => name,
        Err(e) => return Err(e),
    };
    let properties_count: i32 = match read_varint_from_slice(packet, &mut offset) {
        Ok(count) => count,
        Err(e) => return Err(e),
    };
    if properties_count < 0 {
        return Err(PacketError::NegativePropertiesCount);
    }
    let properties = match read_properties(packet, &mut offset, properties_count as usize) {
        Ok(properties) => properties,
        Err(e) => return Err(e),
    };
    if offset < packet.len() {
        match read_bool_from_slice(packet, &mut offset) {
            Ok(_) => {},
            Err(e) => return Err(e),
        }
    }
    if offset != packet.len() {
        return Err(PacketError::TrailingBytes(packet.len() - offset));
    }
    let core = LoginSuccessCore { uuid, username, properties };
    assert(core@.properties =~= property_texts(properties@));
    Ok(core)
}

proof fn lemma_property_read_len(packet: Seq<u8>, offset: int)
    requires
        0 <= offset <= packet.len(),
        property_read(packet, offset).0 is Ok,
    ensures
        property_fits(property_read(packet, offset).0->Ok_0),
        property_bytes(property_read(packet, offset).0->Ok_0).len() <= property_read(
            packet,
            offset,
        ).1 - offset,
        property_read(packet, offset).1 <= packet.len(),
{
    let (name, value_at) = string_read(packet, offset);
    let (value, flag_at) = string_read(packet, value_at);
    let (flag, signature_at) = bool_read(packet, flag_at);
    lemma_read_string_len(packet, offset);
    lemma_read_string_len(packet, value_at);
    if flag->Ok_0 {
        lemma_read_string_len(packet, signature_at);
    }
}

proof fn lemma_properties_read_len(packet: Seq<u8>, offset: int, count: nat)
    requires
        0 <= offset <= packet.len(),
        properties_read(packet, offset, count).0 is Ok,
    ensures
        properties_read(packet, offset, count).0->Ok_0.len() == count,
        forall|i: int|
            0 <= i < count ==> property_fits(
                #[trigger] properties_read(packet, offset, count).0->Ok_0[i],
            ),
        properties_bytes(properties_read(packet, offset, count).0->Ok_0).len() <= properties_read(
            packet,
            offset,
            count,
        ).1 - offset,
        properties_read(packet, offset, count).1 <= packet.len(),
    decreases count,
{
    if count > 0 {
        let (first, next) = property_read(packet, offset);
        let (rest, _) = properties_read(packet, next, (count - 1) as nat);
        lemma_property_read_len(packet, offset);
        lemma_properties_read_len(packet, next, (count - 1) as nat);
        let all = properties_read(packet, offset, count).0->Ok_0;
        assert(all.drop_first() =~= rest->Ok_0);
        assert forall|i: int| 0 <= i < count implies property_fits(#[trigger] all[i]) by {
            if i > 0 {
                assert(all[i] == rest->Ok_0[i - 1]);
            }
        }
    }
}

/// What was read from a Login Success packet can be written again, and takes
/// at most one byte more: the flag, where the packet had none.
pub proof fn law_login_success_can_be_rebuilt(packet: Seq<u8>, strict: bool)
    requires
        login_success_read(packet) is Ok,
    ensures
        login_success_fits(login_success_read(packet)->Ok_0),
        login_success_bytes(login_success_read(packet)->Ok_0, strict).len() <= packet.len() + 1,
{
    let (id, uuid_at) = varint_read(packet, 0);
    let (name, count_at) = string_read(packet, uuid_at + 16);
    let (count, properties_at) = varint_read(packet, count_at);
    lemma_read_varint_len(packet, 0);
    lemma_read_string_len(packet, uuid_at + 16);
    lemma_read_varint_len(packet, count_at);
    lemma_properties_read_len(packet, properties_at, count->Ok_0 as nat);
    let core = login_success_read(packet)->Ok_0;
    lemma_be_bytes_len(core.uuid as nat, 16);
    assert(core.properties.len() as i32 == count->Ok_0);
}

proof fn lemma_property_round_trip(data: Seq<u8>, offset: int, p: PropertyText)
    requires
        property_fits(p),
        stands_at(data, offset, property_bytes(p)),
    ensures
        property_read(data, offset) == (
            Ok::<PropertyText, PacketError>(p),
            offset + property_bytes(p).len(),
        ),
{
    let tail = match p.signature {
        Some(signature) => bool_bytes(true) + string_bytes(signature),
        None => bool_bytes(false),
    };
    let value_at = offset + string_bytes(p.name).len();
    let flag_at = value_at + string_bytes(p.value).len();
    lemma_stands_split(data, offset, string_bytes(p.name), string_bytes(p.value) + tail);
    lemma_stands_split(data, value_at, string_bytes(p.value), tail);
    law_string_round_trip(data, offset, p.name);
    law_string_round_trip(data, value_at, p.value);
    match p.signature {
        Some(signature) => {
            lemma_stands_split(data, flag_at, bool_bytes(true), string_bytes(signature));
            law_bool_round_trip(data, flag_at, true);
            law_string_round_trip(data, flag_at + 1, signature);
        },
        None => {
            law_bool_round_trip(data, flag_at, false);
        },
    }
}

proof fn lemma_properties_round_trip(data: Seq<u8>, offset: int, ps: Seq<PropertyText>)
    requires
        forall|i: int| 0 <= i < ps.len() ==> property_fits(#[trigger] ps[i]),
        stands_at(data, offset, properties_bytes(ps)),
    ensures
        properties_read(data, offset, ps.len()) == (
            Ok::<Seq<PropertyText>, PacketError>(ps),
            offset + properties_bytes(ps).len(),
        ),
    decreases ps.len(),
{
    if ps.len() == 0 {
        assert(ps =~= Seq::<PropertyText>::empty());
    } else {
        let rest = ps.drop_first();
        lemma_stands_split(data, offset, property_bytes(ps[0]), properties_bytes(rest));
        lemma_property_round_trip(data, offset, ps[0]);
        assert forall|i: int| 0 <= i < rest.len() implies property_fits(#[trigger] rest[i]) by {
            assert(rest[i] == ps[i + 1]);
        }
        lemma_properties_round_trip(data, offset + property_bytes(ps[0]).len(), rest);
        assert(seq![ps[0]] + rest =~= ps);
    }
}

/// A Login Success packet decodes to what was encoded, with either value of
/// the flag at its end.
pub proof fn law_login_success_round_trip(core: LoginSuccessText, strict: bool)
    requires
        login_success_fits(core),
        core.properties.len() <= i32::MAX,
    ensures
        login_success_read(login_success_bytes(core, strict)) == Ok::<
            LoginSuccessText,
            PacketError,
        >(core),
{
    let data = login_success_bytes(core, strict);
    let count = core.properties.len() as i32;
    let uuid_part = be_bytes(core.uuid as nat, 16);
    let name_part = string_bytes(core.username);
    let count_part = varint_bytes(count as u32);
    let props_part = properties_bytes(core.properties);
    assert(uuid_part.len() == 16 && be_value(uuid_part) == core.uuid) by {
        lemma_be_bytes_len(core.uuid as nat, 16);
        lemma_be_limits();
        lemma_be_round_trip(core.uuid as nat, 16);
    }
    let a1 = varint_bytes(2).len() as int;
    let a2 = a1 + 16;
    let a3 = a2 + name_part.len();
    let a4 = a3 + count_part.len();
    let a5 = a4 + props_part.len();
    lemma_login_success_parts(
        data,
        varint_bytes(2),
        uuid_part,
        name_part,
        count_part,
        props_part,
        bool_bytes(strict),
    );
    assert(varint_read(data, 0) == (Ok::<i32, PacketError>(2), a1)) by {
        law_varint_round_trip(data, 0, 2);
    }
    assert(string_read(data, a2) == (Ok::<Seq<char>, PacketError>(core.username), a3)) by {
        law_string_round_trip(data, a2, core.username);
    }
    assert(varint_read(data, a3) == (Ok::<i32, PacketError>(count), a4)) by {
        law_varint_round_trip(data, a3, count);
    }
    assert(properties_read(data, a4, count as nat) == (
        Ok::<Seq<PropertyText>, PacketError>(core.properties),
        a5,
    )) by {
        assert(count as nat == core.properties.len());
        lemma_properties_round_trip(data, a4, core.properties);
    }
    assert(bool_read(data, a5) == (Ok::<bool, PacketError>(strict), a5 + 1)) by {
        law_bool_round_trip(data, a5, strict);
    }
    lemma_login_success_assembled(data, core, strict, a1, a3, a4, a5, count);
}

/// The parts of a Login Success packet, read one by one, make the whole.
proof fn lemma_login_success_assembled(
    data: Seq<u8>,
    core: LoginSuccessText,
    strict: bool,
    uuid_at: int,
    count_at: int,
    properties_at: int,
    flag_at: int,
    count: i32,
)
    requires
        varint_read(data, 0) == (Ok::<i32, PacketError>(2), uuid_at),
        0 <= uuid_at,
        uuid_at + 16 <= data.len(),
        be_value(data.subrange(uuid_at, uuid_at + 16)) == core.uuid,
        string_read(data, uuid_at + 16) == (
            Ok::<Seq<char>, PacketError>(core.username),
            count_at,
        ),
        varint_read(data, count_at) == (Ok::<i32, PacketError>(count), properties_at),
        count >= 0,
        properties_read(data, properties_at, count as nat) == (
            Ok::<Seq<PropertyText>, PacketError>(core.properties),
            flag_at,
        ),
        bool_read(data, flag_at) == (Ok::<bool, PacketError>(strict), flag_at + 1),
        flag_at + 1 == data.len(),
    ensures
        login_success_read(data) == Ok::<LoginSuccessText, PacketError>(core),
{
}

proof fn lemma_login_success_parts(
    data: Seq<u8>,
    p1: Seq<u8>,
    p2: Seq<u8>,
    p3: Seq<u8>,
    p4: Seq<u8>,
    p5: Seq<u8>,
    p6: Seq<u8>,
)
    requires
        data == p1 + (p2 + (p3 + (p4 + (p5 + p6)))),
    ensures
        data.len() == p1.len() + p2.len() + p3.len() + p4.len() + p5.len() + p6.len(),
        stands_at(data, 0, p1),
        stands_at(data, p1.len() as int, p2),
        stands_at(data, p1.len() + p2.len() as int, p3),
        stands_at(data, p1.len() + p2.len() + p3.len() as int, p4),
        stands_at(data, p1.len() + p2.len() + p3.len() + p4.len() as int, p5),
        stands_at(data, p1.len() + p2.len() + p3.len() + p4.len() + p5.len() as int, p6),
{
    assert(data.subrange(0, data.len() as int) =~= data);
    lemma_stands_split(data, 0, p1, p2 + (p3 + (p4 + (p5 + p6))));
    lemma_stands_split(data, p1.len() as int, p2, p3 + (p4 + (p5 + p6)));
    lemma_stands_split(data, p1.len() + p2.len() as int, p3, p4 + (p5 + p6));
    lemma_stands_split(data, p1.len() + p2.len() + p3.len() as int, p4, p5 + p6);
    lemma_stands_split(data, p1.len() + p2.len() + p3.len() + p4.len() as int, p5, p6);
}

/// The packet identifiers that the handoff watches for.
#[derive(Clone, Copy, Debug, PartialEq, Eq, Structural)]
pub struct HandoffIds {
    pub login_success: i32,
    pub login_disconnect: i32,
    pub login_ack: i32,
    pub config_finish_clientbound: i32,
    pub config_finish_serverbound: i32,
}

#[derive(Clone, Copy, Debug, PartialEq, Eq, Structural)]
pub enum HandoffPhase {
    Login,
    Config,
}

/// A login on its way from the backend to the client.
#[derive(Debug)]
pub struct Handoff {
    ids: HandoffIds,
    protocol_version: i32,
    fallback_username: String,
    phase: HandoffPhase,
    player_name: Option<String>,
    backend_sent_finish_config: bool,
    client_sent_finish_config: bool,
}

/// The state of a handoff with its names as texts.
#[verifier::ext_equal]
pub struct HandoffState {
    pub ids: HandoffIds,
    pub protocol_version: i32,
    pub fallback: Seq<char>,
    pub phase: HandoffPhase,
    pub player: Option<Seq<char>>,
    pub backend_finished: bool,
    pub client_finished: bool,
}

/// What becomes of a handoff after a packet.
#[derive(Debug)]
pub enum HandoffOutcome {
    Relaying,
    Disconnected,
    Established(String),
}

pub enum OutcomeText {
    Relaying,
    Disconnected,
    Established(Seq<char>),
}

impl View for HandoffOutcome {
    type V = OutcomeText;

    open spec fn view(&self) -> OutcomeText {
        match self {
            HandoffOutcome::Relaying => OutcomeText::Relaying,
            HandoffOutcome::Disconnected => OutcomeText::Disconnected,
            HandoffOutcome::Established(name) => OutcomeText::Established(name@),
        }
    }
}

impl View for Handoff {
    type V = HandoffState;

    closed spec fn view(&self) -> HandoffState {
        HandoffState {
            ids: self.ids,
            protocol_version: self.protocol_version,
            fallback: self.fallback_username@,
            phase: self.phase,
            player: match self.player_name {
                Some(name) => Some(name@),
                None => None,
            },
            backend_finished: self.backend_sent_finish_config,
            client_finished: self.client_sent_finish_config,
        }
    }
}

pub open spec fn player_of(s: HandoffState) -> Seq<char> {
    match s.player {
        Some(name) => name,
        None => s.fallback,
    }
}

/// The name under which the bridge is established, once both sides have
/// finished the configuration.
pub open spec fn outcome_of(s: HandoffState) -> OutcomeText {
    if s.backend_finished && s.client_finished {
        OutcomeText::Established(player_of(s))
    } else {
        OutcomeText::Relaying
    }
}

/// The first identifier that the version lacks, as an error.
pub open spec fn missing_id(ids: HandoffIds, protocol: i32) -> Option<PacketError> {
    if ids.login_success < 0 {
        Some(PacketError::PacketUnavailable(PacketLabel::LoginSuccess, protocol))
    } else if ids.login_disconnect < 0 {
        Some(PacketError::PacketUnavailable(PacketLabel::LoginDisconnect, protocol))
    } else if ids.login_ack < 0 {
        Some(PacketError::PacketUnavailable(PacketLabel::LoginAck, protocol))
    } else if ids.config_finish_clientbound < 0 {
        Some(PacketError::PacketUnavailable(PacketLabel::ConfigFinishClientbound, protocol))
    } else if ids.config_finish_serverbound < 0 {
        Some(PacketError::PacketUnavailable(PacketLabel::ConfigFinishServerbound, protocol))
    } else {
        None
    }
}

pub open spec fn handoff_start(
    ids: HandoffIds,
    protocol_version: i32,
    fallback: Seq<char>,
) -> HandoffState {
    HandoffState {
        ids,
        protocol_version,
        fallback,
        phase: HandoffPhase::Login,
        player: None,
        backend_finished: false,
        client_finished: false,
    }
}

/// What a packet from the backend does: the payload for the client, the next
/// state and the outcome.
pub open spec fn backend_step(s: HandoffState, packet: Seq<u8>) -> Result<
    (HandoffState, Seq<u8>, OutcomeText),
    PacketError,
> {
    match varint_read(packet, 0).0 {
        Err(e) => Err(e),
        Ok(id) => if s.phase == HandoffPhase::Login && id == s.ids.login_success {
            match login_success_read(packet) {
                Err(e) => Err(e),
                Ok(core) => Ok(
                    (
                        HandoffState { player: Some(core.username), ..s },
                        login_success_bytes(core, strict_for(s.protocol_version)),
                        OutcomeText::Relaying,
                    ),
                ),
            }
        } else if s.phase == HandoffPhase::Login && id == s.ids.login_disconnect {
            Ok((s, packet, OutcomeText::Disconnected))
        } else if s.phase == HandoffPhase::Config && id == s.ids.config_finish_clientbound {
            let next = HandoffState { backend_finished: true, ..s };
            Ok((next, packet, outcome_of(next)))
        } else {
            Ok((s, packet, OutcomeText::Relaying))
        },
    }
}

/// What a packet from the client does. The packet itself goes to the backend.
pub open spec fn client_step(s: HandoffState, packet: Seq<u8>) -> Result<
    (HandoffState, OutcomeText),
    PacketError,
> {
    match varint_read(packet, 0).0 {
        Err(e) => Err(e),
        Ok(id) => if s.phase == HandoffPhase::Login {
            if s.player is Some && id == s.ids.login_ack {
                Ok((HandoffState { phase: HandoffPhase::Config, ..s }, OutcomeText::Relaying))
            } else {
                Ok((s, OutcomeText::Relaying))
            }
        } else if id == s.ids.config_finish_serverbound {
            let next = HandoffState { client_finished: true, ..s };
            Ok((next, outcome_of(next)))
        } else {
            Ok((s, OutcomeText::Relaying))
        },
    }
}

impl Handoff {
    /// Starts a handoff. `ids` are what the packet tables give for the version
    /// with number `version`: negative where a packet is missing.
    pub fn new(
        ids: HandoffIds,
        version: i32,
        protocol_version: i32,
        fallback_username: String,
    ) -> (r: Result<Handoff, PacketError>)
        ensures
            match missing_id(ids, version) {
                Some(e) => r == Err::<Handoff, PacketError>(e),
                None => r matches Ok(h) && h@ == handoff_start(
                    ids,
                    protocol_version,
                    fallback_username@,
                ),
            },
    {
        match packet_id_for_version(ids.login_success, version, PacketLabel::LoginSuccess) {
            Ok(_) => {},
            Err(e) => return Err(e),
        }
        match packet_id_for_version(ids.login_disconnect, version, PacketLabel::LoginDisconnect) {
            Ok(_) => {},
            Err(e) => return Err(e),
        }
        match packet_id_for_version(ids.login_ack, version, PacketLabel::LoginAck) {
            Ok(_) => {},
            Err(e) => return Err(e),
        }
        match packet_id_for_version(
            ids.config_finish_clientbound,
            version,
            PacketLabel::ConfigFinishClientbound,
        ) {
            Ok(_) => {},
            Err(e) => return Err(e),
        }
        match packet_id_for_version(
            ids.config_finish_serverbound,
            version,
            PacketLabel::ConfigFinishServerbound,
        ) {
            Ok(_) => {},
            Err(e) => return Err(e),
        }
        Ok(
            Handoff {
                ids,
                protocol_version,
                fallback_username,
                phase: HandoffPhase::Login,
                player_name: None,
                backend_sent_finish_config: false,
                client_sent_finish_config: false,
            },
        )
    }

    fn outcome(&self) -> (r: HandoffOutcome)
        ensures
            r@ == outcome_of(self@),
    {
        if self.backend_sent_finish_config && self.client_sent_finish_config {
            match &self.player_name {
                Some(name) => HandoffOutcome::Established(name.clone()),
                None => HandoffOutcome::Established(self.fallback_username.clone()),
            }
        } else {
            HandoffOutcome::Relaying
        }
    }

    /// Takes a packet from the backend. Gives the payload for the client and
    /// the outcome; an error leaves the state as it was.
    pub fn on_backend_packet(&mut self, packet: &[u8]) -> (r: Result<
        (Vec<u8>, HandoffOutcome),
        PacketError,
    >)
        requires
            packet@.len() <= MAX_PACKET_LEN,
        ensures
            match backend_step(old(self)@, packet@) {
                Ok((next, payload, outcome)) => r matches Ok((p, o)) && p@ == payload && o@
                    == outcome && final(self)@ == next,
                Err(e) => r == Err::<(Vec<u8>, HandoffOutcome), PacketError>(e) && final(self)@
                    == old(self)@,
            },
    {
        let id: i32 = match packet_id(packet) {
            Ok(id) => id,
            Err(e) => return Err(e),
        };
        match self.phase {
            HandoffPhase::Login => {
                if id == self.ids.login_success {
                    let core = match parse_backend_login_success(packet) {
                        Ok(core) => core,
                        Err(e) => return Err(e),
                    };
                    let strict = strict_error_handling(self.protocol_version);
                    proof {
                        law_login_success_can_be_rebuilt(packet@, strict);
                    }
                    let rebuilt = match build_login_success_packet(&core, strict) {
                        Ok(rebuilt) => rebuilt,
                        Err(e) => return Err(e),
                    };
                    self.player_name = Some(core.username);
                    return Ok((slice_to_vec(rebuilt.as_slice()), HandoffOutcome::Relaying));
                }
                if id == self.ids.login_disconnect {
                    return Ok((slice_to_vec(packet), HandoffOutcome::Disconnected));
                }
                Ok((slice_to_vec(packet), HandoffOutcome::Relaying))
            },
            HandoffPhase::Config => {
                if id == self.ids.config_finish_clientbound {
                    self.backend_sent_finish_config = true;
                    let outcome = self.outcome();
                    return Ok((slice_to_vec(packet), outcome));
                }
                Ok((slice_to_vec(packet), HandoffOutcome::Relaying))
            },
        }
    }

    /// Takes a packet from the client, which goes to the backend as it is.
    pub fn on_client_packet(&mut self, packet: &[u8]) -> (r: Result<HandoffOutcome, PacketError>)
        ensures
            match client_step(old(self)@, packet@) {
                Ok((next, outcome)) => r matches Ok(o) && o@ == outcome && final(self)@ == next,
                Err(e) => r == Err::<HandoffOutcome, PacketError>(e) && final(self)@ == old(self)@,
            },
    {
        let id: i32 = match packet_id(packet) {
            Ok(id) => id,
            Err(e) => return Err(e),
        };
        match self.phase {
            HandoffPhase::Login => {
                if self.player_name.is_some() && id == self.ids.login_ack {
                    self.phase = HandoffPhase::Config;
                }
                Ok(HandoffOutcome::Relaying)
            },
            HandoffPhase::Config => {
                if id == self.ids.config_finish_serverbound {
                    self.client_sent_finish_config = true;
                    let outcome = self.outcome();
                    return Ok(outcome);
                }
                Ok(HandoffOutcome::Relaying)
            },
        }
    }
}

/// A packet of either side.
pub enum HandoffEvent {
    Backend(Seq<u8>),
    Client(Seq<u8>),
}

/// The state after a run of packets; a packet that is refused changes nothing.
pub open spec fn handoff_after(s: HandoffState, events: Seq<HandoffEvent>) -> HandoffState
    decreases events.len(),
{
    if events.len() == 0 {
        s
    } else {
        let before = handoff_after(s, events.drop_last());
        match events.last() {
            HandoffEvent::Backend(packet) => match backend_step(before, packet) {
                Ok((next, _, _)) => next,
                Err(_) => before,
            },
            HandoffEvent::Client(packet) => match client_step(before, packet) {
                Ok((next, _)) => next,
                Err(_) => before,
            },
        }
    }
}

/// Whether a packet with this identifier came from the backend.
pub open spec fn backend_sent(events: Seq<HandoffEvent>, id: i32) -> bool {
    exists|i: int|
        0 <= i < events.len() && (#[trigger] events[i] matches HandoffEvent::Backend(packet)
            && varint_read(packet, 0).0 == Ok::<i32, PacketError>(id))
}

/// Whether a packet with this identifier came from the client.
pub open spec fn client_sent(events: Seq<HandoffEvent>, id: i32) -> bool {
    exists|i: int|
        0 <= i < events.len() && (#[trigger] events[i] matches HandoffEvent::Client(packet)
            && varint_read(packet, 0).0 == Ok::<i32, PacketError>(id))
}

/// A bridge is established only after the backend has sent Login Success, the
/// client has acknowledged it, and both have finished the configuration; and
/// the identifiers and names that the handoff started with never change.
pub proof fn law_handoff_needs_every_step(
    ids: HandoffIds,
    protocol_version: i32,
    fallback: Seq<char>,
    events: Seq<HandoffEvent>,
)
    ensures
        ({
            let end = handoff_after(handoff_start(ids, protocol_version, fallback), events);
            &&& end.ids == ids
            &&& end.fallback == fallback
            &&& end.player is Some ==> backend_sent(events, ids.login_success)
            &&& end.phase == HandoffPhase::Config ==> end.player is Some && client_sent(
                events,
                ids.login_ack,
            )
            &&& end.backend_finished ==> end.phase == HandoffPhase::Config && backend_sent(
                events,
                ids.config_finish_clientbound,
            )
            &&& end.client_finished ==> end.phase == HandoffPhase::Config && client_sent(
                events,
                ids.config_finish_serverbound,
            )
            &&& outcome_of(end) is Established ==> backend_sent(events, ids.login_success)
                && client_sent(events, ids.login_ack) && backend_sent(
                events,
                ids.config_finish_clientbound,
            ) && client_sent(events, ids.config_finish_serverbound)
        }),
    decreases events.len(),
{
    if events.len() > 0 {
        let earlier = events.drop_last();
        law_handoff_needs_every_step(ids, protocol_version, fallback, earlier);
        assert forall|id: i32| backend_sent(earlier, id) implies #[trigger] backend_sent(
            events,
            id,
        ) by {
            let i = choose|i: int|
                0 <= i < earlier.len() && (#[trigger] earlier[i] matches HandoffEvent::Backend(
                    packet,
                ) && varint_read(packet, 0).0 == Ok::<i32, PacketError>(id));
            assert(events[i] == earlier[i]);
        }
        assert forall|id: i32| client_sent(earlier, id) implies #[trigger] client_sent(
            events,
            id,
        ) by {
            let i = choose|i: int|
                0 <= i < earlier.len() && (#[trigger] earlier[i] matches HandoffEvent::Client(
                    packet,
                ) && varint_read(packet, 0).0 == Ok::<i32, PacketError>(id));
            assert(events[i] == earlier[i]);
        }
        let last = events.len() - 1;
        assert(events[last] == events.last());
        match events.last() {
            HandoffEvent::Backend(packet) => {
                if varint_read(packet, 0).0 is Ok {
                    assert(backend_sent(events, varint_read(packet, 0).0->Ok_0));
                }
            },
            HandoffEvent::Client(packet) => {
                if varint_read(packet, 0).0 is Ok {
                    assert(client_sent(events, varint_read(packet, 0).0->Ok_0));
                }
            },
        }
    }
}

} // verus!
