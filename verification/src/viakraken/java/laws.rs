//! What holds of the way from the first bytes of a connection to play.

use vstd::prelude::*;
use vstd::utf8::encode_utf8;
use crate::big_endian::{be_bytes, lemma_be_bytes_len};
use crate::error::{decoder_exception, ErrorClass, PacketError, PacketLabel};
use crate::number::{decimal, signed_decimal};
use crate::viakraken::bedrock::{bedrock_refusal_bytes, looks_like_bedrock, occurs_at, raknet_magic};
use crate::viakraken::java::connection::{joining_name, Ingress};
use crate::viakraken::java::handoff::{backend_step, client_step, handoff_start, law_login_success_round_trip, missing_id, HandoffIds, HandoffPhase, HandoffState, OutcomeText};
use crate::viakraken::java::login::{login_step, tag_groups, LoginAction, LoginPhase, OptionalTags, TagGroup};
use crate::viakraken::java::packets::{disconnect_bytes, login_success_bytes, login_success_fits, reason_json};
use crate::viakraken::java::protocol::{handshake_read, law_handshake_round_trip, law_login_start_round_trip};
use crate::viakraken::java::status::{pong_for, status_for, status_payload};
use crate::viakraken::java::support::{bridge_direction, login_supported, looks_closed, strict_for, Peek, PeekFailure};
use crate::viakraken::java::types::{HandshakeInfo, LoginSuccessText};
use crate::viakraken::listener::{bind_step, next_port, BindOutcome, BindStep, PortSearch};
use crate::viakraken::proxy::{contact_of, relay_step, Contact};
use crate::viakraken::utils::{escaped, frame_bytes, law_json_escape_reads_back, law_string_round_trip, law_varint_round_trip, lemma_stands_split, string_bytes, string_fits, string_read, unescaped, varint_bytes, varint_read};

verus! {

/// The versions 766, 767, 774 and 775 may log in, and no other. All of them but
/// the first are told how errors are handled.
pub proof fn law_versions_that_may_log_in(version: i32)
    ensures
        login_supported(version) <==> version == 766 || version == 767 || version == 774 || version
            == 775,
        login_supported(version) ==> (strict_for(version) <==> version != 766),
        strict_for(version) <==> version >= 767,
{
}

/// What a handshake asks for, from its bytes: state 1 is the status, state 2 the
/// login, which takes one of the versions that may log in; other states are
/// none. The address and the port do not count.
pub proof fn law_handshakes_are_routed(
    version: i32,
    address: Seq<char>,
    port: Seq<u8>,
    next_state: i32,
    sniffed: Seq<u8>,
)
    requires
        string_fits(address),
        port.len() == 2,
        !looks_like_bedrock(sniffed),
    ensures
        ({
            let packet = varint_bytes(0) + (varint_bytes(version as u32) + (string_bytes(address)
                + (port + varint_bytes(next_state as u32))));
            let contact = contact_of(sniffed, packet);
            let supported = version == 766 || version == 767 || version == 774 || version == 775;
            &&& next_state == 1 ==> contact == Ok::<Contact, PacketError>(
                Contact::Java(Ingress::Status { protocol_version: version }),
            )
            &&& next_state == 2 && supported ==> contact == Ok::<Contact, PacketError>(
                Contact::Java(Ingress::Login { protocol_version: version }),
            )
            &&& next_state == 2 && !supported ==> contact == Ok::<Contact, PacketError>(
                Contact::Java(Ingress::UnsupportedProtocol { protocol_version: version }),
            )
            &&& next_state != 1 && next_state != 2 ==> contact == Ok::<Contact, PacketError>(
                Contact::Java(Ingress::InvalidState { next_state }),
            )
        }),
{
    law_handshake_round_trip(version, address, port, next_state);
}

/// A first packet with another number than 0 is no handshake.
pub proof fn law_first_packet_is_a_handshake(id: i32, rest: Seq<u8>)
    requires
        id != 0,
    ensures
        handshake_read(varint_bytes(id as u32) + rest) == Err::<HandshakeInfo, PacketError>(
            PacketError::NotHandshake,
        ),
{
    let head = varint_bytes(id as u32);
    let p = head + rest;
    assert(p.subrange(0, head.len() as int) =~= head);
    law_varint_round_trip(p, 0, id);
}

/// A Bedrock client is recognised by the number of its first message, or by the
/// sixteen bytes that no Java client sends, wherever they stand. It is turned
/// away before anything else is looked at.
pub proof fn law_bedrock_clients_are_recognised(front: Seq<u8>, back: Seq<u8>, packet: Seq<u8>)
    ensures
        ({
            let magic = seq![
                0x00u8, 0xff, 0xff, 0x00, 0xfe, 0xfe, 0xfe, 0xfe, 0xfd, 0xfd, 0xfd, 0xfd, 0x12,
                0x34, 0x56, 0x78,
            ];
            &&& looks_like_bedrock(front + magic + back)
            &&& contact_of(front + magic + back, packet) == Ok::<Contact, PacketError>(
                Contact::Bedrock,
            )
        }),
        looks_like_bedrock(seq![0x01u8] + back),
        looks_like_bedrock(seq![0x05u8] + back),
        looks_like_bedrock(seq![0x07u8] + back),
        looks_like_bedrock(seq![0x09u8] + back),
        looks_like_bedrock(seq![0x1cu8] + back),
        !looks_like_bedrock(Seq::empty()),
        back.len() < 15 ==> !looks_like_bedrock(seq![0x10u8] + back),
{
    let magic = raknet_magic();
    let data = front + magic + back;
    assert(data.subrange(front.len() as int, front.len() as int + 16) =~= magic);
    assert(occurs_at(data, magic, front.len() as int));
    assert((seq![0x01u8] + back)[0] == 0x01);
    assert((seq![0x05u8] + back)[0] == 0x05);
    assert((seq![0x07u8] + back)[0] == 0x07);
    assert((seq![0x09u8] + back)[0] == 0x09);
    assert((seq![0x1cu8] + back)[0] == 0x1c);
    assert((seq![0x10u8] + back)[0] == 0x10);
}

/// The refusal of a Bedrock client: packet 5, reason 2, two flags that are not
/// set, the message, and two empty texts.
pub proof fn law_bedrock_refusal_layout()
    ensures
        ({
            let message = encode_utf8("Bedrock Support Coming Soon"@);
            let n = varint_bytes(message.len() as u32);
            let bytes = bedrock_refusal_bytes();
            &&& bytes.len() == 6 + n.len() + message.len()
            &&& bytes[0] == 5 && bytes[1] == 2 && bytes[2] == 0 && bytes[3] == 0
            &&& bytes.subrange(4, 4 + n.len() as int) == n
            &&& bytes.subrange(4 + n.len() as int, 4 + n.len() as int + message.len()) == message
            &&& bytes[bytes.len() - 2] == 0 && bytes[bytes.len() - 1] == 0
        }),
{
    let message = encode_utf8("Bedrock Support Coming Soon"@);
    let n = varint_bytes(message.len() as u32);
    let bytes = bedrock_refusal_bytes();
    assert(bytes =~= seq![5u8, 2, 0, 0] + n + message + seq![0u8, 0]);
    assert(bytes.subrange(4, 4 + n.len() as int) =~= n);
    assert(bytes.subrange(4 + n.len() as int, 4 + n.len() as int + message.len()) =~= message);
}

/// A ping is answered with itself: the frame of the answer holds the same packet
/// as was asked with.
pub proof fn law_pings_are_echoed(number: Seq<u8>)
    requires
        number.len() == 8,
    ensures
        pong_for(varint_bytes(1) + number) == Ok::<Option<Seq<u8>>, PacketError>(
            Some(frame_bytes(varint_bytes(1) + number)),
        ),
{
    let head = varint_bytes(1);
    let p = head + number;
    assert(p.subrange(0, head.len() as int) =~= head);
    law_varint_round_trip(p, 0, 1);
    assert(p.subrange(head.len() as int, head.len() as int + 8) =~= number);
}

/// The server list shows the versions 774 and 776 their own number, and all
/// others 774 with a sample that tells them that they do not fit.
pub proof fn law_status_documents(version: i32, max_players: u32, motd: Seq<char>)
    ensures
        version == 774 || version == 776 ==> status_for(version, max_players, motd)
            == "{\"version\":{\"name\":\""@ + "Kraken 1.21.11"@ + "\",\"protocol\":"@
            + signed_decimal(version as int) + "},\"players\":{\"max\":"@ + decimal(
            max_players as nat,
        ) + ",\"online\":0,\"sample\":"@ + "[]"@ + "},\"description\":{\"text\":\""@ + escaped(motd)
            + "\"}}"@,
        version != 774 && version != 776 ==> status_for(version, max_players, motd)
            == "{\"version\":{\"name\":\""@ + "Kraken 1.21.11"@ + "\",\"protocol\":"@
            + signed_decimal(774) + "},\"players\":{\"max\":"@ + decimal(max_players as nat)
            + ",\"online\":0,\"sample\":"@
            + "[{\"name\":\"Incompatible version!\",\"id\":\"00000000-0000-0000-0000-000000000000\"}]"@
            + "},\"description\":{\"text\":\""@ + escaped(motd) + "\"}}"@,
{
}

/// A status response is packet 0 with the document as its text.
pub proof fn law_status_response_holds_the_document(json: Seq<char>)
    requires
        string_fits(json),
    ensures
        varint_read(status_payload(json), 0).0 == Ok::<i32, PacketError>(0),
        string_read(status_payload(json), varint_read(status_payload(json), 0).1).0 == Ok::<
            Seq<char>,
            PacketError,
        >(json),
{
    lemma_text_packet(json);
}

proof fn lemma_text_packet(text: Seq<char>)
    requires
        string_fits(text),
    ensures
        ({
            let p = varint_bytes(0) + string_bytes(text);
            &&& varint_read(p, 0) == (Ok::<i32, PacketError>(0), varint_bytes(0).len() as int)
            &&& string_read(p, varint_bytes(0).len() as int).0 == Ok::<Seq<char>, PacketError>(text)
        }),
{
    let head = varint_bytes(0);
    let p = head + string_bytes(text);
    assert(p.subrange(0, p.len() as int) =~= p);
    lemma_stands_split(p, 0, head, string_bytes(text));
    law_varint_round_trip(p, 0, 0);
    law_string_round_trip(p, head.len() as int, text);
}

/// A client that is turned away reads the reason as it was given: packet 0 with
/// a text component whose text is the reason.
pub proof fn law_refusals_give_the_reason(reason: Seq<char>)
    requires
        string_fits(reason_json(reason)),
    ensures
        ({
            let packet = disconnect_bytes(reason_json(reason));
            let body = escaped(reason);
            &&& varint_read(packet, 0).0 == Ok::<i32, PacketError>(0)
            &&& string_read(packet, varint_read(packet, 0).1).0 == Ok::<Seq<char>, PacketError>(
                "{\"text\":\""@ + body + "\"}"@,
            )
            &&& unescaped(body) == Some(reason)
        }),
{
    lemma_text_packet(reason_json(reason));
    law_json_escape_reads_back(reason);
}

/// The layout of Login Success: packet 2, the identity with its highest byte
/// first, the name, the properties behind their number, and the flag.
pub proof fn law_login_success_layout(core: LoginSuccessText, strict: bool)
    ensures
        ({
            let bytes = login_success_bytes(core, strict);
            let name = string_bytes(core.username);
            &&& bytes[0] == 2
            &&& bytes.subrange(1, 17) == be_bytes(core.uuid as nat, 16)
            &&& bytes.subrange(17, 17 + name.len() as int) == name
            &&& bytes.last() == (if strict {
                1u8
            } else {
                0u8
            })
        }),
{
    lemma_be_bytes_len(core.uuid as nat, 16);
    let bytes = login_success_bytes(core, strict);
    let name = string_bytes(core.username);
    assert(bytes.subrange(1, 17) =~= be_bytes(core.uuid as nat, 16));
    assert(bytes.subrange(17, 17 + name.len() as int) =~= name);
}

/// A login that goes well: the backend lets the player in, the client
/// acknowledges it, and both finish the configuration, the backend first. Then
/// the bridge stands, for the player whom the backend named, and the client has
/// been sent what the backend said, with the flag that its version takes.
pub proof fn law_a_full_handoff_is_established(
    ids: HandoffIds,
    version: i32,
    fallback: Seq<char>,
    core: LoginSuccessText,
    flag: bool,
    ack: Seq<u8>,
    backend_finish: Seq<u8>,
    client_finish: Seq<u8>,
)
    requires
        ids.login_success == 2,
        login_success_fits(core),
        core.properties.len() <= i32::MAX,
        varint_read(ack, 0).0 == Ok::<i32, PacketError>(ids.login_ack),
        varint_read(backend_finish, 0).0 == Ok::<i32, PacketError>(ids.config_finish_clientbound),
        varint_read(client_finish, 0).0 == Ok::<i32, PacketError>(ids.config_finish_serverbound),
    ensures
        ({
            let s0 = handoff_start(ids, version, fallback);
            let first = backend_step(s0, login_success_bytes(core, flag));
            let s1 = first->Ok_0.0;
            let second = client_step(s1, ack);
            let s2 = second->Ok_0.0;
            let third = backend_step(s2, backend_finish);
            let s3 = third->Ok_0.0;
            let fourth = client_step(s3, client_finish);
            &&& first is Ok && second is Ok && third is Ok && fourth is Ok
            &&& first->Ok_0.1 == login_success_bytes(core, version >= 767)
            &&& s1.player == Some(core.username) && s1.phase == HandoffPhase::Login
            &&& s2.phase == HandoffPhase::Config
            &&& third->Ok_0.1 == backend_finish && third->Ok_0.2 == OutcomeText::Relaying
            &&& fourth->Ok_0.1 == OutcomeText::Established(core.username)
        }),
{
    law_login_success_round_trip(core, flag);
    let success = login_success_bytes(core, flag);
    let two = varint_bytes(2);
    assert(success.subrange(0, two.len() as int) =~= two);
    law_varint_round_trip(success, 0, 2);
}

/// A refusal of the backend reaches the client as it is and ends the login.
pub proof fn law_backend_refusals_end_the_login(s: HandoffState, packet: Seq<u8>)
    requires
        s.phase == HandoffPhase::Login,
        s.ids.login_disconnect != s.ids.login_success,
        varint_read(packet, 0).0 == Ok::<i32, PacketError>(s.ids.login_disconnect),
    ensures
        backend_step(s, packet) == Ok::<(HandoffState, Seq<u8>, OutcomeText), PacketError>(
            (s, packet, OutcomeText::Disconnected),
        ),
{
}

/// A version without one of the packets of the handoff is refused, with the name
/// of the first that it lacks.
pub proof fn law_missing_packets_are_named(ids: HandoffIds, version: i32)
    ensures
        missing_id(ids, version) is None <==> ids.login_success >= 0 && ids.login_disconnect >= 0
            && ids.login_ack >= 0 && ids.config_finish_clientbound >= 0
            && ids.config_finish_serverbound >= 0,
        ids.login_success < 0 ==> missing_id(ids, version) == Some(
            PacketError::PacketUnavailable(PacketLabel::LoginSuccess, version),
        ),
        missing_id(ids, version) == Some(
            PacketError::PacketUnavailable(PacketLabel::LoginDisconnect, version),
        ) ==> ids.login_disconnect < 0,
        missing_id(ids, version) == Some(
            PacketError::PacketUnavailable(PacketLabel::LoginAck, version),
        ) ==> ids.login_ack < 0,
        missing_id(ids, version) == Some(
            PacketError::PacketUnavailable(PacketLabel::ConfigFinishClientbound, version),
        ) ==> ids.config_finish_clientbound < 0,
        missing_id(ids, version) == Some(
            PacketError::PacketUnavailable(PacketLabel::ConfigFinishServerbound, version),
        ) ==> ids.config_finish_serverbound < 0,
{
}

/// The early relay is established by Login Success and ended by a refusal; all
/// else passes through as it is.
pub proof fn law_relay_passes_packets_on(
    version: i32,
    core: LoginSuccessText,
    flag: bool,
    id: i32,
    body: Seq<u8>,
)
    requires
        login_success_fits(core),
        core.properties.len() <= i32::MAX,
    ensures
        relay_step(version, login_success_bytes(core, flag)) == Ok::<
            (Seq<u8>, OutcomeText),
            PacketError,
        >(
            (
                login_success_bytes(core, version >= 767),
                OutcomeText::Established(core.username),
            ),
        ),
        id == 0 ==> relay_step(version, varint_bytes(id as u32) + body) == Ok::<
            (Seq<u8>, OutcomeText),
            PacketError,
        >((varint_bytes(id as u32) + body, OutcomeText::Disconnected)),
        id != 0 && id != 2 ==> relay_step(version, varint_bytes(id as u32) + body) == Ok::<
            (Seq<u8>, OutcomeText),
            PacketError,
        >((varint_bytes(id as u32) + body, OutcomeText::Relaying)),
{
    law_login_success_round_trip(core, flag);
    let success = login_success_bytes(core, flag);
    let two = varint_bytes(2);
    assert(success.subrange(0, two.len() as int) =~= two);
    law_varint_round_trip(success, 0, 2);
    let head = varint_bytes(id as u32);
    let p = head + body;
    assert(p.subrange(0, head.len() as int) =~= head);
    law_varint_round_trip(p, 0, id);
}

/// The configuration is sent once the client has acknowledged its login or has
/// let the time pass; play begins with the packet that finishes the
/// configuration, other packets are waited through, and silence gives up.
pub proof fn law_steps_of_a_login(id: i32, body: Seq<u8>, finish_id: i32)
    ensures
        ({
            let packet = varint_bytes(id as u32) + body;
            &&& login_step(LoginPhase::AwaitAck, Some(packet), finish_id) == Ok::<
                (LoginPhase, LoginAction),
                PacketError,
            >((LoginPhase::AwaitFinish, LoginAction::SendConfiguration))
            &&& login_step(LoginPhase::AwaitAck, None, finish_id) == Ok::<
                (LoginPhase, LoginAction),
                PacketError,
            >((LoginPhase::AwaitFinish, LoginAction::SendConfiguration))
            &&& id == finish_id ==> login_step(LoginPhase::AwaitFinish, Some(packet), finish_id)
                == Ok::<(LoginPhase, LoginAction), PacketError>(
                (LoginPhase::Play, LoginAction::EnterPlay),
            )
            &&& id != finish_id ==> login_step(LoginPhase::AwaitFinish, Some(packet), finish_id)
                == Ok::<(LoginPhase, LoginAction), PacketError>(
                (LoginPhase::AwaitFinish, LoginAction::KeepWaiting),
            )
            &&& login_step(LoginPhase::AwaitFinish, None, finish_id) == Ok::<
                (LoginPhase, LoginAction),
                PacketError,
            >((LoginPhase::Abandoned, LoginAction::GiveUp))
        }),
{
    let head = varint_bytes(id as u32);
    let p = head + body;
    assert(p.subrange(0, head.len() as int) =~= head);
    law_varint_round_trip(p, 0, id);
}

/// Seven groups of tags are always sent, in this order. Of the other four each
/// is sent where the version has it, and timelines only from their version on.
pub proof fn law_tags_that_are_sent(protocol: u32, timelines: u32, has: OptionalTags)
    ensures
        ({
            let tags = tag_groups(protocol, timelines, has);
            &&& tags.take(7) == seq![
                TagGroup::Block,
                TagGroup::Fluid,
                TagGroup::Enchantment,
                TagGroup::WorldgenBiome,
                TagGroup::Item,
                TagGroup::EntityType,
                TagGroup::Dialog,
            ]
            &&& tags.contains(TagGroup::Timeline) <==> has.timeline && protocol >= timelines
            &&& tags.contains(TagGroup::DimensionType) <==> has.dimension_type
            &&& tags.contains(TagGroup::DamageType) <==> has.damage_type
            &&& tags.contains(TagGroup::BannerPattern) <==> has.banner_pattern
            &&& tags.no_duplicates()
        }),
{
    let tags = tag_groups(protocol, timelines, has);
    assert(tags.take(7) =~= seq![
        TagGroup::Block,
        TagGroup::Fluid,
        TagGroup::Enchantment,
        TagGroup::WorldgenBiome,
        TagGroup::Item,
        TagGroup::EntityType,
        TagGroup::Dialog,
    ]);
    let a: int = if protocol >= timelines && has.timeline {
        1
    } else {
        0
    };
    let b: int = if has.dimension_type {
        1
    } else {
        0
    };
    let c: int = if has.damage_type {
        1
    } else {
        0
    };
    if a == 1 {
        assert(tags[7] == TagGroup::Timeline);
    }
    if b == 1 {
        assert(tags[7 + a] == TagGroup::DimensionType);
    }
    if c == 1 {
        assert(tags[7 + a + b] == TagGroup::DamageType);
    }
    if has.banner_pattern {
        assert(tags[7 + a + b + c] == TagGroup::BannerPattern);
    }
}

/// A bridge fails towards the end that is still there: where only the client is
/// gone, what it sent was on its way to the backend, and the other way round.
pub proof fn law_direction_of_a_broken_bridge()
    ensures
        bridge_direction(true, false) == "client_to_backend"@,
        bridge_direction(false, true) == "backend_to_client"@,
        bridge_direction(true, true) == "both_sides"@,
        bridge_direction(false, false) == "unknown"@,
{
}

/// A stream looks closed where nothing can be read any more, or looking fails
/// for a reason that ends a connection; not while it is only silent.
pub proof fn law_when_a_stream_looks_closed(n: usize)
    ensures
        looks_closed(Peek::Read(n)) <==> n == 0,
        !looks_closed(Peek::TimedOut),
        looks_closed(Peek::Failed(PeekFailure::ConnectionReset)),
        looks_closed(Peek::Failed(PeekFailure::BrokenPipe)),
        looks_closed(Peek::Failed(PeekFailure::NotConnected)),
        looks_closed(Peek::Failed(PeekFailure::UnexpectedEof)),
        !looks_closed(Peek::Failed(PeekFailure::Other)),
{
}

/// A port that could be bound is listened on; one in use leads to the next, and
/// any other failure is final.
pub proof fn law_ports_that_are_tried(port: u16, attempt: u8)
    ensures
        bind_step(PortSearch { port, attempt }, BindOutcome::Bound) == (BindStep::Listen {
            port,
            recovered: attempt > 1,
        }),
        attempt < 10 && port < u16::MAX ==> bind_step(
            PortSearch { port, attempt },
            BindOutcome::InUse,
        ) == BindStep::Retry(PortSearch { port: (port + 1) as u16, attempt: (attempt + 1) as u8 }),
        attempt >= 10 ==> bind_step(PortSearch { port, attempt }, BindOutcome::InUse)
            == BindStep::GiveUp,
        bind_step(PortSearch { port, attempt }, BindOutcome::Failed) == BindStep::Fail,
        port < u16::MAX ==> next_port(port) == port + 1,
{
}

/// Data that ends too early and data that makes no sense count as malformed;
/// what the server itself could not write does not.
pub proof fn law_malformed_data(message: Seq<char>)
    ensures
        PacketError::VarIntEof.spec_class() == ErrorClass::UnexpectedEof,
        PacketError::StringTruncated.spec_class() == ErrorClass::UnexpectedEof,
        PacketError::BoolEof.spec_class() == ErrorClass::UnexpectedEof,
        PacketError::MissingHandshakePort.spec_class() == ErrorClass::UnexpectedEof,
        PacketError::MissingUuid.spec_class() == ErrorClass::UnexpectedEof,
        PacketError::StringTooLong.spec_class() == ErrorClass::InvalidInput,
        PacketError::PayloadTooLarge.spec_class() == ErrorClass::InvalidInput,
        PacketError::VarIntTooBig.spec_class() == ErrorClass::InvalidData,
        PacketError::InvalidUtf8.spec_class() == ErrorClass::InvalidData,
        PacketError::NotHandshake.spec_class() == ErrorClass::InvalidData,
        decoder_exception(ErrorClass::InvalidData, message),
        decoder_exception(ErrorClass::UnexpectedEof, message),
{
}

/// A player joins under the name that they log in with, and under a stand-in
/// where the login cannot be read.
pub proof fn law_players_join_under_their_name(name: Seq<char>, uuid: u128, id: i32, rest: Seq<u8>)
    requires
        string_fits(name),
        id != 0,
    ensures
        joining_name(varint_bytes(0) + (string_bytes(name) + be_bytes(uuid as nat, 16))) == name,
        joining_name(varint_bytes(id as u32) + rest) == "Literal_u"@,
{
    law_login_start_round_trip(name, uuid);
    let head = varint_bytes(id as u32);
    let p = head + rest;
    assert(p.subrange(0, head.len() as int) =~= head);
    law_varint_round_trip(p, 0, id);
}

} // verus!
