use kraken::config::ServerConfig;
use kraken::error::{ErrorClass, PacketError, PacketLabel};
use kraken::viakraken::bedrock::{handle_bedrock_disconnect, is_probably_bedrock};
use kraken::viakraken::java::connection::{
    after_handoff, after_handoff_error, handle_java_connection, malformed_login_reason,
    read_login_start, refusal, AfterHandoff, Ingress,
};
use kraken::viakraken::java::handoff::{
    parse_backend_login_success, Handoff, HandoffIds, HandoffOutcome,
};
use kraken::viakraken::java::login::{
    encode_java_packet, handle_backend_client, handle_login, lobby_login, profile_uuid,
    synced_tags, BackendRoute, LoginAction, LoginPhase, OptionalTags, TagGroup,
};
use kraken::viakraken::java::packets::{
    build_disconnect_packet, build_finish_config_packet, build_known_packs_packet,
    build_login_success_packet, login_disconnect_json, send_login_disconnect_json,
};
use kraken::viakraken::java::protocol::{
    parse_handshake, parse_login_start, parse_login_start_username,
};
use kraken::viakraken::java::status::{
    check_status_request, compatible_status_json, pong_response, send_status_response_direct,
    status_json, status_response,
};
use kraken::viakraken::java::support::{
    infer_bridge_failure_direction, is_supported_login_protocol, minecraft_version_from_protocol,
    packet_id_for_version, strict_error_handling, stream_looks_closed, Peek, PeekFailure,
};
use kraken::viakraken::java::types::{HandshakeInfo, LoginSuccessCore, Property};
use kraken::viakraken::listener::{
    bind_with_port_bump, BindOutcome, BindStep, PortSearch, ViaKraken,
};
use kraken::viakraken::proxy::{
    handle_connection, is_supported_login_protocol as relay_supports, relay_login_handoff, Contact,
};
use kraken::viakraken::utils::{write_string, write_varint};
use std::sync::Arc;

fn handshake(protocol: i32, next_state: i32) -> Vec<u8> {
    let mut packet = vec![0];
    write_varint(&mut packet, protocol);
    write_string(&mut packet, "localhost").unwrap();
    packet.extend_from_slice(&[0x63, 0xdd]);
    write_varint(&mut packet, next_state);
    packet
}

fn profile() -> LoginSuccessCore {
    LoginSuccessCore {
        uuid: 0x0123_4567_89ab_cdef_0011_2233_4455_6677,
        username: "Kraken_1".to_string(),
        properties: vec![
            Property {
                name: "textures".to_string(),
                value: "abc".to_string(),
                signature: Some("sig".to_string()),
            },
            Property { name: "a".to_string(), value: "b".to_string(), signature: None },
        ],
    }
}

#[test]
fn handshakes_round_trip() {
    assert_eq!(
        parse_handshake(&handshake(774, 2)),
        Ok(HandshakeInfo { protocol_version: 774, next_state: 2 })
    );
    let packet = handshake(774, 2);
    assert_eq!(parse_handshake(&packet[..packet.len() - 1]), Err(PacketError::VarIntEof));
    assert_eq!(
        parse_handshake(&packet[..packet.len() - 2]),
        Err(PacketError::MissingHandshakePort)
    );
    assert_eq!(parse_handshake(&[1]), Err(PacketError::NotHandshake));
}

#[test]
fn login_starts_give_name_and_identity() {
    let mut packet = vec![0];
    write_string(&mut packet, "Ann").unwrap();
    assert_eq!(parse_login_start(&packet), Ok(("Ann".to_string(), None)));
    packet.extend_from_slice(&[0; 15]);
    packet.push(9);
    assert_eq!(parse_login_start(&packet), Ok(("Ann".to_string(), Some(9))));
    assert_eq!(parse_login_start_username(&packet), Ok("Ann".to_string()));
    assert_eq!(parse_login_start(&[5]), Err(PacketError::NotLoginStart(5)));
    assert_eq!(read_login_start(&packet).username, "Ann");
    assert_eq!(read_login_start(&[5]).username, "Literal_u");
}

#[test]
fn connections_are_sorted_by_handshake() {
    assert_eq!(
        handle_java_connection(&handshake(1, 1)),
        Ok(Ingress::Status { protocol_version: 1 })
    );
    assert_eq!(
        handle_java_connection(&handshake(775, 2)),
        Ok(Ingress::Login { protocol_version: 775 })
    );
    let refused = handle_java_connection(&handshake(47, 2)).unwrap();
    assert_eq!(refused, Ingress::UnsupportedProtocol { protocol_version: 47 });
    assert_eq!(
        refusal(refused, true),
        Some("Unsupported Java protocol. Supported: 766, 767, 774.")
    );
    assert_eq!(
        handle_java_connection(&handshake(774, 3)),
        Ok(Ingress::InvalidState { next_state: 3 })
    );
    let login = Ingress::Login { protocol_version: 774 };
    assert_eq!(refusal(login, true), None);
    assert_eq!(
        refusal(login, false),
        Some("Backend unavailable. Please retry in a few seconds.")
    );
    for protocol_version in [766, 767, 774, 775] {
        let packet = handshake(protocol_version, 2);
        assert_eq!(
            handle_connection(&packet, &packet),
            Ok(Contact::Java(Ingress::Login { protocol_version }))
        );
        assert!(relay_supports(protocol_version));
    }
    let old = handshake(47, 2);
    assert_eq!(
        handle_connection(&old, &old),
        Ok(Contact::Java(Ingress::UnsupportedProtocol { protocol_version: 47 }))
    );
    assert!(!relay_supports(47));
    assert_eq!(handle_connection(&[0x05, 0, 0xff], &[]), Ok(Contact::Bedrock));
    assert_eq!(handle_connection(&[], &[]), Err(PacketError::VarIntEof));
}

#[test]
fn login_success_round_trips() {
    for strict in [false, true] {
        let packet = build_login_success_packet(&profile(), strict).unwrap();
        assert_eq!(packet.as_slice()[0], 2);
        assert_eq!(*packet.as_slice().last().unwrap(), strict as u8);
        let read = parse_backend_login_success(packet.as_slice()).unwrap();
        assert_eq!(read.uuid, profile().uuid);
        assert_eq!(read.username, "Kraken_1");
        assert_eq!(read.properties.len(), 2);
        assert_eq!(read.properties[0].signature.as_deref(), Some("sig"));
        assert_eq!(read.properties[1].value, "b");
        assert!(read.properties[1].signature.is_none());
    }
}

#[test]
fn bad_login_successes_are_refused() {
    let packet = build_login_success_packet(&profile(), true).unwrap();
    let mut bytes = packet.as_slice().to_vec();
    bytes.push(0);
    bytes.push(0);
    assert_eq!(parse_backend_login_success(&bytes).err(), Some(PacketError::TrailingBytes(2)));
    assert_eq!(parse_backend_login_success(&[3]).err(), Some(PacketError::NotLoginSuccess(3)));
    assert_eq!(parse_backend_login_success(&[2, 1]).err(), Some(PacketError::MissingUuid));
    let mut negative = vec![2];
    negative.extend_from_slice(&[0; 16]);
    negative.push(0);
    negative.extend_from_slice(&[0xff, 0xff, 0xff, 0xff, 0x0f]);
    assert_eq!(
        parse_backend_login_success(&negative).err(),
        Some(PacketError::NegativePropertiesCount)
    );
}

fn ids() -> HandoffIds {
    HandoffIds {
        login_success: 2,
        login_disconnect: 0,
        login_ack: 3,
        config_finish_clientbound: 3,
        config_finish_serverbound: 3,
    }
}

#[test]
fn handoffs_need_every_step() {
    let mut handoff = Handoff::new(ids(), 774, 774, "Fallback".to_string()).unwrap();
    let success = build_login_success_packet(&profile(), false).unwrap();
    assert!(matches!(handoff.on_client_packet(&[3]), Ok(HandoffOutcome::Relaying)));
    let (payload, outcome) = handoff.on_backend_packet(success.as_slice()).unwrap();
    assert!(matches!(outcome, HandoffOutcome::Relaying));
    assert_eq!(*payload.last().unwrap(), 1);
    assert!(matches!(handoff.on_client_packet(&[3]), Ok(HandoffOutcome::Relaying)));
    let (payload, outcome) = handoff.on_backend_packet(&[3]).unwrap();
    assert_eq!(payload, vec![3]);
    assert!(matches!(outcome, HandoffOutcome::Relaying));
    match handoff.on_client_packet(&[3]).unwrap() {
        HandoffOutcome::Established(name) => assert_eq!(name, "Kraken_1"),
        _ => panic!("not established"),
    }
}

#[test]
fn handoffs_end_with_a_refusal() {
    let mut handoff = Handoff::new(ids(), 774, 774, "Fallback".to_string()).unwrap();
    let (payload, outcome) = handoff.on_backend_packet(&[0, 1, 2]).unwrap();
    assert_eq!(payload, vec![0, 1, 2]);
    assert!(matches!(outcome, HandoffOutcome::Disconnected));
    assert!(matches!(after_handoff(outcome), Some(AfterHandoff::Close)));
    assert!(handoff.on_backend_packet(&[]).is_err());
    let mut missing = ids();
    missing.login_ack = -1;
    assert_eq!(
        Handoff::new(missing, 766, 766, String::new()).err(),
        Some(PacketError::PacketUnavailable(PacketLabel::LoginAck, 766))
    );
}

#[test]
fn early_relays_end_at_login_success() {
    let success = build_login_success_packet(&profile(), true).unwrap();
    let (payload, outcome) = relay_login_handoff(766, success.as_slice()).unwrap();
    assert_eq!(*payload.last().unwrap(), 0);
    assert!(matches!(outcome, HandoffOutcome::Established(name) if name == "Kraken_1"));
    let (_, outcome) = relay_login_handoff(766, &[0]).unwrap();
    assert!(matches!(outcome, HandoffOutcome::Disconnected));
    let (payload, outcome) = relay_login_handoff(766, &[4, 4]).unwrap();
    assert_eq!(payload, vec![4, 4]);
    assert!(matches!(outcome, HandoffOutcome::Relaying));
}

#[test]
fn malformed_logins_are_told() {
    assert!(matches!(
        after_handoff_error(ErrorClass::InvalidData, "varint too big"),
        AfterHandoff::DisconnectMalformed
    ));
    assert!(matches!(after_handoff_error(ErrorClass::Other, "reset"), AfterHandoff::Fail));
    assert_eq!(malformed_login_reason(), "DecoderException: malformed login packet");
    assert!(matches!(
        after_handoff(HandoffOutcome::Established("A".to_string())),
        Some(AfterHandoff::Bridge(name)) if name == "A"
    ));
    assert!(after_handoff(HandoffOutcome::Relaying).is_none());
}

#[test]
fn disconnects_are_json() {
    assert_eq!(login_disconnect_json("no \"way\""), "{\"text\":\"no \\\"way\\\"\"}");
    let frame = send_login_disconnect_json("x").unwrap();
    assert_eq!(frame.as_slice(), b"\x0e\x00\x0c{\"text\":\"x\"}");
    let packet = build_disconnect_packet("{}").unwrap();
    assert_eq!(packet.as_slice(), b"\x00\x02{}");
    assert_eq!(build_finish_config_packet().as_slice(), &[3]);
    assert_eq!(build_known_packs_packet().as_slice()[0], 0x0e);
}

#[test]
fn the_status_names_the_version() {
    let config = ServerConfig::default();
    let json: serde_json::Value = serde_json::from_str(&status_json(776, &config)).unwrap();
    assert_eq!(json["version"]["name"], "Kraken 1.21.11");
    assert_eq!(json["version"]["protocol"], 776);
    assert_eq!(json["players"]["max"], 1000);
    assert_eq!(json["players"]["online"], 0);
    assert_eq!(json["description"]["text"], "Welcome to Kraken!");
    let old: serde_json::Value = serde_json::from_str(&status_json(47, &config)).unwrap();
    assert_eq!(old["version"]["protocol"], 774);
    assert_eq!(old["players"]["sample"][0]["name"], "Incompatible version!");
    let any: serde_json::Value =
        serde_json::from_str(&compatible_status_json(47, &config)).unwrap();
    assert_eq!(any["version"]["protocol"], 47);
    assert_eq!(any["version"]["name"], "1.21.1");
}

#[test]
fn status_requests_are_answered() {
    assert_eq!(check_status_request(&[0]), Ok(()));
    assert_eq!(check_status_request(&[1]), Err(PacketError::NotStatusRequest));
    assert_eq!(status_response("{}").unwrap().as_slice(), b"\x04\x00\x02{}");
    let config = ServerConfig::default();
    let frame = send_status_response_direct(774, &config).unwrap();
    assert!(frame.as_slice().ends_with(status_json(774, &config).as_bytes()));
    let mut ping = vec![1];
    ping.extend_from_slice(&[1, 2, 3, 4, 5, 6, 7, 8]);
    let pong = pong_response(&ping).unwrap().unwrap();
    assert_eq!(pong.as_slice(), &[9, 1, 1, 2, 3, 4, 5, 6, 7, 8]);
    assert!(pong_response(&ping[..8]).unwrap().is_none());
    assert!(pong_response(&[0]).unwrap().is_none());
    assert!(pong_response(&[]).is_err());
}

#[test]
fn versions_are_looked_up() {
    assert_eq!(minecraft_version_from_protocol(774, true), Ok(774));
    assert_eq!(
        minecraft_version_from_protocol(-1, true),
        Err(PacketError::InvalidProtocol(-1))
    );
    assert_eq!(
        minecraft_version_from_protocol(5, false),
        Err(PacketError::UnsupportedProtocol(5))
    );
    assert!(strict_error_handling(767));
    assert!(!strict_error_handling(766));
    assert!(is_supported_login_protocol(775));
    assert!(!is_supported_login_protocol(776));
    assert_eq!(packet_id_for_version(4, 766, PacketLabel::LoginSuccess), Ok(4));
    assert_eq!(
        packet_id_for_version(-1, 766, PacketLabel::LoginSuccess),
        Err(PacketError::PacketUnavailable(PacketLabel::LoginSuccess, 766))
    );
}

#[test]
fn broken_bridges_have_a_direction() {
    assert_eq!(infer_bridge_failure_direction(true, false), "client_to_backend");
    assert_eq!(infer_bridge_failure_direction(false, true), "backend_to_client");
    assert_eq!(infer_bridge_failure_direction(true, true), "both_sides");
    assert_eq!(infer_bridge_failure_direction(false, false), "unknown");
    assert!(stream_looks_closed(Peek::Read(0)));
    assert!(!stream_looks_closed(Peek::Read(1)));
    assert!(stream_looks_closed(Peek::Failed(PeekFailure::BrokenPipe)));
    assert!(!stream_looks_closed(Peek::Failed(PeekFailure::Other)));
    assert!(!stream_looks_closed(Peek::TimedOut));
}

#[test]
fn play_needs_a_finished_configuration() {
    assert_eq!(
        handle_login(LoginPhase::AwaitAck, Some(&[3]), 3),
        Ok((LoginPhase::AwaitFinish, LoginAction::SendConfiguration))
    );
    assert_eq!(
        handle_login(LoginPhase::AwaitAck, None, 3),
        Ok((LoginPhase::AwaitFinish, LoginAction::SendConfiguration))
    );
    assert_eq!(
        handle_login(LoginPhase::AwaitFinish, Some(&[2]), 3),
        Ok((LoginPhase::AwaitFinish, LoginAction::KeepWaiting))
    );
    assert_eq!(
        handle_login(LoginPhase::AwaitFinish, Some(&[3]), 3),
        Ok((LoginPhase::Play, LoginAction::EnterPlay))
    );
    assert_eq!(
        handle_login(LoginPhase::AwaitFinish, None, 3),
        Ok((LoginPhase::Abandoned, LoginAction::GiveUp))
    );
    assert_eq!(handle_login(LoginPhase::AwaitFinish, Some(&[]), 3), Err(PacketError::VarIntEof));
}

#[test]
fn backend_clients_want_status_or_login() {
    let at = |next_state: i32| {
        handle_backend_client(HandshakeInfo { protocol_version: 774, next_state })
    };
    assert_eq!(at(1), Ok(BackendRoute::Status));
    assert_eq!(at(2), Ok(BackendRoute::Login));
    assert_eq!(at(4), Err(PacketError::InvalidNextState));
    assert_eq!(profile_uuid(Some(4), 5), 4);
    assert_eq!(profile_uuid(None, 5), 5);
    assert_eq!(encode_java_packet(300, 774, &[1]).unwrap().as_slice(), &[0xac, 0x02, 1]);
    assert_eq!(
        encode_java_packet(-1, 774, &[1]).err(),
        Some(PacketError::PacketIdUnavailable(774))
    );
    assert_eq!(lobby_login(7).view_distance, 7);
    assert_eq!(lobby_login(7).previous_gamemode, -1);
}

#[test]
fn tags_depend_on_the_version() {
    let none = OptionalTags {
        timeline: false,
        dimension_type: false,
        damage_type: false,
        banner_pattern: false,
    };
    let all = OptionalTags {
        timeline: true,
        dimension_type: true,
        damage_type: true,
        banner_pattern: true,
    };
    assert_eq!(synced_tags(774, 774, none).len(), 7);
    assert_eq!(synced_tags(774, 774, all)[7], TagGroup::Timeline);
    assert_eq!(synced_tags(773, 774, all)[7], TagGroup::DimensionType);
    assert_eq!(synced_tags(773, 774, all).len(), 10);
}

#[test]
fn bedrock_clients_are_recognised() {
    let magic = [
        0x00, 0xff, 0xff, 0x00, 0xfe, 0xfe, 0xfe, 0xfe, 0xfd, 0xfd, 0xfd, 0xfd, 0x12, 0x34, 0x56,
        0x78,
    ];
    let mut data = vec![0x10, 0x20];
    data.extend_from_slice(&magic);
    assert!(is_probably_bedrock(&data));
    data.pop();
    assert!(!is_probably_bedrock(&data));
    for first in [0x01, 0x05, 0x07, 0x09, 0x1c] {
        assert!(is_probably_bedrock(&[first]));
    }
    assert!(!is_probably_bedrock(&[0x10, 0x00]));
    assert!(!is_probably_bedrock(&[]));
    let mut expected = vec![5, 2, 0, 0, 27];
    expected.extend_from_slice(b"Bedrock Support Coming Soon");
    expected.extend_from_slice(&[0, 0]);
    assert_eq!(handle_bedrock_disconnect(), expected);
}

#[test]
fn ports_are_searched_upwards() {
    let via = ViaKraken { config: Arc::new(ServerConfig::default()) };
    let plan = via.start();
    assert_eq!(plan.host, "0.0.0.0");
    assert_eq!(plan.proxy, PortSearch { port: 25565, attempt: 1 });
    assert_eq!(plan.backend, PortSearch { port: 25566, attempt: 1 });
    let mut search = plan.backend;
    let mut tried = vec![search.port];
    while let BindStep::Retry(next) = bind_with_port_bump(search, BindOutcome::InUse) {
        search = next;
        tried.push(search.port);
    }
    assert_eq!(tried, (25566..25576).collect::<Vec<u16>>());
    assert_eq!(bind_with_port_bump(search, BindOutcome::InUse), BindStep::GiveUp);
    assert_eq!(
        bind_with_port_bump(search, BindOutcome::Bound),
        BindStep::Listen { port: 25575, recovered: true }
    );
    assert_eq!(bind_with_port_bump(plan.proxy, BindOutcome::Failed), BindStep::Fail);
    let last = PortSearch { port: 65535, attempt: 1 };
    assert_eq!(
        bind_with_port_bump(last, BindOutcome::InUse),
        BindStep::Retry(PortSearch { port: 65535, attempt: 2 })
    );
}
