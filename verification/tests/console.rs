use kraken::console::{
    decide_summon, console_line, execute, find_online_player, list_players, parse_gamemode, print_help,
    send_to_player, ConsoleRequest, Delivery, EntityLookup, SummonOutcome,
};
use kraken::viakraken::java::backend::state::{ConsoleCommand, OnlinePlayer};

#[test]
fn parses_named_and_numeric_gamemodes() {
    assert_eq!(parse_gamemode("creative"), Some(1));
    assert_eq!(parse_gamemode("3"), Some(3));
    assert_eq!(parse_gamemode("invalid"), None);
}

fn online(uuid: u128, username: &str) -> OnlinePlayer {
    OnlinePlayer {
        entity_id: uuid as i32,
        uuid,
        username: username.to_string(),
        x: 0,
        y: 0,
        z: 0,
        yaw: 0,
        pitch: 0,
        gamemode: 0,
    }
}

#[test]
fn the_slash_is_optional() {
    assert!(matches!(execute("/list"), ConsoleRequest::List));
    assert!(matches!(execute("  LIST "), ConsoleRequest::List));
    assert!(matches!(execute("/ help"), ConsoleRequest::Help));
    assert!(matches!(execute("/"), ConsoleRequest::Nothing));
    assert!(matches!(execute("   "), ConsoleRequest::Nothing));
    assert!(matches!(execute("/ \t"), ConsoleRequest::Nothing));
    assert!(matches!(execute(" /list"), ConsoleRequest::Unknown));
    assert!(matches!(execute("/ /list"), ConsoleRequest::Unknown));
    assert!(matches!(console_line(" /List  "), ConsoleRequest::List));
    assert!(matches!(console_line(" \t "), ConsoleRequest::Nothing));
}

#[test]
fn console_lines_are_understood() {
    match execute("/op Ann") {
        ConsoleRequest::Op { player, level } => assert_eq!((player.as_str(), level), ("Ann", 4)),
        _ => panic!("no op"),
    }
    assert!(matches!(execute("op Ann 2"), ConsoleRequest::Op { level: 2, .. }));
    assert!(matches!(execute("op Ann 0"), ConsoleRequest::Op { level: 1, .. }));
    assert!(matches!(execute("op Ann 99"), ConsoleRequest::Op { level: 4, .. }));
    assert!(matches!(execute("op Ann 300"), ConsoleRequest::Op { level: 4, .. }));
    assert!(matches!(execute("op"), ConsoleRequest::Unknown));
    assert!(matches!(execute("deop Ann"), ConsoleRequest::Deop { .. }));
    assert!(matches!(execute("kill Ann"), ConsoleRequest::Kill { .. }));
    assert!(matches!(
        execute("gamemode CREATIVE Ann"),
        ConsoleRequest::Gamemode { gamemode: 1, .. }
    ));
    assert!(matches!(execute("gamemode x Ann"), ConsoleRequest::UnknownGamemode { .. }));
    match execute("summon minecraft:pig 1 2 3") {
        ConsoleRequest::Summon { entity, coordinates, .. } => {
            assert_eq!(entity, "pig");
            assert_eq!(coordinates.unwrap().2, "3");
        }
        _ => panic!("no summoning"),
    }
    assert!(matches!(execute("summon pig 1"), ConsoleRequest::Unknown));
}

#[test]
fn requests_reach_their_player() {
    let players = vec![online(1, "Ann"), online(2, "Bob")];
    assert_eq!(
        send_to_player(&execute("kill BOB"), &players),
        Delivery::Send { player: 1, command: ConsoleCommand::Kill { uuid: 2 } }
    );
    assert_eq!(
        send_to_player(&execute("deop ann"), &players),
        Delivery::Send { player: 0, command: ConsoleCommand::OperatorLevel { uuid: 1, level: 0 } }
    );
    assert_eq!(
        send_to_player(&execute("op ann 3"), &players),
        Delivery::Send { player: 0, command: ConsoleCommand::OperatorLevel { uuid: 1, level: 3 } }
    );
    assert_eq!(
        send_to_player(&execute("gamemode 2 ann"), &players),
        Delivery::Send { player: 0, command: ConsoleCommand::Gamemode { uuid: 1, gamemode: 2 } }
    );
    assert_eq!(send_to_player(&execute("kill Cid"), &players), Delivery::NotOnline);
    assert_eq!(send_to_player(&execute("list"), &players), Delivery::NoTarget);
    assert_eq!(find_online_player(&players, "bob"), Some(1));
}

#[test]
fn players_are_listed_in_order() {
    assert_eq!(list_players(&Vec::new()), "No players are online.");
    let names = vec!["Zoe".to_string(), "amy".to_string(), "Bob".to_string()];
    assert_eq!(list_players(&names), "Online (3): Bob, Zoe, amy");
    assert_eq!(print_help()[0], "Console commands:");
    assert_eq!(print_help().len(), 8);
}

#[test]
fn summonings_are_decided() {
    let pig = EntityLookup::Known { id: 5, summonable: true, is_player: false };
    let player = EntityLookup::Known { id: 6, summonable: true, is_player: true };
    assert_eq!(decide_summon(EntityLookup::Unknown, None, (1, 2, 3)), SummonOutcome::UnknownEntity);
    assert_eq!(decide_summon(player, None, (1, 2, 3)), SummonOutcome::NotSummonable);
    assert_eq!(decide_summon(pig, Some(None), (1, 2, 3)), SummonOutcome::BadCoordinates);
    assert_eq!(
        decide_summon(pig, None, (1, 2, 3)),
        SummonOutcome::Summon { entity_type: 5, x: 1, y: 2, z: 3 }
    );
    assert_eq!(
        decide_summon(pig, Some(Some((7, 8, 9))), (1, 2, 3)),
        SummonOutcome::Summon { entity_type: 5, x: 7, y: 8, z: 9 }
    );
}
