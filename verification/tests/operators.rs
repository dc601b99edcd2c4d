use kraken::operator_store::{
    default_operator_level, operator_level, remove_operator, set_operator, OperatorEntry,
};
use uuid::Uuid;

fn entry_of(value: &serde_json::Value) -> OperatorEntry {
    OperatorEntry {
        uuid: Uuid::parse_str(value["uuid"].as_str().unwrap()).unwrap().as_u128(),
        name: value["name"].as_str().unwrap().to_string(),
        level: value["level"].as_u64().map_or(default_operator_level(), |level| level as u8),
        bypasses_player_limit: value["bypassesPlayerLimit"].as_bool().unwrap_or(false),
    }
}

#[test]
fn parses_standard_operator_entry() {
    let uuid = Uuid::parse_str("8667ba71-b85a-4004-af54-457a9734eed7").unwrap();
    let text = format!(
        r#"[{{"uuid":"{uuid}","name":"Player","level":4,"bypassesPlayerLimit":false}}]"#
    );
    let values: Vec<serde_json::Value> = serde_json::from_str(&text).unwrap();
    let entries: Vec<OperatorEntry> = values.iter().map(entry_of).collect();

    assert_eq!(entries.len(), 1);
    assert_eq!(entries[0].uuid, uuid.as_u128());
    assert_eq!(entries[0].level, 4);
    assert_eq!(operator_level(&entries, uuid.as_u128(), "Somebody"), 4);
    assert_eq!(operator_level(&entries, 1, "pLAYER"), 4);
    assert_eq!(operator_level(&entries, 1, "Somebody"), 0);
}

#[test]
fn levels_lie_between_one_and_four() {
    let mut entries = Vec::new();
    set_operator(&mut entries, 1, "Ann", 0);
    set_operator(&mut entries, 2, "Bob", 200);
    assert_eq!(operator_level(&entries, 1, "Ann"), 1);
    assert_eq!(operator_level(&entries, 2, "Bob"), 4);
    entries[0].level = 77;
    assert_eq!(operator_level(&entries, 1, "Ann"), 4);
    assert_eq!(default_operator_level(), 4);
}

#[test]
fn setting_an_operator_rewrites_the_first_entry() {
    let mut entries = vec![
        OperatorEntry { uuid: 7, name: "ANN".to_string(), level: 2, bypasses_player_limit: true },
        OperatorEntry { uuid: 1, name: "x".to_string(), level: 3, bypasses_player_limit: false },
    ];
    set_operator(&mut entries, 1, "Ann", 4);
    assert_eq!(entries.len(), 2);
    assert_eq!((entries[0].uuid, entries[0].level), (1, 4));
    assert_eq!(entries[0].name, "Ann");
    assert!(entries[0].bypasses_player_limit);
    assert_eq!(entries[1].level, 3);
}

#[test]
fn removed_operators_have_no_level() {
    let mut entries = Vec::new();
    set_operator(&mut entries, 1, "Ann", 3);
    set_operator(&mut entries, 2, "Bob", 2);
    assert!(remove_operator(&mut entries, 1, "nobody"));
    assert_eq!(operator_level(&entries, 1, "Ann"), 0);
    assert_eq!(operator_level(&entries, 2, "Bob"), 2);
    assert!(!remove_operator(&mut entries, 1, "Ann"));
    assert!(remove_operator(&mut entries, 9, "BOB"));
    assert!(entries.is_empty());
}

#[test]
fn the_identity_decides_before_the_name() {
    let entry = |uuid: u128, name: &str, level: u8| OperatorEntry {
        uuid,
        name: name.to_string(),
        level,
        bypasses_player_limit: false,
    };
    let entries = vec![entry(1, "Player", 1), entry(2, "Other", 4), entry(2, "Again", 3)];
    assert_eq!(operator_level(&entries, 2, "Player"), 4);
    assert_eq!(operator_level(&entries, 3, "player"), 1);
    assert_eq!(operator_level(&entries, 1, "Other"), 1);
    assert_eq!(operator_level(&entries, 3, "Nobody"), 0);
}
