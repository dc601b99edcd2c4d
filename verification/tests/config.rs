use kraken::config::{
    default_eula, enforce_eula_gate, eula_accepted, parse_properties, properties_file, Gate,
    ServerConfig,
};

#[test]
fn a_missing_eula_halts() {
    assert!(matches!(
        enforce_eula_gate(None, None),
        Gate::Halt { create_eula: true, create_properties: true }
    ));
    assert!(matches!(
        enforce_eula_gate(None, Some("")),
        Gate::Halt { create_eula: true, create_properties: false }
    ));
    assert!(matches!(
        enforce_eula_gate(Some("eula=false"), None),
        Gate::Halt { create_eula: false, create_properties: false }
    ));
}

#[test]
fn an_accepted_eula_runs() {
    match enforce_eula_gate(Some("eula=true\n"), None) {
        Gate::Run { config, create_properties } => {
            assert!(create_properties);
            assert_eq!(config.server_port, 25565);
        }
        Gate::Halt { .. } => panic!("halted"),
    }
    match enforce_eula_gate(Some("# c\r\neula= TRUE \r\n"), Some("server-port=4000")) {
        Gate::Run { config, create_properties } => {
            assert!(!create_properties);
            assert_eq!(config.server_port, 4000);
        }
        Gate::Halt { .. } => panic!("halted"),
    }
}

#[test]
fn created_files_read_back() {
    assert!(!eula_accepted(&default_eula()));
    assert!(default_eula().ends_with("\neula=false\n"));
    let defaults = ServerConfig::default();
    let read = parse_properties(&properties_file(&defaults));
    assert_eq!(read.max_players, 1000);
    assert_eq!(read.server_ip, "0.0.0.0");
    assert_eq!(read.server_port, 25565);
    assert_eq!(read.target_protocol, 776);
    assert_eq!(read.view_distance, 16);
    assert_eq!(read.motd, "Welcome to Kraken!");
}

#[test]
fn the_last_eula_line_decides() {
    assert!(eula_accepted("eula=false\neula=true"));
    assert!(!eula_accepted("eula=true\neula=no"));
    assert!(!eula_accepted("#eula=true"));
    assert!(!eula_accepted(" eula=true"));
    assert!(!eula_accepted(""));
}

#[test]
fn properties_fall_back_to_defaults() {
    let config = parse_properties(
        "server-port=70000\nmax-players=-1\nview-distance=100\ntarget-protocol=x\n# motd=no\n",
    );
    assert_eq!(config.server_port, 25565);
    assert_eq!(config.max_players, 1000);
    assert_eq!(config.view_distance, 32);
    assert_eq!(config.target_protocol, 776);
    assert_eq!(config.motd, "Welcome to Kraken!");
    let config = parse_properties(" motd = a=b \nview-distance=1\nmax-players= +20\nserver-ip\n");
    assert_eq!(config.motd, "a=b");
    assert_eq!(config.view_distance, 2);
    assert_eq!(config.max_players, 20);
    assert_eq!(config.server_ip, "0.0.0.0");
    assert_eq!(parse_properties("view-distance=far").view_distance, 16);
}
