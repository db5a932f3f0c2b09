use rns_tools::config::{
    quote_if_needed, spawn_of, Config, DirFacts, FileStep, InterfaceConfig, LoggingConfig,
    MetricsConfig, ReticulumConfig, Spawn,
};

fn strings(v: &[&str]) -> Vec<String> {
    v.iter().map(|s| s.to_string()).collect()
}

#[test]
fn defaults_are_set() {
    let r = ReticulumConfig::default();
    assert_eq!((r.rpc_data_port, r.rpc_control_port), (37428, 37429));
    assert_eq!(r.rpc_bind_host, "127.0.0.1");
    assert_eq!(r.blackhole_update_interval, 60);
    assert_eq!(LoggingConfig::default().loglevel, 4);
    assert_eq!(MetricsConfig::default().bind_port, 9090);
    assert!(Config::default().interfaces.is_empty());
    let c = Config::default_config();
    assert_eq!(c.interfaces.len(), 1);
    assert_eq!(c.interfaces[0].name, "Default TCP Server Interface");
    assert!(matches!(spawn_of(&c.interfaces[0].config), Spawn::TcpServer(a) if a == "127.0.0.1:4242"));
}

#[test]
fn log_levels_have_names() {
    let mut c = Config::default();
    for (n, name) in [
        (0, "error"),
        (1, "error"),
        (2, "warn"),
        (3, "info"),
        (4, "info"),
        (5, "debug"),
        (6, "debug"),
        (7, "trace"),
        (255, "trace"),
    ] {
        c.logging.loglevel = n;
        assert_eq!(c.log_filter(), name);
    }
}

#[test]
fn configurations_are_searched_for() {
    let home = Some("/home/u".to_string());
    assert_eq!(
        Config::search_paths(&home, false),
        strings(&["/home/u/.config/reticulum", "/home/u/.reticulum", "/etc/reticulum"])
    );
    assert_eq!(Config::search_paths(&None, false), strings(&["/etc/reticulum"]));
    assert_eq!(Config::search_paths(&home, true).len(), 4);
    assert_eq!(Config::default_path("/home/u", false), "/home/u/.config/reticulum");
    assert_eq!(Config::default_path("/h", true), "/h/config/settings/reticulum");
    let none = DirFacts { config: false, config_toml: false };
    let old = DirFacts { config: true, config_toml: false };
    let new = DirFacts { config: true, config_toml: true };
    assert_eq!(
        Config::find_existing(&strings(&["a", "b", "c"]), &[none, old, new]),
        Some("b".to_string())
    );
    assert_eq!(Config::find_existing(&strings(&["a"]), &[none]), None);
    assert_eq!(Config::file_step(none), FileStep::Missing);
    assert_eq!(Config::file_step(old), FileStep::Migrate);
    assert_eq!(Config::file_step(new), FileStep::Read);
}

#[test]
fn older_configurations_are_rewritten() {
    let old = "[reticulum]\n  enable_transport = Yes\n\n[interfaces]\n  [[My TCP]]\n    type = TCPClientInterface\n    enabled = True\n    target_host = example.com  # there\n    target_port = 4242\n  # port = COM1\n";
    assert_eq!(
        Config::convert_python_config(old),
        "[reticulum]\nenable_transport = true\n\n\n[[interfaces]]\nname = \"My TCP\"\ntype = \"TCPClientInterface\"\nenabled = true\ntarget_host = \"example.com\"\ntarget_port = 4242\n# port = COM1\n"
    );
    assert_eq!(Config::convert_python_config("[[interfaces]]"), "\n[[interfaces]]\n");
}

#[test]
fn truth_values_are_whole_words() {
    let convert = Config::convert_python_config;
    assert_eq!(convert("instance_name = node1\n"), "instance_name = \"node1\"\n");
    assert_eq!(convert("instance_name = Yesterday"), "instance_name = \"Yesterday\"\n");
    assert_eq!(convert("type = Trueish"), "type = \"Trueish\"\n");
    assert_eq!(convert("enabled = no"), "enabled = false\n");
    assert_eq!(convert("enabled = No # for now"), "enabled = false # for now\n");
    assert_eq!(convert("enabled = True# for now"), "enabled = true# for now\n");
    assert_eq!(convert("enabled =  True"), "enabled = true\n");
    assert_eq!(convert("# enabled = yes"), "# enabled = true\n");
    assert_eq!(convert("enabled = False"), "enabled = false\n");
    assert_eq!(convert("enabled = Yes"), "enabled = true\n");
}

#[test]
fn quotes_and_backslashes_are_escaped() {
    assert_eq!(quote_if_needed("port = C:\\x", "port"), "port = \"C:\\\\x\"");
    assert_eq!(quote_if_needed("type = a\"b", "type"), "type = \"a\\\"b\"");
    assert_eq!(
        Config::convert_python_config("[[My \"old\" one]]"),
        "\n[[interfaces]]\nname = \"My \\\"old\\\" one\"\n"
    );
}

#[test]
fn values_are_quoted_once() {
    assert_eq!(quote_if_needed("type = A", "type"), "type = \"A\"");
    assert_eq!(quote_if_needed("type = \"A\"", "type"), "type = \"A\"");
    assert_eq!(quote_if_needed("port = 12", "port"), "port = 12");
    assert_eq!(quote_if_needed("port = 1.5e3", "port"), "port = 1.5e3");
    assert_eq!(quote_if_needed("port = inf", "port"), "port = inf");
    assert_eq!(quote_if_needed("port = true", "port"), "port = true");
    assert_eq!(quote_if_needed("port = /dev/ttyUSB0", "port"), "port = \"/dev/ttyUSB0\"");
    assert_eq!(quote_if_needed("port = ", "port"), "port = \"\"");
    assert_eq!(quote_if_needed("name = x", "port"), "name = x");
}

#[test]
fn interfaces_are_started() {
    let tcp = |enabled| InterfaceConfig::TCPClientInterface {
        enabled,
        target_host: "h".to_string(),
        target_port: 1,
        transport_identity: String::new(),
    };
    assert!(matches!(spawn_of(&tcp(true)), Spawn::TcpClient(a) if a == "h:1"));
    assert!(matches!(spawn_of(&tcp(false)), Spawn::Disabled));
    let backbone = |b: Option<&str>, t: Option<&str>| InterfaceConfig::BackboneInterface {
        enabled: true,
        port: 7,
        bind_host: b.map(str::to_string),
        target_host: t.map(str::to_string),
    };
    assert!(matches!(spawn_of(&backbone(Some("a"), None)), Spawn::BackboneServer(x) if x == "a:7"));
    assert!(matches!(spawn_of(&backbone(None, Some("a"))), Spawn::BackboneClient(x) if x == "a:7"));
    assert!(matches!(spawn_of(&backbone(None, None)), Spawn::InvalidBackbone));
    let udp = InterfaceConfig::UDPInterface {
        enabled: true,
        listen_ip: "0.0.0.0".to_string(),
        listen_port: 1,
        forward_ip: "1.2.3.4".to_string(),
        forward_port: 2,
    };
    assert!(matches!(spawn_of(&udp), Spawn::Udp(a, b) if a == "0.0.0.0:1" && b == "1.2.3.4:2"));
    assert!(matches!(spawn_of(&InterfaceConfig::AutoInterface { enabled: true }), Spawn::Auto));
    assert!(matches!(spawn_of(&InterfaceConfig::Unsupported), Spawn::Disabled));
}
