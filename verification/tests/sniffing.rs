use reticulum_sdk::destination::DestinationName;
use rns_tools::json::Json;
use rns_tools::msgpack::MsgValue;
use rns_tools::sniff::{
    app_data_str, endpoint_type, heard_enough, parse_args, render, render_json, Announce,
};

fn name_hash(app: &str, aspect: &str) -> Vec<u8> {
    DestinationName::new(app, aspect).as_name_hash_slice().to_vec()
}

fn hex(b: &[u8]) -> String {
    b.iter().map(|x| format!("{x:02x}")).collect()
}

#[test]
fn known_endpoint_types() {
    assert_eq!(endpoint_type(&name_hash("git", "repositories"), b"").label, "rngit server");
    assert_eq!(endpoint_type(&name_hash("rnsh", ""), b"").label, "rnsh shell server");
    assert_eq!(endpoint_type(&name_hash("nomadnetwork", "node"), b"").label, "nomadnetwork website");
    assert_eq!(endpoint_type(&name_hash("nomadnetwork", "conversation"), b"").label, "nomadnetwork conversation");
    assert_eq!(endpoint_type(&name_hash("nomadnetwork", "gossip"), b"").label, "nomadnetwork gossip");
    assert_eq!(endpoint_type(&name_hash("lxmf", "delivery"), b"").label, "lxmf delivery");
    assert_eq!(endpoint_type(&name_hash("lxmf", "propagation"), b"").label, "lxmf propagation node");
    assert_eq!(endpoint_type(&name_hash("rrc", "hub"), b"").label, "rrc relay chat hub");
    assert_eq!(endpoint_type(&name_hash("rnperf", ""), b"").label, "rnperf bandwidth test");
    assert!(!endpoint_type(&name_hash("git", "repositories"), b"").guessed);
}

#[test]
fn unknown_endpoint_type() {
    let unknown = name_hash("someapp", "aspect");
    let info = endpoint_type(&unknown, b"");
    assert!(info.label.starts_with("unknown endpoint ("), "got: {}", info.label);
    assert!(info.label.contains(&hex(&unknown)));
    assert!(info.address.is_none());
    assert!(!info.guessed);
}

#[test]
fn rngit_detected_via_app_data() {
    let app_data = br#"{"v":"0.0.0","rngit":"afed52d300a075ea0e37f09139acbad3","repos":["resilum-core","resilum-mobile"]}"#;
    let unknown = name_hash("someapp", "aspect");
    let info = endpoint_type(&unknown, app_data);
    assert_eq!(info.label, "rngit server");
    assert!(info.guessed);
    assert!(endpoint_type(&unknown, b"hello").label.starts_with("unknown endpoint"));
}

#[test]
fn reachable_tcp_endpoint_detected() {
    let app_data = br#"{"v":1,"h":"174.17.254.246","p":47321,"x":1787604250}"#;
    let unknown = name_hash("someapp", "aspect");
    let info = endpoint_type(&unknown, app_data);
    assert_eq!(info.label, "reachable TCP endpoint");
    assert_eq!(info.address.as_deref(), Some("174.17.254.246:47321"));
    assert!(info.guessed);
}

#[test]
fn presence_beacon_detected() {
    let app_data = b"presence-full";
    let unknown = name_hash("someapp", "aspect");
    let info = endpoint_type(&unknown, app_data);
    assert_eq!(info.label, "presence beacon");
    assert!(info.guessed);
    assert!(endpoint_type(&unknown, b"hello").label.starts_with("unknown endpoint"));
}

#[test]
fn app_data_rendering() {
    assert_eq!(app_data_str(b"mynode"), "mynode");
    assert_eq!(app_data_str(&[0xff, 0x00, 0x01]), "ff0001");
    assert_eq!(app_data_str(b""), "");
}

#[test]
fn every_text_is_shown_as_it_is() {
    assert_eq!(app_data_str(b"a\nb"), "a\nb");
    assert_eq!(app_data_str("a\u{85}".as_bytes()), "a\u{85}");
    assert_eq!(app_data_str("é".as_bytes()), "é");
    assert_eq!(app_data_str(b"a\xc3"), "61c3");
}

#[test]
fn odd_descriptors_stay_unknown() {
    let n = name_hash("someapp", "aspect");
    for data in [
        &br#"{"h":"x","p":-1}"#[..],
        &br#"{"h":"x","p":1.5}"#[..],
        &br#"{"h":1,"p":1}"#[..],
        &br#"["rngit","repos"]"#[..],
        &br#"{"rngit":1}"#[..],
        &b"presence-with-a-name-that-is-far-too-long"[..],
        &b"pres"[..],
        &b"\xff\xfe"[..],
    ] {
        assert!(endpoint_type(&n, data).label.starts_with("unknown endpoint"));
    }
    assert_eq!(endpoint_type(&n, b"  PRESENCE lite ").label, "presence beacon");
    assert_eq!(
        endpoint_type(&n, br#"{"h":"x","p":18446744073709551615}"#).address.as_deref(),
        Some("x:18446744073709551615")
    );
}

fn heard() -> Announce {
    Announce {
        destination: vec![0xab, 0xcd],
        name_hash: name_hash("git", "repositories"),
        identity: vec![1],
        hops: 3,
        app_data: b"node".to_vec(),
        snr: Some((2.5f32.to_bits(), "2.5".to_string())),
        rssi: Some(-70),
    }
}

#[test]
fn announcements_are_rendered() {
    assert_eq!(
        render(&heard(), "12:00:00", true),
        vec![
            "── 12:00:00 ──",
            "  Destination : abcd",
            "  Endpoint    : rngit server",
            "  Identity    : 01",
            "  Hops        : 3",
            "  App data    : node",
            "  SNR         : 2.5 dB",
            "  RSSI        : -70 dBm",
            "",
        ]
    );
    assert_eq!(render(&heard(), "12:00:00", false).len(), 7);
    let mut a = heard();
    a.name_hash = vec![0; 10];
    a.app_data = br#"{"h":"x","p":7}"#.to_vec();
    let lines = render(&a, "t", false);
    assert_eq!(lines[2], "  Endpoint    : reachable TCP endpoint (guessed from app data)");
    assert_eq!(lines[3], "  Endpoint    : x:7 (guessed from app data)");
}

#[test]
fn announcements_are_rendered_as_json() {
    let j = render_json(&heard(), "t", true);
    assert_eq!(j.get_text("time"), Some("t"));
    assert_eq!(j.get_text("endpoint"), Some("rngit server"));
    assert!(matches!(j.get("hops"), Some(Json::UInt(3))));
    assert!(matches!(j.get("rssi"), Some(Json::NegInt(-70))));
    assert!(matches!(j.get("snr"), Some(Json::Float(MsgValue::Single(b))) if *b == 2.5f32.to_bits()));
    assert!(render_json(&heard(), "t", false).get("snr").is_none());
}

#[test]
fn sniffing_options() {
    let v = |a: &[&str]| a.iter().map(|s| s.to_string()).collect::<Vec<_>>();
    let a = parse_args(&v(&["-v", "--once", "3", "-i", "f"])).unwrap();
    assert!(a.verbose && !a.json);
    assert_eq!(a.once, Some(3));
    assert_eq!(a.identity.as_deref(), Some("f"));
    assert!(heard_enough(a.once, 3) && !heard_enough(a.once, 2) && !heard_enough(None, 9));
    assert_eq!(parse_args(&v(&["--once", "x"])).unwrap_err(), "bad --once count");
    assert_eq!(parse_args(&v(&["-i"])).unwrap_err(), "-i needs a value");
    assert_eq!(parse_args(&v(&["zz"])).unwrap_err(), "unrecognized: zz");
    assert!(parse_args(&v(&["-h"])).unwrap().help);
}
