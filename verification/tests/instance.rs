use rns_tools::json::{self, Json};
use rns_tools::mcp;
use rns_tools::mcp::{answer_call, handle_line, list_tools, Handled, Start, INTERNAL_ERROR};
use rns_tools::mcp_tools::{call_tool, hours_argument, ToolStep};
use rns_tools::msgpack::{decode, encode, MsgValue};
use rns_tools::path_tool;
use rns_tools::path_tool::{
    blackhole_outcome, blackhole_request, do_blackholed, do_path_info, do_rates, do_table,
    drop_outcome, drop_request, drop_via_outcome, interface_names, lookup_path_entry, operation,
    parse_address, path_entry_to_json, path_table_end, rate_entry_to_json, rate_table_end,
    signal_pieces, table_entries, unblackhole_outcome, validate_args, Listing, Operation,
};
use rns_tools::pieces::{holes, pretty_duration, render, Piece, Reading};
use rns_tools::rpc;
use rns_tools::rpc::{
    answer_challenge, check_answer, check_welcome, checked_length, encode_frame, frame_length,
    granted, hmac_response, long_frame_length, make_challenge, pretty_hex, request_frame,
    verify_response, welcome, FrameLength, RpcError,
};

fn strings(v: &[&str]) -> Vec<String> {
    v.iter().map(|s| s.to_string()).collect()
}

fn t(s: &str) -> MsgValue {
    MsgValue::Text(s.to_string())
}

fn pairs(v: Vec<(&str, MsgValue)>) -> MsgValue {
    MsgValue::Pairs(v.into_iter().map(|(k, x)| (t(k), x)).collect())
}

fn reading(n: f64) -> Reading {
    Reading { now: n <= 0.0, positive: n > 0.0, seconds: n as u64, decimal: format!("{n:.1}") }
}

fn number(v: &MsgValue) -> f64 {
    match v {
        MsgValue::UInt(n) => *n as f64,
        MsgValue::NegInt(n) => *n as f64,
        MsgValue::Double(b) => f64::from_bits(*b),
        MsgValue::Single(b) => f32::from_bits(*b) as f64,
        _ => panic!("no number"),
    }
}

fn shown(p: &Vec<Piece>) -> String {
    let r: Vec<Reading> = holes(p).iter().map(|v| reading(number(v))).collect();
    render(p, &r)
}

#[test]
fn frames_have_their_length_first() {
    assert_eq!(encode_frame(b"abc"), vec![0, 0, 0, 3, b'a', b'b', b'c']);
    assert_eq!(frame_length(&[0, 0, 1, 0]), FrameLength::Short(256));
    assert_eq!(frame_length(&[0xff, 0xff, 0xff, 0xff]), FrameLength::Long);
    assert_eq!(frame_length(&[0x80, 0, 0, 0]), FrameLength::Negative);
    assert_eq!(long_frame_length(&[0, 0, 0, 1, 0, 0, 0, 0]), 1 << 32);
    assert_eq!(checked_length(5, 4), Err(RpcError::TooLarge(5, 4)));
    assert_eq!(checked_length(4, 4), Ok(4));
    assert_eq!(RpcError::TooLarge(5, 4).path_text(), "Frame too large: 5 > 4");
    assert_eq!(RpcError::TooLarge(5, 4).mcp_text(), "frame too large: 5 > 4");
    for e in [
        RpcError::Negative,
        RpcError::NoChallenge,
        RpcError::Rejected,
        RpcError::Unexpected,
        RpcError::NotMutual,
    ] {
        assert_eq!(e.path_text().is_empty(), e.mcp_text().is_empty());
    }
}

#[test]
fn keys_are_proved_by_digests() {
    let key = [b'k'; 16];
    let r = hmac_response(&key, b"message");
    assert_eq!(&r[..8], b"{sha256}");
    assert_eq!(
        hex::encode(&r[8..]),
        "e9a11c8128c0c0e26672935f2ce7630ff6cdc1c74140511239bd1643707df8e3"
    );
    let c = make_challenge(b"0123456789012345");
    assert_eq!(&c[..19], b"#CHALLENGE#{sha256}");
    let a = answer_challenge(&c, &key).unwrap();
    assert!(verify_response(&c, &a, &key));
    assert!(verify_response(&c, &a[8..], &key));
    assert!(!verify_response(&c, &a, b"another key"));
    assert_eq!(check_answer(&c, &a, &key), Ok(()));
    assert_eq!(check_answer(&c, b"", &key), Err(RpcError::NotMutual));
    assert_eq!(answer_challenge(b"hello", &key), Err(RpcError::NoChallenge));
    assert_eq!(check_welcome(&welcome()), Ok(()));
    assert_eq!(check_welcome(b"#FAILURE#"), Err(RpcError::Rejected));
    assert_eq!(check_welcome(b"?"), Err(RpcError::Unexpected));
}

#[test]
fn requests_are_framed() {
    let r = rpc::ask("get", "path_table");
    let f = request_frame(&r);
    assert_eq!(&f[..4], &[0, 0, 0, 16]);
    assert_eq!(f[4], 0x81);
    assert!(granted(&MsgValue::Boolean(true)));
    assert!(!granted(&MsgValue::Nil));
    assert_eq!(pretty_hex(&[0xab, 1]), "/ab01/");
    assert_eq!(rpc::decode_hex("AB01"), Some(vec![0xab, 1]));
    assert_eq!(rpc::decode_hex("ab0"), None);
}

#[test]
fn values_are_encoded_and_decoded() {
    let v = MsgValue::Array(vec![
        MsgValue::Nil,
        MsgValue::UInt(300),
        MsgValue::NegInt(-5),
        MsgValue::Double(1.5f64.to_bits()),
        t("é"),
        MsgValue::Binary(vec![1, 2]),
    ]);
    let b = encode(&v);
    assert_eq!(
        b,
        vec![
            0x96, 0xc0, 0xcd, 1, 44, 0xfb, 0xcb, 0x3f, 0xf8, 0, 0, 0, 0, 0, 0, 0xa2, 0xc3, 0xa9,
            0xc4, 2, 1, 2
        ]
    );
    match decode(&b).unwrap() {
        MsgValue::Array(a) => {
            assert!(matches!(a[1], MsgValue::UInt(300)));
            assert!(matches!(a[2], MsgValue::NegInt(-5)));
            assert!(matches!(&a[4], MsgValue::Text(s) if s == "é"));
            assert!(matches!(&a[5], MsgValue::Binary(b) if b == &vec![1, 2]));
        }
        other => panic!("{other:?}"),
    }
    assert!(matches!(decode(&[0xa1, 0xff]), Ok(MsgValue::RawText(b)) if b == vec![0xff]));
    assert!(matches!(decode(&[0xca, 0x3f, 0x80, 0, 0]), Ok(MsgValue::Single(0x3f800000))));
    assert!(matches!(decode(&[0xd4, 5, 9]), Ok(MsgValue::Ext(5, b)) if b == vec![9]));
    assert!(decode(&[0xc4]).is_err());
}

#[test]
fn durations_are_worded() {
    assert_eq!(pretty_duration(&reading(0.0)), "now");
    assert_eq!(pretty_duration(&reading(59.9)), "59s");
    assert_eq!(pretty_duration(&reading(61.0)), "1m 1s");
    assert_eq!(pretty_duration(&reading(3661.0)), "1h 1m 1s");
    assert_eq!(pretty_duration(&reading(90061.0)), "1d 1h 1m 1s");
}

fn path_entry(hash: u8, hops: u64) -> MsgValue {
    pairs(vec![
        ("hash", MsgValue::Binary(vec![hash; 16])),
        ("hops", MsgValue::UInt(hops)),
        ("via", MsgValue::Binary(vec![9; 16])),
        ("interface", MsgValue::Binary(vec![5])),
        ("expires", MsgValue::Double(61.0f64.to_bits())),
    ])
}

#[test]
fn path_tables_are_shown() {
    let table = MsgValue::Array(vec![path_entry(1, 1), path_entry(2, 3)]);
    let entries = table_entries(&table).unwrap();
    let names = interface_names(&None);
    let rows = do_table(entries, None, &None, &names);
    assert_eq!(rows.len(), 2);
    let one = "01".repeat(16);
    let nine = "09".repeat(16);
    assert_eq!(
        shown(&rows[0]),
        format!("/{one}/ is 1 hop away via /{nine}/ on /05/ expires 1m 1s")
    );
    assert_eq!(do_table(entries, Some(2), &None, &names).len(), 1);
    let two = "02".repeat(16);
    assert_eq!(do_table(entries, None, &Some(two), &names).len(), 1);
    assert!(table_entries(&MsgValue::Nil).is_err());
    assert_eq!(path_table_end(0, 0, false), (Some("No paths known".to_string()), 0));
    assert_eq!(path_table_end(2, 0, true), (Some("No path known".to_string()), 1));
    assert_eq!(path_table_end(2, 1, true), (None, 0));
    assert_eq!(rate_table_end(0, 0, false).0.as_deref(), Some("No information available"));
    let j = path_entry_to_json(&entries[0]).unwrap();
    assert_eq!(j.get_text("hash"), Some(one.as_str()));
    assert!(matches!(j.get("hops"), Some(Json::UInt(1))));
    assert!(path_entry_to_json(&MsgValue::Nil).is_none());
}

#[test]
fn rates_are_shown() {
    let e = pairs(vec![
        ("hash", MsgValue::Binary(vec![1; 16])),
        ("last", MsgValue::UInt(5)),
        ("rate_violations", MsgValue::UInt(2)),
        ("blocked_until", MsgValue::UInt(0)),
    ]);
    let entries = vec![e];
    assert_eq!(do_rates(&entries, &None).len(), 1);
    assert_eq!(do_rates(&entries, &Some("02".repeat(16))).len(), 0);
    let j = rate_entry_to_json(&entries[0]).unwrap();
    assert!(matches!(j.get("rate_violations"), Some(Json::UInt(2))));
}

#[test]
fn interfaces_have_names() {
    let list = MsgValue::Array(vec![pairs(vec![
        ("hash", MsgValue::Binary(vec![5])),
        ("name", t("TCP")),
    ])]);
    let names = interface_names(&Some(list));
    let shown_name = path_tool::format_iface(&Some(vec![5]), &names);
    let other = path_tool::format_iface(&Some(vec![6]), &names);
    assert_ne!(shown_name, other);
}

#[test]
fn paths_are_looked_up() {
    let table = Some(MsgValue::Array(vec![path_entry(1, 1), path_entry(2, 3)]));
    let m = lookup_path_entry(&table, &[2; 16]).unwrap();
    let names = interface_names(&None);
    let p = do_path_info(m, &[2; 16], &names).unwrap();
    assert_eq!(
        shown(&p),
        format!(
            "Path found, destination /{}/ is 3 hops away via /{}/ on /05/ expires 1m 1s",
            "02".repeat(16),
            "09".repeat(16)
        )
    );
    assert!(lookup_path_entry(&table, &[3; 16]).is_none());
    assert!(do_path_info(&Vec::new(), &[2; 16], &names).is_none());
    let radio = signal_pieces(
        &Some(MsgValue::Double(2.25f64.to_bits())),
        &Some(MsgValue::NegInt(-80)),
    );
    assert_eq!(shown(&radio), " (via radio: SNR: 2.2 dB RSSI: -80 dBm)");
    assert_eq!(shown(&signal_pieces(&None, &None)), "");
}

#[test]
fn path_options() {
    let a = path_tool::parse_args(&strings(&["-t", "-m", "3"]), None).unwrap();
    assert_eq!(operation(&a), Operation::Table);
    assert_eq!(a.max_hops, Some(3));
    assert!(validate_args(&a).is_ok());
    let a = path_tool::parse_args(&strings(&["-d"]), Some("k".to_string())).unwrap();
    assert!(validate_args(&a).is_err());
    assert_eq!(a.rpc_key.as_deref(), Some("k"));
    let a = path_tool::parse_args(&strings(&["-t", "-r"]), None).unwrap();
    assert!(validate_args(&a).is_err());
    let a = path_tool::parse_args(&strings(&["aa"]), None).unwrap();
    assert_eq!(operation(&a), Operation::PathInfo);
    assert_eq!(path_tool::parse_args(&strings(&["-m", "x"]), None).unwrap_err(), "Invalid max hops");
    assert_eq!(path_tool::parse_args(&strings(&["-m", "256"]), None).unwrap_err(), "Invalid max hops");
    assert_eq!(
        path_tool::parse_args(&strings(&["-H"]), None).unwrap_err(),
        "argument -H expected one value"
    );
    assert_eq!(
        path_tool::parse_args(&strings(&["-z"]), None).unwrap_err(),
        "unrecognized argument: -z"
    );
    assert_eq!(
        path_tool::parse_args(&strings(&["a", "b"]), None).unwrap_err(),
        "unexpected argument: b"
    );
    assert!(path_tool::resolve_rpc_key(&None, &None).is_err());
    assert_eq!(
        path_tool::resolve_rpc_key(&Some("abcd".to_string()), &None),
        Ok(vec![0xab, 0xcd])
    );
    assert_eq!(
        path_tool::resolve_rpc_key(&Some("f".to_string()), &Some(" 01\n".to_string())),
        Ok(vec![1])
    );
    assert!(parse_address("zz", "w").is_err());
    assert_eq!(parse_address("abcd", "w").unwrap_err(), "w");
    assert_eq!(parse_address(&"ab".repeat(16), "w"), Ok(vec![0xab; 16]));
}

#[test]
fn requests_about_identities() {
    let id = "ab".repeat(16);
    match blackhole_request(&id, Some(1.5f64.to_bits()), Some("spam")).unwrap() {
        MsgValue::Pairs(p) => {
            assert_eq!(p.len(), 3);
            assert!(matches!(&p[1].1, MsgValue::Double(b) if *b == 1.5f64.to_bits()));
            assert!(matches!(&p[2].1, MsgValue::Text(s) if s == "spam"));
        }
        other => panic!("{other:?}"),
    }
    assert!(blackhole_request("xx", None, None).is_err());
    assert!(drop_request(&id).is_ok());
    let yes = MsgValue::Boolean(true);
    assert_eq!(drop_outcome(&id, &yes).1, 0);
    assert_eq!(drop_outcome(&id, &MsgValue::Boolean(false)).1, 1);
    assert!(!drop_via_outcome(&id, &MsgValue::UInt(2)).is_empty());
    assert_eq!(blackhole_outcome(&id, &yes).1, 0);
    assert_eq!(unblackhole_outcome(&id, &MsgValue::Nil).1, 1);
    match do_blackholed(&MsgValue::Pairs(Vec::new()), &None) {
        Ok(Listing::Note(s)) => assert!(!s.is_empty()),
        other => panic!("{other:?}"),
    }
}

#[test]
fn tool_server_options() {
    assert!(matches!(mcp::parse_args(&[]), Ok(Start::Port(37429))));
    assert!(matches!(mcp::parse_args(&strings(&["-p", "9"])), Ok(Start::Port(9))));
    assert!(matches!(mcp::parse_args(&strings(&["-h"])), Ok(Start::Help)));
    assert!(matches!(mcp::parse_args(&strings(&["--version"])), Ok(Start::Version)));
    assert_eq!(mcp::parse_args(&strings(&["-p"])).unwrap_err(), "--port requires a value");
    assert_eq!(mcp::parse_args(&strings(&["-p", "x"])).unwrap_err(), "invalid port: x");
    assert!(mcp::parse_args(&strings(&["x"])).is_err());
    assert!(mcp::resolve_rpc_key(&None, &None).is_err());
    assert!(mcp::resolve_rpc_key(&Some("abcd".to_string()), &None)
        .unwrap_err()
        .starts_with("RPC key is too short (2 bytes)"));
    assert_eq!(
        mcp::resolve_rpc_key(&Some("ab".repeat(16)), &None),
        Ok(vec![0xab; 16])
    );
    assert_eq!(mcp::decode_hex("/abcd/"), Some(vec![0xab, 0xcd]));
}

fn reply(h: Handled) -> Json {
    match h {
        Handled::Reply(j) => j,
        other => panic!("{other:?}"),
    }
}

#[test]
fn lines_are_answered() {
    assert!(matches!(handle_line("   ", "1"), Handled::Silent));
    let j = reply(handle_line("{nope", "1"));
    assert!(j.get("id").is_none());
    let e = j.get("error").unwrap();
    assert!(matches!(e.get("code"), Some(Json::NegInt(n)) if *n == INTERNAL_ERROR));
    assert!(e.get_text("message").unwrap().starts_with("invalid JSON: "));
    let j = reply(handle_line(r#"{"id":7}"#, "1"));
    assert!(matches!(j.get("id"), Some(Json::UInt(7))));
    assert_eq!(j.get("error").unwrap().get_text("message"), Some("missing method"));
    let j = reply(handle_line(r#"{"id":"a","method":"initialize"}"#, "1.2"));
    assert_eq!(j.get_text("id"), Some("a"));
    let r = j.get("result").unwrap();
    assert_eq!(r.get_text("protocolVersion"), Some("2024-11-05"));
    assert_eq!(r.get("serverInfo").unwrap().get_text("version"), Some("1.2"));
    assert!(matches!(
        handle_line(r#"{"method":"notifications/initialized"}"#, "1"),
        Handled::Silent
    ));
    let j = reply(handle_line(r#"{"id":1,"method":"what"}"#, "1"));
    assert_eq!(j.get("error").unwrap().get_text("message"), Some("unknown method: what"));
    let j = reply(handle_line(r#"{"id":1,"method":"tools/call"}"#, "1"));
    assert_eq!(
        j.get("error").unwrap().get_text("message"),
        Some("tools/call requires params object")
    );
    let j = reply(handle_line(r#"{"id":1,"method":"tools/call","params":{}}"#, "1"));
    assert_eq!(j.get("error").unwrap().get_text("message"), Some("tool name required"));
    let line = r#"{"id":-3,"method":"tools/call","params":{"name":"n","arguments":{"x":1.5}}}"#;
    match handle_line(line, "1") {
        Handled::Call(n, a, id) => {
            assert_eq!(n, "n");
            assert!(matches!(a.get("x"), Some(Json::Float(MsgValue::Double(b))) if *b == 1.5f64.to_bits()));
            assert!(matches!(id, Some(Json::NegInt(-3))));
        }
        other => panic!("{other:?}"),
    }
    let j = reply(handle_line(r#"{"id":1,"method":"tools/list"}"#, "1"));
    match j.get("result").unwrap().get("tools") {
        Some(Json::List(l)) => assert_eq!(l.len(), list_tools().len()),
        other => panic!("{other:?}"),
    }
}

#[test]
fn json_is_read() {
    match json::read(r#" [null, true, 18446744073709551615, -1, "aé", {}] "#).unwrap() {
        Json::List(l) => {
            assert!(matches!(l[0], Json::Null));
            assert!(matches!(l[1], Json::Truth(true)));
            assert!(matches!(l[2], Json::UInt(u64::MAX)));
            assert!(matches!(l[3], Json::NegInt(-1)));
            assert!(matches!(&l[4], Json::Text(s) if s == "aé"));
            assert!(matches!(&l[5], Json::Object(o) if o.is_empty()));
        }
        other => panic!("{other:?}"),
    }
    assert!(json::read("").is_err());
}

#[test]
fn calls_are_answered() {
    let j = answer_call(Some(Json::UInt(4)), &Ok("text".to_string()));
    assert!(matches!(j.get("id"), Some(Json::UInt(4))));
    match j.get("result").unwrap().get("content") {
        Some(Json::List(l)) => assert_eq!(l[0].get_text("text"), Some("text")),
        other => panic!("{other:?}"),
    }
    let j = answer_call(None, &Err("bad".to_string()));
    assert!(j.get("id").is_none());
    assert_eq!(j.get("error").unwrap().get_text("message"), Some("bad"));
}

fn done(s: ToolStep) -> Result<String, String> {
    match s {
        ToolStep::Done(r) => r.map(|p| shown(&p)),
        other => panic!("{other:?}"),
    }
}

#[test]
fn tools_ask_and_answer() {
    let none = json::read("{}").unwrap();
    assert!(matches!(call_tool("get_path_table", &none, None, &[]), ToolStep::Ask(_)));
    let table = MsgValue::Array(vec![path_entry(1, 1)]);
    let text = done(call_tool("get_path_table", &none, None, &[Ok(table)])).unwrap();
    assert!(text.starts_with("Path Table (1 entries):\n"));
    assert!(text.contains(&"01".repeat(16)));
    let far = json::read(r#"{"max_hops":0}"#).unwrap();
    let table = MsgValue::Array(vec![path_entry(1, 1)]);
    let text = done(call_tool("get_path_table", &far, None, &[Ok(table)])).unwrap();
    assert!(text.ends_with("  (no matching entries)\n"));
    assert_eq!(
        done(call_tool("get_path_table", &none, None, &[Ok(MsgValue::Nil)])),
        Err("invalid response: expected array".to_string())
    );
    assert_eq!(
        done(call_tool("get_path_table", &none, None, &[Err("down".to_string())])),
        Err("down".to_string())
    );
    assert!(done(call_tool("nothing", &none, None, &[])).is_err());
    let snr = done(call_tool(
        "get_signal_info",
        &none,
        None,
        &[Ok(MsgValue::Double(1.5f64.to_bits())), Ok(MsgValue::NegInt(-9))],
    ))
    .unwrap();
    assert_eq!(snr, "Signal Information:\n  SNR: 1.5 dB\n  RSSI: -9 dBm\n");
    let target = json::read(&format!(r#"{{"destination":"{}","duration":2}}"#, "ab".repeat(16))).unwrap();
    assert!(matches!(hours_argument(&target), Some(Json::UInt(2))));
    assert!(hours_argument(&none).is_none());
    let said = done(call_tool(
        "blackhole_identity",
        &target,
        Some(7200.0f64.to_bits()),
        &[Ok(MsgValue::Boolean(true))],
    ));
    assert_eq!(said, Ok(format!("Blackholed identity {}\n", "ab".repeat(16))));
    assert_eq!(
        done(call_tool("drop_path", &none, None, &[])),
        Err("destination required".to_string())
    );
}

#[test]
fn tools_show_tables_and_metrics() {
    let none = json::read("{}").unwrap();
    let rate = pairs(vec![
        ("hash", MsgValue::Binary(vec![1; 16])),
        ("last", MsgValue::Double(5.0f64.to_bits())),
        ("rate_violations", MsgValue::UInt(2)),
    ]);
    let text =
        done(call_tool("get_rate_table", &none, None, &[Ok(MsgValue::Array(vec![rate]))])).unwrap();
    assert!(text.starts_with("Rate Table (1 entries):\n"));
    assert!(text.contains(&"01".repeat(16)));
    let text =
        done(call_tool("list_blackholed", &none, None, &[Ok(MsgValue::Pairs(Vec::new()))])).unwrap();
    assert_eq!(text, "No blackholed identities\n");
    let hole = (MsgValue::Binary(vec![2; 16]), pairs(vec![("reason", t("spam"))]));
    let text =
        done(call_tool("list_blackholed", &none, None, &[Ok(MsgValue::Pairs(vec![hole]))])).unwrap();
    assert!(text.starts_with("Blackholed Identities (1):\n"));
    assert!(text.contains("spam"));
    let replies = [
        Ok(MsgValue::Array(vec![MsgValue::Nil, MsgValue::Nil])),
        Ok(MsgValue::Array(Vec::new())),
        Ok(MsgValue::Pairs(Vec::new())),
        Ok(MsgValue::Double(2.5f64.to_bits())),
        Ok(MsgValue::NegInt(-70)),
    ];
    assert_eq!(
        done(call_tool("get_metrics", &none, None, &replies)).unwrap(),
        "Transport Metrics:\n  Path table entries: 2\n  Rate table entries: 0\n  \
         Blackholed identities: 0\n  Last SNR: 2.5 dB\n  Last RSSI: -70 dBm\n"
    );
    assert_eq!(
        done(call_tool("drop_announces", &none, None, &[Ok(MsgValue::Nil)])),
        Ok("Dropped announce queues on all interfaces\n".to_string())
    );
    let target = json::read(&format!(r#"{{"destination":"{}"}}"#, "ab".repeat(16))).unwrap();
    assert_eq!(
        done(call_tool("unblackhole_identity", &target, None, &[Ok(MsgValue::Boolean(false))])),
        Ok(format!("Identity {} was not blackholed\n", "ab".repeat(16)))
    );
    assert_eq!(
        done(call_tool("get_path_info", &target, None, &[Ok(MsgValue::Nil)])),
        Ok("No path known\n".to_string())
    );
}

#[test]
fn requests_about_others_name_them() {
    let id = "cd".repeat(16);
    let lift = path_tool::unblackhole_request(&id).unwrap();
    let m = lift.as_map().unwrap();
    assert!(m[0].0.is_text("unblackhole_identity"));
    assert_eq!(m[0].1.as_slice(), Some(vec![0xcd; 16]));
    let via = path_tool::drop_via_request(&id).unwrap();
    let m = via.as_map().unwrap();
    assert!(m[0].0.is_text("drop") && m[0].1.is_text("all_via"));
    assert_eq!(m[1].1.as_slice(), Some(vec![0xcd; 16]));
    assert!(path_tool::unblackhole_request("cd").is_err());
    assert!(path_tool::drop_via_request("zz").is_err());
}
