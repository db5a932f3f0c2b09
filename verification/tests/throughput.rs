use rns_tools::link::{Fate, LinkNews};
use rns_tools::msgpack::MsgValue;
use rns_tools::perf::{
    await_result, await_version, data_size, pack_err, pack_result, pack_result_request,
    pack_test_config, pack_version, parse_args, resolve_listener_identity, rpc_ports, unpack_result,
    unpack_test_config, unpack_version, Counter, CounterAct, Initiator, InitiatorStep, ResultAct,
    Sender, Setup, Stage, MSG_TYPE_DATA, MSG_TYPE_RESULT, MSG_TYPE_TEST_CONFIG, MSG_TYPE_VERSION,
};

fn strings(v: &[&str]) -> Vec<String> {
    v.iter().map(|s| s.to_string()).collect()
}

#[test]
fn test_messages_are_read_back() {
    assert_eq!(unpack_version(&pack_version("1.0")), Some(Ok(("1.0".to_string(), 1))));
    let (d, size) = unpack_test_config(&pack_test_config(2.5f64.to_bits(), 400)).unwrap();
    assert!(matches!(d, Some(MsgValue::Double(b)) if b == 2.5f64.to_bits()));
    assert_eq!(size, 400);
    assert_eq!(unpack_result(&pack_result(10, 2, 99)), Ok((10, 2, 99)));
    assert!(unpack_result(&[0xc0]).is_err());
    assert!(unpack_test_config(&[0xc0]).is_err());
    assert!(!pack_result_request().is_empty());
}

#[test]
fn listeners_set_up_a_test() {
    let mut s = Setup::new(500);
    assert!(s.timeout().is_some());
    let (m, f) = s.step(&LinkNews::Message(MSG_TYPE_VERSION, pack_version("x")), "1.0");
    assert_eq!(m.map(|x| x.0), Some(MSG_TYPE_VERSION));
    assert!(matches!(f, Fate::Waiting));
    let config = pack_test_config(2.5f64.to_bits(), 9000);
    let (_, f) = s.step(&LinkNews::Message(MSG_TYPE_TEST_CONFIG, config), "1.0");
    assert!(matches!(f, Fate::Ready));
    assert!(s.packet_size() <= 500);
    assert!(matches!(s.duration(), Some(MsgValue::Double(b)) if b == 2.5f64.to_bits()));
    assert!(s.timeout().is_none());
    let (_, f) = s.step(&LinkNews::Closed, "1.0");
    assert!(matches!(f, Fate::Failed(_)));
}

#[test]
fn packets_are_sent_and_counted() {
    let mut sender = Sender::new();
    let mut counter = Counter::new();
    for i in 0..3u32 {
        let p = sender.next_packet(64);
        assert_eq!(p.len(), 68);
        assert_eq!(&p[..4], &i.to_be_bytes());
        assert_eq!(counter.step(&LinkNews::Message(MSG_TYPE_DATA, p)), CounterAct::Counted);
    }
    assert_eq!((sender.packets, sender.bytes), (3, 192));
    assert_eq!((counter.packets, counter.bytes), (3, 192));
    let (_, r) = counter.result(7);
    assert_eq!(unpack_result(&r), Ok((192, 3, 7)));
    assert_eq!(counter.step(&LinkNews::Closed), CounterAct::End);
}

#[test]
fn results_are_awaited() {
    let got = LinkNews::Message(rns_tools::perf::MSG_TYPE_RESULT, pack_result(1, 2, 3));
    assert!(matches!(await_result(&got), ResultAct::Got(1, 2, 3)));
    let err = LinkNews::Message(rns_tools::perf::MSG_TYPE_ERROR, pack_err("no"));
    assert!(matches!(await_result(&err), ResultAct::Error(_)));
    assert!(matches!(await_result(&LinkNews::Quiet), ResultAct::Wait));
    assert!(matches!(
        await_version(&LinkNews::Message(MSG_TYPE_VERSION, pack_version("x"))),
        Fate::Ready
    ));
    assert!(data_size(Some(10_000), 500) <= 500);
    assert!(data_size(None, 500) <= 500);
}

#[test]
fn throughput_options() {
    let a = parse_args(&strings(&["-l"])).unwrap();
    assert!(a.listen);
    assert!(parse_args(&strings(&["--bogus"])).is_err());
    assert_eq!(rpc_ports(&None), Ok(None));
    assert_eq!(rpc_ports(&Some("4000".to_string())), Ok(Some((4000, 4001))));
    assert_eq!(rpc_ports(&Some("x".to_string())).unwrap_err(), "bad RNPERF_RPC_PORT");
}

#[test]
fn the_listener_is_known_by_its_keys() {
    let private = "77076d0a7318a57d3c16c17251b26645df4c2f92ebc0992ac177fba51db92c2a9d61b19deffd5a60ba844af492ec2cc44449c5697b326919703bac031cae7f60";
    let public = "f8a9535a2d2ff605e8e144d54f4ef5c62313a2055dbb21fddd3fd9c299eb015dd75a980182b10ab7d54bfed3c964073a0ee172f3daa62325af021a68f707511a";
    let k = resolve_listener_identity(&Some(public.to_string()), &None, "f").unwrap();
    assert_eq!(hex::encode(&k), public);
    let k = resolve_listener_identity(&None, &Some(format!("{private}\n")), "f").unwrap();
    assert_eq!(hex::encode(&k), public);
    assert_eq!(
        resolve_listener_identity(&Some("zz".to_string()), &None, "f").unwrap_err(),
        "invalid remote identity hex: IncorrectHash"
    );
    let wrong = format!("{}{}", &public[..64], "0200000000000000000000000000000000000000000000000000000000000000");
    assert_eq!(
        resolve_listener_identity(&Some(wrong), &None, "f").unwrap_err(),
        "invalid remote identity hex: CryptoError"
    );
    assert_eq!(
        resolve_listener_identity(&None, &Some("zz".to_string()), "\"f\"").unwrap_err(),
        "bad identity \"f\": IncorrectHash"
    );
    assert!(resolve_listener_identity(&None, &None, "f").is_err());
}

#[test]
fn bursts_and_unasked_results() {
    let mut sender = Sender::new();
    for _ in 0..99 {
        sender.next_packet(1);
        assert!(!sender.at_burst_end());
    }
    sender.next_packet(1);
    assert!(sender.at_burst_end());
    let mut counter = Counter::new();
    assert!(!counter.sends_at_end());
    counter.step(&LinkNews::Message(MSG_TYPE_DATA, vec![0; 5]));
    assert!(counter.sends_at_end());
    assert_eq!(
        counter.step(&LinkNews::Message(MSG_TYPE_RESULT, Vec::new())),
        CounterAct::SendResult
    );
    assert!(!counter.sends_at_end());
}

#[test]
fn initiators_test_after_the_version() {
    let version = LinkNews::Message(MSG_TYPE_VERSION, pack_version("2.0"));
    let result = LinkNews::Message(MSG_TYPE_RESULT, pack_result(10, 2, 99));
    let mut i = Initiator::new();
    assert!(matches!(i.step(false, &version, "1.0"), InitiatorStep::Wait));
    match i.step(false, &LinkNews::Activated, "1.0") {
        InitiatorStep::Greet(t, payload) => {
            assert_eq!(t, MSG_TYPE_VERSION);
            assert_eq!(payload, pack_version("1.0"));
        }
        other => panic!("{other:?}"),
    }
    assert!(matches!(i.step(false, &result, "1.0"), InitiatorStep::Wait));
    assert!(matches!(i.step(false, &version, "1.0"), InitiatorStep::StartTest));
    assert_eq!(i.stage, Stage::Awaiting);
    assert!(matches!(i.step(false, &LinkNews::Other, "1.0"), InitiatorStep::Wait));
    assert!(matches!(i.step(false, &result, "1.0"), InitiatorStep::Report(10, 2, 99)));
    assert!(matches!(i.step(false, &LinkNews::Closed, "1.0"), InitiatorStep::NoReport(None)));
    assert!(matches!(i.step(true, &LinkNews::Quiet, "1.0"), InitiatorStep::NoReport(None)));
}

#[test]
fn initiators_of_tests_give_up() {
    let mut i = Initiator::new();
    match i.step(true, &LinkNews::Quiet, "1.0") {
        InitiatorStep::Fail(e) => assert_eq!(e, "link activation timed out"),
        other => panic!("{other:?}"),
    }
    assert!(matches!(i.step(false, &LinkNews::Activated, "1.0"), InitiatorStep::Greet(_, _)));
    match i.step(true, &LinkNews::Quiet, "1.0") {
        InitiatorStep::Fail(e) => assert_eq!(e, "version handshake failed"),
        other => panic!("{other:?}"),
    }
}
