use rns_tools::link::{await_activation, latin_text, lookup, Fate, LinkNews, Lookup};
use rns_tools::shell::{
    check_allowed, compress, decompress, ident_path, msg_type, pack_err, pack_exec, pack_exit,
    pack_ver, pack_winsz, read_stream, stdin_message, stream_hdr, stream_message, stream_unhdr,
    unpack_err_msg, unpack_exec, unpack_exit, unpack_ver, EscapeAction, EscapeHandler, ExecRequest,
    MSG_TYPE_CMD_EXITED, MSG_TYPE_ERROR, MSG_TYPE_EXEC_CMD, MSG_TYPE_STREAM_DATA,
    MSG_TYPE_VERSION_INFO, SID_STDERR, SID_STDIN, SID_STDOUT,
};
use rns_tools::shell_session::{
    await_version, choose_command, heard_line, initiator_act, is_announced, mode, parse_args,
    printed_address, Handshake, Initiator, InitiatorAct, InitiatorStep, Mode, Session, SessionAct,
    Stage,
};

fn strings(v: &[&str]) -> Vec<String> {
    v.iter().map(|s| s.to_string()).collect()
}

fn exec() -> ExecRequest {
    ExecRequest {
        cmd: strings(&["ls", "-l"]),
        pipe_in: false,
        pipe_out: true,
        pipe_err: false,
        term: Some("xterm".to_string()),
        rows: 24,
        cols: 80,
        hpix: 1,
        vpix: 2,
    }
}

#[test]
fn versions_are_read_back() {
    let b = pack_ver("0.2.0", 1);
    assert_eq!(b, vec![0x92, 0xa5, b'0', b'.', b'2', b'.', b'0', 1]);
    assert_eq!(unpack_ver(&b), Some(Ok(("0.2.0".to_string(), 1))));
    assert_eq!(unpack_ver(&[0x90]), None);
    assert!(matches!(unpack_ver(&[0xc0]), Some(Err(e)) if e == "ver not array"));
    assert!(matches!(unpack_ver(&[]), Some(Err(_))));
}

#[test]
fn commands_are_read_back() {
    let x = unpack_exec(&pack_exec(&exec())).unwrap();
    assert_eq!(x.cmd, strings(&["ls", "-l"]));
    assert_eq!((x.pipe_in, x.pipe_out, x.pipe_err), (false, true, false));
    assert_eq!(x.term.as_deref(), Some("xterm"));
    assert_eq!((x.rows, x.cols, x.hpix, x.vpix), (24, 80, 1, 2));
    assert!(unpack_exec(&[0xc0]).is_err());
}

#[test]
fn codes_and_errors_are_read_back() {
    assert_eq!(unpack_exit(&pack_exit(-7)), Ok(-7));
    assert_eq!(pack_exit(3), vec![3]);
    assert_eq!(unpack_err_msg(&pack_err("no", true)), Some(("no".to_string(), true)));
    assert_eq!(pack_winsz(1, 2, 3, 4).len(), 5);
    assert_eq!(msg_type(5), MSG_TYPE_VERSION_INFO);
}

#[test]
fn headers_are_read_back() {
    for (sid, eof, comp) in [(0, false, false), (2, true, false), (0x3fff, false, true)] {
        let h = stream_hdr(sid, eof, comp);
        assert_eq!(stream_unhdr(&h), Ok((sid, eof, comp)));
    }
    assert_eq!(stream_hdr(1, true, true), vec![0xc0, 0x01]);
    assert!(stream_unhdr(&[0]).is_err());
}

#[test]
fn streams_arrive_as_sent() {
    let long = vec![b'a'; 5000];
    let (comp, n, chunk) = compress(&long, 400);
    assert!(comp && n == 5000 && chunk.len() < 400);
    assert_ne!(chunk, long);
    assert_eq!(decompress(&chunk, 5000).unwrap(), long);
    assert_eq!(decompress(&chunk, 4999).unwrap_err(), "decompressed data exceeds max");
    assert!(decompress(b"not compressed", 100).is_err());
    let m = stream_message(SID_STDOUT, &long, 400);
    assert_eq!(read_stream(&m), Some((SID_STDOUT, false, long.clone())));
    let short = b"hello".to_vec();
    assert_eq!(compress(&short, 400), (false, 5, short.clone()));
    assert_eq!(compress(&short, 3), (false, 3, b"hel".to_vec()));
    assert_eq!(
        read_stream(&stream_message(SID_STDERR, &short, 400)),
        Some((SID_STDERR, false, short.clone()))
    );
    assert_eq!(read_stream(&stdin_message(&short, 400)), Some((SID_STDIN, false, short)));
    assert_eq!(read_stream(&[0]), None);
    assert_eq!(read_stream(&[0x40, 1, 9, 9]), Some((1, false, Vec::new())));
}

#[test]
fn foreign_compression_is_read() {
    let data = hex::decode(packed_letters()).unwrap();
    assert_eq!(decompress(&data, 200).unwrap(), vec![b'a'; 100]);
}

fn packed_letters() -> &'static str {
    "425a68393141592653598a5721bd0000020100600020002100820b1772453850908a5721bd"
}

#[test]
fn escapes_are_recognised() {
    let mut h = EscapeHandler::default();
    let mut out = Vec::new();
    assert_eq!(h.process_byte(b'\r', &mut out), None);
    assert_eq!(h.process_byte(b'~', &mut out), None);
    assert_eq!(h.process_byte(b'.', &mut out), Some(EscapeAction::Disconnect));
    assert_eq!(out, b"\r".to_vec());
    out.clear();
    for b in *b"a~b\r~~x" {
        assert_eq!(h.process_byte(b, &mut out), None);
    }
    assert_eq!(out, b"a~b\r~x".to_vec());
    out.clear();
    for b in *b"~ a~~\rb~." {
        assert_eq!(h.process_byte(b, &mut out), None);
    }
    assert_eq!(out, b"~ a~~\rb~.".to_vec());
    h.process_byte(b'\n', &mut out);
    h.process_byte(b'~', &mut out);
    assert_eq!(h.process_byte(b'?', &mut out), Some(EscapeAction::Help));
    h.process_byte(b'\n', &mut out);
    h.process_byte(b'~', &mut out);
    assert_eq!(h.process_byte(b'L', &mut out), Some(EscapeAction::LineModeEnabled));
    out.clear();
    h.process_byte(b'q', &mut out);
    h.process_byte(0x7f, &mut out);
    h.process_byte(0x7f, &mut out);
    assert_eq!(out, b"q\x08 \x08".to_vec());
    out.clear();
    h.process_byte(b'z', &mut out);
    h.process_byte(3, &mut out);
    assert_eq!(out, b"zz\x03\x08 \x08".to_vec());
    h.process_byte(b'\r', &mut out);
    h.process_byte(b'~', &mut out);
    assert_eq!(h.process_byte(b'L', &mut out), Some(EscapeAction::LineModeDisabled));
    out.clear();
    h.process_byte(b'\r', &mut out);
    h.process_byte(b'~', &mut out);
    h.process_byte(b'k', &mut out);
    assert_eq!(out, b"\r~k".to_vec());
}

#[test]
fn identities_are_allowed_by_lists() {
    let h = [0xabu8; 16];
    let given = strings(&[&"AB".repeat(16)]);
    assert!(check_allowed(&h, &given, &[]));
    assert!(check_allowed(&h, &[], &strings(&[&format!("  {} \n", "ab".repeat(16))])));
    assert!(!check_allowed(&h, &[], &strings(&[&format!("{}0", "ab".repeat(16))])));
    assert!(check_allowed(&h, &strings(&[&format!("{}0", "ab".repeat(16))]), &[]));
    assert!(!check_allowed(&h, &[], &[]));
    assert_eq!(ident_path("/d", ""), "/d/rnsh");
    assert_eq!(ident_path("/d", "default"), "/d/rnsh");
    assert_eq!(ident_path("/d", "web"), "/d/rnsh.web");
}

#[test]
fn addresses_are_printed() {
    let id: Vec<u8> = (0u8..16).collect();
    assert_eq!(printed_address(&id), "b5ac39aaf2b329be4ab14589743ff968");
    assert!(is_announced(&hex::decode("e8126712ffbd9c8ce5e0").unwrap()));
    assert!(!is_announced(&[0; 10]));
    assert_eq!(heard_line(&[0xab], &[1, 2], 3), "  ab  (identity 0102, 3 hops)");
}

#[test]
fn shell_options() {
    let a = parse_args(&strings(&["-l", "-n", "-a", "aa", "-a", "bb", "--", "ls", "-l"])).unwrap();
    assert!(a.listen);
    assert_eq!(mode(&a), Mode::Listen);
    assert_eq!(a.allowed, strings(&["aa", "bb"]));
    assert_eq!(a.cmd, strings(&["ls", "-l"]));
    let a = parse_args(&strings(&["00"])).unwrap();
    assert_eq!(mode(&a), Mode::Connect);
    assert_eq!(a.dest.as_deref(), Some("00"));
    assert_eq!(mode(&parse_args(&[]).unwrap()), Mode::Help);
    assert_eq!(mode(&parse_args(&strings(&["-p", "-l"])).unwrap()), Mode::PrintIdentity);
    assert!(parse_args(&strings(&["--bogus"])).is_err());
    for name in ["-A", "--remote-cmd-as-args", "--remote-command-as-args"] {
        assert!(parse_args(&strings(&["-l", name])).unwrap().remote_cmd_as_args);
    }
    assert!(!parse_args(&strings(&["-l"])).unwrap().remote_cmd_as_args);
}

#[test]
fn listeners_shake_hands() {
    let mut h = Handshake::new();
    assert_eq!(h.timeout().as_deref(), Some("version handshake timeout"));
    let (m, f) = h.step(
        LinkNews::Message(MSG_TYPE_VERSION_INFO, pack_ver("0.2.0", 1)),
        true,
        &[],
        &[],
    );
    assert_eq!(m, Some((MSG_TYPE_VERSION_INFO, pack_ver("0.2.0", 1))));
    assert!(matches!(f, Fate::Waiting));
    assert_eq!(h.timeout().as_deref(), Some("exec command timeout"));
    let (_, f) = h.step(LinkNews::Message(MSG_TYPE_EXEC_CMD, pack_exec(&exec())), true, &[], &[]);
    assert!(matches!(f, Fate::Ready));
    assert_eq!(h.timeout(), None);
    assert_eq!(h.into_request().unwrap().cmd, strings(&["ls", "-l"]));
    let mut h = Handshake::new();
    let (m, f) = h.step(LinkNews::Identified(vec![1; 16]), false, &[], &[]);
    assert_eq!(m, Some((MSG_TYPE_ERROR, pack_err("not allowed", true))));
    assert!(matches!(f, Fate::Failed(e) if e == "identity not allowed"));
    let (m, f) = h.step(
        LinkNews::Message(MSG_TYPE_VERSION_INFO, pack_ver("9", 2)),
        false,
        &[],
        &[],
    );
    assert_eq!(m, Some((MSG_TYPE_ERROR, pack_err("incompatible protocol", true))));
    assert!(matches!(f, Fate::Failed(e) if e == "incompatible protocol 2"));
    let (_, f) = h.step(LinkNews::Closed, false, &[], &[]);
    assert!(matches!(f, Fate::Failed(e) if e == "link closed during handshake"));
    let (_, f) = h.step(LinkNews::Message(MSG_TYPE_VERSION_INFO, vec![0x90]), false, &[], &[]);
    assert!(matches!(f, Fate::Malformed));
}

#[test]
fn commands_are_chosen() {
    let own = || strings(&["top"]);
    let remote = || strings(&["ls"]);
    assert_eq!(choose_command(own(), remote(), true, false, None), Ok(own()));
    assert_eq!(choose_command(own(), remote(), true, true, None), Ok(own()));
    for as_args in [false, true] {
        assert_eq!(
            choose_command(Vec::new(), remote(), true, as_args, None),
            Ok(strings(&["/bin/sh"]))
        );
    }
    assert_eq!(choose_command(own(), remote(), false, true, None), Ok(strings(&["top", "ls"])));
    assert_eq!(choose_command(own(), remote(), false, false, None), Ok(remote()));
    assert_eq!(choose_command(own(), Vec::new(), false, false, None), Ok(own()));
    assert_eq!(
        choose_command(Vec::new(), Vec::new(), false, false, None),
        Ok(strings(&["/bin/sh"]))
    );
    assert_eq!(
        choose_command(Vec::new(), Vec::new(), false, false, Some("/bin/zsh".to_string())),
        Ok(strings(&["/bin/zsh"]))
    );
    assert!(choose_command(Vec::new(), Vec::new(), false, true, None).is_err());
}

#[test]
fn initiators_follow_the_listener() {
    assert!(matches!(await_activation(&LinkNews::Activated), Fate::Ready));
    assert!(matches!(
        await_version(&LinkNews::Message(MSG_TYPE_VERSION_INFO, pack_ver("x", 1))),
        Fate::Ready
    ));
    assert!(matches!(
        await_version(&LinkNews::Message(MSG_TYPE_ERROR, pack_err("no", true))),
        Fate::Failed(e) if e == "remote: no"
    ));
    assert!(matches!(await_version(&LinkNews::Other), Fate::Waiting));
    let out = LinkNews::Message(MSG_TYPE_STREAM_DATA, stream_message(SID_STDOUT, b"hi", 100));
    assert!(matches!(initiator_act(&out), InitiatorAct::Stdout(b) if b == b"hi"));
    let exit = LinkNews::Message(MSG_TYPE_CMD_EXITED, pack_exit(5));
    assert!(matches!(initiator_act(&exit), InitiatorAct::Exit(5)));
    let err = LinkNews::Message(MSG_TYPE_ERROR, pack_err("boom", true));
    assert!(matches!(initiator_act(&err), InitiatorAct::Error(e) if e == "boom"));
    assert!(matches!(initiator_act(&LinkNews::Closed), InitiatorAct::End));
    assert!(matches!(initiator_act(&LinkNews::Quiet), InitiatorAct::TellSize));
    assert_eq!(latin_text(&[0x61, 0xe9]), "aé");
}

#[test]
fn sessions_end_with_a_code() {
    let mut s = Session::new();
    let input = LinkNews::Message(MSG_TYPE_STREAM_DATA, stdin_message(b"hi", 100));
    match s.step(&input) {
        SessionAct::Input(d, eof) => assert_eq!((d, eof), (b"hi".to_vec(), false)),
        other => panic!("{other:?}"),
    }
    assert!(matches!(s.step(&LinkNews::Quiet), SessionAct::Poll));
    assert!(!s.over(true, 0));
    assert_eq!(s.exit_message(), (MSG_TYPE_CMD_EXITED, vec![0]));
    s.ended(4);
    assert!(s.over(true, 0) && !s.over(false, 3_000_000_000) && s.over(false, 3_000_000_001));
    assert_eq!(s.exit_message(), (MSG_TYPE_CMD_EXITED, vec![4]));
    let mut s = Session::new();
    s.step(&LinkNews::Closed);
    assert!(s.exited && s.code == 0);
}

#[test]
fn identities_are_looked_up_until_time_runs_out() {
    assert_eq!(lookup(true, false), Lookup::Announced);
    assert_eq!(lookup(true, true), Lookup::Announced);
    assert_eq!(lookup(false, true), Lookup::AtHand);
    assert_eq!(lookup(false, false), Lookup::AskAgain);
}

#[test]
fn initiators_ask_for_the_command_after_the_version() {
    let version = LinkNews::Message(MSG_TYPE_VERSION_INFO, pack_ver("0.2.0", 1));
    let output = LinkNews::Message(MSG_TYPE_STREAM_DATA, vec![0, 1, b'x']);
    let mut i = Initiator::new(false);
    assert!(matches!(i.step(false, &LinkNews::Quiet), InitiatorStep::Wait));
    // A version that comes before the link is up does not count, nor does output.
    assert!(matches!(i.step(false, &version), InitiatorStep::Wait));
    assert!(matches!(i.step(false, &output), InitiatorStep::Wait));
    match i.step(false, &LinkNews::Activated) {
        InitiatorStep::Greet(identify, t, payload) => {
            assert!(identify);
            assert_eq!(t, MSG_TYPE_VERSION_INFO);
            assert_eq!(payload, pack_ver("0.2.0", 1));
        }
        other => panic!("{other:?}"),
    }
    assert_eq!(i.stage, Stage::Agreeing);
    assert!(matches!(i.step(false, &output), InitiatorStep::Wait));
    assert!(matches!(i.step(false, &version), InitiatorStep::StartCommand));
    assert_eq!(i.stage, Stage::Running);
    let out = stream_message(SID_STDOUT, b"hi", 100);
    match i.step(true, &LinkNews::Message(MSG_TYPE_STREAM_DATA, out)) {
        InitiatorStep::Do(InitiatorAct::Stdout(b)) => assert_eq!(b, b"hi"),
        other => panic!("{other:?}"),
    }
    match i.step(true, &LinkNews::Message(MSG_TYPE_CMD_EXITED, pack_exit(7))) {
        InitiatorStep::Do(InitiatorAct::Exit(7)) => {}
        other => panic!("{other:?}"),
    }
}

#[test]
fn initiators_give_up() {
    let mut i = Initiator::new(true);
    match i.step(true, &LinkNews::Activated) {
        InitiatorStep::Fail(e) => assert_eq!(e, "link activation timed out"),
        other => panic!("{other:?}"),
    }
    match i.step(false, &LinkNews::Closed) {
        InitiatorStep::Fail(e) => assert_eq!(e, "link closed during activation"),
        other => panic!("{other:?}"),
    }
    assert!(matches!(i.step(false, &LinkNews::Activated), InitiatorStep::Greet(false, _, _)));
    match i.step(true, &LinkNews::Quiet) {
        InitiatorStep::Fail(e) => assert_eq!(e, "version handshake failed"),
        other => panic!("{other:?}"),
    }
    match i.step(false, &LinkNews::Message(MSG_TYPE_ERROR, pack_err("go away", true))) {
        InitiatorStep::Fail(e) => assert_eq!(e, "remote: go away"),
        other => panic!("{other:?}"),
    }
    let short = LinkNews::Message(MSG_TYPE_VERSION_INFO, vec![0x90]);
    assert!(matches!(i.step(false, &short), InitiatorStep::Malformed));
}
