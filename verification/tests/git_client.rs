use rns_tools::client::{
    check_ok, fetched_bundle, parse_rns_url, response_bytes, Client, ClientResponse, ConnectStep,
    LinkNews, RequestStep,
};
use rns_tools::git_cli::{
    clone_dir, command, delete_request, fetch_request, head_branch, list_request, ls_remote_lines,
    parse_list_response, parse_push_args, parse_server_args, push_force, push_request, server_map,
    Command, ServerArgs, PUSH_USAGE,
};
use rns_tools::git_remote;
use rns_tools::git_remote::{
    output_lines, parse_fetch_line, parse_push_spec, parse_server_refs, push_plan,
    push_report, split_bundle, Helper, HelperAction, PushPlan,
};
use rns_tools::msgpack::MsgValue;
use rns_tools::server::{fetch_response, parse_fetch, repo_repository};
use rns_tools::transfer::{pack_metadata, path_hash, strip_metadata, unpack_request};

const SHA: &str = "0123456789abcdef0123456789abcdef01234567";

fn hex(b: &[u8]) -> String {
    b.iter().map(|x| format!("{x:02x}")).collect()
}

fn strings(v: &[&str]) -> Vec<String> {
    v.iter().map(|s| s.to_string()).collect()
}

#[test]
fn bundle_split_skips_header() {
    let bundle = b"# v2 git bundle\n\
0123456789abcdef0123456789abcdef01234567 refs/heads/main\n\
\n\
PACKDATA";
    assert_eq!(split_bundle(bundle), Some(&b"PACKDATA"[..]));
}

#[test]
fn bundle_split_no_pack() {
    assert_eq!(split_bundle(b"# v2 git bundle\n"), None);
}

#[test]
fn parse_url_forms() {
    let hash = "ab".repeat(16);
    for url in [
        format!("rns://{hash}/public/myrepo"),
        format!("rns::{hash}/public/myrepo"),
        format!("{hash}/public/myrepo"),
    ] {
        let (h, repo) = git_remote::parse_url(&url).unwrap();
        assert_eq!(hex(&h), hash);
        assert_eq!(repo, "public/myrepo");
    }
    assert!(git_remote::parse_url("rns://short/group/repo").is_err());
}

#[test]
fn push_spec_parsing() {
    assert_eq!(
        parse_push_spec("refs/heads/main:refs/heads/main").unwrap(),
        (false, "refs/heads/main".into(), "refs/heads/main".into())
    );
    assert_eq!(
        parse_push_spec("+refs/heads/a:refs/heads/b").unwrap(),
        (true, "refs/heads/a".into(), "refs/heads/b".into())
    );
    assert_eq!(
        parse_push_spec(":refs/heads/old").unwrap(),
        (false, String::new(), "refs/heads/old".into())
    );
}

#[test]
fn server_refs_parsing() {
    let body = b"0123456789abcdef0123456789abcdef01234567 refs/heads/main\n@refs/heads/main HEAD\n";
    let refs = parse_server_refs(body);
    assert_eq!(refs.len(), 1);
    assert_eq!(refs[0].1, "refs/heads/main");
}

#[test]
fn push_specs_need_a_colon() {
    assert!(parse_push_spec("nocolon").is_err());
}

#[test]
fn addresses_have_three_forms() {
    let hash = "cd".repeat(16);
    assert!(git_remote::parse_url(&format!("{hash}/g/r")).is_ok());
    for url in [
        format!("rns://{hash}/g/r"),
        format!("{hash}/g/r"),
        format!("rns://{hash} g/r"),
        format!("{hash} g/r"),
    ] {
        let (h, repo) = parse_rns_url(&url).unwrap();
        assert_eq!(hex(&h), hash);
        assert_eq!(repo, "g/r");
    }
    // A space behind the first slash belongs to the name.
    assert_eq!(parse_rns_url(&format!("rns://{hash}/g/a b")).unwrap().1, "g/a b");
    assert_eq!(parse_rns_url(&format!("rns://{hash} g")).unwrap_err(), "invalid rns url");
    assert_eq!(
        parse_rns_url(&format!("rns://{hash} g/r/s")).unwrap_err(),
        "invalid rns url: too many path components"
    );
    assert_eq!(
        parse_rns_url(&format!("rns://{hash} g/")).unwrap_err(),
        "invalid rns url: missing group or repository"
    );
}

#[test]
fn parse_url() {
    let url = format!("rns://{}/public/myrepo", "ab".repeat(16));
    let (hash, repo) = parse_rns_url(&url).unwrap();
    assert_eq!(hex(&hash), "ab".repeat(16));
    assert_eq!(repo, "public/myrepo");

    assert!(parse_rns_url("rns://short/group/repo").is_err());
    assert!(parse_rns_url("rns://0123456789abcdef0123456789abcdef").is_err());
}

#[test]
fn fetch_lines_have_two_parts() {
    assert_eq!(
        parse_fetch_line(&format!("{SHA} refs/heads/main")).unwrap(),
        (SHA.to_string(), "refs/heads/main".to_string())
    );
    assert_eq!(parse_fetch_line("alone").unwrap_err(), "invalid fetch line");
}

#[test]
fn the_helper_follows_its_protocol() {
    let mut h = Helper::new("public/testrepo".to_string());
    assert!(
        matches!(h.run(Some("capabilities")), Ok(HelperAction::Write(s)) if s == "fetch\npush\noption\n\n")
    );
    assert!(
        matches!(h.run(Some("option verbosity 2")), Ok(HelperAction::Write(s)) if s == "ok\n")
    );
    assert_eq!(h.verbosity, 2);
    assert!(
        matches!(h.run(Some("option depth 1")), Ok(HelperAction::Write(s)) if s == "unsupported\n")
    );
    assert!(matches!(h.run(Some("option dry-run true")), Ok(HelperAction::Write(s)) if s == "ok\n"));
    assert!(h.dry_run);
    assert!(matches!(h.run(Some("list")), Ok(HelperAction::List(false))));
    assert!(matches!(h.run(Some("list for-push")), Ok(HelperAction::List(true))));
    let listing = format!("\0{SHA} refs/heads/main\n@refs/heads/main HEAD\n");
    let listed = ClientResponse::Bytes(listing.into_bytes());
    assert!(h.do_list(&listed, false).is_ok());
    assert!(h.server_refs.is_empty());
    assert!(h.do_list(&ClientResponse::Bytes(Vec::new()), true).is_err());
    let out = h.do_list(&listed, true).unwrap();
    assert!(out.contains(&format!("{SHA} refs/heads/main")));
    assert!(out.contains("@refs/heads/main HEAD"));
    assert_eq!(h.server_refs, vec![(SHA.to_string(), "refs/heads/main".to_string())]);
    assert!(matches!(h.run(Some(&format!("fetch {SHA} refs/heads/main"))), Ok(HelperAction::Continue)));
    match h.run(Some("")) {
        Ok(HelperAction::Fetch(b)) => {
            assert_eq!(b, vec![(SHA.to_string(), "refs/heads/main".to_string())])
        }
        other => panic!("{other:?}"),
    }
    assert!(matches!(h.run(Some("push a:b")), Ok(HelperAction::Continue)));
    assert!(matches!(h.run(Some("option x y")), Ok(HelperAction::Continue)));
    assert!(matches!(h.run(Some("push c:d")), Ok(HelperAction::Continue)));
    match h.run(Some("")) {
        Ok(HelperAction::Push(b)) => assert_eq!(b, strings(&["a:b", "c:d"])),
        other => panic!("{other:?}"),
    }
    assert!(matches!(h.run(Some("")), Ok(HelperAction::Stop)));
    assert!(matches!(h.run(None), Ok(HelperAction::Stop)));
}

#[test]
fn the_helper_refuses_what_it_does_not_know() {
    let mut h = Helper::new("g/r".to_string());
    assert_eq!(h.run(Some("bogus")).unwrap_err(), "unknown command: bogus");
    let _ = h.run(Some("fetch a b"));
    assert_eq!(
        h.run(Some("push x:y")).unwrap_err(),
        "unexpected line in fetch batch: push x:y"
    );
    let mut h = Helper::new("g/r".to_string());
    let _ = h.run(Some("fetch a b"));
    assert_eq!(h.run(None).unwrap_err(), "unexpected EOF in fetch batch");
    let mut h = Helper::new("g/r".to_string());
    let _ = h.run(Some("push a:b"));
    assert_eq!(h.run(None).unwrap_err(), "unexpected EOF in push batch");
    assert_eq!(
        h.run(Some("fetch a b")).unwrap_err(),
        "unexpected line in push batch: fetch a b"
    );
}

#[test]
fn lines_of_output_are_trimmed() {
    assert_eq!(output_lines(b" a \n\n\tb\n"), strings(&["a", "b"]));
}

#[test]
fn pushes_are_planned_and_reported() {
    assert_eq!(push_plan(false, false, "a").unwrap_err(), "GIT_DIR is not set");
    assert_eq!(push_plan(true, true, ""), Ok(PushPlan::Pretend));
    assert_eq!(push_plan(true, false, ""), Ok(PushPlan::Delete));
    assert_eq!(push_plan(true, false, "refs/heads/a"), Ok(PushPlan::SendBundle));
    assert_eq!(push_report("refs/heads/a", &Ok(())), "ok refs/heads/a\n");
    assert_eq!(push_report("d", &Err("no".to_string())), "error d no\n");
}

#[test]
fn responses_are_understood() {
    let ok = ClientResponse::Bytes(vec![0]);
    assert_eq!(check_ok(&ok, "push"), Ok(()));
    let no = ClientResponse::Bytes(b"\x03Not found\n".to_vec());
    assert_eq!(check_ok(&no, "push").unwrap_err(), "push: server error 3: Not found");
    let r = ClientResponse::Resource(vec![1]);
    assert_eq!(check_ok(&r, "push").unwrap_err(), "push: unexpected resource response");
    assert_eq!(fetched_bundle(&ok), Ok(None));
    assert_eq!(
        fetched_bundle(&no).unwrap_err(),
        "fetch failed: server error 3: Not found"
    );
    // An empty response lacks the mark of success.
    let empty = ClientResponse::Bytes(Vec::new());
    assert_eq!(check_ok(&empty, "push failed").unwrap_err(), "push failed: server error 0: ");
    assert_eq!(fetched_bundle(&empty).unwrap_err(), "fetch failed: server error 0: ");
    assert!(parse_list_response(&[]).is_err());
    assert_eq!(response_bytes(ok), vec![0]);
    assert_eq!(response_bytes(r), vec![1]);
}

#[test]
fn a_bundle_reaches_the_client() {
    let sent = fetch_response(&Some(b"BUNDLE".to_vec())).unwrap().unwrap();
    assert_ne!(sent, b"BUNDLE".to_vec());
    assert_eq!(
        fetched_bundle(&ClientResponse::Resource(sent)),
        Ok(Some(b"BUNDLE".to_vec()))
    );
    assert_eq!(
        fetch_response(&None).unwrap().unwrap_err(),
        b"\xffCould not fetch refs".to_vec()
    );
}

#[test]
fn metadata_stands_before_the_payload() {
    let m = MsgValue::Text("ab".to_string());
    let p = pack_metadata(&m).unwrap();
    assert_eq!(p, vec![0, 0, 3, 0xa2, b'a', b'b']);
    let mut all = p.clone();
    all.extend_from_slice(b"rest");
    assert_eq!(strip_metadata(&all).unwrap(), b"rest".to_vec());
    assert!(strip_metadata(&[0, 0, 9, 1]).is_err());
}

#[test]
fn path_hashes_are_digests() {
    assert_eq!(hex(&path_hash("/git/list")), LIST_HASH);
}

const LIST_HASH: &str = "a6d5a3ee8b233dc81c94247328867d2f";

#[test]
fn requests_are_read_back() {
    let data = fetch_request("public/r", &strings(&["refs/heads/main"]), &strings(&[SHA]));
    assert_eq!(repo_repository(&data), Some("public/r".to_string()));
    let (refs, haves) = parse_fetch(&data).unwrap();
    assert_eq!(refs, vec![("refs/heads/main".to_string(), None)]);
    assert_eq!(haves, strings(&[SHA]));
    let bad = fetch_request("public/r", &strings(&["main"]), &[]);
    assert_eq!(parse_fetch(&bad).unwrap_err(), b"\x02Invalid request".to_vec());
    let bad = fetch_request("public/r", &strings(&["refs/heads/a"]), &strings(&["zz"]));
    assert_eq!(parse_fetch(&bad).unwrap_err(), b"\x02Invalid SHA".to_vec());
    let l = list_request("public/r", true);
    assert_eq!(repo_repository(&l), Some("public/r".to_string()));
    assert_eq!(parse_fetch(&l).unwrap_err(), b"\x02No refs specified".to_vec());
    let d = delete_request("public/r", "refs/heads/x");
    assert_eq!(repo_repository(&d), Some("public/r".to_string()));
    let p = push_request("public/r", "refs/heads/a", "refs/heads/b", false, &[1, 2]);
    assert_eq!(repo_repository(&p), Some("public/r".to_string()));
    assert_eq!(repo_repository(&MsgValue::Nil), None);
}

#[test]
fn packed_requests_are_unpacked() {
    let data = list_request("g/r", false);
    let packed = rns_tools::client::pack_request("/git/list", &data, 1.5f64.to_bits()).unwrap();
    assert_eq!(packed[0], 0x93);
    let r = unpack_request(&packed).unwrap();
    assert_eq!(hex(&r.path_hash), LIST_HASH);
    assert_eq!(repo_repository(&r.data), Some("g/r".to_string()));
    assert!(unpack_request(&[0xc0]).is_none());
    assert!(unpack_request(&[]).is_none());
}

#[test]
fn listings_are_read() {
    let body = format!("\0{SHA} refs/heads/main\n{SHA} refs/tags/v1\n@refs/heads/main HEAD\n");
    let r = parse_list_response(body.as_bytes()).unwrap();
    assert_eq!(r.refs.len(), 2);
    assert_eq!(r.refs[1], (SHA.to_string(), "refs/tags/v1".to_string()));
    assert_eq!(r.head, Some("refs/heads/main".to_string()));
    assert_eq!(head_branch(&r.head), Some("main".to_string()));
    let lines = ls_remote_lines(&r);
    assert_eq!(lines[0], format!("{SHA}\trefs/heads/main"));
    assert_eq!(lines[2], format!("{SHA}\tHEAD"));
    assert_eq!(
        parse_list_response(b"\x03Not found").unwrap_err(),
        "server error 3: Not found"
    );
    assert_eq!(head_branch(&Some("master".to_string())), None);
}

#[test]
fn commands_are_named() {
    assert_eq!(command(Some("ls-remote")), Command::LsRemote);
    assert_eq!(command(Some("clone")), Command::Clone);
    assert_eq!(command(Some("push")), Command::Push);
    assert_eq!(command(Some("delete")), Command::Delete);
    assert_eq!(command(Some("-h")), Command::Help);
    assert_eq!(command(Some("-b")), Command::Serve);
    assert_eq!(command(None), Command::Serve);
    assert!(matches!(parse_server_args(&strings(&["-b", "30"])), Ok(ServerArgs::Run(Some(30)))));
    assert!(matches!(parse_server_args(&[]), Ok(ServerArgs::Run(None))));
    assert!(matches!(parse_server_args(&strings(&["-h"])), Ok(ServerArgs::Help)));
    assert!(parse_server_args(&strings(&["-b"])).is_err());
    assert!(parse_server_args(&strings(&["-b", "x"])).is_err());
    assert!(parse_server_args(&strings(&["x"])).is_err());
    assert_eq!(
        parse_push_args(&strings(&["-f", "dir", "url"])).unwrap(),
        (true, "dir".to_string(), "url".to_string())
    );
    assert_eq!(parse_push_args(&strings(&["dir"])).unwrap_err(), PUSH_USAGE);
    assert_eq!(clone_dir("group/name", &None), "name");
    assert_eq!(clone_dir("group/name", &Some("d".to_string())), "d");
}

#[test]
fn force_needs_a_known_ref() {
    let m = server_map(&[("refs/heads/a".to_string(), SHA.to_string())]);
    assert!(push_force(true, &m, "refs/heads/a"));
    assert!(!push_force(true, &m, "refs/heads/b"));
    assert!(!push_force(false, &m, "refs/heads/a"));
}

#[test]
fn sessions_connect_and_answer() {
    assert!(matches!(Client::connect(false, &LinkNews::Activated), ConnectStep::Ready));
    assert!(matches!(Client::connect(false, &LinkNews::Other), ConnectStep::Wait));
    assert!(
        matches!(Client::connect(true, &LinkNews::Other), ConnectStep::Fail(e) if e == "link activation timed out")
    );
    assert!(
        matches!(Client::connect(false, &LinkNews::Closed), ConnectStep::Fail(e) if e == "link closed during activation")
    );
    let mut c = Client::new();
    let answer = LinkNews::Response(vec![7], MsgValue::Binary(vec![0]));
    assert!(matches!(c.request("/git/list", &[8], false, &answer), RequestStep::Wait));
    match c.request("/git/list", &[7], false, &answer) {
        RequestStep::Done(ClientResponse::Bytes(b)) => assert_eq!(b, vec![0]),
        other => panic!("{other:?}"),
    }
    match c.request("/git/list", &[7], true, &LinkNews::Quiet) {
        RequestStep::Fail(e) => assert_eq!(e, "request /git/list timed out"),
        other => panic!("{other:?}"),
    }
    let odd = LinkNews::Response(vec![7], MsgValue::Nil);
    match c.request("/git/list", &[7], false, &odd) {
        RequestStep::Fail(e) => assert_eq!(e, "invalid response payload"),
        other => panic!("{other:?}"),
    }
}
