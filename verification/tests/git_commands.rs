use rns_tools::byte_map::ByteMap;
use rns_tools::client::{
    python_request_id, request_form, Client, ClientResponse, PartOutcome, RequestForm,
    MAX_ADV_RETRIES,
};
use rns_tools::git_cli::{
    check_clone_dir, check_push_dir, clone_repository, prerequisites, push_step, refs_to_push,
    server_map, PushStep,
};
use rns_tools::git_remote::{index_bundle_into, local_have_shas, Helper};
use rns_tools::gitutil::{
    checkout_branch, config_set, fetch_bundle, init_repository, is_ancestor, local_refs,
    object_exists, ref_exists, remote_add, verify_bundle, GitOutcome, Step,
};
use rns_tools::hash::truncated;
use rns_tools::server::{PacketAction, PacketKind};

const SHA: &str = "0123456789abcdef0123456789abcdef01234567";

fn strings(v: &[&str]) -> Vec<String> {
    v.iter().map(|s| s.to_string()).collect()
}

fn ok(out: &[u8]) -> GitOutcome {
    GitOutcome::Exited { success: true, stdout: out.to_vec(), stderr: Vec::new() }
}

fn bad(err: &[u8]) -> GitOutcome {
    GitOutcome::Exited { success: false, stdout: Vec::new(), stderr: err.to_vec() }
}

fn absent() -> GitOutcome {
    GitOutcome::NotRun("no such file".to_string())
}

fn asked<T>(step: Step<T>) -> Vec<String> {
    match step {
        Step::Run(args) => args,
        Step::Done(_) => panic!("nothing was asked for"),
    }
}

fn done<T>(step: Step<T>) -> T {
    match step {
        Step::Run(args) => panic!("still to run: {args:?}"),
        Step::Done(x) => x,
    }
}

#[test]
fn objects_and_refs_are_looked_up() {
    assert_eq!(asked(object_exists(SHA, &[])), strings(&["cat-file", "-t", SHA]));
    assert!(done(object_exists(SHA, &[ok(b"commit\n")])));
    assert!(!done(object_exists(SHA, &[bad(b"fatal")])));
    assert!(!done(object_exists(SHA, &[absent()])));
    assert_eq!(
        asked(ref_exists("refs/heads/main", &[])),
        strings(&["rev-parse", "--verify", "--quiet", "refs/heads/main"])
    );
    assert!(done(ref_exists("refs/heads/main", &[ok(b"")])));
    assert!(!done(ref_exists("refs/heads/main", &[bad(b"")])));
    assert_eq!(
        asked(is_ancestor("aa", "bb", &[])),
        strings(&["merge-base", "--is-ancestor", "aa", "bb"])
    );
    assert!(done(is_ancestor("aa", "bb", &[ok(b"")])));
    assert!(!done(is_ancestor("aa", "bb", &[absent()])));
}

#[test]
fn settings_must_succeed() {
    assert_eq!(asked(config_set("a.b", "c", &[])), strings(&["config", "a.b", "c"]));
    assert_eq!(done(config_set("a.b", "c", &[ok(b"")])), Ok(()));
    assert_eq!(
        done(config_set("a.b", "c", &[bad(b"locked")])),
        Err("git config failed: locked".to_string())
    );
    assert_eq!(
        asked(remote_add("origin", "rns://x", &[])),
        strings(&["remote", "add", "origin", "rns://x"])
    );
    assert_eq!(
        done(remote_add("origin", "rns://x", &[bad(b"exists")])),
        Err("git remote add failed: exists".to_string())
    );
    assert_eq!(
        done(remote_add("origin", "rns://x", &[absent()])),
        Err("could not run git: no such file".to_string())
    );
}

#[test]
fn bundles_are_verified_and_fetched() {
    assert_eq!(asked(verify_bundle("/b", &[])), strings(&["bundle", "verify", "/b"]));
    assert_eq!(
        done(verify_bundle("/b", &[bad(b"broken")])),
        Err("bundle verification failed: broken".to_string())
    );
    assert_eq!(done(fetch_bundle("/b", &[], &[])), Err("no refspecs".to_string()));
    let specs = strings(&["+refs/heads/*:refs/heads/*", "refs/tags/v1"]);
    assert_eq!(
        asked(fetch_bundle("/b", &specs, &[])),
        strings(&["fetch", "/b", "+refs/heads/*:refs/heads/*", "refs/tags/v1"])
    );
    assert_eq!(done(fetch_bundle("/b", &specs, &[ok(b"")])), Ok(()));
    assert_eq!(
        done(fetch_bundle("/b", &specs, &[bad(b"no")])),
        Err("bundle fetch failed: no".to_string())
    );
}

#[test]
fn repositories_start_on_the_named_branch() {
    assert_eq!(
        asked(init_repository("dir", Some("trunk"), &[])),
        strings(&["init", "-b", "trunk", "dir"])
    );
    assert_eq!(asked(init_repository("dir", Some(""), &[])), strings(&["init", "dir"]));
    assert_eq!(asked(init_repository("dir", None, &[])), strings(&["init", "dir"]));
    assert_eq!(
        done(init_repository("dir", None, &[bad(b"denied")])),
        Err("git init failed: denied".to_string())
    );
}

#[test]
fn local_refs_are_read_from_git() {
    assert_eq!(asked(local_refs(&[])).last().unwrap(), "refs/tags");
    let out = format!("{SHA} refs/heads/main\n");
    assert_eq!(
        done(local_refs(&[ok(out.as_bytes())])),
        Ok(vec![(SHA.to_string(), "refs/heads/main".to_string())])
    );
    assert_eq!(
        done(local_refs(&[bad(b"not a repository")])),
        Err("git for-each-ref failed: not a repository".to_string())
    );
}

#[test]
fn a_clone_runs_its_commands_in_order() {
    let branch = Some("main".to_string());
    let bundle = Some("/b".to_string());
    let mut outs = Vec::new();
    let mut commands = Vec::new();
    loop {
        match clone_repository("dir", &branch, &bundle, "rns://x", &outs) {
            Step::Run(args) => {
                commands.push(args.join(" "));
                outs.push(ok(b""));
            }
            Step::Done(result) => {
                assert_eq!(result, Ok(()));
                break;
            }
        }
    }
    assert_eq!(commands[0], "init -b main dir");
    assert_eq!(commands[1], "bundle verify /b");
    assert_eq!(
        commands[2],
        "fetch /b +refs/heads/*:refs/remotes/origin/* +refs/tags/*:refs/tags/*"
    );
    assert_eq!(commands[3], "remote add origin rns://x");
    assert_eq!(commands[4], "config remote.origin.fetch +refs/heads/*:refs/remotes/origin/*");
    assert_eq!(commands[commands.len() - 2], "config branch.main.remote origin");
    assert_eq!(commands[commands.len() - 1], "config branch.main.merge refs/heads/main");
    assert_eq!(
        done(clone_repository("dir", &branch, &bundle, "rns://x", &[ok(b""), bad(b"broken")])),
        Err("bundle verification failed: broken".to_string())
    );
    assert_eq!(
        done(clone_repository("dir", &None, &None, "rns://x", &[ok(b""), ok(b""), ok(b"")])),
        Ok(())
    );
}

#[test]
fn a_checkout_needs_a_branch() {
    assert_eq!(done(checkout_branch("refs/heads/main", &[bad(b""), bad(b"")])), Ok(false));
}

#[test]
fn pushes_go_forward_unless_forced() {
    let local = vec![(SHA.to_string(), "refs/heads/main".to_string())];
    let empty = server_map(&[]);
    assert_eq!(
        done(refs_to_push(&local, &empty, false, &[])),
        Ok(strings(&["refs/heads/main"]))
    );
    let same = server_map(&[("refs/heads/main".to_string(), SHA.to_string())]);
    assert_eq!(done(refs_to_push(&local, &same, false, &[])), Ok(Vec::new()));
    let other = server_map(&[("refs/heads/main".to_string(), "ff".to_string())]);
    assert_eq!(
        asked(refs_to_push(&local, &other, false, &[])),
        strings(&["merge-base", "--is-ancestor", "ff", SHA])
    );
    assert_eq!(
        done(refs_to_push(&local, &other, false, &[ok(b"")])),
        Ok(strings(&["refs/heads/main"]))
    );
    assert_eq!(
        done(refs_to_push(&local, &other, false, &[bad(b"")])),
        Err("non-fast-forward update for refs/heads/main; use --force".to_string())
    );
    assert_eq!(
        done(refs_to_push(&local, &other, true, &[])),
        Ok(strings(&["refs/heads/main"]))
    );
}

#[test]
fn common_objects_are_prerequisites() {
    let refs = vec![
        ("aa".to_string(), "refs/heads/a".to_string()),
        ("bb".to_string(), "refs/heads/b".to_string()),
    ];
    assert_eq!(asked(prerequisites(&refs, &[])), strings(&["cat-file", "-t", "aa"]));
    assert_eq!(
        asked(prerequisites(&refs, &[ok(b"commit")])),
        strings(&["cat-file", "-t", "bb"])
    );
    assert_eq!(done(prerequisites(&refs, &[bad(b""), ok(b"")])), strings(&["bb"]));
}

#[test]
fn packs_are_indexed_or_the_error_is_told() {
    assert_eq!(index_bundle_into(&ok(b"pack\t1")), Ok(()));
    assert_eq!(
        index_bundle_into(&bad(b" broken \n")),
        Err("git index-pack failed: broken".to_string())
    );
    assert!(index_bundle_into(&absent()).is_err());
    assert_eq!(local_have_shas(true, &ok(b"aa\n\n bb \n")), Ok(strings(&["aa", "bb"])));
    assert_eq!(local_have_shas(false, &ok(b"aa\n")), Err("GIT_DIR is not set".to_string()));
    assert_eq!(local_have_shas(true, &bad(b"fatal: x\n")), Err("fatal: x".to_string()));
}

#[test]
fn the_helper_takes_packs_out_of_responses() {
    assert_eq!(Helper::do_fetch(&ClientResponse::Bytes(vec![0])), Ok(None));
    assert!(Helper::do_fetch(&ClientResponse::Bytes(vec![3, b'x'])).is_err());
    let mut bundle = vec![0, 0, 1, 0x80];
    bundle.extend_from_slice(b"# v2 git bundle\n\nPACK");
    assert_eq!(Helper::do_fetch(&ClientResponse::Resource(bundle)), Ok(Some(b"PACK".to_vec())));
    assert_eq!(
        Helper::do_fetch(&ClientResponse::Resource(vec![0, 0, 1, 0x80, 7, 8])),
        Err("invalid bundle: missing pack section".to_string())
    );
    assert_eq!(
        Helper::do_fetch(&ClientResponse::Resource(vec![0, 0])),
        Err("fetch response too short".to_string())
    );
    assert_eq!(
        Helper::do_fetch(&ClientResponse::Resource(vec![0, 0, 9, 1])),
        Err("fetch response truncated".to_string())
    );
}

#[test]
fn requests_are_known_by_digests() {
    let id = python_request_id(0xfc, &[7; 16], 9, b"cipher");
    let hex: String = id.iter().map(|b| format!("{b:02x}")).collect();
    assert_eq!(hex, "568684819b705305e6b747a2c944cd5b");
    assert!(matches!(request_form(b"abc", 3), RequestForm::Inline));
    match request_form(b"abcd", 3) {
        RequestForm::Resource(id) => assert_eq!(id, truncated(b"abcd")),
        RequestForm::Inline => panic!("too long for one packet"),
    }
}

#[test]
fn clients_advertise_a_few_times() {
    let mut client = Client::new();
    let hash = vec![1u8; 32];
    assert!(!client.retry_advertisement(&hash, 0));
    client.link.sending(hash.clone());
    assert!(!client.retry_advertisement(&hash, 1));
    for _ in 0..MAX_ADV_RETRIES {
        assert!(client.retry_advertisement(&hash, 0));
    }
    assert!(!client.retry_advertisement(&hash, 0));
    client.link.proved(&hash, false);
    assert!(client.link.outbound.contains_key(&hash));
    client.link.proved(&hash, true);
    assert!(!client.link.outbound.contains_key(&hash));
}

#[test]
fn clients_receive_responses_only() {
    let mut client = Client::new();
    let decide = |client: &Client, flags: u8| {
        client.handle_resource(&PacketKind::Advertisement(flags), &[]).unwrap()
    };
    assert!(matches!(decide(&client, 0x10), PacketAction::StartInbound));
    assert!(matches!(decide(&client, 0x08), PacketAction::Ignore));
    assert!(matches!(decide(&client, 0x18), PacketAction::Ignore));
    assert!(matches!(decide(&client, 0x01), PacketAction::Ignore));
    let hash = vec![2u8; 32];
    let mut request = vec![0u8];
    request.extend_from_slice(&hash);
    assert_eq!(
        client.handle_resource(&PacketKind::PartRequest, &request).unwrap_err(),
        "no outbound resource"
    );
    client.link.sending(hash.clone());
    match client.handle_resource(&PacketKind::PartRequest, &request).unwrap() {
        PacketAction::ServeParts(h) => assert_eq!(h, hash),
        other => panic!("{other:?}"),
    }
    assert_eq!(
        client.handle_resource(&PacketKind::HashUpdate, &hash).unwrap_err(),
        "no inbound resource"
    );
    client.link.receiving(hash.clone(), vec![5]);
    client.received(&hash, vec![6, 7]);
    match client.responses.get(&[5]) {
        Some(ClientResponse::Resource(b)) => assert_eq!(b, &[6, 7]),
        _ => panic!("the response is missing"),
    }
}

#[test]
fn clients_read_advertisements() {
    let client = Client::new();
    let response = [0x82, 0xa1, b'f', 0x10, 0xa1, b'q', 0xc4, 2, 4, 5];
    match client.receive_advertisement(&response).unwrap() {
        (PacketAction::StartInbound, id) => assert_eq!(id, vec![4, 5]),
        other => panic!("{other:?}"),
    }
    match client.receive_advertisement(&[0x81, 0xa1, b'f', 0x08]).unwrap() {
        (PacketAction::Ignore, id) => assert!(id.is_empty()),
        other => panic!("{other:?}"),
    }
    assert_eq!(
        client.receive_advertisement(b"text").unwrap_err(),
        "invalid resource advertisement: packet error"
    );
}

#[test]
fn parts_complete_or_call_for_more() {
    assert_eq!(Client::part_outcome(false, true, 0, 4), PartOutcome::Nothing);
    assert_eq!(Client::part_outcome(true, true, 0, 4), PartOutcome::Complete);
    assert_eq!(Client::part_outcome(true, false, 3, 4), PartOutcome::AskForMore);
    assert_eq!(Client::part_outcome(true, false, 4, 4), PartOutcome::Nothing);
}

#[test]
fn byte_maps_have_each_key_once() {
    let mut map: ByteMap<u8> = ByteMap::new();
    map.insert(vec![1], 1);
    map.insert(vec![2], 2);
    map.insert(vec![1], 3);
    assert_eq!(map.len(), 2);
    assert_eq!(map.get(&[1]), Some(&3));
    let mut keys = vec![map.key_at(0).clone(), map.key_at(1).clone()];
    keys.sort();
    assert_eq!(keys, vec![vec![1u8], vec![2u8]]);
    assert_eq!(map.remove(&[1]), Some(3));
    assert_eq!(map.remove(&[1]), None);
}

#[test]
fn directories_are_checked() {
    assert_eq!(check_clone_dir("repo", false), Ok(()));
    assert_eq!(check_clone_dir("repo", true), Err("destination repo already exists".to_string()));
    assert_eq!(check_push_dir("repo", true), Ok(()));
    assert_eq!(check_push_dir("repo", false), Err("repo is not a directory".to_string()));
}

#[test]
fn pushes_stop_at_a_refusal() {
    let names = strings(&["refs/heads/a", "refs/heads/b"]);
    assert!(matches!(push_step(&[], &[]), PushStep::UpToDate));
    let mut answers = Vec::new();
    assert!(matches!(push_step(&names, &answers), PushStep::Send(0)));
    answers.push(ClientResponse::Bytes(vec![0]));
    assert!(matches!(push_step(&names, &answers), PushStep::Send(1)));
    answers.push(ClientResponse::Bytes(vec![0]));
    assert!(matches!(push_step(&names, &answers), PushStep::Finished));
    let mut refused = vec![ClientResponse::Bytes(b"\x04 not allowed\n".to_vec())];
    for _ in 0..2 {
        match push_step(&names, &refused) {
            PushStep::Failed(e) => assert_eq!(e, "push failed: server error 4: not allowed"),
            other => panic!("{other:?}"),
        }
        refused.push(ClientResponse::Bytes(vec![0]));
    }
}
