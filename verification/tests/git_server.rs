use rns_tools::byte_map::ByteMap;
use rns_tools::git_cli::{delete_request, fetch_request, list_request, push_request};
use rns_tools::gitutil::{
    apply_push_bundle, checkout_branch, create_fetch_bundle, create_push_bundle, create_repository,
    delete_ref, head_ref, list_refs, parse_ref_lines, parse_request_repository_path, ref_listing,
    san_ref, san_sha, update_ref, CreateStep, GitOutcome, Step, TempDir,
};
use rns_tools::msgpack::MsgValue;
use rns_tools::perms::{Perm, Target};
use rns_tools::rngit_config::{config_path, ident_path, Cfg};
use rns_tools::server::{
    handle_event, handle_resource_packet, receive_advertisement, route_request, BundleFile, Facts, LinkNotice, LinkState,
    NoticeAction, PacketAction, PacketKind, Rngit, Route, ServerStep, TickAction,
};
use rns_tools::transfer::{path_hash, process_hashmap_update};

const SHA: &str = "0123456789abcdef0123456789abcdef01234567";

fn ok(out: &[u8]) -> GitOutcome {
    GitOutcome::Exited { success: true, stdout: out.to_vec(), stderr: Vec::new() }
}

fn bad(err: &[u8]) -> GitOutcome {
    GitOutcome::Exited { success: false, stdout: Vec::new(), stderr: err.to_vec() }
}

fn strings(v: &[&str]) -> Vec<String> {
    v.iter().map(|s| s.to_string()).collect()
}

#[test]
fn ref_validation() {
    assert!(san_ref("refs/heads/main").is_some());
    assert!(san_ref("refs/tags/v1.0").is_some());
    assert!(san_ref("main").is_none());
    assert!(san_ref("-refs/heads/x").is_none());
    assert!(san_ref("refs/heads/x..y").is_none());
    assert!(san_ref("refs/heads/x").is_some());
    assert!(san_ref("refs/heads/feat space").is_none());
}

#[test]
fn sha_validation() {
    let good = "0123456789abcdef0123456789abcdef01234567";
    assert!(san_sha(good).is_some());
    assert!(san_sha(&good[..39]).is_none());
    assert!(san_sha("gg123456789abcdef0123456789abcdef0123456").is_none());
}

#[test]
fn repo_path_parsing() {
    assert_eq!(
        parse_request_repository_path("public/myrepo"),
        Some(("public", "myrepo"))
    );
    assert!(parse_request_repository_path("public").is_none());
    assert!(parse_request_repository_path("public/a/b").is_none());
    assert!(parse_request_repository_path("").is_none());
}

#[test]
fn fetch_bundle_unborn_ref_is_empty() {
    let refs = vec![("refs/heads/main".to_string(), None)];
    let first = create_fetch_bundle("fetch.bundle", &refs, &[], &[]);
    match first {
        Step::Run(a) => assert_eq!(a[a.len() - 1], "refs/heads/main"),
        other => panic!("{other:?}"),
    }
    let result = create_fetch_bundle("fetch.bundle", &refs, &[], &[bad(b"")]);
    assert!(
        matches!(result, Step::Done(Ok(None))),
        "unborn ref should yield an empty bundle"
    );
}

#[test]
fn fetch_bundles_leave_out_what_the_client_has() {
    let refs = vec![("refs/heads/main".to_string(), None)];
    let haves = strings(&[SHA]);
    match create_fetch_bundle("p", &refs, &haves, &[ok(b""), ok(b"")]) {
        Step::Run(a) => assert_eq!(
            a,
            strings(&["bundle", "create", "--no-progress", "p", "refs/heads/main", &format!("^{SHA}")])
        ),
        other => panic!("{other:?}"),
    }
    let end = create_fetch_bundle(
        "p",
        &refs,
        &haves,
        &[ok(b""), ok(b""), bad(b"fatal: Refusing to create Empty Bundle.")],
    );
    assert!(matches!(end, Step::Done(Ok(None))));
    let end = create_fetch_bundle("p", &refs, &haves, &[ok(b""), ok(b""), ok(b"")]);
    assert!(matches!(end, Step::Done(Ok(Some(())))));
    match create_fetch_bundle("p", &refs, &[], &[ok(b""), GitOutcome::NotRun("gone".to_string())]) {
        Step::Done(Err(e)) => assert_eq!(e, "could not run git: gone"),
        other => panic!("{other:?}"),
    }
    let wrong = vec![("main".to_string(), None)];
    match create_fetch_bundle("p", &wrong, &[], &[]) {
        Step::Done(Err(e)) => assert_eq!(e, "invalid ref"),
        other => panic!("{other:?}"),
    }
    match create_fetch_bundle("p", &refs, &strings(&["xx"]), &[ok(b"")]) {
        Step::Done(Err(e)) => assert_eq!(e, "invalid SHA"),
        other => panic!("{other:?}"),
    }
}

#[test]
fn refs_move_only_with_force() {
    let other = format!("{}\n", "f".repeat(40));
    match update_ref("refs/heads/a", SHA, false, &[ok(b""), ok(other.as_bytes())]) {
        Step::Done(Err(e)) => assert_eq!(
            e,
            "ref refs/heads/a already exists at different SHA (force required)"
        ),
        other => panic!("{other:?}"),
    }
    match update_ref("refs/heads/a", SHA, true, &[ok(b""), ok(other.as_bytes())]) {
        Step::Run(a) => assert_eq!(a, strings(&["update-ref", "refs/heads/a", SHA])),
        other => panic!("{other:?}"),
    }
    let done = [ok(b""), ok(other.as_bytes()), ok(b"")];
    assert!(matches!(update_ref("refs/heads/a", SHA, true, &done), Step::Done(Ok(()))));
    match update_ref("refs/heads/a", SHA, false, &[bad(b"")]) {
        Step::Done(Err(e)) => assert_eq!(e, format!("object {SHA} does not exist in repository")),
        other => panic!("{other:?}"),
    }
    assert!(matches!(delete_ref("main", &[]), Step::Done(Err(_))));
    assert!(matches!(delete_ref("refs/heads/a", &[]), Step::Run(_)));
    assert!(matches!(
        apply_push_bundle("p", "refs/heads/a", "refs/heads/b", false, &[]),
        Step::Run(_)
    ));
    assert!(matches!(checkout_branch("main", &[]), Step::Run(_)));
    match create_push_bundle("p", &strings(&["refs/heads/a"]), &strings(&[SHA]), &[]) {
        Step::Run(a) => assert_eq!(
            a,
            strings(&["bundle", "create", "--no-progress", "p", "refs/heads/a", &format!("^{SHA}")])
        ),
        other => panic!("{other:?}"),
    }
    assert!(matches!(
        create_push_bundle("p", &[], &[], &[]),
        Step::Done(Err(e)) if e == "no refs to push"
    ));
}

#[test]
fn refs_are_listed_once() {
    let out = format!("{SHA} refs/heads/main\n{SHA} refs/heads/main\n{SHA} refs/tags/v1\n");
    let head = Some(b"ref: refs/heads/main\n".to_vec());
    assert_eq!(
        ref_listing(out.as_bytes(), &head),
        format!("{SHA} refs/heads/main\n{SHA} refs/tags/v1\n@refs/heads/main HEAD\n")
    );
    assert_eq!(head_ref(&head), "refs/heads/main");
    assert_eq!(head_ref(&None), "master");
    assert!(matches!(list_refs(&head, &[]), Step::Run(_)));
    assert_eq!(parse_ref_lines(out.as_bytes()).unwrap().len(), 3);
}

#[test]
fn repositories_are_made_in_steps() {
    let none: Option<String> = None;
    assert!(matches!(
        create_repository("/r", "ab", true, &[]),
        CreateStep::Done(Err(e)) if e == "repository already exists"
    ));
    assert!(matches!(create_repository("/r", "ab", false, &[]), CreateStep::MakeDirectory));
    match create_repository("/r", "ab", false, &[none.clone(), none.clone()]) {
        CreateStep::WriteFile(p, c) => {
            assert_eq!(p, "/r.allowed");
            assert_eq!(c, "adm:ab\n");
        }
        other => panic!("{other:?}"),
    }
    let done = [none.clone(), none.clone(), none.clone()];
    assert!(matches!(create_repository("/r", "ab", false, &done), CreateStep::Done(Ok(()))));
    let done = [none.clone(), Some("x".to_string())];
    assert!(matches!(create_repository("/r", "ab", false, &done), CreateStep::Discard(_)));
}

#[test]
fn temporary_directories_have_names() {
    let t = TempDir::new("/tmp", "rngit", 7, 123456789012345678901, 3);
    assert_eq!(t.path(), "/tmp/rngit-7-123456789012345678901-3");
}

fn facts(allowed: Option<&str>) -> Facts {
    Facts {
        repo_path: "/srv/public/r".to_string(),
        group_is_dir: true,
        repo_is_dir: true,
        repo_exists: true,
        group_allowed: allowed.map(str::to_string),
        repo_allowed: None,
        head: Some(b"ref: refs/heads/main\n".to_vec()),
    }
}

fn service() -> Rngit {
    let mut cfg = Cfg::default();
    cfg.repositories.insert("public".to_string(), "/srv/public".to_string());
    Rngit::new(cfg)
}

fn answer(s: ServerStep) -> Vec<u8> {
    match s {
        ServerStep::Answer(b) => b,
        other => panic!("{other:?}"),
    }
}

#[test]
fn unidentified_peers_are_refused() {
    let s = service();
    let data = list_request("public/r", false);
    let b = answer(s.handle_list(&None, &data, &None, &[]));
    assert_eq!(b, b"\x01Not identified".to_vec());
    let b = answer(s.handle_create(&None, &data, &None, &[]));
    assert_eq!(b, b"\x01Not identified".to_vec());
}

#[test]
fn blocked_identities_are_refused() {
    let mut s = service();
    s.cfg.blocked_identities.push("AB".repeat(16));
    let peer = Some(vec![0xab; 16]);
    let data = list_request("public/r", false);
    let b = answer(s.handle_list(&peer, &data, &Some(facts(Some("r:all"))), &[]));
    assert_eq!(b, b"\x03Not found".to_vec());
}

#[test]
fn listing_needs_read_access() {
    let s = service();
    let peer = Some(vec![1; 16]);
    let data = list_request("public/r", false);
    match s.handle_list(&peer, &data, &None, &[]) {
        ServerStep::Inspect(g, r) => {
            assert_eq!(g, "/srv/public");
            assert_eq!(r, "r");
        }
        other => panic!("{other:?}"),
    }
    let b = answer(s.handle_list(&peer, &data, &Some(facts(None)), &[]));
    assert_eq!(b, b"\x03Not found".to_vec());
    assert!(matches!(
        s.handle_list(&peer, &data, &Some(facts(Some("r:all"))), &[]),
        ServerStep::Git(_)
    ));
    let for_push = list_request("public/r", true);
    let b = answer(s.handle_list(&peer, &for_push, &Some(facts(Some("r:all"))), &[]));
    assert_eq!(b, b"\x03Not allowed".to_vec());
    let b = answer(s.handle_list(&peer, &MsgValue::Nil, &None, &[]));
    assert_eq!(b, b"\x02Invalid request".to_vec());
    let other = list_request("private/r", false);
    assert_eq!(answer(s.handle_list(&peer, &other, &None, &[])), b"\x03Not found".to_vec());
}

#[test]
fn pushing_needs_write_access() {
    let s = service();
    let peer = Some(vec![1; 16]);
    let data = push_request("public/r", "refs/heads/a", "refs/heads/a", false, &[9]);
    let read = Some(facts(Some("r:all")));
    let b = answer(s.handle_push(&peer, &data, &read, "/b", BundleFile::Missing, &[]));
    assert_eq!(b, b"\x01Not allowed".to_vec());
    let write = Some(facts(Some("r:all\nw:all")));
    match s.handle_push(&peer, &data, &write, "/b", BundleFile::Missing, &[]) {
        ServerStep::WriteBundle(b) => assert_eq!(b, vec![9]),
        other => panic!("{other:?}"),
    }
    assert!(matches!(
        s.handle_push(&peer, &data, &write, "/b", BundleFile::Stored, &[]),
        ServerStep::Git(_)
    ));
    // A bundle that cannot be stored is answered like one that git refuses.
    let b = answer(s.handle_push(&peer, &data, &write, "/b", BundleFile::Failed, &[]));
    let refused = answer(s.handle_push(
        &peer,
        &data,
        &write,
        "/b",
        BundleFile::Stored,
        &[bad(b"no bundle")],
    ));
    assert_eq!(b, refused);
    assert!(b.ends_with(b"Could not verify bundle"));
    let no_push = list_request("public/r", true);
    let b = answer(s.handle_push(&peer, &no_push, &write, "/b", BundleFile::Missing, &[]));
    assert_eq!(b, b"\x02Invalid request data".to_vec());
    let b = answer(s.handle_delete(&peer, &delete_request("public/r", "main"), &write, &[]));
    assert_eq!(b, b"\x02Invalid request".to_vec());
    assert!(matches!(
        s.handle_delete(&peer, &delete_request("public/r", "refs/heads/a"), &write, &[]),
        ServerStep::Git(_)
    ));
}

#[test]
fn fetching_runs_git() {
    let s = service();
    let peer = Some(vec![1; 16]);
    let data = fetch_request("public/r", &strings(&["refs/heads/main"]), &[]);
    let read = Some(facts(Some("r:all")));
    assert!(matches!(s.handle_fetch(&peer, &data, &read, "/b", &[]), ServerStep::Git(_)));
    let b = answer(s.handle_fetch(&peer, &data, &read, "/b", &[bad(b"")]));
    assert_eq!(b, vec![0]);
    assert!(matches!(
        s.handle_fetch(&peer, &data, &read, "/b", &[ok(b""), ok(b"")]),
        ServerStep::SendBundle
    ));
    let b = answer(s.handle_fetch(&peer, &data, &read, "/b", &[ok(b""), bad(b"broken")]));
    assert_eq!(b, b"\xffCould not fetch refs".to_vec());
}

#[test]
fn creating_needs_that_access() {
    let s = service();
    let peer = Some(vec![1; 16]);
    let data = list_request("public/new", false);
    let mut f = facts(Some("r:all"));
    f.repo_exists = false;
    let b = answer(s.handle_create(&peer, &data, &Some(f), &[]));
    assert_eq!(b, b"\x01Not allowed".to_vec());
    let mut f = facts(Some("r:all\nc:all"));
    f.repo_exists = false;
    assert!(matches!(
        s.handle_create(&peer, &data, &Some(f), &[]),
        ServerStep::MakeDirectory(_)
    ));
    let f = facts(Some("r:all\nc:all"));
    let b = answer(s.handle_create(&peer, &data, &Some(f), &[]));
    assert_eq!(b, b"\x01Repository already exists".to_vec());
}

#[test]
fn requests_are_routed_by_path() {
    assert!(matches!(route_request(&path_hash("/git/list")), Ok(Route::List)));
    assert!(matches!(route_request(&path_hash("/git/fetch")), Ok(Route::Fetch)));
    assert!(matches!(route_request(&path_hash("/git/push")), Ok(Route::Push)));
    assert!(matches!(route_request(&path_hash("/git/delete")), Ok(Route::Delete)));
    assert!(matches!(route_request(&path_hash("/git/create")), Ok(Route::Create)));
    assert!(matches!(route_request(&[0; 16]), Err(e) if e == "unknown request path"));
}

#[test]
fn resources_belong_to_links() {
    let none: Option<LinkState> = None;
    assert!(matches!(
        handle_resource_packet(&none, &PacketKind::Part, &[]),
        Err(e) if e == "no link state"
    ));
    let mut st = LinkState::new();
    st.sending(vec![5; 32]);
    let mut ask = vec![0u8];
    ask.extend_from_slice(&[5; 32]);
    let some = Some(st);
    match handle_resource_packet(&some, &PacketKind::PartRequest, &ask) {
        Ok(PacketAction::ServeParts(h)) => assert_eq!(h, vec![5; 32]),
        other => panic!("{other:?}"),
    }
    assert!(matches!(
        handle_resource_packet(&some, &PacketKind::PartRequest, &[0, 1]),
        Err(e) if e == "invalid part request"
    ));
    assert!(matches!(
        handle_resource_packet(&some, &PacketKind::HashUpdate, &[9; 32]),
        Err(e) if e == "no inbound resource"
    ));
    assert!(matches!(
        handle_resource_packet(&some, &PacketKind::Advertisement(0x08), &[]),
        Ok(PacketAction::StartInbound)
    ));
    assert!(matches!(
        handle_resource_packet(&some, &PacketKind::Advertisement(0x18), &[]),
        Ok(PacketAction::Ignore)
    ));
    match handle_resource_packet(&some, &PacketKind::Proof, &[5; 64]) {
        Ok(PacketAction::CheckProof(h)) => assert_eq!(h, vec![5; 32]),
        other => panic!("{other:?}"),
    }
}

#[test]
fn advertisements_are_read_from_their_bytes() {
    let none: Option<LinkState> = None;
    let map = |flags: u8, id: &[u8]| {
        let mut b = vec![0x82, 0xa1, b'f', flags, 0xa1, b'q', 0xc4, id.len() as u8];
        b.extend_from_slice(id);
        b
    };
    match receive_advertisement(&none, &map(0x08, &[7, 8, 9])) {
        Ok((PacketAction::StartInbound, id)) => assert_eq!(id, vec![7, 8, 9]),
        other => panic!("{other:?}"),
    }
    match receive_advertisement(&none, &map(0x08, &[])) {
        Ok((PacketAction::StartInbound, id)) => assert!(id.is_empty()),
        other => panic!("{other:?}"),
    }
    match receive_advertisement(&none, &map(0x10, &[7])) {
        Ok((PacketAction::Ignore, id)) => assert_eq!(id, vec![7]),
        other => panic!("{other:?}"),
    }
    for data in [&[][..], &[0x01][..], &[0x82, 0xa1][..]] {
        assert_eq!(
            receive_advertisement(&none, data).unwrap_err(),
            "invalid resource advertisement: packet error"
        );
    }
}

#[test]
fn the_last_part_completes_a_resource() {
    let mut st = LinkState::new();
    st.receiving(vec![6; 32], vec![1, 2]);
    assert_eq!(st.fed(&[6; 32], true, false), None);
    assert_eq!(st.fed(&[6; 32], false, true), None);
    assert!(st.inbound.contains_key(&[6; 32]));
    assert_eq!(st.fed(&[6; 32], true, true), Some(vec![1, 2]));
    assert!(!st.inbound.contains_key(&[6; 32]));
    assert_eq!(st.fed(&[6; 32], true, true), None);
}

#[test]
fn unsent_resources_are_given_up() {
    let mut st = LinkState::new();
    st.sending(vec![5; 32]);
    for _ in 0..4 {
        assert_eq!(st.tick(&[5; 32], 0), TickAction::Advertise);
    }
    assert_eq!(st.tick(&[5; 32], 1), TickAction::Keep);
    assert_eq!(st.tick(&[5; 32], 0), TickAction::GiveUp);
    assert_eq!(st.tick(&[5; 32], 0), TickAction::Keep);
    st.receiving(vec![6; 32], vec![1, 2]);
    assert_eq!(st.received(&[6; 32]), Some(vec![1, 2]));
    assert_eq!(st.received(&[6; 32]), None);
}

#[test]
fn links_are_kept_by_their_notices() {
    let mut links: ByteMap<LinkState> = ByteMap::new();
    let id = [1u8; 16];
    let r = handle_event(&mut links, &id, &LinkNotice::Identified(vec![2; 16]), true);
    assert_eq!(r, NoticeAction::Nothing);
    assert!(links.get(&id).is_none());
    handle_event(&mut links, &id, &LinkNotice::Activated, true);
    assert!(links.get(&id).unwrap().peer.is_none());
    handle_event(&mut links, &id, &LinkNotice::Identified(vec![2; 16]), true);
    assert_eq!(links.get(&id).unwrap().peer, Some(vec![2; 16]));
    assert_eq!(handle_event(&mut links, &id, &LinkNotice::Request, true), NoticeAction::HandleRequest);
    assert_eq!(handle_event(&mut links, &id, &LinkNotice::Request, false), NoticeAction::Nothing);
    assert_eq!(handle_event(&mut links, &id, &LinkNotice::Resource, true), NoticeAction::HandleResource);
    handle_event(&mut links, &id, &LinkNotice::Closed, false);
    assert!(links.get(&id).is_none());
}

#[test]
fn hashmap_updates_are_read() {
    let mut b = vec![0u8; 32];
    b.extend_from_slice(&[0x92, 0x02, 0xc4, 0x02, 7, 8]);
    assert_eq!(process_hashmap_update(&b).unwrap(), (2, vec![7, 8]));
    assert!(process_hashmap_update(&[0; 33]).is_err());
}

#[test]
fn service_files_stand_below_home() {
    assert_eq!(config_path("/home/u"), "/home/u/.config/rngit/config");
    assert_eq!(ident_path("/home/u/"), "/home/u/.config/rngit/rngit");
    assert_eq!(Cfg::default().rngit.announce_interval, 600);
}

#[test]
fn creators_administer_their_repositories() {
    let s = service();
    let creator = vec![0xab; 16];
    let mut f = facts(None);
    f.repo_exists = false;
    f.group_allowed = Some("c:all".to_string());
    f.repo_path = "/srv/public/a.b".to_string();
    let before = Some(f);
    let mut made = Vec::new();
    let data = list_request("public/a.b", false);
    let peer = Some(creator.clone());
    let written = loop {
        match s.handle_create(&peer, &data, &before, &made) {
            ServerStep::MakeDirectory(_) | ServerStep::Initialize(_) => made.push(None),
            ServerStep::WriteFile(path, content) => {
                assert_eq!(path, "/srv/public/a.b.allowed");
                break content;
            }
            other => panic!("{other:?}"),
        }
    };
    assert_eq!(written, format!("adm:{}\n", "ab".repeat(16)));
    let mut f = facts(None);
    f.repo_allowed = Some(written);
    let lists = s.repo_access(&f);
    assert!(matches!(&lists.list_for(Perm::Admin)[..], [Target::Identity(h)] if *h == creator));
    for perm in [Perm::Read, Perm::Write, Perm::Admin, Perm::Stats] {
        assert!(s.resolve_perm(&creator, "public", &f, perm));
        assert!(!s.resolve_perm(&[1; 16], "public", &f, perm));
    }
}

#[test]
fn ref_lines_join() {
    let a = format!("{SHA} refs/heads/a\r");
    let b = format!("\n{SHA} refs/heads/b\nno line\n");
    let mut both = parse_ref_lines(a.as_bytes()).unwrap();
    both.extend(parse_ref_lines(b.as_bytes()).unwrap());
    assert_eq!(both.len(), 2);
    assert_eq!(parse_ref_lines(format!("{a}\n{b}").as_bytes()).unwrap(), both);
}

#[test]
fn ref_lines_of_other_bytes_join() {
    let line = |tail: &[u8]| {
        let mut b = format!("{SHA} refs/heads/a").into_bytes();
        b.extend_from_slice(tail);
        b
    };
    let tails: [&[u8]; 6] =
        [&[0xff], &[0xe2, 0x82], &[0xe0], &[0xe0, 0x80], &[0xf0, 0x9f, 0x98], &[0xc3, 0xa9]];
    for tail in tails {
        let a = line(tail);
        let mut b = vec![0x80];
        b.extend_from_slice(&a);
        b.push(b'\n');
        b.extend_from_slice(&line(b"b"));
        let mut both = parse_ref_lines(&a).unwrap();
        both.extend(parse_ref_lines(&b).unwrap());
        assert_eq!(both.len(), 2);
        assert_eq!(parse_ref_lines(&[&a[..], b"\n", &b[..]].concat()).unwrap(), both);
    }
    assert_eq!(parse_ref_lines(&line(&[0xe2, 0x82])).unwrap()[0].1, "refs/heads/a\u{fffd}");
}

#[test]
fn a_ref_is_deleted_once() {
    let name = "refs/heads/a";
    let done = [ok(b""), ok(b"")];
    assert!(matches!(delete_ref(name, &done), Step::Done(Ok(()))));
    match delete_ref(name, &[bad(b"")]) {
        Step::Done(Err(e)) => assert_eq!(e, "ref refs/heads/a does not exist"),
        other => panic!("{other:?}"),
    }
}
