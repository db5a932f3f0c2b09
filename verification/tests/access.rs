use rns_tools::perms::{
    parse_permission, permissions_from_allowed_input, resolve_group_permission, resolve_permission,
    AccessLists, Perm, Target,
};
use rns_tools::text_map::TextMap;

const ALICE: &str = "00000000000000000000000000000001";
const BOB: &str = "00000000000000000000000000000002";

fn hash(h: &str) -> Vec<u8> {
    hex::decode(h).unwrap()
}

#[test]
fn parse_basic_entries() {
    let aliases = TextMap::new();
    assert!(matches!(
        parse_permission("r:all", &aliases),
        Some((Perm::Read, Target::All))
    ));
    assert!(matches!(
        parse_permission("adm:nobody", &aliases),
        Some((Perm::Admin, Target::Nobody))
    ));
    assert!(matches!(
        parse_permission("w:00000000000000000000000000000001", &aliases),
        Some((Perm::Write, Target::Identity(_)))
    ));
    assert!(parse_permission("x:all", &aliases).is_none());
    assert!(parse_permission("r:tooshort", &aliases).is_none());
    assert!(parse_permission("garbage", &aliases).is_none());
    assert!(parse_permission("", &aliases).is_none());
}

#[test]
fn aliases_resolve() {
    let mut aliases = TextMap::new();
    aliases.insert("alice".to_string(), ALICE.to_string());
    let (_, t) = parse_permission("r:alice", &aliases).unwrap();
    assert!(matches!(t, Target::Identity(h) if h == hash(ALICE)));
}

#[test]
fn aliases_come_before_words() {
    let mut aliases = TextMap::new();
    aliases.insert("all".to_string(), ALICE.to_string());
    aliases.insert("nobody".to_string(), "no hash".to_string());
    match parse_permission("r:all", &aliases) {
        Some((Perm::Read, Target::Identity(h))) => assert_eq!(h, hash(ALICE)),
        other => panic!("{other:?}"),
    }
    assert!(matches!(parse_permission("r:everyone", &aliases), Some((Perm::Read, Target::All))));
    assert!(parse_permission("r:nobody", &aliases).is_none());
    assert!(matches!(parse_permission("r:none", &aliases), Some((_, Target::Nobody))));
}

#[test]
fn build_lists_from_input() {
    let aliases = TextMap::new();
    let input = format!("# comment\nr:all\nw:{ALICE}\nbad entry\nadm:{BOB}");
    let lists = permissions_from_allowed_input(&input, &aliases);
    assert_eq!(lists.read.len(), 1);
    assert_eq!(lists.write.len(), 1);
    assert_eq!(lists.admin.len(), 1);
    assert!(lists.read.iter().any(|t| t.is_all()));
}

#[test]
fn repo_overrides_group() {
    let mut group = AccessLists::default();
    group.read.push(Target::All);
    let mut repo = AccessLists::default();
    repo.read.push(Target::Nobody);
    assert!(!resolve_permission(&repo, &group, &hash(ALICE), Perm::Read));

    let mut repo = AccessLists::default();
    repo.read.push(Target::Identity(hash(ALICE)));
    assert!(resolve_permission(&repo, &group, &hash(ALICE), Perm::Read));
    assert!(!resolve_permission(&repo, &group, &hash(BOB), Perm::Read));
}

#[test]
fn admin_grants_access() {
    let mut group = AccessLists::default();
    group.admin.push(Target::Identity(hash(ALICE)));
    let repo = AccessLists::default();
    assert!(resolve_permission(&repo, &group, &hash(ALICE), Perm::Write));
    assert!(!resolve_permission(&repo, &group, &hash(BOB), Perm::Write));
}

#[test]
fn rw_entry_expands() {
    let aliases = TextMap::new();
    let input = format!("rw:{ALICE}");
    let lists = permissions_from_allowed_input(&input, &aliases);
    assert_eq!(lists.read.len(), 1);
    assert_eq!(lists.write.len(), 1);
}

#[test]
fn words_are_read_in_either_case() {
    let aliases = TextMap::new();
    assert!(matches!(
        parse_permission(" READ: Everyone ", &aliases),
        Some((Perm::Read, Target::All))
    ));
    assert!(matches!(
        parse_permission("ADM:None", &aliases),
        Some((Perm::Admin, Target::Nobody))
    ));
    for (w, p) in [
        ("c", Perm::Create),
        ("stats", Perm::Stats),
        ("REL", Perm::Release),
        ("interact", Perm::Interact),
        ("p", Perm::Propose),
        ("readwrite", Perm::ReadWrite),
        ("WRITE", Perm::Write),
    ] {
        let (q, _) = parse_permission(&format!("{w}:a"), &aliases).unwrap();
        assert_eq!(p, q);
    }
}

#[test]
fn lists_hold_no_target_twice() {
    let aliases = TextMap::new();
    let input = format!("r:{ALICE}\nrw:{ALICE}\nr:{BOB}\n");
    let lists = permissions_from_allowed_input(&input, &aliases);
    assert_eq!(lists.read.len(), 2);
    assert_eq!(lists.write.len(), 1);
}

#[test]
fn creator_may_do_everything() {
    let aliases = TextMap::new();
    let lists = permissions_from_allowed_input(&format!("adm:{ALICE}\n"), &aliases);
    let group = AccessLists::default();
    for p in [Perm::Read, Perm::Write, Perm::Create, Perm::Release, Perm::Admin] {
        assert!(resolve_permission(&lists, &group, &hash(ALICE), p));
        assert!(!resolve_permission(&lists, &group, &hash(BOB), p));
    }
    assert!(resolve_group_permission(&lists, &hash(ALICE), Perm::Write));
}
