use rns_tools::msgpack::MsgValue;
use rns_tools::page::{
    announced, answer, compute_path_hash, find_page, load_page_map, parse_args, print_identity,
    start_banner, Entry, Source, Start,
};

fn file(n: &str, id: usize) -> Entry {
    Entry::File(n.to_string(), id)
}

fn dir(n: &str, v: Vec<Entry>) -> Entry {
    Entry::Dir(n.to_string(), v)
}

#[test]
fn pages_are_found_by_their_path() {
    let tree = vec![
        file("index.mu", 0),
        file(".hidden", 1),
        file("index.mu.allowed", 2),
        dir("sub", vec![file("a.mu", 3), dir("deep", vec![file("b.mu", 4)])]),
        dir(".git", vec![file("c.mu", 5)]),
        Entry::Other("pipe".to_string()),
    ];
    let pages = load_page_map(&tree);
    assert_eq!(pages.len(), 3);
    let find = |p: &str| find_page(&pages, &compute_path_hash(p));
    assert_eq!(find("/page/index.mu"), Source::File(0));
    assert_eq!(find("/page/sub/a.mu"), Source::File(3));
    assert_eq!(find("/page/sub/deep/b.mu"), Source::File(4));
    assert_eq!(find("/page/.hidden"), Source::Missing);
    assert_eq!(find("/page/index.mu.allowed"), Source::Missing);
    assert_eq!(find("/page/.git/c.mu"), Source::Missing);
    let empty = load_page_map(&Vec::new());
    assert_eq!(find_page(&empty, &compute_path_hash("/page/index.mu")), Source::DefaultIndex);
}

#[test]
fn path_hashes_have_sixteen_bytes() {
    assert_eq!(hex::encode(compute_path_hash("/page/index.mu")), "fb40abf359b3f25fa0086107c5eee516");
}

#[test]
fn requests_for_pages_are_answered() {
    assert!(matches!(answer(Source::File(0), Some(vec![1])), Some(MsgValue::Binary(b)) if b == vec![1]));
    assert!(answer(Source::File(0), None).is_none());
    assert!(answer(Source::File(0), Some(Vec::new())).is_none());
    match answer(Source::Missing, None) {
        Some(MsgValue::Binary(b)) => {
            assert_eq!(b, b">404 Not Found\n\nThe requested page was not found.\n".to_vec())
        }
        other => panic!("{other:?}"),
    }
    assert!(matches!(answer(Source::DefaultIndex, None), Some(MsgValue::Binary(b)) if b.starts_with(b">rnpage")));
}

#[test]
fn page_options() {
    let v = |a: &[&str]| a.iter().map(|s| s.to_string()).collect::<Vec<_>>();
    match parse_args(&v(&["-n", "node", "-i", "f", "-p", "-v", "-q"])) {
        Start::Run(o) => {
            assert_eq!(o.name, "node");
            assert_eq!(o.identity.as_deref(), Some("f"));
            assert!(o.print_identity);
        }
        other => panic!("{other:?}"),
    }
    match parse_args(&v(&["-n", "node", "-n"])) {
        Start::Run(o) => assert_eq!(o.name, ""),
        other => panic!("{other:?}"),
    }
    assert!(matches!(parse_args(&v(&["-h", "x"])), Start::Help));
    assert!(matches!(parse_args(&v(&["--version"])), Start::Version));
    assert!(matches!(parse_args(&v(&["x"])), Start::Unknown(a) if a == "x"));
}

#[test]
fn servers_are_announced() {
    assert_eq!(announced(""), None);
    assert_eq!(announced("n"), Some(b"n".to_vec()));
    let id: Vec<u8> = (0u8..16).collect();
    let lines = print_identity(&id);
    assert_eq!(lines[0], "Identity     : 000102030405060708090a0b0c0d0e0f");
    assert_eq!(lines[1], "Listening on : 2559e601e79041e4289105d63fd1c83d");
    let lines = start_banner(&id, "", "/d", 2);
    assert_eq!(&lines[2..], &["Node name    : rnpage", "Serving from : /d", "Pages loaded : 2"]);
}
