//! The page server: which files are pages, and what a request for one is answered.

use vstd::prelude::*;

use crate::address;
use crate::args;
use crate::byte_map::ByteMap;
use crate::bytes;
use crate::digits;
use crate::gitutil;
use crate::hash;
use crate::msgpack::{Msg, MsgValue};
use crate::text;

verus! {

pub const APP_NAME: &'static str = "nomadnetwork";

pub const APP_ASPECT: &'static str = "node";

// ---------------------------------------------------------------------------
// Command line
// ---------------------------------------------------------------------------

/// The command line, as far as it has been read.
#[derive(Debug)]
pub struct Options {
    pub name: String,
    pub identity: Option<String>,
    pub print_identity: bool,
}

/// What the command line asks for.
#[derive(Debug)]
pub enum Start {
    Help,
    Version,
    Run(Options),
    /// An argument is not known.
    Unknown(String),
}

/// What the command line asks for, over sequences.
pub enum Begin {
    Help,
    Version,
    Run(Seq<char>, Option<Seq<char>>, bool),
    Unknown(Seq<char>),
}

impl View for Start {
    type V = Begin;

    open spec fn view(&self) -> Begin {
        match self {
            Start::Help => Begin::Help,
            Start::Version => Begin::Version,
            Start::Run(o) => Begin::Run(o.name@, args::opt_text(o.identity), o.print_identity),
            Start::Unknown(a) => Begin::Unknown(a@),
        }
    }
}

/// What the command line asks for. An option at its end that lacks its value takes
/// away the name or the identity that was given before it.
pub open spec fn begin(
    args: Seq<Seq<char>>,
    name: Seq<char>,
    identity: Option<Seq<char>>,
    print: bool,
) -> Begin
    decreases args.len(),
{
    if args.len() == 0 {
        Begin::Run(name, identity, print)
    } else if args[0] == "-h"@ || args[0] == "--help"@ {
        Begin::Help
    } else if args[0] == "--version"@ {
        Begin::Version
    } else if args[0] == "-n"@ || args[0] == "--name"@ {
        if args.len() == 1 {
            Begin::Run(Seq::empty(), identity, print)
        } else {
            begin(args.skip(2), args[1], identity, print)
        }
    } else if args[0] == "-i"@ || args[0] == "--identity"@ {
        if args.len() == 1 {
            Begin::Run(name, None, print)
        } else {
            begin(args.skip(2), name, Some(args[1]), print)
        }
    } else if args[0] == "-p"@ || args[0] == "--print-identity"@ {
        begin(args.skip(1), name, identity, true)
    } else if args[0] == "-v"@ || args[0] == "--verbose"@ || args[0] == "-q"@ || args[0]
        == "--quiet"@ {
        begin(args.skip(1), name, identity, print)
    } else {
        Begin::Unknown(args[0])
    }
}

/// Reads the command line.
pub fn parse_args(raw: &[String]) -> (r: Start)
    ensures
        r@ == begin(text::views(raw@), Seq::empty(), None, false),
{
    let n: usize = raw.len();
    let mut name = String::new();
    let mut identity: Option<String> = None;
    let mut print = false;
    let mut i: usize = 0;
    let ghost all = text::views(raw@);
    assert(all.skip(0) =~= all);
    assert(name@ =~= Seq::empty());
    while i < n
        invariant
            n == raw@.len(),
            i <= n,
            all == text::views(raw@),
            begin(all.skip(i as int), name@, args::opt_text(identity), print) == begin(
                all,
                Seq::empty(),
                None,
                false,
            ),
        decreases n - i,
    {
        let a = raw[i].as_str();
        let ghost rest = all.skip(i as int);
        assert(rest[0] == a@);
        if text::same(a, "-h") || text::same(a, "--help") {
            return Start::Help;
        }
        if text::same(a, "--version") {
            return Start::Version;
        }
        if text::same(a, "-n") || text::same(a, "--name") {
            if n - i == 1 {
                let empty = String::new();
                assert(empty@ =~= Seq::empty());
                return Start::Run(Options { name: empty, identity, print_identity: print });
            }
            assert(rest[1] == raw@[i + 1]@);
            assert(rest.skip(2) =~= all.skip(i + 2));
            name = raw[i + 1].clone();
            i = i + 2;
        } else if text::same(a, "-i") || text::same(a, "--identity") {
            if n - i == 1 {
                return Start::Run(Options { name, identity: None, print_identity: print });
            }
            assert(rest[1] == raw@[i + 1]@);
            assert(rest.skip(2) =~= all.skip(i + 2));
            identity = Some(raw[i + 1].clone());
            i = i + 2;
        } else if text::same(a, "-p") || text::same(a, "--print-identity") {
            assert(rest.skip(1) =~= all.skip(i + 1));
            print = true;
            i = i + 1;
        } else if text::same(a, "-v") || text::same(a, "--verbose") || text::same(a, "-q")
            || text::same(a, "--quiet") {
            assert(rest.skip(1) =~= all.skip(i + 1));
            i = i + 1;
        } else {
            return Start::Unknown(raw[i].clone());
        }
    }
    assert(all.skip(i as int) =~= Seq::empty());
    Start::Run(Options { name, identity, print_identity: print })
}

// ---------------------------------------------------------------------------
// Pages
// ---------------------------------------------------------------------------

/// What a directory holds. A file is known by a number.
#[derive(Debug)]
pub enum Entry {
    Dir(String, Vec<Entry>),
    File(String, usize),
    /// Neither a directory nor a file.
    Other(String),
}

/// What a directory holds, over sequences.
pub enum Branch {
    Dir(Seq<char>, Seq<Branch>),
    File(Seq<char>, usize),
    Other(Seq<char>),
}

impl Entry {
    /// The entry over sequences.
    pub open spec fn model(self) -> Branch
        decreases self,
    {
        match self {
            Entry::Dir(n, l) => Branch::Dir(
                n@,
                Seq::new(
                    l@.len(),
                    |i: int|
                        if 0 <= i < l@.len() {
                            l@[i].model()
                        } else {
                            Branch::Other(Seq::empty())
                        },
                ),
            ),
            Entry::File(n, id) => Branch::File(n@, id),
            Entry::Other(n) => Branch::Other(n@),
        }
    }
}

/// Entries over sequences.
pub open spec fn branches(v: Seq<Entry>) -> Seq<Branch> {
    Seq::new(v.len(), |i: int| v[i].model())
}

/// The name is that of a hidden entry, which is passed over with all below it.
pub open spec fn hidden(name: Seq<char>) -> bool {
    text::begins(name, "."@)
}

/// The name is that of a list of who may see a page.
pub open spec fn access_list(name: Seq<char>) -> bool {
    text::ends(name, ".allowed"@)
}

/// The requests that the files of a directory answer, with their numbers, in the
/// order in which the directory lists them. `prefix` is the path of the directory.
pub open spec fn pages_of(l: Seq<Branch>, prefix: Seq<char>) -> Seq<(Seq<char>, usize)>
    decreases l,
{
    if l.len() == 0 {
        Seq::empty()
    } else {
        proof {
            assert(decreases_to!(l => l.subrange(0, l.len() - 1)));
            assert(l.drop_last() =~= l.subrange(0, l.len() - 1));
            assert(decreases_to!(l => l[l.len() - 1]));
        }
        pages_of(l.drop_last(), prefix) + pages_at(l[l.len() - 1], prefix)
    }
}

/// The requests that an entry of a directory answers.
pub open spec fn pages_at(b: Branch, prefix: Seq<char>) -> Seq<(Seq<char>, usize)>
    decreases b,
{
    match b {
        Branch::Dir(n, l) => if hidden(n) {
            Seq::empty()
        } else {
            pages_of(l, prefix + n + "/"@)
        },
        Branch::File(n, id) => if hidden(n) || access_list(n) {
            Seq::empty()
        } else {
            seq![("/page/"@ + (prefix + n), id)]
        },
        Branch::Other(_) => Seq::empty(),
    }
}

/// The hash of the path of a request.
pub open spec fn path_hash(path: Seq<char>) -> Seq<u8> {
    hash::short_hash(vstd::utf8::encode_utf8(path))
}

/// The files by the hash of the request; the last of those with the same hash.
pub open spec fn hashed(pages: Seq<(Seq<char>, usize)>, m: Map<Seq<u8>, usize>) -> Map<
    Seq<u8>,
    usize,
>
    decreases pages.len(),
{
    if pages.len() == 0 {
        m
    } else {
        hashed(pages.drop_last(), m).insert(path_hash(pages.last().0), pages.last().1)
    }
}

proof fn lemma_hashed_add(
    p: Seq<(Seq<char>, usize)>,
    q: Seq<(Seq<char>, usize)>,
    m: Map<Seq<u8>, usize>,
)
    ensures
        hashed(p + q, m) == hashed(q, hashed(p, m)),
    decreases q.len(),
{
    if q.len() == 0 {
        assert(p + q =~= p);
    } else {
        assert((p + q).drop_last() =~= p + q.drop_last());
        lemma_hashed_add(p, q.drop_last(), m);
    }
}

/// The hash of the path of a request.
pub fn compute_path_hash(path: &str) -> (r: Vec<u8>)
    ensures
        r@ == path_hash(path@),
        r@.len() == 16,
{
    hash::truncated(text::utf8(path).as_slice())
}

/// A hidden entry.
pub fn is_hidden(name: &str) -> (r: bool)
    ensures
        r == hidden(name@),
{
    text::starts_with(name, ".")
}

/// Adds the pages of a directory.
pub fn scan_pages(dir: &Vec<Entry>, prefix: &str, pages: &mut ByteMap<usize>)
    ensures
        final(pages)@ == hashed(pages_of(branches(dir@), prefix@), old(pages)@),
    decreases branches(dir@),
{
    let ghost all = branches(dir@);
    let ghost start = pages@;
    let mut i: usize = 0;
    assert(all.take(0) =~= Seq::empty());
    while i < dir.len()
        invariant
            i <= dir@.len(),
            all == branches(dir@),
            pages@ == hashed(pages_of(all.take(i as int), prefix@), start),
        decreases dir@.len() - i,
    {
        let ghost before = pages@;
        let ghost b = all[i as int];
        assert(b == dir@[i as int].model());
        assert(all.take(i + 1).drop_last() =~= all.take(i as int));
        assert(all.take(i + 1)[i as int] == b);
        proof {
            lemma_hashed_add(pages_of(all.take(i as int), prefix@), pages_at(b, prefix@), start);
        }
        match &dir[i] {
            Entry::Dir(n, l) => {
                if !is_hidden(n.as_str()) {
                    let sub = text::cat3(prefix, n.as_str(), "/");
                    assert(b->Dir_1 =~= branches(l@));
                    proof {
                        assert(decreases_to!(all => all[i as int]));
                        assert(decreases_to!(b => b->Dir_1));
                    }
                    scan_pages(l, sub.as_str(), pages);
                }
            },
            Entry::File(n, id) => {
                if !is_hidden(n.as_str()) && !text::ends_with(n.as_str(), ".allowed") {
                    let rel = text::cat(prefix, n.as_str());
                    let path = text::cat("/page/", rel.as_str());
                    let h = compute_path_hash(path.as_str());
                    pages.insert(h, *id);
                    proof {
                        let one = pages_at(b, prefix@);
                        assert(one.drop_last() =~= Seq::empty());
                        reveal_with_fuel(hashed, 2);
                    }
                }
            },
            Entry::Other(_) => {},
        }
        i = i + 1;
    }
    assert(all.take(i as int) =~= all);
}

/// The pages of the public directory.
pub fn load_page_map(dir: &Vec<Entry>) -> (r: ByteMap<usize>)
    ensures
        r@ == hashed(pages_of(branches(dir@), Seq::empty()), Map::empty()),
{
    let mut pages: ByteMap<usize> = ByteMap::new();
    proof {
        reveal_strlit("");
        assert(""@ =~= Seq::empty());
    }
    scan_pages(dir, "", &mut pages);
    pages
}

/// A page is found by the hash of its path, unless a later one has the same hash.
pub proof fn law_pages_are_found(
    pages: Seq<(Seq<char>, usize)>,
    m: Map<Seq<u8>, usize>,
    i: int,
)
    requires
        0 <= i < pages.len(),
    ensures
        (forall|j: int| i < j < pages.len() ==> path_hash((#[trigger] pages[j]).0) != path_hash(
            pages[i].0,
        )) ==> hashed(pages, m).contains_key(path_hash(pages[i].0)) && hashed(
            pages,
            m,
        )[path_hash(pages[i].0)] == pages[i].1,
    decreases pages.len(),
{
    let h = path_hash(pages[i].0);
    if (forall|j: int| i < j < pages.len() ==> path_hash((#[trigger] pages[j]).0) != h) {
        if i < pages.len() - 1 {
            let q = pages.drop_last();
            assert forall|j: int| i < j < q.len() implies path_hash((#[trigger] q[j]).0) != h by {
                assert(q[j] == pages[j]);
            }
            law_pages_are_found(q, m, i);
            assert(path_hash(pages[pages.len() - 1].0) != h);
        }
    }
}

/// What is found is a page: nothing is served but the files that were listed.
pub proof fn law_only_pages_are_found(pages: Seq<(Seq<char>, usize)>, h: Seq<u8>)
    ensures
        hashed(pages, Map::empty()).contains_key(h) ==> exists|i: int|
            0 <= i < pages.len() && path_hash((#[trigger] pages[i]).0) == h && pages[i].1 == hashed(
                pages,
                Map::empty(),
            )[h],
    decreases pages.len(),
{
    if hashed(pages, Map::empty()).contains_key(h) {
        let q = pages.drop_last();
        if path_hash(pages.last().0) == h {
            assert(path_hash(pages[pages.len() - 1].0) == h);
        } else {
            law_only_pages_are_found(q, h);
            let i = choose|i: int|
                0 <= i < q.len() && path_hash((#[trigger] q[i]).0) == h && q[i].1 == hashed(
                    q,
                    Map::empty(),
                )[h];
            assert(pages[i] == q[i]);
        }
    }
}

/// Neither hidden files nor lists of who may see a page are pages.
pub proof fn law_private_files_are_no_pages(n: Seq<char>, id: usize, prefix: Seq<char>)
    requires
        hidden(n) || access_list(n),
    ensures
        pages_at(Branch::File(n, id), prefix) == Seq::<(Seq<char>, usize)>::empty(),
{
}

// ---------------------------------------------------------------------------
// Requests
// ---------------------------------------------------------------------------

/// Where the answer to a request comes from.
#[derive(Debug, Clone, Copy, PartialEq, Eq, Structural)]
pub enum Source {
    File(usize),
    /// No page is the index.
    DefaultIndex,
    Missing,
}

/// Where the answer to a request comes from.
pub open spec fn source(pages: Map<Seq<u8>, usize>, h: Seq<u8>) -> Source {
    if pages.contains_key(h) {
        Source::File(pages[h])
    } else if h == path_hash("/page/index.mu"@) {
        Source::DefaultIndex
    } else {
        Source::Missing
    }
}

/// Where the answer to a request comes from.
pub fn find_page(pages: &ByteMap<usize>, h: &[u8]) -> (r: Source)
    ensures
        r == source(pages@, h@),
{
    match pages.get(h) {
        Some(id) => Source::File(*id),
        None => {
            let index = compute_path_hash("/page/index.mu");
            if bytes::same(h, index.as_slice()) {
                Source::DefaultIndex
            } else {
                Source::Missing
            }
        },
    }
}

/// The bytes that answer a request; `file` is what the file holds, nothing where it
/// cannot be read.
pub open spec fn served(s: Source, file: Option<Seq<u8>>) -> Seq<u8> {
    match s {
        Source::File(_) => match file {
            Some(b) => b,
            None => Seq::empty(),
        },
        Source::DefaultIndex => vstd::utf8::encode_utf8(
            ">rnpage\n\nThis rnpage server is running, but no pages are available yet.\n"@,
        ),
        Source::Missing => vstd::utf8::encode_utf8(
            ">404 Not Found\n\nThe requested page was not found.\n"@,
        ),
    }
}

/// A value inside an option.
pub open spec fn answer_view(o: Option<MsgValue>) -> Option<Msg> {
    match o {
        Some(v) => Some(v@),
        None => None,
    }
}

/// The answer to a request; none where there is nothing to send.
pub fn answer(s: Source, file: Option<Vec<u8>>) -> (r: Option<MsgValue>)
    ensures
        answer_view(r) == (if served(s, gitutil::bytes_view(file)).len() == 0 {
            None
        } else {
            Some(Msg::Binary(served(s, gitutil::bytes_view(file))))
        }),
{
    let content = match s {
        Source::File(_) => match file {
            Some(b) => b,
            None => Vec::new(),
        },
        Source::DefaultIndex => text::utf8(
            ">rnpage\n\nThis rnpage server is running, but no pages are available yet.\n",
        ),
        Source::Missing => text::utf8(">404 Not Found\n\nThe requested page was not found.\n"),
    };
    assert(content@ =~= served(s, gitutil::bytes_view(file)));
    if content.len() == 0 {
        None
    } else {
        Some(MsgValue::Binary(content))
    }
}

// ---------------------------------------------------------------------------
// Announcing
// ---------------------------------------------------------------------------

/// What is announced with the address: the name of the node, where it has one.
pub fn announced(name: &str) -> (r: Option<Vec<u8>>)
    ensures
        gitutil::bytes_view(r) == (if name@.len() == 0 {
            None
        } else {
            Some(vstd::utf8::encode_utf8(name@))
        }),
{
    if name.unicode_len() == 0 {
        None
    } else {
        Some(text::utf8(name))
    }
}

/// The address of the server of an identity.
pub open spec fn server_address(identity: Seq<u8>) -> Seq<u8> {
    address::destination_address(address::name_digest(APP_NAME@, APP_ASPECT@), identity)
}

/// The lines that tell an identity and the address of its server.
pub open spec fn identity_lines(identity: Seq<u8>) -> Seq<Seq<char>> {
    seq![
        "Identity     : "@ + digits::hex_text(identity),
        "Listening on : "@ + digits::hex_text(server_address(identity)),
    ]
}

/// The lines that tell an identity and the address of its server.
pub fn print_identity(identity: &[u8]) -> (r: Vec<String>)
    ensures
        text::views(r@) == identity_lines(identity@),
{
    let a = address::destination_hash(APP_NAME, APP_ASPECT, identity);
    let i = digits::hex_encode(identity);
    let h = digits::hex_encode(a.as_slice());
    let mut out: Vec<String> = Vec::new();
    out.push(text::cat("Identity     : ", i.as_str()));
    out.push(text::cat("Listening on : ", h.as_str()));
    assert(text::views(out@) =~= identity_lines(identity@));
    out
}

/// The lines that tell of a server that starts.
pub open spec fn start_lines(
    identity: Seq<u8>,
    name: Seq<char>,
    dir: Seq<char>,
    pages: nat,
) -> Seq<Seq<char>> {
    identity_lines(identity) + seq![
        "Node name    : "@ + (if name.len() == 0 {
            "rnpage"@
        } else {
            name
        }),
        "Serving from : "@ + dir,
        "Pages loaded : "@ + digits::dec(pages),
    ]
}

/// The lines that tell of a server that starts.
pub fn start_banner(identity: &[u8], name: &str, dir: &str, pages: usize) -> (r: Vec<String>)
    ensures
        text::views(r@) == start_lines(identity@, name@, dir@, pages as nat),
{
    let mut out = print_identity(identity);
    let shown = if name.unicode_len() == 0 {
        "rnpage"
    } else {
        name
    };
    let n = digits::decimal(pages as u64);
    let ghost head = text::views(out@);
    out.push(text::cat("Node name    : ", shown));
    out.push(text::cat("Serving from : ", dir));
    out.push(text::cat("Pages loaded : ", n.as_str()));
    assert(text::views(out@) =~= start_lines(identity@, name@, dir@, pages as nat));
    out
}

} // verus!
