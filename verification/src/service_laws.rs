//! What the page server, the announce monitor and the wire format of resources promise.

use vstd::prelude::*;

use crate::address;
use crate::digits;
use crate::hash;
use crate::json::{self, JsonModel};
use crate::msgpack::{self, Msg};
use crate::page::{self, Begin, Branch, Source};
use crate::sniff::{self, Announce, Endpoint};
use crate::text;
use crate::transfer;

verus! {

// ---------------------------------------------------------------------------
// Pages
// ---------------------------------------------------------------------------

/// The options of the page server mean what they say, and other arguments are refused.
pub proof fn law_page_options(
    rest: Seq<Seq<char>>,
    value: Seq<char>,
    name: Seq<char>,
    identity: Option<Seq<char>>,
    print: bool,
)
    ensures
        page::begin(Seq::<Seq<char>>::empty(), name, identity, print) == Begin::Run(
            name,
            identity,
            print,
        ),
        page::begin(seq!["-h"@] + rest, name, identity, print) == Begin::Help,
        page::begin(seq!["--help"@] + rest, name, identity, print) == Begin::Help,
        page::begin(seq!["--version"@] + rest, name, identity, print) == Begin::Version,
        page::begin(seq!["-n"@, value] + rest, name, identity, print) == page::begin(
            rest,
            value,
            identity,
            print,
        ),
        page::begin(seq!["--name"@, value] + rest, name, identity, print) == page::begin(
            rest,
            value,
            identity,
            print,
        ),
        page::begin(seq!["-i"@, value] + rest, name, identity, print) == page::begin(
            rest,
            name,
            Some(value),
            print,
        ),
        page::begin(seq!["--identity"@, value] + rest, name, identity, print) == page::begin(
            rest,
            name,
            Some(value),
            print,
        ),
        page::begin(seq!["-p"@] + rest, name, identity, print) == page::begin(
            rest,
            name,
            identity,
            true,
        ),
        page::begin(seq!["--print-identity"@] + rest, name, identity, print) == page::begin(
            rest,
            name,
            identity,
            true,
        ),
        value.len() == 0 || value[0] != '-' ==> page::begin(
            seq![value] + rest,
            name,
            identity,
            print,
        ) == Begin::Unknown(value),
{
    reveal_strlit("-h");
    reveal_strlit("--help");
    reveal_strlit("--version");
    reveal_strlit("-n");
    reveal_strlit("--name");
    reveal_strlit("-i");
    reveal_strlit("--identity");
    reveal_strlit("-p");
    reveal_strlit("--print-identity");
    reveal_strlit("-v");
    reveal_strlit("--verbose");
    reveal_strlit("-q");
    reveal_strlit("--quiet");
    assert("-h"@.len() == 2 && "-h"@[0] == '-' && "-h"@[1] == 'h');
    assert("--help"@.len() == 6 && "--help"@[0] == '-');
    assert("--version"@.len() == 9 && "--version"@[0] == '-' && "--version"@[5] == 's');
    assert("-n"@.len() == 2 && "-n"@[0] == '-' && "-n"@[1] == 'n');
    assert("--name"@.len() == 6 && "--name"@[0] == '-');
    assert("--name"@[2] == 'n' && "--help"@[2] == 'h');
    assert("-i"@.len() == 2 && "-i"@[0] == '-' && "-i"@[1] == 'i');
    assert("--identity"@.len() == 10 && "--identity"@[0] == '-');
    assert("-p"@.len() == 2 && "-p"@[0] == '-' && "-p"@[1] == 'p');
    assert("--print-identity"@.len() == 16 && "--print-identity"@[0] == '-');
    assert("-v"@[0] == '-' && "--verbose"@[0] == '-' && "-q"@[0] == '-' && "--quiet"@[0] == '-');
    assert((seq!["-n"@, value] + rest).skip(2) =~= rest);
    assert((seq!["--name"@, value] + rest).skip(2) =~= rest);
    assert((seq!["-i"@, value] + rest).skip(2) =~= rest);
    assert((seq!["--identity"@, value] + rest).skip(2) =~= rest);
    assert((seq!["-p"@] + rest).skip(1) =~= rest);
    assert((seq!["--print-identity"@] + rest).skip(1) =~= rest);
}

/// A file is the page at its path, and a directory stands before the files that it
/// holds.
pub proof fn law_files_are_pages(
    n: Seq<char>,
    dir: Seq<char>,
    id: usize,
    prefix: Seq<char>,
)
    requires
        n.len() > 0,
        n[0] != '.',
        n.len() < 8 || n[n.len() - 8] != '.',
        dir.len() > 0,
        dir[0] != '.',
    ensures
        page::pages_of(seq![Branch::File(n, id)], prefix) == seq![("/page/"@ + (prefix + n), id)],
        page::pages_of(seq![Branch::Dir(dir, seq![Branch::File(n, id)])], prefix) == seq![
            ("/page/"@ + (prefix + dir + "/"@ + n), id),
        ],
{
    reveal_strlit(".");
    reveal_strlit(".allowed");
    assert("."@[0] == '.');
    assert(".allowed"@[0] == '.' && ".allowed"@.len() == 8);
    assert(n.take(1)[0] == n[0]);
    assert(dir.take(1)[0] == dir[0]);
    if n.len() >= 8 {
        assert(n.skip(n.len() - 8)[0] == n[n.len() - 8]);
    }
    reveal_with_fuel(page::pages_of, 3);
    reveal_with_fuel(page::pages_at, 3);
    let f = seq![Branch::File(n, id)];
    let below = prefix + dir + "/"@;
    assert(f.drop_last() =~= Seq::<Branch>::empty());
    assert(page::pages_of(Seq::<Branch>::empty(), prefix) =~= Seq::empty());
    assert(page::pages_of(Seq::<Branch>::empty(), below) =~= Seq::empty());
    assert(page::pages_of(f, prefix) =~= seq![("/page/"@ + (prefix + n), id)]);
    assert(page::pages_of(f, below) =~= seq![("/page/"@ + (below + n), id)]);
    let d = seq![Branch::Dir(dir, f)];
    assert(d.drop_last() =~= Seq::<Branch>::empty());
    assert(d[0] == Branch::Dir(dir, f));
    assert(page::pages_of(d, prefix) =~= page::pages_of(f, below));
}

/// Every entry of a directory adds its pages, in their order; what is hidden adds none,
/// with all below it.
pub proof fn law_every_entry_adds_its_pages(
    l: Seq<Branch>,
    b: Branch,
    n: Seq<char>,
    below: Seq<Branch>,
    id: usize,
    prefix: Seq<char>,
)
    ensures
        page::pages_of(l.push(b), prefix) == page::pages_of(l, prefix) + page::pages_at(b, prefix),
        n.len() > 0 && n[0] == '.' ==> page::pages_at(Branch::Dir(n, below), prefix).len() == 0
            && page::pages_at(Branch::File(n, id), prefix).len() == 0,
        page::pages_at(Branch::File(n + ".allowed"@, id), prefix).len() == 0,
        page::pages_at(Branch::Other(n), prefix).len() == 0,
{
    reveal_strlit(".");
    reveal_strlit(".allowed");
    assert(l.push(b).drop_last() =~= l);
    assert(l.push(b)[l.len() as int] == b);
    if n.len() > 0 && n[0] == '.' {
        assert(n.take(1) =~= "."@);
    }
    let a = n + ".allowed"@;
    assert(a.skip(a.len() - 8) =~= ".allowed"@);
}

/// A page is served as its file holds it; the index is answered even where there is
/// none, and all else is not found.
pub proof fn law_pages_are_served(
    pages: Map<Seq<u8>, usize>,
    path: Seq<char>,
    id: usize,
    file: Seq<u8>,
)
    ensures
        pages.contains_key(hash::sha256(vstd::utf8::encode_utf8(path)).take(16)) ==> page::source(
            pages,
            page::path_hash(path),
        ) == Source::File(pages[hash::sha256(vstd::utf8::encode_utf8(path)).take(16)]),
        !pages.contains_key(page::path_hash("/page/index.mu"@)) ==> page::source(
            pages,
            page::path_hash("/page/index.mu"@),
        ) == Source::DefaultIndex,
        !pages.contains_key(page::path_hash(path)) && page::path_hash(path) != page::path_hash(
            "/page/index.mu"@,
        ) ==> page::source(pages, page::path_hash(path)) == Source::Missing,
        page::served(Source::File(id), Some(file)) == file,
        page::served(Source::File(id), None).len() == 0,
        page::served(Source::Missing, Some(file)) == page::served(Source::Missing, None),
        page::served(Source::DefaultIndex, Some(file)) == page::served(Source::DefaultIndex, None),
{
}

/// A server tells its identity, the address of `nomadnetwork.node` for it, its name, its
/// directory and its pages.
pub proof fn law_server_tells_its_address(
    identity: Seq<u8>,
    name: Seq<char>,
    dir: Seq<char>,
    pages: nat,
)
    requires
        name.len() > 0,
    ensures
        page::start_lines(identity, name, dir, pages) == seq![
            "Identity     : "@ + digits::hex_text(identity),
            "Listening on : "@ + digits::hex_text(
                hash::sha256(address::name_digest("nomadnetwork"@, "node"@) + identity).take(16),
            ),
            "Node name    : "@ + name,
            "Serving from : "@ + dir,
            "Pages loaded : "@ + digits::dec(pages),
        ],
        page::start_lines(identity, Seq::<char>::empty(), dir, pages)[2] == "Node name    : "@
            + "rnpage"@,
{
    assert(page::start_lines(identity, name, dir, pages) =~= seq![
        "Identity     : "@ + digits::hex_text(identity),
        "Listening on : "@ + digits::hex_text(
            hash::sha256(address::name_digest("nomadnetwork"@, "node"@) + identity).take(16),
        ),
        "Node name    : "@ + name,
        "Serving from : "@ + dir,
        "Pages loaded : "@ + digits::dec(pages),
    ]);
}

// ---------------------------------------------------------------------------
// Announcements
// ---------------------------------------------------------------------------

/// A known name is labelled by the first of the table with its hash.
pub proof fn law_names_are_labelled(
    t: Seq<(Seq<char>, Seq<char>, Seq<char>)>,
    i: int,
)
    requires
        0 <= i < t.len(),
    ensures
        (forall|j: int|
            0 <= j < i ==> address::name_digest((#[trigger] t[j]).0, t[j].1)
                != address::name_digest(t[i].0, t[i].1)) ==> sniff::label_in(
            t,
            address::name_digest(t[i].0, t[i].1),
        ) == Some(t[i].2),
    decreases i,
{
    let name = address::name_digest(t[i].0, t[i].1);
    if i > 0 && (forall|j: int|
        0 <= j < i ==> address::name_digest((#[trigger] t[j]).0, t[j].1) != name) {
        let rest = t.skip(1);
        assert(address::name_digest(t[0].0, t[0].1) != name);
        assert(rest[i - 1] == t[i]);
        assert forall|j: int| 0 <= j < i - 1 implies address::name_digest(
            (#[trigger] rest[j]).0,
            rest[j].1,
        ) != name by {
            assert(rest[j] == t[j + 1]);
        }
        law_names_are_labelled(rest, i - 1);
    }
}

/// The names that are known, and what they are called.
pub proof fn law_known_names()
    ensures
        sniff::known_endpoints().contains(("nomadnetwork"@, "node"@, "nomadnetwork website"@)),
        sniff::known_endpoints().contains(("lxmf"@, "delivery"@, "lxmf delivery"@)),
        sniff::known_endpoints().contains(("lxmf"@, "propagation"@, "lxmf propagation node"@)),
        sniff::known_endpoints().contains(
            ("nomadnetwork"@, "conversation"@, "nomadnetwork conversation"@),
        ),
        sniff::known_endpoints().contains(
            ("nomadnetwork"@, "attachments"@, "nomadnetwork attachments"@),
        ),
        sniff::known_endpoints().contains(("nomadnetwork"@, "gossip"@, "nomadnetwork gossip"@)),
        sniff::known_endpoints().contains(("rrc"@, "hub"@, "rrc relay chat hub"@)),
        sniff::known_endpoints().contains(("rnsh"@, ""@, "rnsh shell server"@)),
        sniff::known_endpoints().contains(("git"@, "repositories"@, "rngit server"@)),
        sniff::known_endpoints().contains(("rnperf"@, ""@, "rnperf bandwidth test"@)),
        sniff::known_endpoints().len() == 10,
{
    let t = sniff::known_endpoints();
    assert(t[0] == ("nomadnetwork"@, "node"@, "nomadnetwork website"@));
    assert(t[1] == ("nomadnetwork"@, "conversation"@, "nomadnetwork conversation"@));
    assert(t[2] == ("nomadnetwork"@, "attachments"@, "nomadnetwork attachments"@));
    assert(t[3] == ("nomadnetwork"@, "gossip"@, "nomadnetwork gossip"@));
    assert(t[4] == ("lxmf"@, "delivery"@, "lxmf delivery"@));
    assert(t[5] == ("lxmf"@, "propagation"@, "lxmf propagation node"@));
    assert(t[6] == ("rrc"@, "hub"@, "rrc relay chat hub"@));
    assert(t[7] == ("rnsh"@, ""@, "rnsh shell server"@));
    assert(t[8] == ("git"@, "repositories"@, "rngit server"@));
    assert(t[9] == ("rnperf"@, ""@, "rnperf bandwidth test"@));
}

/// What is announced under a name that is not known is told by the data: a server with
/// its repositories, an endpoint with its host and port, or a presence; otherwise only
/// the name is shown.
pub proof fn law_data_tells_the_service(m: JsonModel, s: Seq<char>, host: Seq<char>, port: u64)
    ensures
        json::entry(m, "rngit"@) is Some && json::entry(m, "repos"@) is Some ==> sniff::told(
            s,
            Some(m),
        ) == Some(("rngit server"@, None::<Seq<char>>)),
        json::entry(m, "rngit"@) is None && json::text_entry(m, "h"@) == Some(host) && json::entry(
            m,
            "p"@,
        ) == Some(JsonModel::UInt(port)) ==> sniff::told(s, Some(m)) == Some(
            ("reachable TCP endpoint"@, Some(host + ":"@ + digits::dec(port as nat))),
        ),
        sniff::is_beacon(s) ==> sniff::told(s, None) == Some(
            ("presence beacon"@, None::<Seq<char>>),
        ),
        !sniff::is_beacon(s) ==> sniff::told(s, None) is None,
{
}

/// A guess is marked as one, and an unknown endpoint shows the hash of its name.
pub proof fn law_unknown_endpoints_show_their_name(name: Seq<u8>, data: Seq<u8>)
    ensures
        sniff::label_in(sniff::known_endpoints(), name) is None && sniff::told_by(data) is None
            ==> sniff::endpoint(name, data) == (Endpoint {
            label: "unknown endpoint ("@ + digits::hex_text(name) + ")"@,
            address: None,
            guessed: false,
        }),
        sniff::label_in(sniff::known_endpoints(), name) is None ==> (sniff::told_by(
            data,
        ) matches Some(x) ==> sniff::endpoint(name, data) == (Endpoint {
            label: x.0,
            address: x.1,
            guessed: true,
        })),
        sniff::label_in(sniff::known_endpoints(), name) matches Some(l) ==> sniff::endpoint(
            name,
            data,
        ) == (Endpoint { label: l, address: None, guessed: false }),
{
}

/// An announcement is shown with its destination, what it is, who announces it and how
/// far it is; the signal stands there only where it is asked for.
pub proof fn law_announcement_is_shown(a: Announce, time: Seq<char>, verbose: bool)
    ensures
        ({
            let lines = sniff::shown(a, time, verbose);
            let e = sniff::endpoint(a.name_hash@, a.app_data@);
            &&& lines[1] == "  Destination : "@ + digits::hex_text(a.destination@)
            &&& e.guessed ==> lines[2] == "  Endpoint    : "@ + e.label
                + " (guessed from app data)"@
            &&& !e.guessed ==> lines[2] == "  Endpoint    : "@ + e.label + ""@
            &&& e.address is None ==> lines[3] == "  Identity    : "@ + digits::hex_text(
                a.identity@,
            ) && lines[4] == "  Hops        : "@ + digits::dec(a.hops as nat)
            &&& e.address is Some ==> lines[4] == "  Identity    : "@ + digits::hex_text(
                a.identity@,
            ) && lines[5] == "  Hops        : "@ + digits::dec(a.hops as nat)
            &&& lines.last() == ""@
        }),
        !verbose ==> sniff::shown(a, time, verbose) == sniff::shown(
            Announce { snr: None, rssi: None, ..a },
            time,
            true,
        ),
        a.rssi matches Some(n) ==> verbose ==> sniff::shown(a, time, verbose)[sniff::shown(
            a,
            time,
            verbose,
        ).len() - 2] == "  RSSI        : "@ + digits::signed_dec(n as int) + " dBm"@,
{
}

/// An announcement that is put out as JSON has the same content under its names.
pub proof fn law_announcement_is_put_out(a: Announce, time: Seq<char>, verbose: bool)
    ensures
        sniff::shown_json(a, time, verbose) is Object,
        ({
            let o = sniff::shown_json(a, time, verbose)->Object_0;
            let e = sniff::endpoint(a.name_hash@, a.app_data@);
            &&& o.len() >= 5
            &&& o[0] == ("time"@, JsonModel::Text(time))
            &&& o[1] == ("destination"@, JsonModel::Text(digits::hex_text(a.destination@)))
            &&& o[2].0 == "endpoint"@ && o[2].1 is Text
            &&& e.guessed ==> o[2].1->Text_0 == e.label + " (guessed from app data)"@
            &&& !e.guessed ==> o[2].1->Text_0 == e.label + ""@
            &&& o[3] == ("identity"@, JsonModel::Text(digits::hex_text(a.identity@)))
            &&& o[4] == ("hops"@, JsonModel::UInt(a.hops as u64))
        }),
        !verbose ==> sniff::shown_json(a, time, verbose) == sniff::shown_json(
            Announce { snr: None, rssi: None, ..a },
            time,
            true,
        ),
        a.rssi matches Some(n) ==> verbose ==> sniff::shown_json(
            a,
            time,
            verbose,
        )->Object_0.last() == (
            "rssi"@,
            if n >= 0 {
                JsonModel::UInt(n as u64)
            } else {
                JsonModel::NegInt(n as i64)
            },
        ),
{
}

// ---------------------------------------------------------------------------
// Resources
// ---------------------------------------------------------------------------

/// A request path is known by the first sixteen bytes of its digest, and a request names
/// the path so.
pub proof fn law_paths_are_known_by_their_digest(now: Msg, path: Seq<char>, data: Msg)
    ensures
        transfer::path_key(path) == hash::sha256(vstd::utf8::encode_utf8(path)).take(16),
        transfer::request_value(now, path, data) == Msg::Array(
            seq![
                now,
                Msg::Binary(hash::sha256(vstd::utf8::encode_utf8(path)).take(16)),
                data,
            ],
        ),
{
}

/// A request has just its three items, and its time is a number.
pub proof fn law_other_values_are_no_request(a: Seq<Msg>, m: Msg)
    ensures
        a.len() != 3 ==> transfer::request_in(Msg::Array(a)) is None,
        a.len() == 3 && !msgpack::is_number(a[0]) ==> transfer::request_in(Msg::Array(a)) is None,
        m !is Array ==> transfer::request_in(m) is None,
{
}

/// Metadata stands behind its length in three bytes, the highest first.
pub proof fn law_metadata_has_its_length(m: Msg)
    ensures
        msgpack::msgpack(m).len() <= 0xff_ffff ==> (transfer::metadata_prefix(m) matches Ok(p)
            && p.len() == 3 + msgpack::msgpack(m).len() && p.skip(3) == msgpack::msgpack(m)
            && p[0] as int * 0x1_0000 + p[1] as int * 0x100 + p[2] as int == msgpack::msgpack(
            m,
        ).len()),
        msgpack::msgpack(m).len() > 0xff_ffff ==> transfer::metadata_prefix(m) is Err,
{
    let b = msgpack::msgpack(m);
    let n = b.len();
    if n <= 0xff_ffff {
        let p = transfer::metadata_prefix(m)->Ok_0;
        assert(p.skip(3) =~= b);
        assert((n / 65536) * 65536 + ((n / 256) % 256) * 256 + n % 256 == n) by (nonlinear_arith);
        assert(n / 65536 < 256);
        assert(p[0] == (n / 65536) as u8);
        assert(p[1] == ((n / 256) % 256) as u8);
        assert(p[2] == (n % 256) as u8);
    }
}

/// What is shorter than it says is refused.
pub proof fn law_truncated_payload_is_refused(b: Seq<u8>)
    ensures
        b.len() < 3 ==> transfer::payload(b) is Err,
        b.len() >= 3 && b.len() < 3 + b[0] as int * 0x1_0000 + b[1] as int * 0x100 + b[2] as int
            ==> transfer::payload(b) is Err,
        b.len() >= 3 && b.len() >= 3 + b[0] as int * 0x1_0000 + b[1] as int * 0x100 + b[2] as int
            ==> transfer::payload(b) is Ok,
{
}

/// The hash of a resource stands behind the first byte of a request for its parts, or
/// behind the hash of the last part that is known.
pub proof fn law_requested_hash_is_found(first: u8, known: Seq<u8>, h: Seq<u8>, rest: Seq<u8>)
    requires
        first != 0xff,
        known.len() == 4,
        h.len() == 32,
    ensures
        transfer::requested_hash(seq![first] + h + rest) == Some(h),
        transfer::requested_hash(seq![0xffu8] + known + h + rest) == Some(h),
        transfer::leading_hash(h + rest) == Some(h),
        transfer::requested_hash(seq![first] + h.take(31)) is None,
        transfer::requested_hash(Seq::<u8>::empty()) is None,
{
    let a = seq![first] + h + rest;
    assert(a.skip(1).take(32) =~= h);
    let b = seq![0xffu8] + known + h + rest;
    assert(b.skip(5).take(32) =~= h);
    assert((h + rest).take(32) =~= h);
    let short = seq![first] + h.take(31);
    assert(short.len() == 32 && short.skip(1).len() == 31);
}

/// An update of the hash map tells its segment and its hashes.
pub proof fn law_update_is_read(segment: u64, b: Seq<u8>, h: Seq<u8>, body: Seq<u8>)
    requires
        h.len() == 32,
    ensures
        transfer::update_in(Msg::Array(seq![Msg::Integer(segment as int), Msg::Binary(b)])) == Some(
            (segment, b),
        ),
        msgpack::msgpack_read(body) == Ok::<Msg, Seq<char>>(
            Msg::Array(seq![Msg::Integer(segment as int), Msg::Binary(b)]),
        ) ==> transfer::hashmap_update(h + body) == Ok::<(u64, Seq<u8>), Seq<char>>((segment, b)),
        transfer::hashmap_update(h.take(31)) is Err,
{
    assert((h + body).skip(32) =~= body);
}

/// What is not found is said to be, and an index that is missing is stood in for.
pub proof fn law_missing_pages_are_told(file: Option<Seq<u8>>)
    ensures
        page::served(Source::Missing, file) == vstd::utf8::encode_utf8(
            ">404 Not Found\n\nThe requested page was not found.\n"@,
        ),
        page::served(Source::DefaultIndex, file) == vstd::utf8::encode_utf8(
            ">rnpage\n\nThis rnpage server is running, but no pages are available yet.\n"@,
        ),
{
}

/// The options that set how much is said change nothing else, and an option without its
/// value takes back what was given before.
pub proof fn law_page_options_at_the_end(
    rest: Seq<Seq<char>>,
    name: Seq<char>,
    identity: Option<Seq<char>>,
    print: bool,
)
    ensures
        page::begin(seq!["-v"@] + rest, name, identity, print) == page::begin(
            rest,
            name,
            identity,
            print,
        ),
        page::begin(seq!["-q"@] + rest, name, identity, print) == page::begin(
            rest,
            name,
            identity,
            print,
        ),
        page::begin(seq!["--verbose"@] + rest, name, identity, print) == page::begin(
            rest,
            name,
            identity,
            print,
        ),
        page::begin(seq!["--quiet"@] + rest, name, identity, print) == page::begin(
            rest,
            name,
            identity,
            print,
        ),
        page::begin(seq!["-n"@], name, identity, print) == Begin::Run(
            Seq::empty(),
            identity,
            print,
        ),
        page::begin(seq!["-i"@], name, identity, print) == Begin::Run(name, None, print),
{
    reveal_strlit("-h");
    reveal_strlit("--help");
    reveal_strlit("--version");
    reveal_strlit("-n");
    reveal_strlit("--name");
    reveal_strlit("-i");
    reveal_strlit("--identity");
    reveal_strlit("-p");
    reveal_strlit("--print-identity");
    reveal_strlit("-v");
    reveal_strlit("--verbose");
    reveal_strlit("-q");
    reveal_strlit("--quiet");
    assert("-h"@.len() == 2 && "-h"@[1] == 'h');
    assert("--help"@.len() == 6);
    assert("--version"@.len() == 9 && "--version"@[5] == 's');
    assert("-n"@.len() == 2 && "-n"@[1] == 'n');
    assert("--name"@.len() == 6);
    assert("-i"@.len() == 2 && "-i"@[1] == 'i');
    assert("--identity"@.len() == 10);
    assert("-p"@.len() == 2 && "-p"@[1] == 'p');
    assert("--print-identity"@.len() == 16);
    assert("-v"@.len() == 2 && "-v"@[1] == 'v');
    assert("-q"@.len() == 2 && "-q"@[1] == 'q');
    assert("--verbose"@.len() == 9 && "--verbose"@[5] == 'b');
    assert("--quiet"@.len() == 7);
    assert((seq!["-v"@] + rest).skip(1) =~= rest);
    assert((seq!["-q"@] + rest).skip(1) =~= rest);
    assert((seq!["--verbose"@] + rest).skip(1) =~= rest);
    assert((seq!["--quiet"@] + rest).skip(1) =~= rest);
}

/// A presence is told by at most 32 bytes that start with the word, in either case, and
/// by nothing else.
pub proof fn law_presence_is_told(t: Seq<char>, rest: Seq<char>)
    requires
        t.len() > 0,
        !text::white(t[0]) && !text::white(t.last()),
    ensures
        t.len() < 8 ==> !sniff::is_beacon(t),
        vstd::utf8::encode_utf8(t).len() > 32 ==> !sniff::is_beacon(t),
        t.len() >= 8 && t[0] != 'p' && t[0] != 'P' ==> !sniff::is_beacon(t),
        t.len() >= 8 && t[7] != 'e' && t[7] != 'E' ==> !sniff::is_beacon(t),
        t == "presence"@ + rest && vstd::utf8::encode_utf8(t).len() <= 32 ==> sniff::is_beacon(t),
        t == "PRESENCE"@ + rest && vstd::utf8::encode_utf8(t).len() <= 32 ==> sniff::is_beacon(t),
{
    reveal_strlit("presence");
    reveal_strlit("PRESENCE");
    assert(text::trimmed(t) == t);
    let p = "presence"@;
    assert(p.len() == 8 && p[0] == 'p' && p[7] == 'e');
    if t.len() >= 8 {
        let h = t.take(8);
        assert(h[0] == t[0] && h[7] == t[7]);
        if t == p + rest {
            assert(h =~= p);
        }
        if t == "PRESENCE"@ + rest {
            assert(h =~= "PRESENCE"@);
            assert forall|i: int| 0 <= i < 8 implies text::ascii_lower(#[trigger] h[i])
                == text::ascii_lower(p[i]) by {}
        }
        if text::alike(h, p) {
            assert(text::ascii_lower(h[0]) == text::ascii_lower(p[0]));
            assert(text::ascii_lower(h[7]) == text::ascii_lower(p[7]));
        }
    }
}

/// What is announced with a name is shown where there is any, as text or in digits.
pub proof fn law_announced_data_is_shown(a: Announce, time: Seq<char>)
    requires
        a.snr is None,
        a.rssi is None,
    ensures
        ({
            let lines = sniff::shown(a, time, true);
            let d = sniff::data_text(a.app_data@);
            &&& d.len() > 0 ==> lines[lines.len() - 2] == "  App data    : "@ + d
            &&& d.len() == 0 ==> lines[lines.len() - 2] == "  Hops        : "@ + digits::dec(
                a.hops as nat,
            )
        }),
        ({
            let o = sniff::shown_json(a, time, true)->Object_0;
            let d = sniff::data_text(a.app_data@);
            d.len() > 0 ==> o.last() == ("app_data"@, JsonModel::Text(d))
        }),
        vstd::utf8::valid_utf8(a.app_data@) ==> sniff::data_text(a.app_data@)
            == vstd::utf8::decode_utf8(a.app_data@),
        !vstd::utf8::valid_utf8(a.app_data@) ==> sniff::data_text(a.app_data@) == digits::hex_text(
            a.app_data@,
        ),
{
}

/// What is no update, and what is too short to hold a hash, is refused.
pub proof fn law_other_values_are_no_update(a: Seq<Msg>, m: Msg, b: Seq<u8>)
    ensures
        a.len() != 2 ==> transfer::update_in(Msg::Array(a)) is None,
        a.len() == 2 && msgpack::u64_of(a[0]) is None ==> transfer::update_in(Msg::Array(a)) is None,
        a.len() == 2 && msgpack::bytes_of(a[1]) is None ==> transfer::update_in(
            Msg::Array(a),
        ) is None,
        m !is Array ==> transfer::update_in(m) is None,
        a.len() == 3 && msgpack::bytes_of(a[1]) is None ==> transfer::request_in(
            Msg::Array(a),
        ) is None,
        b.len() > 0 && b[0] == 0xff && b.len() < 37 ==> transfer::requested_hash(b) is None,
        b.len() > 0 && b[0] != 0xff && b.len() < 33 ==> transfer::requested_hash(b) is None,
{
}

} // verus!
