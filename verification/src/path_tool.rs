//! The path utility: its command line, its requests, and how the answers are
//! shown.

use vstd::prelude::*;

use crate::args;
use crate::args::{Grammar, Item, Kind, OptRule, Rules};
use crate::byte_map::ByteMap;
use crate::bytes;
use crate::digits;
use crate::fields;
use crate::gitutil;
use crate::json;
use crate::json::{Json, JsonModel};
use crate::msgpack;
use crate::msgpack::{Msg, MsgValue};
use crate::pieces;
use crate::pieces::{Part, Piece};
use crate::rpc;
use crate::text;

verus! {

// ---------------------------------------------------------------------------
// Command line
// ---------------------------------------------------------------------------

/// What the command line asks for.
#[derive(Debug)]
pub struct Args {
    pub help: bool,
    pub version: bool,
    pub destination: Option<String>,
    pub table: bool,
    pub max_hops: Option<u64>,
    pub rates: bool,
    pub drop: bool,
    pub drop_announces: bool,
    pub drop_via: bool,
    pub blackholed: bool,
    pub blackhole: bool,
    pub unblackhole: bool,
    pub blackhole_duration: Option<String>,
    pub blackhole_reason: Option<String>,
    pub host: String,
    pub port: u64,
    pub rpc_key: Option<String>,
    pub json: bool,
    pub verbose: usize,
}

/// The options.
pub open spec fn rules() -> Rules {
    Rules {
        opts: seq![
            args::rule("-h"@, "--help"@, Kind::Stop),
            args::rule("--version"@, "--version"@, Kind::Stop),
            args::rule("-t"@, "--table"@, Kind::Flag),
            OptRule {
                short: "-m"@,
                long: "--max"@,
                kind: Kind::Number(255),
                bad: "Invalid max hops"@,
            },
            args::rule("-r"@, "--rates"@, Kind::Flag),
            args::rule("-d"@, "--drop"@, Kind::Flag),
            args::rule("-D"@, "--drop-announces"@, Kind::Flag),
            args::rule("-x"@, "--drop-via"@, Kind::Flag),
            args::rule("-b"@, "--blackholed"@, Kind::Flag),
            args::rule("-B"@, "--blackhole"@, Kind::Flag),
            args::rule("-U"@, "--unblackhole"@, Kind::Flag),
            OptRule {
                short: "--duration"@,
                long: "--duration"@,
                kind: Kind::Decimal,
                bad: "Invalid duration"@,
            },
            args::rule("--reason"@, "--reason"@, Kind::Text),
            args::rule("-H"@, "--host"@, Kind::Text),
            OptRule {
                short: "-p"@,
                long: "--port"@,
                kind: Kind::Number(65535),
                bad: "Invalid port"@,
            },
            args::rule("-k"@, "--rpc-key"@, Kind::Text),
            args::rule("-j"@, "--json"@, Kind::Flag),
            args::rule("-v"@, "--verbose"@, Kind::Flag),
        ],
        missing: ("argument "@, " expected one value"@),
        unknown: "unrecognized argument: "@,
        extra: Some("unexpected argument: "@),
    }
}

fn grammar() -> (r: Grammar)
    ensures
        r@ == rules(),
{
    let g = Grammar {
        opts: vec![
            args::opt("-h", "--help", Kind::Stop, ""),
            args::opt("--version", "--version", Kind::Stop, ""),
            args::opt("-t", "--table", Kind::Flag, ""),
            args::opt("-m", "--max", Kind::Number(255), "Invalid max hops"),
            args::opt("-r", "--rates", Kind::Flag, ""),
            args::opt("-d", "--drop", Kind::Flag, ""),
            args::opt("-D", "--drop-announces", Kind::Flag, ""),
            args::opt("-x", "--drop-via", Kind::Flag, ""),
            args::opt("-b", "--blackholed", Kind::Flag, ""),
            args::opt("-B", "--blackhole", Kind::Flag, ""),
            args::opt("-U", "--unblackhole", Kind::Flag, ""),
            args::opt("--duration", "--duration", Kind::Decimal, "Invalid duration"),
            args::opt("--reason", "--reason", Kind::Text, ""),
            args::opt("-H", "--host", Kind::Text, ""),
            args::opt("-p", "--port", Kind::Number(65535), "Invalid port"),
            args::opt("-k", "--rpc-key", Kind::Text, ""),
            args::opt("-j", "--json", Kind::Flag, ""),
            args::opt("-v", "--verbose", Kind::Flag, ""),
        ],
        missing: ("argument ", " expected one value"),
        unknown: "unrecognized argument: ",
        extra: Some("unexpected argument: "),
    };
    assert(g@.opts =~= rules().opts);
    g
}

/// The command line says what the tokens say; the key may also come from the
/// environment.
pub open spec fn args_say(a: Args, ts: Seq<Item>, key: Option<Seq<char>>) -> bool {
    &&& a.help == (args::count(ts, "--help"@) > 0)
    &&& a.version == (args::count(ts, "--version"@) > 0)
    &&& args::opt_text(a.destination) == args::last_word(ts)
    &&& a.table == (args::count(ts, "--table"@) > 0)
    &&& args::number_view(a.max_hops) == args::last_number(ts, "--max"@, 255)
    &&& a.rates == (args::count(ts, "--rates"@) > 0)
    &&& a.drop == (args::count(ts, "--drop"@) > 0)
    &&& a.drop_announces == (args::count(ts, "--drop-announces"@) > 0)
    &&& a.drop_via == (args::count(ts, "--drop-via"@) > 0)
    &&& a.blackholed == (args::count(ts, "--blackholed"@) > 0)
    &&& a.blackhole == (args::count(ts, "--blackhole"@) > 0)
    &&& a.unblackhole == (args::count(ts, "--unblackhole"@) > 0)
    &&& args::opt_text(a.blackhole_duration) == args::last_value(ts, "--duration"@)
    &&& args::opt_text(a.blackhole_reason) == args::last_value(ts, "--reason"@)
    &&& a.host@ == (match args::last_value(ts, "--host"@) {
        Some(h) => h,
        None => rpc::DEFAULT_CONTROL_HOST@,
    })
    &&& a.port as nat == (match args::last_number(ts, "--port"@, 65535) {
        Some(p) => p,
        None => rpc::DEFAULT_CONTROL_PORT as nat,
    })
    &&& args::opt_text(a.rpc_key) == (match args::last_value(ts, "--rpc-key"@) {
        Some(k) => Some(k),
        None => key,
    })
    &&& a.json == (args::count(ts, "--json"@) > 0)
    &&& a.verbose == args::count(ts, "--verbose"@)
}

/// Reads the command line. `env_key` is the key that the environment holds.
pub fn parse_args(raw: &[String], env_key: Option<String>) -> (r: Result<Args, String>)
    ensures
        match args::scanned(text::views(raw@), rules(), Seq::empty()) {
            Ok(ts) => r matches Ok(a) && args_say(a, ts, args::opt_text(env_key)),
            Err(e) => r matches Err(x) && x@ == e,
        },
{
    let ts = match args::scan(raw, &grammar()) {
        Ok(ts) => ts,
        Err(e) => {
            return Err(e);
        },
    };
    Ok(
        Args {
            help: args::has(&ts, "--help"),
            version: args::has(&ts, "--version"),
            destination: args::word_of(&ts),
            table: args::has(&ts, "--table"),
            max_hops: args::number_of(&ts, "--max", 255),
            rates: args::has(&ts, "--rates"),
            drop: args::has(&ts, "--drop"),
            drop_announces: args::has(&ts, "--drop-announces"),
            drop_via: args::has(&ts, "--drop-via"),
            blackholed: args::has(&ts, "--blackholed"),
            blackhole: args::has(&ts, "--blackhole"),
            unblackhole: args::has(&ts, "--unblackhole"),
            blackhole_duration: args::value_of(&ts, "--duration"),
            blackhole_reason: args::value_of(&ts, "--reason"),
            host: match args::value_of(&ts, "--host") {
                Some(h) => h,
                None => rpc::DEFAULT_CONTROL_HOST.to_owned(),
            },
            port: match args::number_of(&ts, "--port", 65535) {
                Some(p) => p,
                None => rpc::DEFAULT_CONTROL_PORT as u64,
            },
            rpc_key: match args::value_of(&ts, "--rpc-key") {
                Some(k) => Some(k),
                None => env_key,
            },
            json: args::has(&ts, "--json"),
            verbose: args::count_of(&ts, "--verbose"),
        },
    )
}

/// One where it holds.
pub open spec fn one(b: bool) -> nat {
    if b {
        1
    } else {
        0
    }
}

/// How many operations are asked for.
pub open spec fn operations(a: Args) -> nat {
    one(a.table) + one(a.rates) + one(a.drop) + one(a.drop_announces) + one(a.drop_via) + one(
        a.blackholed,
    ) + one(a.blackhole) + one(a.unblackhole)
}

/// What is wrong with what the command line asks for.
pub open spec fn complaint(a: Args) -> Option<Seq<char>> {
    if operations(a) > 1 {
        Some("Only one operation per invocation is supported"@)
    } else if (a.blackhole || a.unblackhole || a.drop || a.drop_via) && a.destination is None {
        Some("A destination hash is required for this operation"@)
    } else if a.table && a.max_hops is Some && a.destination is Some {
        Some("Cannot specify both destination and max hops"@)
    } else {
        None
    }
}

fn counted(b: bool) -> (r: u8)
    ensures
        r == one(b),
{
    if b {
        1
    } else {
        0
    }
}

/// Checks what the command line asks for.
pub fn validate_args(a: &Args) -> (r: Result<(), String>)
    ensures
        match r {
            Ok(_) => complaint(*a) is None,
            Err(e) => complaint(*a) == Some(e@),
        },
{
    let ops: u8 = counted(a.table) + counted(a.rates) + counted(a.drop) + counted(
        a.drop_announces,
    ) + counted(a.drop_via) + counted(a.blackholed) + counted(a.blackhole) + counted(
        a.unblackhole,
    );
    if ops > 1 {
        return Err("Only one operation per invocation is supported".to_owned());
    }
    if (a.blackhole || a.unblackhole || a.drop || a.drop_via) && a.destination.is_none() {
        return Err("A destination hash is required for this operation".to_owned());
    }
    if a.table && a.max_hops.is_some() && a.destination.is_some() {
        return Err("Cannot specify both destination and max hops".to_owned());
    }
    Ok(())
}

/// What the program does.
#[derive(Debug, Clone, Copy, PartialEq, Eq, Structural)]
pub enum Operation {
    Blackholed,
    Blackhole,
    Unblackhole,
    Table,
    Rates,
    Drop,
    DropAnnounces,
    DropVia,
    PathInfo,
    Help,
}

/// What the command line asks to do.
pub fn operation(a: &Args) -> (r: Operation)
    ensures
        r == (if a.blackholed {
            Operation::Blackholed
        } else if a.blackhole {
            Operation::Blackhole
        } else if a.unblackhole {
            Operation::Unblackhole
        } else if a.table {
            Operation::Table
        } else if a.rates {
            Operation::Rates
        } else if a.drop {
            Operation::Drop
        } else if a.drop_announces {
            Operation::DropAnnounces
        } else if a.drop_via {
            Operation::DropVia
        } else if a.destination is Some {
            Operation::PathInfo
        } else {
            Operation::Help
        }),
{
    if a.blackholed {
        Operation::Blackholed
    } else if a.blackhole {
        Operation::Blackhole
    } else if a.unblackhole {
        Operation::Unblackhole
    } else if a.table {
        Operation::Table
    } else if a.rates {
        Operation::Rates
    } else if a.drop {
        Operation::Drop
    } else if a.drop_announces {
        Operation::DropAnnounces
    } else if a.drop_via {
        Operation::DropVia
    } else if a.destination.is_some() {
        Operation::PathInfo
    } else {
        Operation::Help
    }
}

/// The key: in hexadecimal, or in a file that holds it so.
pub open spec fn key_in(key: Option<Seq<char>>, file: Option<Seq<char>>) -> Result<
    Seq<u8>,
    Seq<char>,
> {
    match key {
        None => Err(
            "No RPC key specified. Use --rpc-key <hex> to provide the shared instance RPC key."@,
        ),
        Some(k) => {
            let t = match file {
                Some(f) => text::trimmed(f),
                None => k,
            };
            match rpc::given(t) {
                Some(b) => Ok(b),
                None => Err("Invalid hexadecimal input"@),
            }
        },
    }
}

/// The key to use. `file` is what the file holds that the key names, where it
/// names one.
pub fn resolve_rpc_key(key: &Option<String>, file: &Option<String>) -> (r: Result<Vec<u8>, String>)
    ensures
        match r {
            Ok(b) => key_in(args::opt_text(*key), args::opt_text(*file)) == Ok::<_, Seq<char>>(b@),
            Err(e) => key_in(args::opt_text(*key), args::opt_text(*file)) == Err::<Seq<u8>, _>(
                e@,
            ),
        },
{
    match key {
        None => Err(
            "No RPC key specified. Use --rpc-key <hex> to provide the shared instance RPC key.".to_owned(),
        ),
        Some(k) => {
            let d = match file {
                Some(f) => {
                    let t = text::trim(f.as_str());
                    rpc::decode_hex(t.as_str())
                },
                None => rpc::decode_hex(k.as_str()),
            };
            match d {
                Some(b) => Ok(b),
                None => Err("Invalid hexadecimal input".to_owned()),
            }
        },
    }
}

/// An address that is given in hexadecimal, or an error, which is the text where
/// its length is wrong.
pub open spec fn address_given(s: Seq<char>, wrong: Seq<char>) -> Result<Seq<u8>, Seq<char>> {
    match rpc::given(s) {
        None => Err("Invalid hexadecimal input"@),
        Some(b) => if b.len() != 16 {
            Err(wrong)
        } else {
            Ok(b)
        },
    }
}

/// Reads an address that is given in hexadecimal.
pub fn parse_address(s: &str, wrong: &str) -> (r: Result<Vec<u8>, String>)
    ensures
        match r {
            Ok(b) => address_given(s@, wrong@) == Ok::<_, Seq<char>>(b@),
            Err(e) => address_given(s@, wrong@) == Err::<Seq<u8>, _>(e@),
        },
{
    match rpc::decode_hex(s) {
        None => Err("Invalid hexadecimal input".to_owned()),
        Some(b) => if b.len() != 16 {
            Err(wrong.to_owned())
        } else {
            Ok(b)
        },
    }
}

// ---------------------------------------------------------------------------
// Interfaces
// ---------------------------------------------------------------------------

/// The name and address of an interface that an entry tells.
pub open spec fn interface_in(m: Msg) -> Option<(Seq<u8>, Seq<char>)> {
    match m {
        Msg::Pairs(p) => match fields::bytes_field(p, "identity"@) {
            Some(a) => match fields::text_field(p, "name"@) {
                Some(n) => Some((a, n)),
                None => None,
            },
            None => None,
        },
        _ => None,
    }
}

/// The names of interfaces by their addresses.
pub open spec fn interfaces_in(list: Seq<Msg>) -> Map<Seq<u8>, Seq<char>>
    decreases list.len(),
{
    if list.len() == 0 {
        Map::empty()
    } else {
        let before = interfaces_in(list.drop_last());
        match interface_in(list.last()) {
            Some((a, n)) => before.insert(a, n),
            None => before,
        }
    }
}

/// The names over sequences.
pub open spec fn names_view(m: Map<Seq<u8>, String>) -> Map<Seq<u8>, Seq<char>> {
    m.map_values(|s: String| s@)
}

/// The names of interfaces that the answer to the request for them tells.
pub open spec fn names_in(m: Msg) -> Map<Seq<u8>, Seq<char>> {
    match m {
        Msg::Array(list) => interfaces_in(list),
        _ => Map::empty(),
    }
}

fn interface_of(v: &MsgValue) -> (r: Option<(Vec<u8>, String)>)
    ensures
        match r {
            Some((a, n)) => interface_in(v@) == Some((a@, n@)),
            None => interface_in(v@) is None,
        },
{
    match v.as_map() {
        Some(m) => match fields::map_get_bytes(m, "identity") {
            Some(a) => match fields::map_get_str(m, "name") {
                Some(n) => Some((a, n)),
                None => None,
            },
            None => None,
        },
        None => None,
    }
}

/// The names of interfaces that the answer to the request for them tells; none
/// where there was no answer.
pub fn interface_names(response: &Option<MsgValue>) -> (r: ByteMap<String>)
    ensures
        names_view(r@) == (match *response {
            Some(v) => names_in(v@),
            None => Map::empty(),
        }),
{
    let mut out: ByteMap<String> = ByteMap::new();
    assert(names_view(out@) =~= Map::empty());
    if let Some(v) = response {
        if let Some(list) = v.as_array() {
            let ghost all = msgpack::models(list@);
            let mut i: usize = 0;
            assert(all.take(0) =~= Seq::empty());
            while i < list.len()
                invariant
                    i <= list@.len(),
                    all == msgpack::models(list@),
                    names_view(out@) == interfaces_in(all.take(i as int)),
                decreases list@.len() - i,
            {
                assert(all.take(i + 1).drop_last() =~= all.take(i as int));
                assert(all.take(i + 1).last() == list@[i as int]@);
                let ghost before = out@;
                if let Some((a, n)) = interface_of(&list[i]) {
                    let ghost av = a@;
                    let ghost nv = n@;
                    out.insert(a, n);
                    assert(names_view(out@) =~= names_view(before).insert(av, nv));
                }
                i = i + 1;
            }
            assert(all.take(all.len() as int) =~= all);
        }
    }
    out
}

/// An interface as it is shown: by its name where that is known, else by its
/// address.
pub open spec fn interface_text(iface: Option<Seq<u8>>, names: Map<Seq<u8>, Seq<char>>) -> Seq<
    char,
> {
    match iface {
        Some(b) => if names.dom().contains(b) {
            names[b]
        } else {
            rpc::shown(b)
        },
        None => "?"@,
    }
}

/// An interface as it is shown.
pub fn format_iface(iface: &Option<Vec<u8>>, names: &ByteMap<String>) -> (r: String)
    ensures
        r@ == interface_text(gitutil::bytes_view(*iface), names_view(names@)),
{
    match iface {
        Some(b) => match names.get(b.as_slice()) {
            Some(n) => n.clone(),
            None => rpc::pretty_hex(b.as_slice()),
        },
        None => "?".to_owned(),
    }
}

// ---------------------------------------------------------------------------
// Tables
// ---------------------------------------------------------------------------

/// An entry is passed over because it is about another destination than the one
/// that is asked for. What is asked for counts only where it is hexadecimal.
pub open spec fn filtered(hash: Option<Seq<u8>>, filter: Option<Seq<char>>) -> bool {
    match filter {
        Some(f) => match rpc::given(f) {
            Some(b) => hash is Some && hash->0 != b,
            None => false,
        },
        None => false,
    }
}

/// Bytes that may be missing, as they are shown.
pub open spec fn shown_or_empty(b: Option<Seq<u8>>) -> Seq<char> {
    match b {
        Some(b) => rpc::shown(b),
        None => Seq::empty(),
    }
}

fn show_or_empty(b: &Option<Vec<u8>>) -> (r: String)
    ensures
        r@ == shown_or_empty(gitutil::bytes_view(*b)),
{
    match b {
        Some(b) => rpc::pretty_hex(b.as_slice()),
        None => {
            let r = String::new();
            assert(r@ =~= Seq::empty());
            r
        },
    }
}

fn is_filtered(hash: &Option<Vec<u8>>, filter: &Option<String>) -> (r: bool)
    ensures
        r == filtered(gitutil::bytes_view(*hash), args::opt_text(*filter)),
{
    match filter {
        Some(f) => match rpc::decode_hex(f.as_str()) {
            Some(b) => match hash {
                Some(h) => !bytes::same(h.as_slice(), b.as_slice()),
                None => false,
            },
            None => false,
        },
        None => false,
    }
}

/// A row of the path table, or none where the entry is passed over.
pub open spec fn path_row(
    m: Msg,
    max: Option<nat>,
    filter: Option<Seq<char>>,
    names: Map<Seq<u8>, Seq<char>>,
) -> Option<Seq<Part>> {
    match m {
        Msg::Pairs(p) => {
            let hash = fields::bytes_field(p, "hash"@);
            let hops = fields::u64_field_or(p, "hops"@, 0);
            if (max is Some && hops > max->0) || filtered(hash, filter) {
                None
            } else {
                Some(
                    seq![
                        Part::Text(
                            shown_or_empty(hash) + " is "@ + digits::dec(hops as nat) + " "@
                                + pieces::hops_word(hops) + " away via "@ + shown_or_empty(
                                fields::bytes_field(p, "via"@),
                            ) + " on "@ + interface_text(
                                fields::bytes_field(p, "interface"@),
                                names,
                            ) + " expires "@,
                        ),
                        pieces::duration_part(fields::number_field(p, "expires"@)),
                    ],
                )
            }
        },
        _ => None,
    }
}

/// Makes a row of the path table.
pub fn path_row_of(
    v: &MsgValue,
    max_hops: Option<u64>,
    filter: &Option<String>,
    names: &ByteMap<String>,
) -> (r: Option<Vec<Piece>>)
    ensures
        match r {
            Some(p) => path_row(
                v@,
                args::number_view(max_hops),
                args::opt_text(*filter),
                names_view(names@),
            ) == Some(pieces::parts(p@)),
            None => path_row(
                v@,
                args::number_view(max_hops),
                args::opt_text(*filter),
                names_view(names@),
            ) is None,
        },
{
    let m = match v.as_map() {
        Some(m) => m,
        None => {
            return None;
        },
    };
    let hash = fields::map_get_bytes(m, "hash");
    let hops: u64 = fields::get_u64_or(m, "hops", 0);
    if let Some(max) = max_hops {
        if hops > max {
            return None;
        }
    }
    if is_filtered(&hash, filter) {
        return None;
    }
    let via = show_or_empty(&fields::map_get_bytes(m, "via"));
    let iface = format_iface(&fields::map_get_bytes(m, "interface"), names);
    let mut t = show_or_empty(&hash);
    t.append(" is ");
    let n = digits::decimal(hops);
    t.append(n.as_str());
    t.append(" ");
    t.append(pieces::hop_word(hops));
    t.append(" away via ");
    t.append(via.as_str());
    t.append(" on ");
    t.append(iface.as_str());
    t.append(" expires ");
    let mut out = pieces::none();
    pieces::push_text(&mut out, t);
    pieces::push(&mut out, pieces::duration_piece(fields::map_get_number(m, "expires")));
    proof {
        let want = path_row(
            v@,
            args::number_view(max_hops),
            args::opt_text(*filter),
            names_view(names@),
        )->0;
        assert(pieces::parts(out@) =~= want);
    }
    Some(out)
}

/// A row of the table of announce rates, or none where the entry is passed over.
pub open spec fn rate_row(m: Msg, filter: Option<Seq<char>>) -> Option<Seq<Part>> {
    match m {
        Msg::Pairs(p) => {
            let hash = fields::bytes_field(p, "hash"@);
            let violations = fields::u64_field_or(p, "rate_violations"@, 0);
            if filtered(hash, filter) {
                None
            } else {
                Some(
                    seq![
                        Part::Text(shown_or_empty(hash) + " last heard "@),
                        pieces::duration_part(fields::number_field(p, "last"@)),
                        Part::Text(
                            if violations > 0 {
                                " ago, "@ + digits::dec(violations as nat)
                                    + " active rate violation"@ + pieces::plural(violations)
                            } else {
                                " ago"@
                            },
                        ),
                        pieces::positive_part(
                            fields::number_field(p, "blocked_until"@),
                            ", blocked for "@,
                            ""@,
                        ),
                    ],
                )
            }
        },
        _ => None,
    }
}

/// Makes a row of the table of announce rates.
pub fn rate_row_of(v: &MsgValue, filter: &Option<String>) -> (r: Option<Vec<Piece>>)
    ensures
        match r {
            Some(p) => rate_row(v@, args::opt_text(*filter)) == Some(pieces::parts(p@)),
            None => rate_row(v@, args::opt_text(*filter)) is None,
        },
{
    let m = match v.as_map() {
        Some(m) => m,
        None => {
            return None;
        },
    };
    let hash = fields::map_get_bytes(m, "hash");
    if is_filtered(&hash, filter) {
        return None;
    }
    let violations: u64 = fields::get_u64_or(m, "rate_violations", 0);
    let mut out = pieces::none();
    let mut t = show_or_empty(&hash);
    t.append(" last heard ");
    pieces::push_text(&mut out, t);
    pieces::push(&mut out, pieces::duration_piece(fields::map_get_number(m, "last")));
    let tail = if violations > 0 {
        let n = digits::decimal(violations);
        let mut t = text::cat3(" ago, ", n.as_str(), " active rate violation");
        t.append(pieces::plural_ending(violations));
        t
    } else {
        " ago".to_owned()
    };
    pieces::push_text(&mut out, tail);
    pieces::push(
        &mut out,
        pieces::positive_piece(fields::map_get_number(m, "blocked_until"), ", blocked for ", ""),
    );
    proof {
        assert(pieces::parts(out@) =~= rate_row(v@, args::opt_text(*filter))->0);
    }
    Some(out)
}

/// The rows of a table.
pub open spec fn rows_view(v: Seq<Vec<Piece>>) -> Seq<Seq<Part>> {
    Seq::new(v.len(), |i: int| pieces::parts(v[i]@))
}

/// The rows of the path table.
pub open spec fn path_rows(
    list: Seq<Msg>,
    max: Option<nat>,
    filter: Option<Seq<char>>,
    names: Map<Seq<u8>, Seq<char>>,
) -> Seq<Seq<Part>>
    decreases list.len(),
{
    if list.len() == 0 {
        Seq::empty()
    } else {
        let before = path_rows(list.drop_last(), max, filter, names);
        match path_row(list.last(), max, filter, names) {
            Some(r) => before.push(r),
            None => before,
        }
    }
}

/// The rows of the table of announce rates.
pub open spec fn rate_rows(list: Seq<Msg>, filter: Option<Seq<char>>) -> Seq<Seq<Part>>
    decreases list.len(),
{
    if list.len() == 0 {
        Seq::empty()
    } else {
        let before = rate_rows(list.drop_last(), filter);
        match rate_row(list.last(), filter) {
            Some(r) => before.push(r),
            None => before,
        }
    }
}

/// The entries of a table that an answer holds.
pub fn table_entries(response: &MsgValue) -> (r: Result<&Vec<MsgValue>, String>)
    ensures
        match r {
            Ok(v) => response@ == Msg::Array(msgpack::models(v@)),
            Err(e) => !(response@ is Array) && e@ == "Invalid response: expected array"@,
        },
{
    match response.as_array() {
        Some(v) => Ok(v),
        None => Err("Invalid response: expected array".to_owned()),
    }
}

/// Makes the rows of the path table.
pub fn do_table(
    entries: &Vec<MsgValue>,
    max_hops: Option<u64>,
    filter: &Option<String>,
    names: &ByteMap<String>,
) -> (r: Vec<Vec<Piece>>)
    ensures
        rows_view(r@) == path_rows(
            msgpack::models(entries@),
            args::number_view(max_hops),
            args::opt_text(*filter),
            names_view(names@),
        ),
{
    let ghost all = msgpack::models(entries@);
    let ghost mx = args::number_view(max_hops);
    let ghost fl = args::opt_text(*filter);
    let ghost nm = names_view(names@);
    let mut out: Vec<Vec<Piece>> = Vec::new();
    let mut i: usize = 0;
    assert(all.take(0) =~= Seq::empty());
    assert(rows_view(out@) =~= Seq::empty());
    while i < entries.len()
        invariant
            i <= entries@.len(),
            all == msgpack::models(entries@),
            mx == args::number_view(max_hops),
            fl == args::opt_text(*filter),
            nm == names_view(names@),
            rows_view(out@) == path_rows(all.take(i as int), mx, fl, nm),
        decreases entries@.len() - i,
    {
        assert(all.take(i + 1).drop_last() =~= all.take(i as int));
        assert(all.take(i + 1).last() == entries@[i as int]@);
        if let Some(row) = path_row_of(&entries[i], max_hops, filter, names) {
            let ghost before = rows_view(out@);
            out.push(row);
            assert(rows_view(out@) =~= before.push(pieces::parts(row@)));
        }
        i = i + 1;
    }
    assert(all.take(all.len() as int) =~= all);
    out
}

/// Makes the rows of the table of announce rates.
pub fn do_rates(entries: &Vec<MsgValue>, filter: &Option<String>) -> (r: Vec<Vec<Piece>>)
    ensures
        rows_view(r@) == rate_rows(msgpack::models(entries@), args::opt_text(*filter)),
{
    let ghost all = msgpack::models(entries@);
    let ghost fl = args::opt_text(*filter);
    let mut out: Vec<Vec<Piece>> = Vec::new();
    let mut i: usize = 0;
    assert(all.take(0) =~= Seq::empty());
    assert(rows_view(out@) =~= Seq::empty());
    while i < entries.len()
        invariant
            i <= entries@.len(),
            all == msgpack::models(entries@),
            fl == args::opt_text(*filter),
            rows_view(out@) == rate_rows(all.take(i as int), fl),
        decreases entries@.len() - i,
    {
        assert(all.take(i + 1).drop_last() =~= all.take(i as int));
        assert(all.take(i + 1).last() == entries@[i as int]@);
        if let Some(row) = rate_row_of(&entries[i], filter) {
            let ghost before = rows_view(out@);
            out.push(row);
            assert(rows_view(out@) =~= before.push(pieces::parts(row@)));
        }
        i = i + 1;
    }
    assert(all.take(all.len() as int) =~= all);
    out
}

/// There are no more rows than entries, and each is the row of an entry.
pub proof fn law_rows_come_from_entries(
    list: Seq<Msg>,
    max: Option<nat>,
    filter: Option<Seq<char>>,
    names: Map<Seq<u8>, Seq<char>>,
)
    ensures
        path_rows(list, max, filter, names).len() <= list.len(),
        forall|i: int|
            0 <= i < path_rows(list, max, filter, names).len() ==> exists|j: int|
                0 <= j < list.len() && #[trigger] path_row(list[j], max, filter, names) == Some(
                    #[trigger] path_rows(list, max, filter, names)[i],
                ),
    decreases list.len(),
{
    if list.len() > 0 {
        let front = list.drop_last();
        law_rows_come_from_entries(front, max, filter, names);
        let rows = path_rows(list, max, filter, names);
        let before = path_rows(front, max, filter, names);
        assert forall|i: int| 0 <= i < rows.len() implies exists|j: int|
            0 <= j < list.len() && #[trigger] path_row(list[j], max, filter, names) == Some(
                #[trigger] rows[i],
            ) by {
            if i < before.len() {
                assert(rows[i] == before[i]);
                let j = choose|j: int|
                    0 <= j < front.len() && #[trigger] path_row(front[j], max, filter, names)
                        == Some(before[i]);
                assert(list[j] == front[j]);
                assert(path_row(list[j], max, filter, names) == Some(rows[i]));
            } else {
                assert(path_row(list[list.len() - 1], max, filter, names) == Some(rows[i]));
            }
        }
    }
}

/// A path that is farther than asked for is not shown.
pub proof fn law_far_paths_are_passed_over(
    p: Seq<(Msg, Msg)>,
    max: nat,
    filter: Option<Seq<char>>,
    names: Map<Seq<u8>, Seq<char>>,
)
    ensures
        fields::u64_field_or(p, "hops"@, 0) > max ==> path_row(
            Msg::Pairs(p),
            Some(max),
            filter,
            names,
        ) is None,
{
}

/// What stands below a table, and the exit code: a note where there are no entries
/// at all, and an error where rows of one destination were asked for and there is
/// none.
pub open spec fn table_end(
    entries: nat,
    rows: nat,
    filtered: bool,
    empty: Seq<char>,
    nothing: Seq<char>,
) -> (Option<Seq<char>>, i32) {
    if entries == 0 {
        (Some(empty), 0)
    } else if rows == 0 && filtered {
        (Some(nothing), 1)
    } else {
        (None, 0)
    }
}

/// What stands below the path table, and the exit code.
pub fn path_table_end(entries: usize, rows: usize, filtered: bool) -> (r: (Option<String>, i32))
    ensures
        (args::opt_text(r.0), r.1) == table_end(
            entries as nat,
            rows as nat,
            filtered,
            "No paths known"@,
            "No path known"@,
        ),
{
    if entries == 0 {
        (Some("No paths known".to_owned()), 0)
    } else if rows == 0 && filtered {
        (Some("No path known".to_owned()), 1)
    } else {
        (None, 0)
    }
}

/// What stands below the table of announce rates, and the exit code.
pub fn rate_table_end(entries: usize, rows: usize, filtered: bool) -> (r: (Option<String>, i32))
    ensures
        (args::opt_text(r.0), r.1) == table_end(
            entries as nat,
            rows as nat,
            filtered,
            "No information available"@,
            "No information available"@,
        ),
{
    if entries == 0 {
        (Some("No information available".to_owned()), 0)
    } else if rows == 0 && filtered {
        (Some("No information available".to_owned()), 1)
    } else {
        (None, 0)
    }
}

// ---------------------------------------------------------------------------
// Tables as JSON
// ---------------------------------------------------------------------------

/// A number that may be missing, as a JSON number of floating point.
pub open spec fn float_or_zero(m: Option<Msg>) -> JsonModel {
    JsonModel::Float(
        match m {
            Some(m) => m,
            None => Msg::Integer(0),
        },
    )
}

fn float_of(m: Option<MsgValue>) -> (r: Json)
    ensures
        r@ == float_or_zero(fields::value_view(m)),
{
    match m {
        Some(m) => Json::Float(m),
        None => Json::Float(MsgValue::UInt(0)),
    }
}

/// An entry of the path table as JSON; none where it lacks an address.
pub open spec fn path_json(m: Msg) -> Option<JsonModel> {
    match m {
        Msg::Pairs(p) => {
            let hash = fields::bytes_field(p, "hash"@);
            let via = fields::bytes_field(p, "via"@);
            let iface = fields::bytes_field(p, "interface"@);
            if hash is Some && via is Some && iface is Some {
                Some(
                    JsonModel::Object(
                        seq![
                            ("hash"@, JsonModel::Text(digits::hex_text(hash->0))),
                            ("hops"@, JsonModel::UInt(fields::u64_field_or(p, "hops"@, 0))),
                            ("via"@, JsonModel::Text(digits::hex_text(via->0))),
                            ("interface"@, JsonModel::Text(digits::hex_text(iface->0))),
                            ("expires"@, float_or_zero(fields::number_field(p, "expires"@))),
                        ],
                    ),
                )
            } else {
                None
            }
        },
        _ => None,
    }
}

/// An entry of the path table as JSON.
pub fn path_entry_to_json(entry: &MsgValue) -> (r: Option<Json>)
    ensures
        match r {
            Some(j) => path_json(entry@) == Some(j@),
            None => path_json(entry@) is None,
        },
{
    let m = match entry.as_map() {
        Some(m) => m,
        None => {
            return None;
        },
    };
    let hash = fields::map_get_bytes(m, "hash");
    let via = fields::map_get_bytes(m, "via");
    let iface = fields::map_get_bytes(m, "interface");
    match (hash, via, iface) {
        (Some(h), Some(v), Some(i)) => {
            let mut o = json::empty();
            json::put(&mut o, "hash", Json::Text(digits::hex_encode(h.as_slice())));
            json::put(&mut o, "hops", Json::UInt(fields::get_u64_or(m, "hops", 0)));
            json::put(&mut o, "via", Json::Text(digits::hex_encode(v.as_slice())));
            json::put(&mut o, "interface", Json::Text(digits::hex_encode(i.as_slice())));
            json::put(&mut o, "expires", float_of(fields::map_get_number(m, "expires")));
            assert(json::entry_models(o@) =~= path_json(entry@)->0->Object_0);
            Some(json::object(o))
        },
        _ => None,
    }
}

/// An entry of the table of announce rates as JSON; none where it lacks an
/// address.
pub open spec fn rate_json(m: Msg) -> Option<JsonModel> {
    match m {
        Msg::Pairs(p) => match fields::bytes_field(p, "hash"@) {
            Some(h) => Some(
                JsonModel::Object(
                    seq![
                        ("hash"@, JsonModel::Text(digits::hex_text(h))),
                        ("last"@, float_or_zero(fields::number_field(p, "last"@))),
                        (
                            "rate_violations"@,
                            JsonModel::UInt(fields::u64_field_or(p, "rate_violations"@, 0)),
                        ),
                        (
                            "blocked_until"@,
                            float_or_zero(fields::number_field(p, "blocked_until"@)),
                        ),
                    ],
                ),
            ),
            None => None,
        },
        _ => None,
    }
}

/// An entry of the table of announce rates as JSON.
pub fn rate_entry_to_json(entry: &MsgValue) -> (r: Option<Json>)
    ensures
        match r {
            Some(j) => rate_json(entry@) == Some(j@),
            None => rate_json(entry@) is None,
        },
{
    let m = match entry.as_map() {
        Some(m) => m,
        None => {
            return None;
        },
    };
    match fields::map_get_bytes(m, "hash") {
        Some(h) => {
            let mut o = json::empty();
            json::put(&mut o, "hash", Json::Text(digits::hex_encode(h.as_slice())));
            json::put(&mut o, "last", float_of(fields::map_get_number(m, "last")));
            json::put(
                &mut o,
                "rate_violations",
                Json::UInt(fields::get_u64_or(m, "rate_violations", 0)),
            );
            json::put(
                &mut o,
                "blocked_until",
                float_of(fields::map_get_number(m, "blocked_until")),
            );
            assert(json::entry_models(o@) =~= rate_json(entry@)->0->Object_0);
            Some(json::object(o))
        },
        None => None,
    }
}

// ---------------------------------------------------------------------------
// Blackholes
// ---------------------------------------------------------------------------

/// The reason and the source of a blackhole.
pub open spec fn blackhole_tail(p: Seq<(Msg, Msg)>) -> Seq<char> {
    let reason = match fields::text_field(p, "reason"@) {
        Some(r) => " ("@ + r + ")"@,
        None => Seq::empty(),
    };
    let by = match fields::bytes_field(p, "source"@) {
        Some(b) => " by "@ + rpc::shown(b),
        None => Seq::empty(),
    };
    reason + by
}

/// A row of the list of blackholed identities, or none where the entry is passed
/// over: the identity must hold the digits that are asked for.
pub open spec fn blackhole_row(e: (Msg, Msg), filter: Option<Seq<char>>) -> Option<Seq<Part>> {
    match (msgpack::bytes_of(e.0), e.1) {
        (Some(id), Msg::Pairs(p)) => {
            if filter is Some && !text::holds(digits::hex_text(id), text::lowercase(filter->0)) {
                None
            } else {
                Some(
                    seq![
                        Part::Text(rpc::shown(id) + " blackholed "@),
                        pieces::positive_part(
                            fields::number_field(p, "until"@),
                            "for "@,
                            "indefinitely"@,
                        ),
                        Part::Text(blackhole_tail(p)),
                    ],
                )
            }
        },
        _ => None,
    }
}

/// Makes a row of the list of blackholed identities.
pub fn blackhole_row_of(e: &(MsgValue, MsgValue), filter: &Option<String>) -> (r: Option<Vec<Piece>>)
    ensures
        match r {
            Some(p) => blackhole_row((e.0@, e.1@), args::opt_text(*filter)) == Some(
                pieces::parts(p@),
            ),
            None => blackhole_row((e.0@, e.1@), args::opt_text(*filter)) is None,
        },
{
    let id = match e.0.as_slice() {
        Some(b) => b,
        None => {
            return None;
        },
    };
    let m = match e.1.as_map() {
        Some(m) => m,
        None => {
            return None;
        },
    };
    if let Some(f) = filter {
        let low = text::to_lowercase(f.as_str());
        let hex = digits::hex_encode(id.as_slice());
        if !text::contains(hex.as_str(), low.as_str()) {
            return None;
        }
    }
    let mut tail = String::new();
    assert(tail@ =~= Seq::empty());
    if let Some(reason) = fields::map_get_str(m, "reason") {
        tail = text::cat3(" (", reason.as_str(), ")");
    }
    if let Some(b) = fields::map_get_bytes(m, "source") {
        let s = rpc::pretty_hex(b.as_slice());
        let ghost before = tail@;
        let by = text::cat(" by ", s.as_str());
        tail.append(by.as_str());
    }
    assert(tail@ =~= blackhole_tail(msgpack::pair_models(m@)));
    let mut out = pieces::none();
    let mut t = rpc::pretty_hex(id.as_slice());
    t.append(" blackholed ");
    pieces::push_text(&mut out, t);
    pieces::push(
        &mut out,
        pieces::positive_piece(fields::map_get_number(m, "until"), "for ", "indefinitely"),
    );
    pieces::push_text(&mut out, tail);
    assert(pieces::parts(out@) =~= blackhole_row((e.0@, e.1@), args::opt_text(*filter))->0);
    Some(out)
}

/// The rows of the list of blackholed identities.
pub open spec fn blackhole_rows(list: Seq<(Msg, Msg)>, filter: Option<Seq<char>>) -> Seq<Seq<Part>>
    decreases list.len(),
{
    if list.len() == 0 {
        Seq::empty()
    } else {
        let before = blackhole_rows(list.drop_last(), filter);
        match blackhole_row(list.last(), filter) {
            Some(r) => before.push(r),
            None => before,
        }
    }
}

/// What the list of blackholed identities shows: a text, or rows.
#[derive(Debug)]
pub enum Listing {
    Note(String),
    Rows(Vec<Vec<Piece>>),
}

/// Makes the list of blackholed identities from the answer to the request for
/// them.
pub fn do_blackholed(response: &MsgValue, filter: &Option<String>) -> (r: Result<Listing, String>)
    ensures
        match response@ {
            Msg::Pairs(p) => {
                let rows = blackhole_rows(p, args::opt_text(*filter));
                match r {
                    Ok(Listing::Note(t)) => if p.len() == 0 {
                        t@ == "No blackholed identities"@
                    } else {
                        rows.len() == 0 && t@ == "No matching blackholed identities"@
                    },
                    Ok(Listing::Rows(v)) => rows.len() > 0 && rows_view(v@) == rows,
                    Err(_) => false,
                }
            },
            _ => r matches Err(e) && e@ == "Invalid response"@,
        },
{
    let m = match response.as_map() {
        Some(m) => m,
        None => {
            return Err("Invalid response".to_owned());
        },
    };
    if m.len() == 0 {
        return Ok(Listing::Note("No blackholed identities".to_owned()));
    }
    let ghost all = msgpack::pair_models(m@);
    let ghost fl = args::opt_text(*filter);
    let mut out: Vec<Vec<Piece>> = Vec::new();
    let mut i: usize = 0;
    assert(all.take(0) =~= Seq::empty());
    assert(rows_view(out@) =~= Seq::empty());
    while i < m.len()
        invariant
            i <= m@.len(),
            all == msgpack::pair_models(m@),
            fl == args::opt_text(*filter),
            rows_view(out@) == blackhole_rows(all.take(i as int), fl),
        decreases m@.len() - i,
    {
        assert(all.take(i + 1).drop_last() =~= all.take(i as int));
        assert(all.take(i + 1).last() == (m@[i as int].0@, m@[i as int].1@));
        if let Some(row) = blackhole_row_of(&m[i], filter) {
            let ghost before = rows_view(out@);
            out.push(row);
            assert(rows_view(out@) =~= before.push(pieces::parts(row@)));
        }
        i = i + 1;
    }
    assert(all.take(all.len() as int) =~= all);
    assert(rows_view(out@).len() == out@.len());
    if out.len() == 0 {
        Ok(Listing::Note("No matching blackholed identities".to_owned()))
    } else {
        Ok(Listing::Rows(out))
    }
}

/// The request to blackhole an identity that is given in hexadecimal. The seconds
/// are the bits of a number of double precision.
pub fn blackhole_request(dest: &str, seconds: Option<u64>, reason: Option<&str>) -> (r: Result<
    MsgValue,
    String,
>)
    requires
        seconds matches Some(s) ==> !msgpack::is_nan(s),
    ensures
        match address_given(dest@, "Invalid identity hash length"@) {
            Ok(b) => r matches Ok(m) && m@ == rpc::blackhole_msg(
                b,
                seconds,
                gitutil::option_view(reason),
            ) && msgpack::encodable(m@),
            Err(e) => r matches Err(x) && x@ == e,
        },
{
    match parse_address(dest, "Invalid identity hash length") {
        Ok(b) => Ok(rpc::blackhole(b.as_slice(), seconds, reason)),
        Err(e) => Err(e),
    }
}

/// The request to lift a blackhole.
pub fn unblackhole_request(dest: &str) -> (r: Result<MsgValue, String>)
    ensures
        match address_given(dest@, "Invalid identity hash length"@) {
            Ok(b) => r matches Ok(m) && m@ == rpc::unblackhole_msg(b) && msgpack::encodable(m@),
            Err(e) => r matches Err(x) && x@ == e,
        },
{
    match parse_address(dest, "Invalid identity hash length") {
        Ok(b) => Ok(rpc::unblackhole(b.as_slice())),
        Err(e) => Err(e),
    }
}

/// The request to drop the path to a destination.
pub fn drop_request(dest: &str) -> (r: Result<MsgValue, String>)
    ensures
        match address_given(dest@, "Invalid destination hash length"@) {
            Ok(b) => r matches Ok(m) && m@ == rpc::ask_about_msg("drop"@, "path"@, b)
                && msgpack::encodable(m@),
            Err(e) => r matches Err(x) && x@ == e,
        },
{
    match parse_address(dest, "Invalid destination hash length") {
        Ok(b) => Ok(rpc::ask_about("drop", "path", b.as_slice())),
        Err(e) => Err(e),
    }
}

/// The request to drop all paths over a transport.
pub fn drop_via_request(dest: &str) -> (r: Result<MsgValue, String>)
    ensures
        match address_given(dest@, "Invalid transport identity hash length"@) {
            Ok(b) => r matches Ok(m) && m@ == rpc::ask_about_msg("drop"@, "all_via"@, b)
                && msgpack::encodable(m@),
            Err(e) => r matches Err(x) && x@ == e,
        },
{
    match parse_address(dest, "Invalid transport identity hash length") {
        Ok(b) => Ok(rpc::ask_about("drop", "all_via", b.as_slice())),
        Err(e) => Err(e),
    }
}

/// What is said of a request that was granted or not, and the exit code.
pub open spec fn outcome(response: Msg, yes: Seq<char>, no: Seq<char>) -> (Seq<char>, i32) {
    if response == Msg::Boolean(true) {
        (yes, 0)
    } else {
        (no, 1)
    }
}

/// An address as it is shown, as far as it is one.
pub open spec fn shown_given(dest: Seq<char>) -> Seq<char> {
    match rpc::given(dest) {
        Some(b) => rpc::shown(b),
        None => Seq::empty(),
    }
}

fn show_given(dest: &str) -> (r: String)
    ensures
        r@ == shown_given(dest@),
{
    match rpc::decode_hex(dest) {
        Some(b) => rpc::pretty_hex(b.as_slice()),
        None => {
            let r = String::new();
            assert(r@ =~= Seq::empty());
            r
        },
    }
}

/// What is said of the request to drop a path.
pub fn drop_outcome(dest: &str, response: &MsgValue) -> (r: (String, i32))
    ensures
        (r.0@, r.1) == outcome(
            response@,
            "Dropped path to "@ + shown_given(dest@),
            "Unable to drop path to "@ + shown_given(dest@) + ". Does it exist?"@,
        ),
{
    let d = show_given(dest);
    if rpc::granted(response) {
        (text::cat("Dropped path to ", d.as_str()), 0)
    } else {
        (text::cat3("Unable to drop path to ", d.as_str(), ". Does it exist?"), 1)
    }
}

/// What is said of the request to drop all paths over a transport.
pub fn drop_via_outcome(dest: &str, response: &MsgValue) -> (r: String)
    ensures
        r@ == "Dropped "@ + digits::dec(
            match msgpack::u64_of(response@) {
                Some(n) => n as nat,
                None => 0,
            },
        ) + " paths via "@ + shown_given(dest@),
{
    let n: u64 = match response.as_u64() {
        Some(n) => n,
        None => 0,
    };
    let c = digits::decimal(n);
    let d = show_given(dest);
    let mut t = text::cat3("Dropped ", c.as_str(), " paths via ");
    t.append(d.as_str());
    t
}

/// What is said of the request to blackhole an identity.
pub fn blackhole_outcome(dest: &str, response: &MsgValue) -> (r: (String, i32))
    ensures
        (r.0@, r.1) == outcome(
            response@,
            "Blackholed identity "@ + dest@,
            "Could not blackhole identity "@ + dest@,
        ),
{
    if rpc::granted(response) {
        (text::cat("Blackholed identity ", dest), 0)
    } else {
        (text::cat("Could not blackhole identity ", dest), 1)
    }
}

/// What is said of the request to lift a blackhole.
pub fn unblackhole_outcome(dest: &str, response: &MsgValue) -> (r: (String, i32))
    ensures
        (r.0@, r.1) == outcome(
            response@,
            "Lifted blackhole for identity "@ + dest@,
            "Identity "@ + dest@ + " was not blackholed"@,
        ),
{
    if rpc::granted(response) {
        (text::cat("Lifted blackhole for identity ", dest), 0)
    } else {
        (text::cat3("Identity ", dest, " was not blackholed"), 1)
    }
}

// ---------------------------------------------------------------------------
// One path
// ---------------------------------------------------------------------------

/// The first entry about a destination, before any entry that is no map.
pub open spec fn known_path(list: Seq<Msg>, dest: Seq<u8>) -> Option<Seq<(Msg, Msg)>>
    decreases list.len(),
{
    if list.len() == 0 {
        None
    } else {
        match list[0] {
            Msg::Pairs(p) => if fields::bytes_field(p, "hash"@) == Some(dest) {
                Some(p)
            } else {
                known_path(list.skip(1), dest)
            },
            _ => None,
        }
    }
}

/// The entry about a destination in the answer to the request for the path table.
pub open spec fn known_path_in(response: Option<Msg>, dest: Seq<u8>) -> Option<Seq<(Msg, Msg)>> {
    match response {
        Some(Msg::Array(list)) => known_path(list, dest),
        _ => None,
    }
}

/// Finds the entry about a destination in the answer to the request for the path
/// table.
pub fn lookup_path_entry<'a>(response: &'a Option<MsgValue>, dest: &[u8]) -> (r: Option<
    &'a Vec<(MsgValue, MsgValue)>,
>)
    ensures
        match r {
            Some(m) => known_path_in(fields::value_view(*response), dest@) == Some(
                msgpack::pair_models(m@),
            ),
            None => known_path_in(fields::value_view(*response), dest@) is None,
        },
{
    let list = match response {
        Some(v) => match v.as_array() {
            Some(a) => a,
            None => {
                return None;
            },
        },
        None => {
            return None;
        },
    };
    let ghost all = msgpack::models(list@);
    let mut i: usize = 0;
    assert(all.skip(0) =~= all);
    while i < list.len()
        invariant
            i <= list@.len(),
            all == msgpack::models(list@),
            fields::value_view(*response) == Some(Msg::Array(all)),
            known_path(all.skip(i as int), dest@) == known_path(all, dest@),
        decreases list@.len() - i,
    {
        assert(all.skip(i as int)[0] == list@[i as int]@);
        assert(all.skip(i as int).skip(1) =~= all.skip(i + 1));
        match list[i].as_map() {
            None => {
                return None;
            },
            Some(m) => {
                if let Some(h) = fields::map_get_bytes(m, "hash") {
                    if bytes::same(h.as_slice(), dest) {
                        return Some(m);
                    }
                }
            },
        }
        i = i + 1;
    }
    None
}

/// What is shown of the path to a destination; none where there is no path.
pub open spec fn path_info(p: Seq<(Msg, Msg)>, dest: Seq<u8>, names: Map<Seq<u8>, Seq<char>>) -> Option<
    Seq<Part>,
> {
    let found = fields::bool_field(p, "found"@) == Some(true) || fields::bytes_field(p, "hash"@) is Some;
    if !found {
        None
    } else {
        let hops = fields::u64_field_or(p, "hops"@, 1);
        let via = match fields::bytes_field(p, "next_hop"@) {
            Some(b) => Some(b),
            None => fields::bytes_field(p, "via"@),
        };
        let head = "Path found, destination "@ + rpc::shown(dest) + " is "@ + digits::dec(
            hops as nat,
        ) + " "@ + pieces::hops_word(hops) + " away"@;
        Some(
            seq![
                Part::Text(
                    match via {
                        Some(b) => head + " via "@ + rpc::shown(b) + " on "@ + interface_text(
                            fields::bytes_field(p, "interface"@),
                            names,
                        ),
                        None => head,
                    },
                ),
                pieces::positive_part(fields::number_field(p, "expires"@), " expires "@, ""@),
            ],
        )
    }
}

/// Whether an entry tells of a path.
pub fn path_found(m: &Vec<(MsgValue, MsgValue)>) -> (r: bool)
    ensures
        r == (fields::bool_field(msgpack::pair_models(m@), "found"@) == Some(true)
            || fields::bytes_field(msgpack::pair_models(m@), "hash"@) is Some),
{
    let found = match fields::map_get_bool(m, "found") {
        Some(b) => b,
        None => false,
    };
    found || fields::map_get_bytes(m, "hash").is_some()
}

/// What is shown of the path to a destination; `No path known` where there is
/// none.
pub fn do_path_info(
    m: &Vec<(MsgValue, MsgValue)>,
    dest: &[u8],
    names: &ByteMap<String>,
) -> (r: Option<Vec<Piece>>)
    ensures
        match r {
            Some(p) => path_info(msgpack::pair_models(m@), dest@, names_view(names@)) == Some(
                pieces::parts(p@),
            ),
            None => path_info(msgpack::pair_models(m@), dest@, names_view(names@)) is None,
        },
{
    if !path_found(m) {
        return None;
    }
    let hops: u64 = fields::get_u64_or(m, "hops", 1);
    let via = match fields::map_get_bytes(m, "next_hop") {
        Some(b) => Some(b),
        None => fields::map_get_bytes(m, "via"),
    };
    let d = rpc::pretty_hex(dest);
    let n = digits::decimal(hops);
    let mut t = text::cat3("Path found, destination ", d.as_str(), " is ");
    t.append(n.as_str());
    t.append(" ");
    t.append(pieces::hop_word(hops));
    t.append(" away");
    if let Some(b) = via {
        let v = rpc::pretty_hex(b.as_slice());
        let iface = format_iface(&fields::map_get_bytes(m, "interface"), names);
        t.append(" via ");
        t.append(v.as_str());
        t.append(" on ");
        t.append(iface.as_str());
    }
    let mut out = pieces::none();
    pieces::push_text(&mut out, t);
    pieces::push(
        &mut out,
        pieces::positive_piece(fields::map_get_number(m, "expires"), " expires ", ""),
    );
    assert(pieces::parts(out@) =~= path_info(
        msgpack::pair_models(m@),
        dest@,
        names_view(names@),
    )->0);
    Some(out)
}

/// The number that an answer is, if any came.
pub open spec fn number_answer(response: Option<Msg>) -> Option<Msg> {
    match response {
        Some(m) => if msgpack::is_number(m) {
            Some(m)
        } else {
            None
        },
        None => None,
    }
}

/// The whole number that an answer is, if any came.
pub open spec fn i64_answer(response: Option<Msg>) -> Option<i64> {
    match response {
        Some(m) => msgpack::i64_of(m),
        None => None,
    }
}

/// What is shown of the signal at the first hop.
pub open spec fn signal(snr: Option<Msg>, rssi: Option<i64>) -> Seq<Part> {
    let second = match rssi {
        Some(n) => "RSSI: "@ + digits::signed_dec(n as int) + " dBm)"@,
        None => ")"@,
    };
    match snr {
        Some(m) => seq![
            Part::Text(" (via radio: SNR: "@),
            Part::Decimal(m),
            Part::Text(
                if rssi is Some {
                    " dB "@ + second
                } else {
                    " dB"@ + second
                },
            ),
        ],
        None => if rssi is Some {
            seq![Part::Text(" (via radio: "@ + second)]
        } else {
            Seq::empty()
        },
    }
}

/// What is shown of the signal at the first hop, from the answers to the requests
/// for it.
pub fn signal_pieces(snr: &Option<MsgValue>, rssi: &Option<MsgValue>) -> (r: Vec<Piece>)
    ensures
        pieces::parts(r@) == signal(
            number_answer(fields::value_view(*snr)),
            i64_answer(fields::value_view(*rssi)),
        ),
{
    let strength = match rssi {
        Some(v) => v.as_i64(),
        None => None,
    };
    let second = match strength {
        Some(n) => {
            let d = digits::signed_decimal(n);
            text::cat3("RSSI: ", d.as_str(), " dBm)")
        },
        None => ")".to_owned(),
    };
    let mut out = pieces::none();
    if let Some(v) = snr {
        if v.is_number() {
            pieces::push_text(&mut out, " (via radio: SNR: ".to_owned());
            pieces::push(&mut out, Piece::Decimal(v.copy()));
            let t = if strength.is_some() {
                text::cat(" dB ", second.as_str())
            } else {
                text::cat(" dB", second.as_str())
            };
            pieces::push_text(&mut out, t);
            assert(pieces::parts(out@) =~= signal(
                number_answer(fields::value_view(*snr)),
                i64_answer(fields::value_view(*rssi)),
            ));
            return out;
        }
    }
    if strength.is_some() {
        pieces::push_text(&mut out, text::cat(" (via radio: ", second.as_str()));
    }
    assert(pieces::parts(out@) =~= signal(
        number_answer(fields::value_view(*snr)),
        i64_answer(fields::value_view(*rssi)),
    ));
    out
}

} // verus!
