//! Announcements: what kind of service stands behind one, and how it is shown.

use vstd::prelude::*;

use crate::address;
use crate::args;
use crate::args::{Grammar, Item, Kind, OptRule, Rules};
use crate::bytes;
use crate::digits;
use crate::json;
use crate::json::{Json, JsonModel};
use crate::msgpack::{Msg, MsgValue};
use crate::text;

verus! {

// ---------------------------------------------------------------------------
// Command line
// ---------------------------------------------------------------------------

/// The command line.
#[derive(Debug)]
pub struct Args {
    pub help: bool,
    pub version: bool,
    pub identity: Option<String>,
    pub verbose: bool,
    pub json: bool,
    pub once: Option<u64>,
}

/// The options.
pub open spec fn rules() -> Rules {
    Rules {
        opts: seq![
            args::rule("-h"@, "--help"@, Kind::Stop),
            args::rule("--version"@, "--version"@, Kind::Stop),
            args::rule("-i"@, "--identity"@, Kind::Text),
            args::rule("-v"@, "--verbose"@, Kind::Flag),
            args::rule("-j"@, "--json"@, Kind::Flag),
            OptRule {
                short: "--once"@,
                long: "--once"@,
                kind: Kind::Number(0xffff_ffff_ffff_ffff),
                bad: "bad --once count"@,
            },
        ],
        missing: (""@, " needs a value"@),
        unknown: "unrecognized: "@,
        extra: None,
    }
}

fn grammar() -> (r: Grammar)
    ensures
        r@ == rules(),
{
    let g = Grammar {
        opts: vec![
            args::opt("-h", "--help", Kind::Stop, ""),
            args::opt("--version", "--version", Kind::Stop, ""),
            args::opt("-i", "--identity", Kind::Text, ""),
            args::opt("-v", "--verbose", Kind::Flag, ""),
            args::opt("-j", "--json", Kind::Flag, ""),
            args::opt("--once", "--once", Kind::Number(0xffff_ffff_ffff_ffff), "bad --once count"),
        ],
        missing: ("", " needs a value"),
        unknown: "unrecognized: ",
        extra: None,
    };
    assert(g@.opts =~= rules().opts);
    g
}

/// The command line says what the tokens say.
pub open spec fn args_say(a: Args, ts: Seq<Item>) -> bool {
    &&& a.help == (args::count(ts, "--help"@) > 0)
    &&& a.version == (args::count(ts, "--version"@) > 0)
    &&& args::opt_text(a.identity) == args::last_value(ts, "--identity"@)
    &&& a.verbose == (args::count(ts, "--verbose"@) > 0)
    &&& a.json == (args::count(ts, "--json"@) > 0)
    &&& args::number_view(a.once) == args::last_number(ts, "--once"@, 0xffff_ffff_ffff_ffff)
}

/// Reads the command line.
pub fn parse_args(raw: &[String]) -> (r: Result<Args, String>)
    ensures
        match args::scanned(text::views(raw@), rules(), Seq::empty()) {
            Ok(ts) => r matches Ok(a) && args_say(a, ts),
            Err(e) => r matches Err(x) && x@ == e,
        },
{
    match args::scan(raw, &grammar()) {
        Ok(ts) => Ok(
            Args {
                help: args::has(&ts, "--help"),
                version: args::has(&ts, "--version"),
                identity: args::value_of(&ts, "--identity"),
                verbose: args::has(&ts, "--verbose"),
                json: args::has(&ts, "--json"),
                once: args::number_of(&ts, "--once", 0xffff_ffff_ffff_ffff),
            },
        ),
        Err(e) => Err(e),
    }
}

// ---------------------------------------------------------------------------
// Endpoints
// ---------------------------------------------------------------------------

/// The names that are known: the application, its aspects, and what the endpoint
/// is called.
pub open spec fn known_endpoints() -> Seq<(Seq<char>, Seq<char>, Seq<char>)> {
    seq![
        ("nomadnetwork"@, "node"@, "nomadnetwork website"@),
        ("nomadnetwork"@, "conversation"@, "nomadnetwork conversation"@),
        ("nomadnetwork"@, "attachments"@, "nomadnetwork attachments"@),
        ("nomadnetwork"@, "gossip"@, "nomadnetwork gossip"@),
        ("lxmf"@, "delivery"@, "lxmf delivery"@),
        ("lxmf"@, "propagation"@, "lxmf propagation node"@),
        ("rrc"@, "hub"@, "rrc relay chat hub"@),
        ("rnsh"@, ""@, "rnsh shell server"@),
        ("git"@, "repositories"@, "rngit server"@),
        ("rnperf"@, ""@, "rnperf bandwidth test"@),
    ]
}

/// The strings of a table.
pub open spec fn table_view(v: Seq<(&'static str, &'static str, &'static str)>) -> Seq<
    (Seq<char>, Seq<char>, Seq<char>),
> {
    Seq::new(v.len(), |i: int| (v[i].0@, v[i].1@, v[i].2@))
}

fn known_table() -> (r: Vec<(&'static str, &'static str, &'static str)>)
    ensures
        table_view(r@) == known_endpoints(),
{
    let r = vec![
        ("nomadnetwork", "node", "nomadnetwork website"),
        ("nomadnetwork", "conversation", "nomadnetwork conversation"),
        ("nomadnetwork", "attachments", "nomadnetwork attachments"),
        ("nomadnetwork", "gossip", "nomadnetwork gossip"),
        ("lxmf", "delivery", "lxmf delivery"),
        ("lxmf", "propagation", "lxmf propagation node"),
        ("rrc", "hub", "rrc relay chat hub"),
        ("rnsh", "", "rnsh shell server"),
        ("git", "repositories", "rngit server"),
        ("rnperf", "", "rnperf bandwidth test"),
    ];
    assert(table_view(r@) =~= known_endpoints());
    r
}

/// The label of the first name of a table that has a hash.
pub open spec fn label_in(t: Seq<(Seq<char>, Seq<char>, Seq<char>)>, name: Seq<u8>) -> Option<
    Seq<char>,
>
    decreases t.len(),
{
    if t.len() == 0 {
        None
    } else if address::name_digest(t[0].0, t[0].1) == name {
        Some(t[0].2)
    } else {
        label_in(t.skip(1), name)
    }
}

/// What an endpoint is.
#[derive(Debug)]
pub struct EndpointInfo {
    pub label: String,
    /// The address that it can be reached at, where it is announced.
    pub address: Option<String>,
    /// The label comes from what was announced with the name, not from the name.
    pub guessed: bool,
}

/// What an endpoint is, over sequences.
pub struct Endpoint {
    pub label: Seq<char>,
    pub address: Option<Seq<char>>,
    pub guessed: bool,
}

impl View for EndpointInfo {
    type V = Endpoint;

    open spec fn view(&self) -> Endpoint {
        Endpoint {
            label: self.label@,
            address: args::opt_text(self.address),
            guessed: self.guessed,
        }
    }
}

/// The service that a JSON value describes, and the address that it can be reached
/// at.
pub open spec fn described(m: JsonModel) -> Option<(Seq<char>, Option<Seq<char>>)> {
    if json::entry(m, "rngit"@) is Some && json::entry(m, "repos"@) is Some {
        Some(("rngit server"@, None))
    } else {
        match (json::text_entry(m, "h"@), json::entry(m, "p"@)) {
            (Some(host), Some(JsonModel::UInt(port))) => Some(
                ("reachable TCP endpoint"@, Some(host + ":"@ + digits::dec(port as nat))),
            ),
            _ => None,
        }
    }
}

/// The text tells of a presence: at most 32 bytes, `presence` at their start.
pub open spec fn is_beacon(s: Seq<char>) -> bool {
    let t = text::trimmed(s);
    &&& t.len() >= 8
    &&& vstd::utf8::encode_utf8(t).len() <= 32
    &&& text::alike(t.take(8), "presence"@)
}

/// The service that an announced text tells of, where `read` is the JSON value
/// that it is, if it is one.
pub open spec fn told(s: Seq<char>, read: Option<JsonModel>) -> Option<
    (Seq<char>, Option<Seq<char>>),
> {
    if read is Some && described(read->0) is Some {
        described(read->0)
    } else if is_beacon(s) {
        Some(("presence beacon"@, None))
    } else {
        None
    }
}

/// The JSON value that a text is.
pub open spec fn json_in(s: Seq<char>) -> Option<JsonModel> {
    match json::json_read(s) {
        Ok(m) => Some(m),
        Err(_) => None,
    }
}

/// The service that announced data tells of.
pub open spec fn told_by(data: Seq<u8>) -> Option<(Seq<char>, Option<Seq<char>>)> {
    if vstd::utf8::valid_utf8(data) {
        let s = vstd::utf8::decode_utf8(data);
        told(s, json_in(s))
    } else {
        None
    }
}

/// A label and an address over sequences.
pub open spec fn service_view(o: Option<(&'static str, Option<String>)>) -> Option<
    (Seq<char>, Option<Seq<char>>),
> {
    match o {
        Some((l, a)) => Some((l@, args::opt_text(a))),
        None => None,
    }
}

/// The service that a JSON value describes.
pub fn service_in(m: &Json) -> (r: Option<(&'static str, Option<String>)>)
    ensures
        service_view(r) == described(m@),
{
    if m.get("rngit").is_some() && m.get("repos").is_some() {
        return Some(("rngit server", None));
    }
    match (m.get_text("h"), m.get("p")) {
        (Some(host), Some(Json::UInt(port))) => {
            let d = digits::decimal(*port);
            Some(("reachable TCP endpoint", Some(text::cat3(host, ":", d.as_str()))))
        },
        _ => None,
    }
}

fn tells_presence(s: &str) -> (r: bool)
    ensures
        r == is_beacon(s@),
{
    let t = text::trim(s);
    let v = text::chars(t.as_str());
    let n: usize = v.len();
    if n < 8 || text::utf8(t.as_str()).len() > 32 {
        return false;
    }
    let head = text::string(v.as_slice(), 0, 8);
    assert(head@ =~= t@.take(8));
    text::same_ignoring_case(head.as_str(), "presence")
}

/// The service that an announced text tells of, where `read` is the JSON value
/// that it is, if it is one.
pub fn service_told(s: &str, read: &Option<Json>) -> (r: Option<(&'static str, Option<String>)>)
    ensures
        service_view(r) == told(
            s@,
            match read {
                Some(m) => Some(m@),
                None => None,
            },
        ),
{
    if let Some(m) = read {
        let d = service_in(m);
        if d.is_some() {
            return d;
        }
    }
    if tells_presence(s) {
        Some(("presence beacon", None))
    } else {
        None
    }
}

/// The service that announced data tells of, and the address that it can be
/// reached at, where the data holds one.
pub fn endpoint_from_app_data(app_data: &[u8]) -> (r: Option<(&'static str, Option<String>)>)
    ensures
        service_view(r) == told_by(app_data@),
{
    match text::from_utf8(app_data) {
        None => None,
        Some(s) => {
            let read = match json::read(s.as_str()) {
                Ok(m) => Some(m),
                Err(_) => None,
            };
            service_told(s.as_str(), &read)
        },
    }
}

/// What an endpoint is, by the hash of its name and what is announced with it.
pub open spec fn endpoint(name: Seq<u8>, data: Seq<u8>) -> Endpoint {
    match label_in(known_endpoints(), name) {
        Some(l) => Endpoint { label: l, address: None, guessed: false },
        None => match told_by(data) {
            Some((l, a)) => Endpoint { label: l, address: a, guessed: true },
            None => Endpoint {
                label: "unknown endpoint ("@ + digits::hex_text(name) + ")"@,
                address: None,
                guessed: false,
            },
        },
    }
}

/// What an endpoint is, by the hash of its name and what is announced with it.
pub fn endpoint_type(name_hash: &[u8], app_data: &[u8]) -> (r: EndpointInfo)
    ensures
        r@ == endpoint(name_hash@, app_data@),
{
    let t = known_table();
    let ghost all = known_endpoints();
    let mut i: usize = 0;
    assert(all.skip(0) =~= all);
    while i < t.len()
        invariant
            i <= t@.len(),
            all == known_endpoints(),
            table_view(t@) == all,
            label_in(all.skip(i as int), name_hash@) == label_in(all, name_hash@),
        decreases t@.len() - i,
    {
        assert(all.skip(i as int)[0] == all[i as int]);
        assert(all[i as int] == (t@[i as int].0@, t@[i as int].1@, t@[i as int].2@));
        let h = address::name_hash(t[i].0, t[i].1);
        if bytes::same(h.as_slice(), name_hash) {
            return EndpointInfo { label: t[i].2.to_owned(), address: None, guessed: false };
        }
        assert(all.skip(i as int).skip(1) =~= all.skip(i + 1));
        i = i + 1;
    }
    assert(all.len() == t@.len());
    match endpoint_from_app_data(app_data) {
        Some((l, a)) => EndpointInfo { label: l.to_owned(), address: a, guessed: true },
        None => {
            let h = digits::hex_encode(name_hash);
            EndpointInfo {
                label: text::cat3("unknown endpoint (", h.as_str(), ")"),
                address: None,
                guessed: false,
            }
        },
    }
}

/// An announcement under a known name gets the label of the name, whatever is
/// announced with it.
pub proof fn law_known_names_are_no_guesses(name: Seq<u8>, data: Seq<u8>, other: Seq<u8>)
    ensures
        label_in(known_endpoints(), name) is Some ==> endpoint(name, data) == endpoint(name, other)
            && !endpoint(name, data).guessed && endpoint(name, data).address is None,
{
}

/// What is guessed comes from the data alone: two unknown names that are
/// announced with the same telling data get the same label and address.
pub proof fn law_guesses_come_from_the_data(name: Seq<u8>, other: Seq<u8>, data: Seq<u8>)
    ensures
        endpoint(name, data).guessed && endpoint(other, data).guessed ==> endpoint(name, data)
            == endpoint(other, data),
        endpoint(name, data).guessed ==> label_in(known_endpoints(), name) is None && told_by(data)
            is Some,
{
}

// ---------------------------------------------------------------------------
// Rendering
// ---------------------------------------------------------------------------

/// Announced data as it is shown: as text where it is valid UTF-8, otherwise in
/// hexadecimal digits.
pub open spec fn data_text(data: Seq<u8>) -> Seq<char> {
    if vstd::utf8::valid_utf8(data) {
        vstd::utf8::decode_utf8(data)
    } else {
        digits::hex_text(data)
    }
}

/// Announced data as it is shown.
pub fn app_data_str(app_data: &[u8]) -> (r: String)
    ensures
        r@ == data_text(app_data@),
{
    match text::from_utf8(app_data) {
        Some(s) => s,
        None => digits::hex_encode(app_data),
    }
}

/// What was heard of an announcement.
#[derive(Debug)]
pub struct Announce {
    /// The address that is announced.
    pub destination: Vec<u8>,
    /// The hash of the name that is announced.
    pub name_hash: Vec<u8>,
    /// The hash of the identity that announces it.
    pub identity: Vec<u8>,
    pub hops: u8,
    pub app_data: Vec<u8>,
    /// The signal to noise ratio: its bits, and how it is written.
    pub snr: Option<(u32, String)>,
    pub rssi: Option<i16>,
}

/// What is added to what was guessed.
pub open spec fn suffix(e: Endpoint) -> Seq<char> {
    if e.guessed {
        " (guessed from app data)"@
    } else {
        ""@
    }
}

/// The lines that show an announcement at a time.
pub open spec fn shown(a: Announce, time: Seq<char>, verbose: bool) -> Seq<Seq<char>> {
    let e = endpoint(a.name_hash@, a.app_data@);
    let data = data_text(a.app_data@);
    let head = seq![
        "── "@ + time + " ──"@,
        "  Destination : "@ + digits::hex_text(a.destination@),
        "  Endpoint    : "@ + e.label + suffix(e),
    ];
    let at = match e.address {
        Some(x) => seq!["  Endpoint    : "@ + x + suffix(e)],
        None => Seq::empty(),
    };
    let middle = seq![
        "  Identity    : "@ + digits::hex_text(a.identity@),
        "  Hops        : "@ + digits::dec(a.hops as nat),
    ];
    let told = if data.len() > 0 {
        seq!["  App data    : "@ + data]
    } else {
        Seq::empty()
    };
    let snr = match a.snr {
        Some((_, t)) if verbose => seq!["  SNR         : "@ + t@ + " dB"@],
        _ => Seq::empty(),
    };
    let rssi = match a.rssi {
        Some(n) if verbose => seq!["  RSSI        : "@ + digits::signed_dec(n as int) + " dBm"@],
        _ => Seq::empty(),
    };
    (head + at + middle + told + snr + rssi).push(""@)
}

fn suffix_of(e: &EndpointInfo) -> (r: &'static str)
    ensures
        r@ == suffix(e@),
{
    if e.guessed {
        " (guessed from app data)"
    } else {
        ""
    }
}

fn add_line(out: &mut Vec<String>, line: String)
    ensures
        text::views(final(out)@) == text::views(old(out)@).push(line@),
{
    let ghost o = text::views(out@);
    out.push(line);
    assert(text::views(out@) =~= o.push(line@));
}

/// The lines that show an announcement at a time.
pub fn render(a: &Announce, time: &str, verbose: bool) -> (r: Vec<String>)
    ensures
        text::views(r@) == shown(*a, time@, verbose),
{
    let e = endpoint_type(a.name_hash.as_slice(), a.app_data.as_slice());
    let data = app_data_str(a.app_data.as_slice());
    let s = suffix_of(&e);
    let mut out: Vec<String> = Vec::new();
    assert(text::views(out@) =~= Seq::empty());
    add_line(&mut out, text::cat3("── ", time, " ──"));
    let d = digits::hex_encode(a.destination.as_slice());
    add_line(&mut out, text::cat("  Destination : ", d.as_str()));
    add_line(&mut out, text::cat3("  Endpoint    : ", e.label.as_str(), s));
    if let Some(x) = &e.address {
        add_line(&mut out, text::cat3("  Endpoint    : ", x.as_str(), s));
    }
    let i = digits::hex_encode(a.identity.as_slice());
    add_line(&mut out, text::cat("  Identity    : ", i.as_str()));
    let h = digits::decimal(a.hops as u64);
    add_line(&mut out, text::cat("  Hops        : ", h.as_str()));
    if data.as_str().unicode_len() > 0 {
        add_line(&mut out, text::cat("  App data    : ", data.as_str()));
    }
    if verbose {
        if let Some((_, t)) = &a.snr {
            add_line(&mut out, text::cat3("  SNR         : ", t.as_str(), " dB"));
        }
        if let Some(n) = a.rssi {
            let t = digits::signed_decimal(n as i64);
            add_line(&mut out, text::cat3("  RSSI        : ", t.as_str(), " dBm"));
        }
    }
    add_line(&mut out, String::new());
    proof {
        reveal_strlit("");
        assert(text::views(out@).last() =~= ""@);
    }
    assert(text::views(out@) =~= shown(*a, time@, verbose));
    out
}

/// An announcement at a time, as a JSON object.
pub open spec fn shown_json(a: Announce, time: Seq<char>, verbose: bool) -> JsonModel {
    let e = endpoint(a.name_hash@, a.app_data@);
    let data = data_text(a.app_data@);
    let head = seq![
        ("time"@, JsonModel::Text(time)),
        ("destination"@, JsonModel::Text(digits::hex_text(a.destination@))),
        ("endpoint"@, JsonModel::Text(e.label + suffix(e))),
        ("identity"@, JsonModel::Text(digits::hex_text(a.identity@))),
        ("hops"@, JsonModel::UInt(a.hops as u64)),
    ];
    let at = match e.address {
        Some(x) => seq![("endpoint_address"@, JsonModel::Text(x + suffix(e)))],
        None => Seq::empty(),
    };
    let told = if data.len() > 0 {
        seq![("app_data"@, JsonModel::Text(data))]
    } else {
        Seq::empty()
    };
    let snr = match a.snr {
        Some((b, _)) if verbose => seq![("snr"@, JsonModel::Float(Msg::Single(b)))],
        _ => Seq::empty(),
    };
    let rssi = match a.rssi {
        Some(n) if verbose => seq![
            (
                "rssi"@,
                if n >= 0 {
                    JsonModel::UInt(n as u64)
                } else {
                    JsonModel::NegInt(n as i64)
                },
            ),
        ],
        _ => Seq::empty(),
    };
    JsonModel::Object(head + at + told + snr + rssi)
}

/// An announcement at a time, as a JSON object.
pub fn render_json(a: &Announce, time: &str, verbose: bool) -> (r: Json)
    ensures
        r@ == shown_json(*a, time@, verbose),
{
    let e = endpoint_type(a.name_hash.as_slice(), a.app_data.as_slice());
    let data = app_data_str(a.app_data.as_slice());
    let s = suffix_of(&e);
    let mut o = json::empty();
    json::put(&mut o, "time", json::string(time));
    json::put(&mut o, "destination", Json::Text(digits::hex_encode(a.destination.as_slice())));
    json::put(&mut o, "endpoint", Json::Text(text::cat(e.label.as_str(), s)));
    json::put(&mut o, "identity", Json::Text(digits::hex_encode(a.identity.as_slice())));
    json::put(&mut o, "hops", Json::UInt(a.hops as u64));
    if let Some(x) = &e.address {
        json::put(&mut o, "endpoint_address", Json::Text(text::cat(x.as_str(), s)));
    }
    if data.as_str().unicode_len() > 0 {
        json::put(&mut o, "app_data", Json::Text(data));
    }
    if verbose {
        if let Some((b, _)) = &a.snr {
            json::put(&mut o, "snr", Json::Float(MsgValue::Single(*b)));
        }
        if let Some(n) = a.rssi {
            let v = if n >= 0 {
                Json::UInt(n as u64)
            } else {
                Json::NegInt(n as i64)
            };
            json::put(&mut o, "rssi", v);
        }
    }
    assert(json::entry_models(o@) =~= shown_json(*a, time@, verbose)->Object_0);
    json::object(o)
}

/// The tool has heard enough: `count` announcements, where it is to end after
/// some.
pub fn heard_enough(once: Option<u64>, count: u64) -> (r: bool)
    ensures
        r == (once matches Some(n) && count >= n),
{
    match once {
        Some(n) => count >= n,
        None => false,
    }
}

} // verus!
