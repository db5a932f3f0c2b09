//! The throughput test: its command line, its messages, and its course on either
//! side.

use vstd::prelude::*;

use crate::args;
use crate::args::{Grammar, Item, Kind, OptRule, Rules};
use crate::digits;
use crate::fields;
use crate::identity_store;
use crate::keys;
use crate::link;
use crate::link::{Fate, LinkNews, News, Outlook};
use crate::msgpack;
use crate::msgpack::{Msg, MsgValue};
use crate::rpc;
use crate::shell;
use crate::text;

verus! {

pub const APP_NAME: &'static str = "rnperf";

pub const PROTOCOL_VERSION: u8 = 1;

pub const MSG_TYPE_VERSION: u16 = 0xAC01;

pub const MSG_TYPE_TEST_CONFIG: u16 = 0xAC02;

pub const MSG_TYPE_DATA: u16 = 0xAC03;

pub const MSG_TYPE_RESULT: u16 = 0xAC04;

pub const MSG_TYPE_ERROR: u16 = 0xAC05;

/// After how many packets the sender looks at the clock.
pub const BURST_SIZE: u64 = 100;

// ---------------------------------------------------------------------------
// Command line
// ---------------------------------------------------------------------------

/// What the command line asks for.
#[derive(Debug)]
pub struct Args {
    pub help: bool,
    pub version: bool,
    pub listen: bool,
    pub duration: Option<String>,
    pub packet_size: Option<u64>,
    pub verbose: usize,
    pub dest: Option<String>,
    pub remote_identity: Option<String>,
    pub announce_interval: Option<u64>,
    pub rate: Option<String>,
}

/// The options.
pub open spec fn rules() -> Rules {
    Rules {
        opts: seq![
            args::rule("-h"@, "--help"@, Kind::Stop),
            args::rule("--version"@, "--version"@, Kind::Stop),
            args::rule("-l"@, "--listen"@, Kind::Flag),
            OptRule {
                short: "-d"@,
                long: "--duration"@,
                kind: Kind::Decimal,
                bad: "bad duration"@,
            },
            OptRule {
                short: "-s"@,
                long: "--size"@,
                kind: Kind::Number(u64::MAX),
                bad: "bad packet size"@,
            },
            OptRule {
                short: "-b"@,
                long: "--announce"@,
                kind: Kind::Number(u64::MAX),
                bad: "bad announce interval"@,
            },
            args::rule("-R"@, "--remote-identity"@, Kind::Text),
            OptRule { short: "-r"@, long: "--rate"@, kind: Kind::Decimal, bad: "bad rate"@ },
            args::rule("-v"@, "--verbose"@, Kind::Flag),
        ],
        missing: (""@, " needs a value"@),
        unknown: "unrecognized: "@,
        extra: Some("unexpected: "@),
    }
}

fn grammar() -> (r: Grammar)
    ensures
        r@ == rules(),
{
    let g = Grammar {
        opts: vec![
            args::opt("-h", "--help", Kind::Stop, ""),
            args::opt("--version", "--version", Kind::Stop, ""),
            args::opt("-l", "--listen", Kind::Flag, ""),
            args::opt("-d", "--duration", Kind::Decimal, "bad duration"),
            args::opt("-s", "--size", Kind::Number(u64::MAX), "bad packet size"),
            args::opt("-b", "--announce", Kind::Number(u64::MAX), "bad announce interval"),
            args::opt("-R", "--remote-identity", Kind::Text, ""),
            args::opt("-r", "--rate", Kind::Decimal, "bad rate"),
            args::opt("-v", "--verbose", Kind::Flag, ""),
        ],
        missing: ("", " needs a value"),
        unknown: "unrecognized: ",
        extra: Some("unexpected: "),
    };
    assert(g@.opts =~= rules().opts);
    g
}

/// The command line says what the tokens say.
pub open spec fn args_say(a: Args, ts: Seq<Item>) -> bool {
    &&& a.help == (args::count(ts, "--help"@) > 0)
    &&& a.version == (args::count(ts, "--version"@) > 0)
    &&& a.listen == (args::count(ts, "--listen"@) > 0)
    &&& args::opt_text(a.duration) == args::last_value(ts, "--duration"@)
    &&& args::number_view(a.packet_size) == args::last_number(ts, "--size"@, u64::MAX as nat)
    &&& a.verbose == args::count(ts, "--verbose"@)
    &&& args::opt_text(a.dest) == args::last_word(ts)
    &&& args::opt_text(a.remote_identity) == args::last_value(ts, "--remote-identity"@)
    &&& args::number_view(a.announce_interval) == args::last_number(
        ts,
        "--announce"@,
        u64::MAX as nat,
    )
    &&& args::opt_text(a.rate) == args::last_value(ts, "--rate"@)
}

/// Reads the command line.
pub fn parse_args(raw: &[String]) -> (r: Result<Args, String>)
    ensures
        match args::scanned(text::views(raw@), rules(), Seq::empty()) {
            Ok(ts) => r matches Ok(a) && args_say(a, ts),
            Err(e) => r matches Err(x) && x@ == e,
        },
{
    let ts = match args::scan(raw, &grammar()) {
        Ok(ts) => ts,
        Err(e) => {
            return Err(e);
        },
    };
    Ok(
        Args {
            help: args::has(&ts, "--help"),
            version: args::has(&ts, "--version"),
            listen: args::has(&ts, "--listen"),
            duration: args::value_of(&ts, "--duration"),
            packet_size: args::number_of(&ts, "--size", u64::MAX),
            verbose: args::count_of(&ts, "--verbose"),
            dest: args::word_of(&ts),
            remote_identity: args::value_of(&ts, "--remote-identity"),
            announce_interval: args::number_of(&ts, "--announce", u64::MAX),
            rate: args::value_of(&ts, "--rate"),
        },
    )
}

// ---------------------------------------------------------------------------
// Messages
// ---------------------------------------------------------------------------

/// Packs the version of the software and of the protocol.
pub fn pack_version(software: &str) -> (r: Vec<u8>)
    ensures
        r@ == msgpack::msgpack(shell::version_msg(software@, PROTOCOL_VERSION)),
{
    shell::pack_ver(software, PROTOCOL_VERSION)
}

/// What a version message of at least two items says.
pub open spec fn version_in(m: Msg) -> Result<(Seq<char>, u8), Seq<char>> {
    match m {
        Msg::Array(a) => Ok(
            (
                match a[0] {
                    Msg::Text(s) => s,
                    _ => "?"@,
                },
                match msgpack::u64_of(a[1]) {
                    Some(n) => n as u8,
                    None => 0,
                },
            ),
        ),
        _ => Err("version not array"@),
    }
}

/// Unpacks a version message. `None` where it is an array of fewer than two
/// items.
pub fn unpack_version(raw: &[u8]) -> (r: Option<Result<(String, u8), String>>)
    ensures
        match msgpack::msgpack_read(raw@) {
            Err(e) => r matches Some(Err(x)) && x@ == e,
            Ok(m) => if shell::long_enough(m, 2) {
                match version_in(m) {
                    Ok((s, p)) => r matches Some(Ok((x, y))) && x@ == s && y == p,
                    Err(e) => r matches Some(Err(x)) && x@ == e,
                }
            } else {
                r is None
            },
        },
        forall|s: Seq<char>, p: u8|
            raw@ == #[trigger] msgpack::msgpack(shell::version_msg(s, p)) && msgpack::plain(
                shell::version_msg(s, p),
                8,
            ) ==> (r matches Some(Ok((x, y))) && x@ == s && y == p),
{
    let d = msgpack::decode(raw);
    proof {
        assert forall|s: Seq<char>, p: u8|
            raw@ == #[trigger] msgpack::msgpack(shell::version_msg(s, p)) && msgpack::plain(
                shell::version_msg(s, p),
                8,
            ) implies d is Ok && version_in((d->Ok_0)@) == Ok::<_, Seq<char>>((s, p))
            && shell::long_enough((d->Ok_0)@, 2) by {
            assert((d->Ok_0)@ == shell::version_msg(s, p));
            assert(msgpack::u64_of(Msg::Integer(p as int)) == Some(p as u64));
            assert((p as u64) as u8 == p) by (bit_vector);
        }
    }
    match d {
        Err(e) => Some(Err(e)),
        Ok(v) => match v.as_array() {
            None => Some(Err("version not array".to_owned())),
            Some(a) => {
                assert(v@ == Msg::Array(msgpack::models(a@)));
                if a.len() < 2 {
                    return None;
                }
                let s = match a[0].as_str() {
                    Some(s) => s.to_owned(),
                    None => "?".to_owned(),
                };
                let p: u8 = match a[1].as_u64() {
                    Some(n) => n as u8,
                    None => 0,
                };
                Some(Ok((s, p)))
            },
        },
    }
}

/// The message that sets up a test: for how long, and with how large packets. The
/// duration is the bits of a number of double precision.
pub open spec fn config_msg(duration: u64, packet_size: u64) -> Msg {
    Msg::Pairs(
        seq![
            (Msg::Text("duration"@), Msg::Double(duration)),
            (Msg::Text("packet_size"@), Msg::Integer((packet_size as i64) as int)),
        ],
    )
}

/// Packs the setup of a test.
pub fn pack_test_config(duration: u64, packet_size: u64) -> (r: Vec<u8>)
    requires
        !msgpack::is_nan(duration),
    ensures
        r@ == msgpack::msgpack(config_msg(duration, packet_size)),
{
    let mut m: Vec<(MsgValue, MsgValue)> = Vec::new();
    m.push((msgpack::string("duration"), MsgValue::Double(duration)));
    m.push((msgpack::string("packet_size"), msgpack::integer(packet_size as i64)));
    let v = msgpack::map(m);
    proof {
        assert(v@->Pairs_0 =~= config_msg(duration, packet_size)->Pairs_0);
        reveal_with_fuel(msgpack::encodable, 2);
    }
    msgpack::encode(&v)
}

/// What the setup of a test says: for how long, as far as it says so, and with how
/// large packets.
pub open spec fn config_in(m: Msg) -> Result<(Option<Msg>, u64), Seq<char>> {
    match m {
        Msg::Pairs(p) => Ok(
            (fields::number_field(p, "duration"@), fields::u64_field_or(p, "packet_size"@, 0)),
        ),
        _ => Err("test_config not map"@),
    }
}

/// What a decoded setup of a test says.
pub fn config_from(v: &MsgValue) -> (r: Result<(Option<MsgValue>, u64), String>)
    ensures
        match r {
            Ok((d, n)) => config_in(v@) == Ok::<_, Seq<char>>((fields::value_view(d), n)),
            Err(e) => config_in(v@) == Err::<(Option<Msg>, u64), _>(e@),
        },
{
    match v.as_map() {
        Some(m) => Ok(
            (fields::map_get_number(m, "duration"), fields::get_u64_or(m, "packet_size", 0)),
        ),
        None => Err("test_config not map".to_owned()),
    }
}

/// Unpacks the setup of a test.
pub fn unpack_test_config(raw: &[u8]) -> (r: Result<(Option<MsgValue>, u64), String>)
    ensures
        match msgpack::msgpack_read(raw@) {
            Err(e) => r matches Err(x) && x@ == e,
            Ok(m) => match config_in(m) {
                Ok((d, n)) => r matches Ok((x, y)) && fields::value_view(x) == d && y == n,
                Err(e) => r matches Err(x) && x@ == e,
            },
        },
{
    match msgpack::decode(raw) {
        Err(e) => Err(e),
        Ok(v) => config_from(&v),
    }
}

/// The setup of a test is read as it was written.
pub proof fn law_config_round_trip(duration: u64, packet_size: u64)
    requires
        packet_size <= i64::MAX,
    ensures
        config_in(config_msg(duration, packet_size)) == Ok::<_, Seq<char>>(
            (Some(Msg::Double(duration)), packet_size),
        ),
{
    let p = config_msg(duration, packet_size)->Pairs_0;
    reveal_strlit("duration");
    reveal_strlit("packet_size");
    assert("duration"@.len() != "packet_size"@.len());
    reveal_with_fuel(fields::sought, 3);
    assert(p.skip(1)[0] == p[1]);
    assert(p[1].1 == Msg::Integer(packet_size as int));
}

/// The message that tells the result of a test.
pub open spec fn result_msg(bytes: u64, packets: u64, duration_ns: u64) -> Msg {
    Msg::Pairs(
        seq![
            (Msg::Text("bytes_received"@), Msg::Integer((bytes as i64) as int)),
            (Msg::Text("packets_received"@), Msg::Integer((packets as i64) as int)),
            (Msg::Text("duration_ns"@), Msg::Integer((duration_ns as i64) as int)),
        ],
    )
}

/// Packs the result of a test.
pub fn pack_result(bytes: u64, packets: u64, duration_ns: u64) -> (r: Vec<u8>)
    ensures
        r@ == msgpack::msgpack(result_msg(bytes, packets, duration_ns)),
{
    let mut m: Vec<(MsgValue, MsgValue)> = Vec::new();
    m.push((msgpack::string("bytes_received"), msgpack::integer(bytes as i64)));
    m.push((msgpack::string("packets_received"), msgpack::integer(packets as i64)));
    m.push((msgpack::string("duration_ns"), msgpack::integer(duration_ns as i64)));
    let v = msgpack::map(m);
    proof {
        assert(v@->Pairs_0 =~= result_msg(bytes, packets, duration_ns)->Pairs_0);
        reveal_with_fuel(msgpack::encodable, 2);
    }
    msgpack::encode(&v)
}

/// What the result of a test says: bytes, packets, and nanoseconds.
pub open spec fn result_in(m: Msg) -> Result<(u64, u64, u64), Seq<char>> {
    match m {
        Msg::Pairs(p) => Ok(
            (
                fields::u64_field_or(p, "bytes_received"@, 0),
                fields::u64_field_or(p, "packets_received"@, 0),
                fields::u64_field_or(p, "duration_ns"@, 0),
            ),
        ),
        _ => Err("result not map"@),
    }
}

/// What a decoded result of a test says.
pub fn result_from(v: &MsgValue) -> (r: Result<(u64, u64, u64), String>)
    ensures
        match r {
            Ok(t) => result_in(v@) == Ok::<_, Seq<char>>(t),
            Err(e) => result_in(v@) == Err::<(u64, u64, u64), _>(e@),
        },
{
    match v.as_map() {
        Some(m) => Ok(
            (
                fields::get_u64_or(m, "bytes_received", 0),
                fields::get_u64_or(m, "packets_received", 0),
                fields::get_u64_or(m, "duration_ns", 0),
            ),
        ),
        None => Err("result not map".to_owned()),
    }
}

/// The result of a test is read as it was written.
pub proof fn law_result_round_trip(bytes: u64, packets: u64, duration_ns: u64)
    requires
        bytes <= i64::MAX,
        packets <= i64::MAX,
        duration_ns <= i64::MAX,
    ensures
        result_in(result_msg(bytes, packets, duration_ns)) == Ok::<_, Seq<char>>(
            (bytes, packets, duration_ns),
        ),
{
    let p = result_msg(bytes, packets, duration_ns)->Pairs_0;
    reveal_strlit("bytes_received");
    reveal_strlit("packets_received");
    reveal_strlit("duration_ns");
    assert("bytes_received"@.len() != "packets_received"@.len());
    assert("bytes_received"@.len() != "duration_ns"@.len());
    assert("packets_received"@.len() != "duration_ns"@.len());
    reveal_with_fuel(fields::sought, 4);
    assert(p.skip(1)[0] == p[1]);
    assert(p.skip(1).skip(1)[0] == p[2]);
}

/// Unpacks the result of a test.
pub fn unpack_result(raw: &[u8]) -> (r: Result<(u64, u64, u64), String>)
    ensures
        match msgpack::msgpack_read(raw@) {
            Err(e) => r matches Err(x) && x@ == e,
            Ok(m) => match result_in(m) {
                Ok(t) => r matches Ok(u) && u == t,
                Err(e) => r matches Err(x) && x@ == e,
            },
        },
        forall|b: u64, p: u64, n: u64|
            raw@ == #[trigger] msgpack::msgpack(result_msg(b, p, n)) && b <= i64::MAX && p
                <= i64::MAX && n <= i64::MAX ==> (r matches Ok(t) && t == (b, p, n)),
{
    let d = msgpack::decode(raw);
    proof {
        assert forall|b: u64, p: u64, n: u64|
            raw@ == #[trigger] msgpack::msgpack(result_msg(b, p, n)) && b <= i64::MAX && p
                <= i64::MAX && n <= i64::MAX implies d is Ok && result_in((d->Ok_0)@) == Ok::<
            _,
            Seq<char>,
        >((b, p, n)) by {
            law_result_round_trip(b, p, n);
            lemma_result_is_plain(b, p, n);
        }
    }
    match d {
        Err(e) => Err(e),
        Ok(v) => result_from(&v),
    }
}

proof fn lemma_result_is_plain(b: u64, p: u64, n: u64)
    ensures
        msgpack::plain(result_msg(b, p, n), 8),
{
    let m = result_msg(b, p, n);
    reveal_with_fuel(msgpack::plain, 3);
    reveal_strlit("bytes_received");
    reveal_strlit("packets_received");
    reveal_strlit("duration_ns");
    text::lemma_utf8_length("bytes_received"@);
    text::lemma_utf8_length("packets_received"@);
    text::lemma_utf8_length("duration_ns"@);
}

/// The message that asks for the result of a test.
pub open spec fn result_request_msg() -> Msg {
    Msg::Pairs(seq![(Msg::Text("request"@), Msg::Boolean(true))])
}

/// Packs the request for the result of a test.
pub fn pack_result_request() -> (r: Vec<u8>)
    ensures
        r@ == msgpack::msgpack(result_request_msg()),
{
    let mut m: Vec<(MsgValue, MsgValue)> = Vec::new();
    m.push((msgpack::string("request"), msgpack::boolean(true)));
    let v = msgpack::map(m);
    proof {
        assert(v@->Pairs_0 =~= result_request_msg()->Pairs_0);
        reveal_with_fuel(msgpack::encodable, 2);
    }
    msgpack::encode(&v)
}

/// The message that reports an error.
pub open spec fn error_msg(message: Seq<char>) -> Msg {
    Msg::Array(seq![Msg::Text(message), Msg::Boolean(false)])
}

/// Packs the report of an error.
pub fn pack_err(msg: &str) -> (r: Vec<u8>)
    ensures
        r@ == msgpack::msgpack(error_msg(msg@)),
{
    let mut a: Vec<MsgValue> = Vec::new();
    a.push(msgpack::string(msg));
    a.push(msgpack::boolean(false));
    let v = msgpack::array(a);
    proof {
        assert(v@->Array_0 =~= error_msg(msg@)->Array_0);
        reveal_with_fuel(msgpack::encodable, 2);
    }
    msgpack::encode(&v)
}

// ---------------------------------------------------------------------------
// The listener: setting up
// ---------------------------------------------------------------------------

/// How far a listener has come with setting up a test.
pub struct Setup {
    got_ver: bool,
    got_config: bool,
    duration: Option<MsgValue>,
    packet_size: usize,
    mdu: usize,
}

/// How far a listener has come, over sequences.
pub struct SetupModel {
    pub got_ver: bool,
    pub got_config: bool,
    pub duration: Option<Msg>,
    pub packet_size: nat,
    pub mdu: nat,
}

impl View for Setup {
    type V = SetupModel;

    closed spec fn view(&self) -> SetupModel {
        SetupModel {
            got_ver: self.got_ver,
            got_config: self.got_config,
            duration: fields::value_view(self.duration),
            packet_size: self.packet_size as nat,
            mdu: self.mdu as nat,
        }
    }
}

/// Both parts have come.
pub open spec fn settled(s: SetupModel) -> Outlook {
    if s.got_ver && s.got_config {
        Outlook::Ready
    } else {
        Outlook::Waiting
    }
}

/// The text for a protocol that does not fit.
pub open spec fn incompatible(pv: u8) -> Seq<char> {
    "incompatible protocol "@ + digits::dec(pv as nat)
}

/// What an event does to the setting up: how far it has come then, what is sent,
/// and how it goes on. A packet size counts where it is above zero and below what
/// the link can carry.
pub open spec fn set_up(s: SetupModel, news: News, software: Seq<char>) -> (
    SetupModel,
    Option<(u16, Seq<u8>)>,
    Outlook,
) {
    match news {
        News::Message(t, payload) => {
            let m = msgpack::msgpack_read(payload);
            if t == MSG_TYPE_VERSION {
                match m {
                    Err(e) => (s, None, Outlook::Failed(e)),
                    Ok(v) => if !shell::long_enough(v, 2) {
                        (s, None, Outlook::Malformed)
                    } else {
                        match version_in(v) {
                            Err(e) => (s, None, Outlook::Failed(e)),
                            Ok((_, pv)) => if pv != PROTOCOL_VERSION {
                                (
                                    s,
                                    Some(
                                        (
                                            MSG_TYPE_ERROR,
                                            msgpack::msgpack(error_msg(incompatible(pv))),
                                        ),
                                    ),
                                    Outlook::Failed(incompatible(pv)),
                                )
                            } else {
                                let n = SetupModel { got_ver: true, ..s };
                                (
                                    n,
                                    Some(
                                        (
                                            MSG_TYPE_VERSION,
                                            msgpack::msgpack(
                                                shell::version_msg(software, PROTOCOL_VERSION),
                                            ),
                                        ),
                                    ),
                                    settled(n),
                                )
                            },
                        }
                    },
                }
            } else if t == MSG_TYPE_TEST_CONFIG {
                match m {
                    Err(e) => (s, None, Outlook::Failed(e)),
                    Ok(v) => match config_in(v) {
                        Err(e) => (s, None, Outlook::Failed(e)),
                        Ok((d, size)) => {
                            let n = SetupModel {
                                got_config: true,
                                duration: d,
                                packet_size: if 0 < size < s.mdu {
                                    size as nat
                                } else {
                                    s.packet_size
                                },
                                ..s
                            };
                            (n, None, settled(n))
                        },
                    },
                }
            } else if t == MSG_TYPE_ERROR {
                (s, None, Outlook::Failed("remote error: "@ + link::latin(payload)))
            } else {
                (s, None, settled(s))
            }
        },
        News::Closed => (s, None, Outlook::Failed("link closed during handshake"@)),
        News::Gone => (s, None, Outlook::Failed("event channel closed"@)),
        _ => (s, None, settled(s)),
    }
}

/// A test begins only once the versions agreed and the setup has come.
pub proof fn law_ready_needs_both(s: SetupModel, news: News, software: Seq<char>)
    ensures
        set_up(s, news, software).2 is Ready ==> set_up(s, news, software).0.got_ver && set_up(
            s,
            news,
            software,
        ).0.got_config,
{
}

/// The packets that a listener expects fit its link, as they do at the beginning.
pub proof fn law_packets_fit(s: SetupModel, news: News, software: Seq<char>)
    requires
        s.packet_size <= s.mdu,
    ensures
        set_up(s, news, software).0.packet_size <= set_up(s, news, software).0.mdu,
        set_up(s, news, software).0.mdu == s.mdu,
{
}

impl Setup {
    /// The beginning, on a link that carries so many bytes in a message.
    pub fn new(mdu: usize) -> (r: Self)
        ensures
            r@ == (SetupModel {
                got_ver: false,
                got_config: false,
                duration: None,
                packet_size: mdu as nat,
                mdu: mdu as nat,
            }),
    {
        Setup { got_ver: false, got_config: false, duration: None, packet_size: mdu, mdu }
    }

    fn settle(&self) -> (r: Fate)
        ensures
            r@ == settled(self@),
    {
        if self.got_ver && self.got_config {
            Fate::Ready
        } else {
            Fate::Waiting
        }
    }

    /// Takes an event. What is returned is sent to the peer, then the setting up
    /// goes on as it says.
    pub fn step(&mut self, news: &LinkNews, software: &str) -> (r: (Option<(u16, Vec<u8>)>, Fate))
        ensures
            (final(self)@, link::message_view(r.0), r.1@) == set_up(old(self)@, news@, software@),
    {
        match news {
            LinkNews::Message(t, payload) => {
                if *t == MSG_TYPE_VERSION {
                    match unpack_version(payload.as_slice()) {
                        None => (None, Fate::Malformed),
                        Some(Err(e)) => (None, Fate::Failed(e)),
                        Some(Ok((_, pv))) => {
                            if pv != PROTOCOL_VERSION {
                                let n = digits::decimal(pv as u64);
                                let e = text::cat("incompatible protocol ", n.as_str());
                                (Some((MSG_TYPE_ERROR, pack_err(e.as_str()))), Fate::Failed(e))
                            } else {
                                self.got_ver = true;
                                (Some((MSG_TYPE_VERSION, pack_version(software))), self.settle())
                            }
                        },
                    }
                } else if *t == MSG_TYPE_TEST_CONFIG {
                    match unpack_test_config(payload.as_slice()) {
                        Err(e) => (None, Fate::Failed(e)),
                        Ok((d, size)) => {
                            self.duration = d;
                            if size > 0 && size < self.mdu as u64 {
                                self.packet_size = size as usize;
                            }
                            self.got_config = true;
                            (None, self.settle())
                        },
                    }
                } else if *t == MSG_TYPE_ERROR {
                    let m = link::latin_text(payload.as_slice());
                    (None, Fate::Failed(text::cat("remote error: ", m.as_str())))
                } else {
                    (None, self.settle())
                }
            },
            LinkNews::Closed => (None, Fate::Failed("link closed during handshake".to_owned())),
            LinkNews::Gone => (None, Fate::Failed("event channel closed".to_owned())),
            _ => (None, self.settle()),
        }
    }

    /// The error where time has run out; `None` where both parts have come.
    pub fn timeout(&self) -> (r: Option<String>)
        ensures
            args::opt_text(r) == (if !self@.got_ver {
                Some("version handshake timeout"@)
            } else if !self@.got_config {
                Some("test config timeout"@)
            } else {
                None
            }),
    {
        if !self.got_ver {
            Some("version handshake timeout".to_owned())
        } else if !self.got_config {
            Some("test config timeout".to_owned())
        } else {
            None
        }
    }

    /// How long the test lasts, as far as the peer has said so.
    pub fn duration(&self) -> (r: Option<MsgValue>)
        ensures
            fields::value_view(r) == self@.duration,
    {
        match &self.duration {
            Some(d) => Some(d.copy()),
            None => None,
        }
    }

    /// The size of the packets.
    pub fn packet_size(&self) -> (r: usize)
        ensures
            r as nat == self@.packet_size,
    {
        self.packet_size
    }
}

// ---------------------------------------------------------------------------
// The listener: counting
// ---------------------------------------------------------------------------

/// What a listener has received.
pub struct Counter {
    pub bytes: u64,
    pub packets: u64,
    pub results_sent: bool,
}

/// What a listener does on an event.
#[derive(Debug, Clone, Copy, PartialEq, Eq, Structural)]
pub enum CounterAct {
    /// Nothing.
    Pass,
    /// A packet was counted.
    Counted,
    /// Send the result.
    SendResult,
    /// End the session.
    End,
}

/// The bytes that an event counts for: those of a packet behind its number.
pub open spec fn data_in(news: News) -> Option<nat> {
    match news {
        News::Message(t, payload) => if t == MSG_TYPE_DATA && payload.len() >= 4 {
            Some((payload.len() - 4) as nat)
        } else {
            None
        },
        _ => None,
    }
}

/// The event asks for the result.
pub open spec fn asks_result(news: News) -> bool {
    news matches News::Message(t, _) && t == MSG_TYPE_RESULT
}

/// What has been received after an event, and what is done on it.
pub open spec fn counted(c: Counter, news: News) -> (Counter, CounterAct) {
    if data_in(news) is Some {
        (
            Counter {
                bytes: (c.bytes + data_in(news)->0) as u64,
                packets: (c.packets + 1) as u64,
                ..c
            },
            CounterAct::Counted,
        )
    } else if asks_result(news) {
        (Counter { results_sent: true, ..c }, CounterAct::SendResult)
    } else if news is Closed || news is Gone {
        (c, CounterAct::End)
    } else {
        (c, CounterAct::Pass)
    }
}

impl Counter {
    /// Nothing has been received.
    pub fn new() -> (r: Self)
        ensures
            r == (Counter { bytes: 0, packets: 0, results_sent: false }),
    {
        Counter { bytes: 0, packets: 0, results_sent: false }
    }

    /// Takes an event. The counts must have room for it.
    pub fn step(&mut self, news: &LinkNews) -> (r: CounterAct)
        requires
            data_in(news@) matches Some(n) ==> old(self).bytes + n <= u64::MAX && old(self).packets
                < u64::MAX,
        ensures
            (*final(self), r) == counted(*old(self), news@),
    {
        match news {
            LinkNews::Message(t, payload) => {
                if *t == MSG_TYPE_DATA {
                    if payload.len() >= 4 {
                        let n: u64 = (payload.len() - 4) as u64;
                        self.bytes = self.bytes + n;
                        self.packets = self.packets + 1;
                        return CounterAct::Counted;
                    }
                    CounterAct::Pass
                } else if *t == MSG_TYPE_RESULT {
                    self.results_sent = true;
                    CounterAct::SendResult
                } else {
                    CounterAct::Pass
                }
            },
            LinkNews::Closed => CounterAct::End,
            LinkNews::Gone => CounterAct::End,
            _ => CounterAct::Pass,
        }
    }

    /// Whether the result is sent unasked when the session's time has run out.
    pub fn sends_at_end(&self) -> (r: bool)
        ensures
            r == (!self.results_sent && self.packets > 0),
    {
        !self.results_sent && self.packets > 0
    }

    /// The result.
    pub fn result(&self, duration_ns: u64) -> (r: (u16, Vec<u8>))
        ensures
            r.0 == MSG_TYPE_RESULT,
            r.1@ == msgpack::msgpack(result_msg(self.bytes, self.packets, duration_ns)),
    {
        (MSG_TYPE_RESULT, pack_result(self.bytes, self.packets, duration_ns))
    }
}

// ---------------------------------------------------------------------------
// The initiator
// ---------------------------------------------------------------------------

/// How an initiator that waits for the listener's version goes on.
pub open spec fn version_phase(news: News) -> Outlook {
    match news {
        News::Message(t, payload) => {
            if t == MSG_TYPE_VERSION {
                match msgpack::msgpack_read(payload) {
                    Err(e) => Outlook::Failed(e),
                    Ok(v) => if !shell::long_enough(v, 2) {
                        Outlook::Malformed
                    } else {
                        match version_in(v) {
                            Err(e) => Outlook::Failed(e),
                            Ok((_, pv)) => if pv != PROTOCOL_VERSION {
                                Outlook::Failed(incompatible(pv))
                            } else {
                                Outlook::Ready
                            },
                        }
                    },
                }
            } else if t == MSG_TYPE_ERROR {
                Outlook::Failed("remote: "@ + link::latin(payload))
            } else {
                Outlook::Waiting
            }
        },
        News::Closed => Outlook::Failed("link closed during version handshake"@),
        News::Gone => Outlook::Failed("event channel gone"@),
        _ => Outlook::Waiting,
    }
}

/// How an initiator that waits for the listener's version goes on.
pub fn await_version(news: &LinkNews) -> (r: Fate)
    ensures
        r@ == version_phase(news@),
{
    match news {
        LinkNews::Message(t, payload) => {
            if *t == MSG_TYPE_VERSION {
                match unpack_version(payload.as_slice()) {
                    None => Fate::Malformed,
                    Some(Err(e)) => Fate::Failed(e),
                    Some(Ok((_, pv))) => if pv != PROTOCOL_VERSION {
                        let n = digits::decimal(pv as u64);
                        Fate::Failed(text::cat("incompatible protocol ", n.as_str()))
                    } else {
                        Fate::Ready
                    },
                }
            } else if *t == MSG_TYPE_ERROR {
                let m = link::latin_text(payload.as_slice());
                Fate::Failed(text::cat("remote: ", m.as_str()))
            } else {
                Fate::Waiting
            }
        },
        LinkNews::Closed => Fate::Failed("link closed during version handshake".to_owned()),
        LinkNews::Gone => Fate::Failed("event channel gone".to_owned()),
        _ => Fate::Waiting,
    }
}

/// The most data that fit a packet behind its number.
pub open spec fn room(mdu: nat) -> nat {
    if mdu < 4 {
        0
    } else {
        (mdu - 4) as nat
    }
}

/// How many bytes of data a packet carries: as many as asked for or as fit, and at
/// least one.
pub open spec fn data_size_for(asked: Option<nat>, mdu: nat) -> nat {
    let want = match asked {
        Some(n) => if n < room(mdu) {
            n
        } else {
            room(mdu)
        },
        None => room(mdu),
    };
    if want < 1 {
        1
    } else {
        want
    }
}

/// How many bytes of data a packet carries.
pub fn data_size(asked: Option<u64>, mdu: usize) -> (r: usize)
    ensures
        r as nat == data_size_for(args::number_view(asked), mdu as nat),
        r >= 1,
        mdu >= 5 ==> r + 4 <= mdu,
{
    let cap: usize = if mdu < 4 {
        0
    } else {
        mdu - 4
    };
    let want: usize = match asked {
        Some(n) => if n < cap as u64 {
            n as usize
        } else {
            cap
        },
        None => cap,
    };
    if want < 1 {
        1
    } else {
        want
    }
}

/// What an initiator has sent: the number of the next packet, and the sums.
pub struct Sender {
    pub seq_number: u32,
    pub bytes: u64,
    pub packets: u64,
}

/// A packet: its number, and data that are all zero.
pub open spec fn packet(seq_number: u32, size: nat) -> Seq<u8> {
    rpc::big_endian(seq_number as nat, 4) + Seq::new(size, |i: int| 0u8)
}

impl Sender {
    /// Nothing has been sent.
    pub fn new() -> (r: Self)
        ensures
            r == (Sender { seq_number: 0, bytes: 0, packets: 0 }),
    {
        Sender { seq_number: 0, bytes: 0, packets: 0 }
    }

    /// The next packet, which counts as sent. The sums must have room for it; the
    /// number starts again at zero after the last.
    pub fn next_packet(&mut self, size: usize) -> (r: Vec<u8>)
        requires
            old(self).bytes + size <= u64::MAX,
            old(self).packets < u64::MAX,
        ensures
            r@ == packet(old(self).seq_number, size as nat),
            final(self).bytes == old(self).bytes + size,
            final(self).packets == old(self).packets + 1,
            final(self).seq_number == (if old(self).seq_number == u32::MAX {
                0
            } else {
                (old(self).seq_number + 1) as u32
            }),
    {
        let mut out: Vec<u8> = Vec::new();
        rpc::push_big_endian(&mut out, self.seq_number as u64, 4);
        let ghost head = out@;
        let mut i: usize = 0;
        assert(out@ =~= head + Seq::new(0, |k: int| 0u8));
        while i < size
            invariant
                i <= size,
                out@ =~= head + Seq::new(i as nat, |k: int| 0u8),
            decreases size - i,
        {
            out.push(0);
            i = i + 1;
        }
        self.bytes = self.bytes + size as u64;
        self.packets = self.packets + 1;
        self.seq_number = if self.seq_number == u32::MAX {
            0
        } else {
            self.seq_number + 1
        };
        out
    }

    /// Whether the sender looks at the clock now.
    pub fn at_burst_end(&self) -> (r: bool)
        ensures
            r == (self.packets % BURST_SIZE == 0),
    {
        self.packets % BURST_SIZE == 0
    }
}

/// A packet is counted for the data that were put into it.
pub proof fn law_packets_are_counted(seq_number: u32, size: nat)
    ensures
        data_in(News::Message(MSG_TYPE_DATA, packet(seq_number, size))) == Some(size),
{
    reveal_with_fuel(rpc::power, 5);
    rpc::law_big_endian_round_trip(seq_number as nat, 4);
}

/// What an initiator does on an event while it waits for the result.
#[derive(Debug)]
pub enum ResultAct {
    /// Wait on.
    Wait,
    /// The result: bytes, packets, and nanoseconds.
    Got(u64, u64, u64),
    /// Give up because of an error of the listener.
    Error(String),
    /// Give up.
    End,
}

/// What an initiator does on an event while it waits for the result, over
/// sequences.
pub enum ResultDeed {
    Wait,
    Got(u64, u64, u64),
    Error(Seq<char>),
    End,
}

impl View for ResultAct {
    type V = ResultDeed;

    open spec fn view(&self) -> ResultDeed {
        match self {
            ResultAct::Wait => ResultDeed::Wait,
            ResultAct::Got(b, p, n) => ResultDeed::Got(*b, *p, *n),
            ResultAct::Error(e) => ResultDeed::Error(e@),
            ResultAct::End => ResultDeed::End,
        }
    }
}

/// What an initiator does on an event while it waits for the result.
pub open spec fn result_phase(news: News) -> ResultDeed {
    match news {
        News::Message(t, payload) => {
            if t == MSG_TYPE_RESULT {
                match msgpack::msgpack_read(payload) {
                    Err(_) => ResultDeed::Wait,
                    Ok(m) => match result_in(m) {
                        Ok((b, p, n)) => ResultDeed::Got(b, p, n),
                        Err(_) => ResultDeed::Wait,
                    },
                }
            } else if t == MSG_TYPE_ERROR {
                ResultDeed::Error(link::latin(payload))
            } else {
                ResultDeed::Wait
            }
        },
        News::Closed => ResultDeed::End,
        News::Gone => ResultDeed::End,
        _ => ResultDeed::Wait,
    }
}

/// What an initiator does on an event while it waits for the result. The counts
/// that a listener sends arrive, as far as they fit 63 bits.
pub fn await_result(news: &LinkNews) -> (r: ResultAct)
    ensures
        r@ == result_phase(news@),
        forall|b: u64, p: u64, n: u64|
            news@ == News::Message(
                MSG_TYPE_RESULT,
                #[trigger] msgpack::msgpack(result_msg(b, p, n)),
            ) && b <= i64::MAX && p <= i64::MAX && n <= i64::MAX ==> r@ == ResultDeed::Got(b, p, n),
{
    match news {
        LinkNews::Message(t, payload) => {
            if *t == MSG_TYPE_RESULT {
                match unpack_result(payload.as_slice()) {
                    Ok((b, p, n)) => ResultAct::Got(b, p, n),
                    Err(_) => ResultAct::Wait,
                }
            } else if *t == MSG_TYPE_ERROR {
                ResultAct::Error(link::latin_text(payload.as_slice()))
            } else {
                ResultAct::Wait
            }
        },
        LinkNews::Closed => ResultAct::End,
        LinkNews::Gone => ResultAct::End,
        _ => ResultAct::Wait,
    }
}

/// How far an initiator has come: it waits for its link, then for the version of
/// the listener, and after the test for the result.
#[derive(Debug, Clone, Copy, PartialEq, Eq, Structural)]
pub enum Stage {
    Opening,
    Agreeing,
    Awaiting,
}

/// An initiator.
pub struct Initiator {
    pub stage: Stage,
}

/// What an initiator does next.
#[derive(Debug)]
pub enum InitiatorStep {
    /// Wait for the next event.
    Wait,
    /// Send a message.
    Greet(u16, Vec<u8>),
    /// Send the settings and the data, and then ask for the result.
    StartTest,
    /// End with the result: bytes, packets, and nanoseconds.
    Report(u64, u64, u64),
    /// End without a result, because of an error of the listener where there is
    /// one.
    NoReport(Option<String>),
    /// End with an error.
    Fail(String),
    /// End: the peer sent a message that is too short to be read.
    Malformed,
}

/// What an initiator does next, over sequences.
pub enum Course {
    Wait,
    Greet(u16, Seq<u8>),
    StartTest,
    Report(u64, u64, u64),
    NoReport(Option<Seq<char>>),
    Fail(Seq<char>),
    Malformed,
}

impl View for InitiatorStep {
    type V = Course;

    open spec fn view(&self) -> Course {
        match self {
            InitiatorStep::Wait => Course::Wait,
            InitiatorStep::Greet(t, p) => Course::Greet(*t, p@),
            InitiatorStep::StartTest => Course::StartTest,
            InitiatorStep::Report(b, p, n) => Course::Report(*b, *p, *n),
            InitiatorStep::NoReport(e) => Course::NoReport(args::opt_text(*e)),
            InitiatorStep::Fail(e) => Course::Fail(e@),
            InitiatorStep::Malformed => Course::Malformed,
        }
    }
}

/// What an initiator does on an event, and how far it has then come. `expired`
/// says that the time for its stage has run out.
pub open spec fn initiated(stage: Stage, expired: bool, news: News, software: Seq<char>) -> (
    Stage,
    Course,
) {
    match stage {
        Stage::Opening => if expired {
            (stage, Course::Fail("link activation timed out"@))
        } else {
            match link::activation(news) {
                Outlook::Waiting => (stage, Course::Wait),
                Outlook::Ready => (
                    Stage::Agreeing,
                    Course::Greet(
                        MSG_TYPE_VERSION,
                        msgpack::msgpack(shell::version_msg(software, PROTOCOL_VERSION)),
                    ),
                ),
                Outlook::Failed(e) => (stage, Course::Fail(e)),
                Outlook::Malformed => (stage, Course::Malformed),
            }
        },
        Stage::Agreeing => if expired {
            (stage, Course::Fail("version handshake failed"@))
        } else {
            match version_phase(news) {
                Outlook::Waiting => (stage, Course::Wait),
                Outlook::Ready => (Stage::Awaiting, Course::StartTest),
                Outlook::Failed(e) => (stage, Course::Fail(e)),
                Outlook::Malformed => (stage, Course::Malformed),
            }
        },
        Stage::Awaiting => if expired {
            (stage, Course::NoReport(None))
        } else {
            match result_phase(news) {
                ResultDeed::Wait => (stage, Course::Wait),
                ResultDeed::Got(b, p, n) => (stage, Course::Report(b, p, n)),
                ResultDeed::Error(e) => (stage, Course::NoReport(Some(e))),
                ResultDeed::End => (stage, Course::NoReport(None)),
            }
        },
    }
}

/// The test starts only once the listener has told a version that fits in time,
/// and no result is reported before.
pub proof fn law_test_follows_versions(
    stage: Stage,
    expired: bool,
    news: News,
    software: Seq<char>,
)
    ensures
        initiated(stage, expired, news, software).1 is StartTest ==> stage == Stage::Agreeing
            && !expired && news is Message && news->Message_0 == MSG_TYPE_VERSION,
        initiated(stage, expired, news, software).1 is Report ==> stage == Stage::Awaiting,
        initiated(stage, expired, news, software).0 == Stage::Awaiting ==> stage == Stage::Awaiting
            || initiated(stage, expired, news, software).1 is StartTest,
{
}

impl Initiator {
    /// An initiator that has asked for its link.
    pub fn new() -> (r: Self)
        ensures
            r.stage == Stage::Opening,
    {
        Initiator { stage: Stage::Opening }
    }

    /// Takes an event. `expired` says that the time for the stage has run out.
    pub fn step(&mut self, expired: bool, news: &LinkNews, software: &str) -> (r: InitiatorStep)
        ensures
            (final(self).stage, r@) == initiated(old(self).stage, expired, news@, software@),
    {
        match self.stage {
            Stage::Opening => {
                if expired {
                    return InitiatorStep::Fail("link activation timed out".to_owned());
                }
                match link::await_activation(news) {
                    Fate::Waiting => InitiatorStep::Wait,
                    Fate::Ready => {
                        self.stage = Stage::Agreeing;
                        InitiatorStep::Greet(MSG_TYPE_VERSION, pack_version(software))
                    },
                    Fate::Failed(e) => InitiatorStep::Fail(e),
                    Fate::Malformed => InitiatorStep::Malformed,
                }
            },
            Stage::Agreeing => {
                if expired {
                    return InitiatorStep::Fail("version handshake failed".to_owned());
                }
                match await_version(news) {
                    Fate::Waiting => InitiatorStep::Wait,
                    Fate::Ready => {
                        self.stage = Stage::Awaiting;
                        InitiatorStep::StartTest
                    },
                    Fate::Failed(e) => InitiatorStep::Fail(e),
                    Fate::Malformed => InitiatorStep::Malformed,
                }
            },
            Stage::Awaiting => {
                if expired {
                    return InitiatorStep::NoReport(None);
                }
                match await_result(news) {
                    ResultAct::Wait => InitiatorStep::Wait,
                    ResultAct::Got(b, p, n) => InitiatorStep::Report(b, p, n),
                    ResultAct::Error(e) => InitiatorStep::NoReport(Some(e)),
                    ResultAct::End => InitiatorStep::NoReport(None),
                }
            },
        }
    }
}

// ---------------------------------------------------------------------------
// Connecting
// ---------------------------------------------------------------------------

/// The public keys of the listener: those that are given, or else those of the
/// identity that this machine keeps. `file` is what its file holds, where there is
/// one, and `shown` its path as an error is to show it.
pub open spec fn listener_keys(
    given: Option<Seq<char>>,
    file: Option<Seq<char>>,
    shown: Seq<char>,
) -> Result<Seq<u8>, Seq<char>> {
    match (given, file) {
        (Some(s), _) => match keys::keys_in(s) {
            Some(k) => if keys::is_identity(k) {
                Ok(k)
            } else {
                Err("invalid remote identity hex: CryptoError"@)
            },
            None => Err("invalid remote identity hex: IncorrectHash"@),
        },
        (None, Some(c)) => match identity_store::stored(c) {
            Some(k) => Ok(keys::public_of(k)),
            None => Err("bad identity "@ + shown + ": IncorrectHash"@),
        },
        (None, None) => Err(
            "could not resolve listener identity: provide --remote-identity <hash> or ensure the listener's announce is reachable"@,
        ),
    }
}

/// The public keys of the listener.
pub fn resolve_listener_identity(given: &Option<String>, file: &Option<String>, shown: &str) -> (r:
    Result<Vec<u8>, String>)
    ensures
        match r {
            Ok(k) => listener_keys(args::opt_text(*given), args::opt_text(*file), shown@) == Ok::<
                _,
                Seq<char>,
            >(k@) && k@.len() == 64,
            Err(e) => listener_keys(args::opt_text(*given), args::opt_text(*file), shown@) == Err::<
                Seq<u8>,
                _,
            >(e@),
        },
{
    match (given, file) {
        (Some(s), _) => match keys::public_from_hex(s.as_str()) {
            Ok(k) => Ok(k),
            Err(e) => {
                let m = text::cat("invalid remote identity hex: ", e.as_str());
                proof {
                    reveal_strlit("invalid remote identity hex: ");
                    reveal_strlit("CryptoError");
                    reveal_strlit("IncorrectHash");
                    reveal_strlit("invalid remote identity hex: CryptoError");
                    reveal_strlit("invalid remote identity hex: IncorrectHash");
                    if keys::keys_in(s@) is Some {
                        assert(m@ =~= "invalid remote identity hex: CryptoError"@);
                    } else {
                        assert(m@ =~= "invalid remote identity hex: IncorrectHash"@);
                    }
                }
                Err(m)
            },
        },
        (None, Some(c)) => match identity_store::stored_identity(c.as_str(), shown) {
            Ok(k) => Ok(keys::public_keys(k.as_slice())),
            Err(e) => Err(e),
        },
        (None, None) => Err(
            "could not resolve listener identity: provide --remote-identity <hash> or ensure the listener's announce is reachable".to_owned(),
        ),
    }
}

/// The ports of the instance that the environment names: one for data, and the next
/// one for control.
pub open spec fn ports_in(s: Option<Seq<char>>) -> Result<Option<(nat, nat)>, Seq<char>> {
    match s {
        None => Ok(None),
        Some(s) => match digits::unsigned(s, 65534) {
            Some(n) => Ok(Some((n, n + 1))),
            None => Err("bad RNPERF_RPC_PORT"@),
        },
    }
}

/// The ports of the instance that the environment names.
pub fn rpc_ports(env: &Option<String>) -> (r: Result<Option<(u16, u16)>, String>)
    ensures
        match r {
            Ok(None) => ports_in(args::opt_text(*env)) == Ok::<_, Seq<char>>(None::<(nat, nat)>),
            Ok(Some((a, b))) => ports_in(args::opt_text(*env)) == Ok::<_, Seq<char>>(
                Some((a as nat, b as nat)),
            ),
            Err(e) => ports_in(args::opt_text(*env)) == Err::<Option<(nat, nat)>, _>(e@),
        },
{
    match env {
        None => Ok(None),
        Some(s) => match digits::parse_unsigned(s.as_str(), 65534) {
            Some(n) => Ok(Some((n as u16, (n + 1) as u16))),
            None => Err("bad RNPERF_RPC_PORT".to_owned()),
        },
    }
}

} // verus!
