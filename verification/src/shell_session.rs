//! The course of the remote shell: its command line, and its sessions on either
//! side as steps from one event to the next.

use vstd::prelude::*;

use crate::address;
use crate::args;
use crate::args::{Grammar, Item, Kind, OptRule, Rules};
use crate::digits;
use crate::gitutil;
use crate::link;
use crate::link::{Fate, LinkNews, News, Outlook};
use crate::msgpack;
use crate::shell;
use crate::shell::{
    ExecRequest, APP_NAME, MSG_TYPE_CMD_EXITED, MSG_TYPE_ERROR, MSG_TYPE_EXEC_CMD,
    MSG_TYPE_STREAM_DATA, MSG_TYPE_VERSION_INFO, PROTOCOL_VERSION, RNSH_VERSION, SID_STDERR,
    SID_STDIN, SID_STDOUT,
};
use crate::text;

verus! {

// ---------------------------------------------------------------------------
// Command line
// ---------------------------------------------------------------------------

/// What the command line asks for.
#[derive(Debug)]
pub struct Args {
    pub help: bool,
    pub version: bool,
    pub config: Option<String>,
    pub ident: Option<String>,
    pub svc: Option<String>,
    pub listen: bool,
    pub scan: bool,
    pub verbose: usize,
    pub quiet: usize,
    pub print_ident: bool,
    pub announce: Option<u64>,
    pub allowed: Vec<String>,
    pub no_auth: bool,
    pub remote_cmd_as_args: bool,
    pub no_remote_cmd: bool,
    pub no_id: bool,
    pub mirror: bool,
    pub timeout: Option<String>,
    pub dest: Option<String>,
    pub cmd: Vec<String>,
}

/// The options.
pub open spec fn rules() -> Rules {
    Rules {
        opts: seq![
            args::rule("-h"@, "--help"@, Kind::Stop),
            args::rule("--version"@, "--version"@, Kind::Stop),
            args::rule("--config"@, "--config"@, Kind::Text),
            args::rule("-i"@, "--identity"@, Kind::Text),
            args::rule("-s"@, "--service"@, Kind::Text),
            args::rule("-l"@, "--listen"@, Kind::Flag),
            args::rule("-S"@, "--scan"@, Kind::Flag),
            args::rule("-v"@, "--verbose"@, Kind::Flag),
            args::rule("-q"@, "--quiet"@, Kind::Flag),
            args::rule("-p"@, "--print-identity"@, Kind::Flag),
            OptRule {
                short: "-b"@,
                long: "--announce"@,
                kind: Kind::Number(u64::MAX),
                bad: "bad announce period"@,
            },
            args::rule("-a"@, "--allowed"@, Kind::Text),
            args::rule("-n"@, "--no-auth"@, Kind::Flag),
            args::rule("-A"@, "--remote-command-as-args"@, Kind::Flag),
            args::rule("--remote-cmd-as-args"@, "--remote-command-as-args"@, Kind::Flag),
            args::rule("-C"@, "--no-remote-command"@, Kind::Flag),
            args::rule("-N"@, "--no-id"@, Kind::Flag),
            args::rule("-m"@, "--mirror"@, Kind::Flag),
            OptRule {
                short: "-w"@,
                long: "--timeout"@,
                kind: Kind::Decimal,
                bad: "bad timeout"@,
            },
        ],
        missing: (""@, " needs a value"@),
        unknown: "unrecognized: "@,
        extra: Some("unexpected: "@),
    }
}

fn grammar() -> (r: Grammar)
    ensures
        r@ == rules(),
{
    let g = Grammar {
        opts: vec![
            args::opt("-h", "--help", Kind::Stop, ""),
            args::opt("--version", "--version", Kind::Stop, ""),
            args::opt("--config", "--config", Kind::Text, ""),
            args::opt("-i", "--identity", Kind::Text, ""),
            args::opt("-s", "--service", Kind::Text, ""),
            args::opt("-l", "--listen", Kind::Flag, ""),
            args::opt("-S", "--scan", Kind::Flag, ""),
            args::opt("-v", "--verbose", Kind::Flag, ""),
            args::opt("-q", "--quiet", Kind::Flag, ""),
            args::opt("-p", "--print-identity", Kind::Flag, ""),
            args::opt("-b", "--announce", Kind::Number(u64::MAX), "bad announce period"),
            args::opt("-a", "--allowed", Kind::Text, ""),
            args::opt("-n", "--no-auth", Kind::Flag, ""),
            args::opt("-A", "--remote-command-as-args", Kind::Flag, ""),
            args::opt("--remote-cmd-as-args", "--remote-command-as-args", Kind::Flag, ""),
            args::opt("-C", "--no-remote-command", Kind::Flag, ""),
            args::opt("-N", "--no-id", Kind::Flag, ""),
            args::opt("-m", "--mirror", Kind::Flag, ""),
            args::opt("-w", "--timeout", Kind::Decimal, "bad timeout"),
        ],
        missing: ("", " needs a value"),
        unknown: "unrecognized: ",
        extra: Some("unexpected: "),
    };
    assert(g@.opts =~= rules().opts);
    g
}

/// How many arguments stand before the first `--`.
pub open spec fn own_count(raw: Seq<Seq<char>>) -> nat
    decreases raw.len(),
{
    if raw.len() == 0 || raw[0] == "--"@ {
        0
    } else {
        1 + own_count(raw.skip(1))
    }
}

/// The arguments before the first `--`.
pub open spec fn own_args(raw: Seq<Seq<char>>) -> Seq<Seq<char>> {
    raw.take(own_count(raw) as int)
}

/// The arguments after the first `--`.
pub open spec fn command_args(raw: Seq<Seq<char>>) -> Seq<Seq<char>> {
    if own_count(raw) < raw.len() {
        raw.skip(own_count(raw) as int + 1)
    } else {
        Seq::empty()
    }
}

/// The service name: where there is none, a listener is the default service.
pub open spec fn service(ts: Seq<Item>) -> Option<Seq<char>> {
    match args::last_value(ts, "--service"@) {
        Some(s) => Some(s),
        None => if args::count(ts, "--listen"@) > 0 {
            Some("default"@)
        } else {
            None
        },
    }
}

/// The command line says what the tokens and the command say.
pub open spec fn args_say(a: Args, ts: Seq<Item>, cmd: Seq<Seq<char>>) -> bool {
    &&& a.help == (args::count(ts, "--help"@) > 0)
    &&& a.version == (args::count(ts, "--version"@) > 0)
    &&& args::opt_text(a.config) == args::last_value(ts, "--config"@)
    &&& args::opt_text(a.ident) == args::last_value(ts, "--identity"@)
    &&& args::opt_text(a.svc) == service(ts)
    &&& a.listen == (args::count(ts, "--listen"@) > 0)
    &&& a.scan == (args::count(ts, "--scan"@) > 0)
    &&& a.verbose == args::count(ts, "--verbose"@)
    &&& a.quiet == args::count(ts, "--quiet"@)
    &&& a.print_ident == (args::count(ts, "--print-identity"@) > 0)
    &&& args::number_view(a.announce) == args::last_number(ts, "--announce"@, u64::MAX as nat)
    &&& text::views(a.allowed@) == args::all_values(ts, "--allowed"@)
    &&& a.no_auth == (args::count(ts, "--no-auth"@) > 0)
    &&& a.remote_cmd_as_args == (args::count(ts, "--remote-command-as-args"@) > 0)
    &&& a.no_remote_cmd == (args::count(ts, "--no-remote-command"@) > 0)
    &&& a.no_id == (args::count(ts, "--no-id"@) > 0)
    &&& a.mirror == (args::count(ts, "--mirror"@) > 0)
    &&& args::opt_text(a.timeout) == args::last_value(ts, "--timeout"@)
    &&& args::opt_text(a.dest) == args::last_word(ts)
    &&& text::views(a.cmd@) == cmd
}

fn split_command(raw: &[String]) -> (r: (Vec<String>, Vec<String>))
    ensures
        text::views(r.0@) == own_args(text::views(raw@)),
        text::views(r.1@) == command_args(text::views(raw@)),
{
    let ghost all = text::views(raw@);
    let mut mine: Vec<String> = Vec::new();
    let mut i: usize = 0;
    assert(all.skip(0) =~= all);
    while i < raw.len() && !text::same(raw[i].as_str(), "--")
        invariant
            i <= raw@.len(),
            all == text::views(raw@),
            mine@.len() == i,
            text::views(mine@) =~= all.take(i as int),
            own_count(all) == i + own_count(all.skip(i as int)),
        decreases raw@.len() - i,
    {
        assert(all.skip(i as int)[0] == raw@[i as int]@);
        assert(all.skip(i as int).skip(1) =~= all.skip(i + 1));
        mine.push(raw[i].clone());
        i = i + 1;
    }
    proof {
        if i < raw@.len() {
            assert(all.skip(i as int)[0] == raw@[i as int]@);
        }
    }
    let mut cmd: Vec<String> = Vec::new();
    if i < raw.len() {
        let mut j: usize = i + 1;
        while j < raw.len()
            invariant
                i < j <= raw@.len(),
                all == text::views(raw@),
                cmd@.len() == j - i - 1,
                text::views(cmd@) =~= all.subrange(i + 1, j as int),
            decreases raw@.len() - j,
        {
            cmd.push(raw[j].clone());
            j = j + 1;
        }
        assert(text::views(cmd@) =~= all.skip(i + 1));
    }
    assert(text::views(cmd@) =~= command_args(all));
    (mine, cmd)
}

/// Reads the command line. What stands after `--` is the command to run.
pub fn parse_args(raw: &[String]) -> (r: Result<Args, String>)
    ensures
        match args::scanned(own_args(text::views(raw@)), rules(), Seq::empty()) {
            Ok(ts) => r matches Ok(a) && args_say(a, ts, command_args(text::views(raw@))),
            Err(e) => r matches Err(x) && x@ == e,
        },
{
    let (mine, cmd) = split_command(raw);
    let ts = match args::scan(mine.as_slice(), &grammar()) {
        Ok(ts) => ts,
        Err(e) => {
            return Err(e);
        },
    };
    let listen = args::has(&ts, "--listen");
    let svc = match args::value_of(&ts, "--service") {
        Some(s) => Some(s),
        None => if listen {
            Some("default".to_owned())
        } else {
            None
        },
    };
    Ok(
        Args {
            help: args::has(&ts, "--help"),
            version: args::has(&ts, "--version"),
            config: args::value_of(&ts, "--config"),
            ident: args::value_of(&ts, "--identity"),
            svc,
            listen,
            scan: args::has(&ts, "--scan"),
            verbose: args::count_of(&ts, "--verbose"),
            quiet: args::count_of(&ts, "--quiet"),
            print_ident: args::has(&ts, "--print-identity"),
            announce: args::number_of(&ts, "--announce", u64::MAX),
            allowed: args::values_of(&ts, "--allowed"),
            no_auth: args::has(&ts, "--no-auth"),
            remote_cmd_as_args: args::has(&ts, "--remote-command-as-args"),
            no_remote_cmd: args::has(&ts, "--no-remote-command"),
            no_id: args::has(&ts, "--no-id"),
            mirror: args::has(&ts, "--mirror"),
            timeout: args::value_of(&ts, "--timeout"),
            dest: args::word_of(&ts),
            cmd,
        },
    )
}

/// What the program does.
#[derive(Debug, Clone, Copy, PartialEq, Eq, Structural)]
pub enum Mode {
    PrintIdentity,
    Scan,
    Listen,
    Connect,
    Help,
}

/// What the command line asks to do.
pub fn mode(a: &Args) -> (r: Mode)
    ensures
        r == (if a.print_ident {
            Mode::PrintIdentity
        } else if a.scan {
            Mode::Scan
        } else if a.listen {
            Mode::Listen
        } else if a.dest is Some {
            Mode::Connect
        } else {
            Mode::Help
        }),
{
    if a.print_ident {
        Mode::PrintIdentity
    } else if a.scan {
        Mode::Scan
    } else if a.listen {
        Mode::Listen
    } else if a.dest.is_some() {
        Mode::Connect
    } else {
        Mode::Help
    }
}

/// The address that is printed for an identity: the first sixteen bytes of the
/// digest of a digest, that of the hash of the program's name and the hash of the
/// identity.
pub open spec fn printed(identity: Seq<u8>) -> Seq<u8> {
    crate::hash::short_hash(
        crate::hash::sha256(address::name_digest(APP_NAME@, ""@) + identity),
    )
}

/// The address that is printed for an identity, in hexadecimal digits.
pub fn printed_address(identity: &[u8]) -> (r: String)
    ensures
        r@ == digits::hex_text(printed(identity@)),
{
    let name = address::name_hash(APP_NAME, "");
    let both = crate::bytes::cat(name.as_slice(), identity);
    let d = crate::hash::digest(both.as_slice());
    digits::hex_encode(crate::hash::truncated(d.as_slice()).as_slice())
}

/// Whether an announced destination is one of this program: its name hash is
/// that of the program.
pub fn is_announced(name: &[u8]) -> (r: bool)
    ensures
        r == (name@ == address::name_digest(APP_NAME@, ""@)),
{
    let own = address::name_hash(APP_NAME, "");
    crate::bytes::same(name, own.as_slice())
}

/// The line that shows a destination that was heard of.
pub fn heard_line(address: &[u8], identity: &[u8], hops: u8) -> (r: String)
    ensures
        r@ == "  "@ + digits::hex_text(address@) + "  (identity "@ + digits::hex_text(identity@)
            + ", "@ + digits::dec(hops as nat) + " hops)"@,
{
    let a = digits::hex_encode(address);
    let i = digits::hex_encode(identity);
    let h = digits::decimal(hops as u64);
    let mut r = text::cat3("  ", a.as_str(), "  (identity ");
    r.append(i.as_str());
    r.append(", ");
    r.append(h.as_str());
    r.append(" hops)");
    r
}

// ---------------------------------------------------------------------------
// Messages of a session
// ---------------------------------------------------------------------------

/// The version message that this program sends.
pub open spec fn own_version() -> (u16, Seq<u8>) {
    (
        MSG_TYPE_VERSION_INFO,
        msgpack::msgpack(shell::version_msg(RNSH_VERSION@, PROTOCOL_VERSION)),
    )
}

/// A fatal error as it is reported to the peer.
pub open spec fn reported(message: Seq<char>) -> (u16, Seq<u8>) {
    (MSG_TYPE_ERROR, msgpack::msgpack(shell::error_msg(message, true)))
}

fn version_message() -> (r: (u16, Vec<u8>))
    ensures
        (r.0, r.1@) == own_version(),
{
    (MSG_TYPE_VERSION_INFO, shell::pack_ver(RNSH_VERSION, PROTOCOL_VERSION))
}

fn error_message(m: &str) -> (r: (u16, Vec<u8>))
    ensures
        (r.0, r.1@) == reported(m@),
{
    (MSG_TYPE_ERROR, shell::pack_err(m, true))
}

/// What an error message of the peer comes to, with a text before its own.
pub open spec fn peer_error(payload: Seq<u8>, before: Seq<char>) -> Outlook {
    let m = msgpack::msgpack_read(payload);
    if m is Ok && !shell::long_enough(m->Ok_0, 1) {
        Outlook::Malformed
    } else {
        Outlook::Failed(before + shell::error_in(m).0)
    }
}

fn fail_with_peer_error(payload: &[u8], before: &str) -> (r: Fate)
    ensures
        r@ == peer_error(payload@, before@),
{
    match shell::unpack_err_msg(payload) {
        Some((m, _)) => Fate::Failed(text::cat(before, m.as_str())),
        None => Fate::Malformed,
    }
}

// ---------------------------------------------------------------------------
// The listener's handshake
// ---------------------------------------------------------------------------

/// How far a listener has come with a peer: whether the versions agree, and what
/// the peer wants to run.
pub struct Handshake {
    got_ver: bool,
    request: Option<ExecRequest>,
}

/// How far a listener has come, over sequences.
pub struct Progress {
    pub got_ver: bool,
    pub request: Option<shell::Exec>,
}

impl View for Handshake {
    type V = Progress;

    closed spec fn view(&self) -> Progress {
        Progress {
            got_ver: self.got_ver,
            request: match self.request {
                Some(x) => Some(x@),
                None => None,
            },
        }
    }
}

/// Both parts have come.
pub open spec fn settled(p: Progress) -> Outlook {
    if p.got_ver && p.request is Some {
        Outlook::Ready
    } else {
        Outlook::Waiting
    }
}

/// What an event does to the handshake: how far it has come then, what is sent,
/// and how it goes on.
pub open spec fn shaken(p: Progress, news: News, no_auth: bool, listed: bool) -> (
    Progress,
    Option<(u16, Seq<u8>)>,
    Outlook,
) {
    match news {
        News::Identified(_) => if no_auth || listed {
            (p, None, settled(p))
        } else {
            (p, Some(reported("not allowed"@)), Outlook::Failed("identity not allowed"@))
        },
        News::Message(t, payload) => {
            let m = msgpack::msgpack_read(payload);
            if t == MSG_TYPE_VERSION_INFO {
                match m {
                    Err(e) => (p, None, Outlook::Failed(e)),
                    Ok(v) => if !shell::long_enough(v, 2) {
                        (p, None, Outlook::Malformed)
                    } else {
                        match shell::version_in(v) {
                            Err(e) => (p, None, Outlook::Failed(e)),
                            Ok((_, pv)) => if pv != PROTOCOL_VERSION {
                                (
                                    p,
                                    Some(reported("incompatible protocol"@)),
                                    Outlook::Failed(
                                        "incompatible protocol "@ + digits::dec(pv as nat),
                                    ),
                                )
                            } else {
                                let q = Progress { got_ver: true, ..p };
                                (q, Some(own_version()), settled(q))
                            },
                        }
                    },
                }
            } else if t == MSG_TYPE_EXEC_CMD {
                match m {
                    Err(e) => (p, None, Outlook::Failed(e)),
                    Ok(v) => match shell::exec_in(v) {
                        Err(e) => (p, None, Outlook::Failed(e)),
                        Ok(x) => {
                            let q = Progress { request: Some(x), ..p };
                            (q, None, settled(q))
                        },
                    },
                }
            } else if t == MSG_TYPE_ERROR {
                (p, None, peer_error(payload, "remote error: "@))
            } else {
                (p, None, settled(p))
            }
        },
        News::Closed => (p, None, Outlook::Failed("link closed during handshake"@)),
        News::Gone => (p, None, Outlook::Failed("event channel closed"@)),
        _ => (p, None, settled(p)),
    }
}

/// Whether an event shows an identity that is allowed.
pub open spec fn news_listed(news: News, given: Seq<Seq<char>>, lines: Seq<Seq<char>>) -> bool {
    news matches News::Identified(h) && shell::allowed(h, given, lines)
}

/// A peer whose identity is not allowed is told so, and the handshake fails.
pub proof fn law_unlisted_identity_is_refused(p: Progress, hash: Seq<u8>)
    ensures
        shaken(p, News::Identified(hash), false, false).1 == Some(reported("not allowed"@)),
        shaken(p, News::Identified(hash), false, false).2 == Outlook::Failed(
            "identity not allowed"@,
        ),
{
}

/// The handshake is over only once the versions agreed and the peer has said what
/// it wants to run.
pub proof fn law_ready_needs_both(p: Progress, news: News, no_auth: bool, listed: bool)
    ensures
        shaken(p, news, no_auth, listed).2 is Ready ==> shaken(p, news, no_auth, listed).0.got_ver
            && shaken(p, news, no_auth, listed).0.request is Some,
{
}

proof fn lemma_own_version_is_plain()
    ensures
        msgpack::plain(shell::version_msg(RNSH_VERSION@, PROTOCOL_VERSION), 8),
{
    let m = shell::version_msg(RNSH_VERSION@, PROTOCOL_VERSION);
    reveal_with_fuel(msgpack::plain, 3);
    reveal_strlit("0.2.0");
    text::lemma_utf8_length(RNSH_VERSION@);
    assert(m->Array_0[0] == msgpack::Msg::Text(RNSH_VERSION@));
}

impl Handshake {
    /// The beginning.
    pub fn new() -> (r: Self)
        ensures
            r@ == (Progress { got_ver: false, request: None }),
    {
        Handshake { got_ver: false, request: None }
    }

    fn settle(&self) -> (r: Fate)
        ensures
            r@ == settled(self@),
    {
        if self.got_ver && self.request.is_some() {
            Fate::Ready
        } else {
            Fate::Waiting
        }
    }

    /// Takes an event. What is returned is sent to the peer, then the handshake
    /// goes on as it says. `file_lines` are those of the files of allowed
    /// identities. The version that an initiator of this program sends is answered
    /// with the same.
    pub fn step(
        &mut self,
        news: LinkNews,
        no_auth: bool,
        given: &[String],
        file_lines: &[String],
    ) -> (r: (Option<(u16, Vec<u8>)>, Fate))
        ensures
            (final(self)@, link::message_view(r.0), r.1@) == shaken(
                old(self)@,
                news@,
                no_auth,
                news_listed(news@, text::views(given@), text::views(file_lines@)),
            ),
            news@ == News::Message(own_version().0, own_version().1) ==> final(self)@.got_ver
                && link::message_view(r.0) == Some(own_version()) && !(r.1 is Failed) && !(
            r.1 is Malformed),
    {
        proof {
            lemma_own_version_is_plain();
        }
        match news {
            LinkNews::Identified(h) => {
                if no_auth || shell::check_allowed(h.as_slice(), given, file_lines) {
                    (None, self.settle())
                } else {
                    (
                        Some(error_message("not allowed")),
                        Fate::Failed("identity not allowed".to_owned()),
                    )
                }
            },
            LinkNews::Message(t, payload) => {
                if t == MSG_TYPE_VERSION_INFO {
                    match shell::unpack_ver(payload.as_slice()) {
                        None => (None, Fate::Malformed),
                        Some(Err(e)) => (None, Fate::Failed(e)),
                        Some(Ok((_, pv))) => {
                            if pv != PROTOCOL_VERSION {
                                let n = digits::decimal(pv as u64);
                                (
                                    Some(error_message("incompatible protocol")),
                                    Fate::Failed(text::cat("incompatible protocol ", n.as_str())),
                                )
                            } else {
                                self.got_ver = true;
                                (Some(version_message()), self.settle())
                            }
                        },
                    }
                } else if t == MSG_TYPE_EXEC_CMD {
                    match shell::unpack_exec(payload.as_slice()) {
                        Err(e) => (None, Fate::Failed(e)),
                        Ok(x) => {
                            self.request = Some(x);
                            (None, self.settle())
                        },
                    }
                } else if t == MSG_TYPE_ERROR {
                    (None, fail_with_peer_error(payload.as_slice(), "remote error: "))
                } else {
                    (None, self.settle())
                }
            },
            LinkNews::Closed => (None, Fate::Failed("link closed during handshake".to_owned())),
            LinkNews::Gone => (None, Fate::Failed("event channel closed".to_owned())),
            _ => (None, self.settle()),
        }
    }

    /// The error where time has run out; `None` where both parts have come.
    pub fn timeout(&self) -> (r: Option<String>)
        ensures
            args::opt_text(r) == (if !self@.got_ver {
                Some("version handshake timeout"@)
            } else if self@.request is None {
                Some("exec command timeout"@)
            } else {
                None
            }),
    {
        if !self.got_ver {
            Some("version handshake timeout".to_owned())
        } else if self.request.is_none() {
            Some("exec command timeout".to_owned())
        } else {
            None
        }
    }

    /// What the peer wants to run, once it has said so.
    pub fn into_request(self) -> (r: Option<ExecRequest>)
        ensures
            match r {
                Some(x) => self@.request == Some(x@),
                None => self@.request is None,
            },
    {
        self.request
    }
}

/// A shell as a command.
pub open spec fn shell_command(shell_name: Option<Seq<char>>) -> Seq<Seq<char>> {
    seq![
        match shell_name {
            Some(s) => s,
            None => "/bin/sh"@,
        },
    ]
}

/// The command that a listener runs. Where the peer's is not wanted, it is its own
/// or a shell, whatever the peer asks for. Else it is its own with the peer's as
/// arguments, the peer's, its own, or a shell.
pub open spec fn chosen(
    own: Seq<Seq<char>>,
    remote: Seq<Seq<char>>,
    no_remote: bool,
    as_args: bool,
    shell_name: Option<Seq<char>>,
) -> Seq<Seq<char>> {
    if no_remote {
        if own.len() > 0 {
            own
        } else {
            shell_command(shell_name)
        }
    } else if as_args {
        own + remote
    } else if remote.len() > 0 {
        remote
    } else if own.len() > 0 {
        own
    } else {
        shell_command(shell_name)
    }
}

/// A listener that does not want the peer's command does not let the peer choose
/// any part of what it runs.
pub proof fn law_unwanted_command_is_not_run(
    own: Seq<Seq<char>>,
    remote: Seq<Seq<char>>,
    other: Seq<Seq<char>>,
    as_args: bool,
    shell_name: Option<Seq<char>>,
)
    ensures
        chosen(own, remote, true, as_args, shell_name) == chosen(
            own,
            other,
            true,
            as_args,
            shell_name,
        ),
{
}

/// A command with a program to run.
pub open spec fn runnable(cmd: Seq<Seq<char>>) -> bool {
    cmd.len() > 0 && cmd[0].len() > 0
}

fn run_shell(shell_name: Option<String>) -> (r: Vec<String>)
    ensures
        text::views(r@) == shell_command(args::opt_text(shell_name)),
{
    let name = match shell_name {
        Some(s) => s,
        None => "/bin/sh".to_owned(),
    };
    let v = vec![name];
    assert(text::views(v@) =~= seq![name@]);
    v
}

/// Chooses the command that a listener runs.
pub fn choose_command(
    own: Vec<String>,
    remote: Vec<String>,
    no_remote_cmd: bool,
    remote_cmd_as_args: bool,
    shell_name: Option<String>,
) -> (r: Result<Vec<String>, String>)
    ensures
        ({
            let c = chosen(
                text::views(own@),
                text::views(remote@),
                no_remote_cmd,
                remote_cmd_as_args,
                args::opt_text(shell_name),
            );
            match r {
                Ok(v) => text::views(v@) == c && runnable(c),
                Err(e) => !runnable(c) && e@ == "no command to execute"@,
            }
        }),
{
    let ghost o = text::views(own@);
    let ghost m = text::views(remote@);
    let cmd = if no_remote_cmd {
        if own.len() > 0 {
            own
        } else {
            run_shell(shell_name)
        }
    } else if remote_cmd_as_args {
        let mut base = own;
        gitutil::extend(&mut base, remote.as_slice());
        assert(text::views(base@) =~= o + m);
        base
    } else if remote.len() > 0 {
        remote
    } else if own.len() > 0 {
        own
    } else {
        run_shell(shell_name)
    };
    if cmd.len() == 0 {
        return Err("no command to execute".to_owned());
    }
    assert(text::views(cmd@)[0] == cmd@[0]@);
    if cmd[0].as_str().is_empty() {
        return Err("no command to execute".to_owned());
    }
    Ok(cmd)
}

// ---------------------------------------------------------------------------
// The initiator
// ---------------------------------------------------------------------------

/// How an initiator that waits for the listener's version goes on.
pub open spec fn version_phase(news: News) -> Outlook {
    match news {
        News::Message(t, payload) => {
            if t == MSG_TYPE_VERSION_INFO {
                match msgpack::msgpack_read(payload) {
                    Err(e) => Outlook::Failed(e),
                    Ok(v) => if !shell::long_enough(v, 2) {
                        Outlook::Malformed
                    } else {
                        match shell::version_in(v) {
                            Err(e) => Outlook::Failed(e),
                            Ok(_) => Outlook::Ready,
                        }
                    },
                }
            } else if t == MSG_TYPE_ERROR {
                peer_error(payload, "remote: "@)
            } else {
                Outlook::Waiting
            }
        },
        News::Closed => Outlook::Failed("link closed during version"@),
        News::Gone => Outlook::Failed("event channel gone"@),
        _ => Outlook::Waiting,
    }
}

/// How an initiator that waits for the listener's version goes on.
pub fn await_version(news: &LinkNews) -> (r: Fate)
    ensures
        r@ == version_phase(news@),
{
    match news {
        LinkNews::Message(t, payload) => {
            if *t == MSG_TYPE_VERSION_INFO {
                match shell::unpack_ver(payload.as_slice()) {
                    None => Fate::Malformed,
                    Some(Err(e)) => Fate::Failed(e),
                    Some(Ok(_)) => Fate::Ready,
                }
            } else if *t == MSG_TYPE_ERROR {
                fail_with_peer_error(payload.as_slice(), "remote: ")
            } else {
                Fate::Waiting
            }
        },
        LinkNews::Closed => Fate::Failed("link closed during version".to_owned()),
        LinkNews::Gone => Fate::Failed("event channel gone".to_owned()),
        _ => Fate::Waiting,
    }
}

/// What an initiator does on an event while the command runs.
#[derive(Debug)]
pub enum InitiatorAct {
    /// Nothing.
    Pass,
    /// Write bytes to the standard output.
    Stdout(Vec<u8>),
    /// Write bytes to the standard error.
    Stderr(Vec<u8>),
    /// End the session with an exit code.
    Exit(i32),
    /// End the session because of an error of the listener.
    Error(String),
    /// End the session.
    End,
    /// Tell the size of the terminal, where there is one.
    TellSize,
    /// End the session: the peer sent a message that is too short to be read.
    Malformed,
}

/// What an initiator does, over sequences.
pub enum Deed {
    Pass,
    Stdout(Seq<u8>),
    Stderr(Seq<u8>),
    Exit(i32),
    Error(Seq<char>),
    End,
    TellSize,
    Malformed,
}

impl View for InitiatorAct {
    type V = Deed;

    open spec fn view(&self) -> Deed {
        match self {
            InitiatorAct::Pass => Deed::Pass,
            InitiatorAct::Stdout(b) => Deed::Stdout(b@),
            InitiatorAct::Stderr(b) => Deed::Stderr(b@),
            InitiatorAct::Exit(n) => Deed::Exit(*n),
            InitiatorAct::Error(e) => Deed::Error(e@),
            InitiatorAct::End => Deed::End,
            InitiatorAct::TellSize => Deed::TellSize,
            InitiatorAct::Malformed => Deed::Malformed,
        }
    }
}

/// What an initiator does on an event while the command runs.
pub open spec fn initiator_deed(news: News) -> Deed {
    match news {
        News::Message(t, payload) => {
            if t == MSG_TYPE_STREAM_DATA {
                match shell::stream_in(payload) {
                    None => Deed::Pass,
                    Some((sid, _, data)) => if sid == SID_STDOUT {
                        Deed::Stdout(data)
                    } else if sid == SID_STDERR {
                        Deed::Stderr(data)
                    } else {
                        Deed::Pass
                    },
                }
            } else if t == MSG_TYPE_CMD_EXITED {
                match msgpack::msgpack_read(payload) {
                    Err(_) => Deed::Exit(0),
                    Ok(m) => match shell::exit_in(m) {
                        Ok(n) => Deed::Exit(n),
                        Err(_) => Deed::Exit(0),
                    },
                }
            } else if t == MSG_TYPE_ERROR {
                match peer_error(payload, ""@) {
                    Outlook::Failed(m) => Deed::Error(m),
                    _ => Deed::Malformed,
                }
            } else {
                Deed::Pass
            }
        },
        News::Closed => Deed::End,
        News::Gone => Deed::End,
        News::Quiet => Deed::TellSize,
        _ => Deed::Pass,
    }
}

/// What an initiator does on an event while the command runs.
/// The exit code that a listener sends is the one that the session ends with.
pub fn initiator_act(news: &LinkNews) -> (r: InitiatorAct)
    ensures
        r@ == initiator_deed(news@),
        forall|n: i32|
            news@ == News::Message(
                MSG_TYPE_CMD_EXITED,
                #[trigger] msgpack::msgpack(msgpack::Msg::Integer(n as int)),
            ) ==> r@ == Deed::Exit(n),
{
    match news {
        LinkNews::Message(t, payload) => {
            if *t == MSG_TYPE_STREAM_DATA {
                match shell::read_stream(payload.as_slice()) {
                    None => InitiatorAct::Pass,
                    Some((sid, _, data)) => if sid == SID_STDOUT {
                        InitiatorAct::Stdout(data)
                    } else if sid == SID_STDERR {
                        InitiatorAct::Stderr(data)
                    } else {
                        InitiatorAct::Pass
                    },
                }
            } else if *t == MSG_TYPE_CMD_EXITED {
                match shell::unpack_exit(payload.as_slice()) {
                    Ok(n) => InitiatorAct::Exit(n),
                    Err(_) => InitiatorAct::Exit(0),
                }
            } else if *t == MSG_TYPE_ERROR {
                match fail_with_peer_error(payload.as_slice(), "") {
                    Fate::Failed(m) => InitiatorAct::Error(m),
                    _ => InitiatorAct::Malformed,
                }
            } else {
                InitiatorAct::Pass
            }
        },
        LinkNews::Closed => InitiatorAct::End,
        LinkNews::Gone => InitiatorAct::End,
        LinkNews::Quiet => InitiatorAct::TellSize,
        _ => InitiatorAct::Pass,
    }
}

/// How far an initiator has come: it waits for its link, then for the version of
/// the listener, and then the command runs.
#[derive(Debug, Clone, Copy, PartialEq, Eq, Structural)]
pub enum Stage {
    Opening,
    Agreeing,
    Running,
}

/// An initiator. It shows its identity unless `no_id` is set.
pub struct Initiator {
    pub stage: Stage,
    pub no_id: bool,
}

/// What an initiator does next.
#[derive(Debug)]
pub enum InitiatorStep {
    /// Wait for the next event.
    Wait,
    /// Show the identity where it says so, and send a message.
    Greet(bool, u16, Vec<u8>),
    /// Ask for the command.
    StartCommand,
    /// Act while the command runs.
    Do(InitiatorAct),
    /// End with an error.
    Fail(String),
    /// End: the peer sent a message that is too short to be read.
    Malformed,
}

/// What an initiator does next, over sequences.
pub enum Course {
    Wait,
    Greet(bool, u16, Seq<u8>),
    StartCommand,
    Do(Deed),
    Fail(Seq<char>),
    Malformed,
}

impl View for InitiatorStep {
    type V = Course;

    open spec fn view(&self) -> Course {
        match self {
            InitiatorStep::Wait => Course::Wait,
            InitiatorStep::Greet(i, t, p) => Course::Greet(*i, *t, p@),
            InitiatorStep::StartCommand => Course::StartCommand,
            InitiatorStep::Do(a) => Course::Do(a@),
            InitiatorStep::Fail(e) => Course::Fail(e@),
            InitiatorStep::Malformed => Course::Malformed,
        }
    }
}

/// What an initiator does on an event, and how far it has then come. Before the
/// command runs, time may run out.
pub open spec fn initiated(stage: Stage, no_id: bool, expired: bool, news: News) -> (Stage, Course) {
    match stage {
        Stage::Opening => if expired {
            (stage, Course::Fail("link activation timed out"@))
        } else {
            match link::activation(news) {
                Outlook::Waiting => (stage, Course::Wait),
                Outlook::Ready => (
                    Stage::Agreeing,
                    Course::Greet(!no_id, own_version().0, own_version().1),
                ),
                Outlook::Failed(e) => (stage, Course::Fail(e)),
                Outlook::Malformed => (stage, Course::Malformed),
            }
        },
        Stage::Agreeing => if expired {
            (stage, Course::Fail("version handshake failed"@))
        } else {
            match version_phase(news) {
                Outlook::Waiting => (stage, Course::Wait),
                Outlook::Ready => (Stage::Running, Course::StartCommand),
                Outlook::Failed(e) => (stage, Course::Fail(e)),
                Outlook::Malformed => (stage, Course::Malformed),
            }
        },
        Stage::Running => (stage, Course::Do(initiator_deed(news))),
    }
}

/// The command is asked for only once the listener has told its version in time,
/// and nothing of it is shown or ends the session before.
pub proof fn law_command_follows_versions(stage: Stage, no_id: bool, expired: bool, news: News)
    ensures
        initiated(stage, no_id, expired, news).1 is StartCommand ==> stage == Stage::Agreeing
            && !expired && news is Message && news->Message_0 == MSG_TYPE_VERSION_INFO,
        initiated(stage, no_id, expired, news).1 is Do ==> stage == Stage::Running,
        initiated(stage, no_id, expired, news).0 == Stage::Running ==> stage == Stage::Running
            || initiated(stage, no_id, expired, news).1 is StartCommand,
{
}

impl Initiator {
    /// An initiator that has asked for its link.
    pub fn new(no_id: bool) -> (r: Self)
        ensures
            r == (Initiator { stage: Stage::Opening, no_id }),
    {
        Initiator { stage: Stage::Opening, no_id }
    }

    /// Takes an event. `expired` says that the time for connecting has run out.
    pub fn step(&mut self, expired: bool, news: &LinkNews) -> (r: InitiatorStep)
        ensures
            (final(self).stage, r@) == initiated(
                old(self).stage,
                old(self).no_id,
                expired,
                news@,
            ),
            final(self).no_id == old(self).no_id,
    {
        match self.stage {
            Stage::Opening => {
                if expired {
                    return InitiatorStep::Fail("link activation timed out".to_owned());
                }
                match link::await_activation(news) {
                    Fate::Waiting => InitiatorStep::Wait,
                    Fate::Ready => {
                        self.stage = Stage::Agreeing;
                        let (t, p) = version_message();
                        InitiatorStep::Greet(!self.no_id, t, p)
                    },
                    Fate::Failed(e) => InitiatorStep::Fail(e),
                    Fate::Malformed => InitiatorStep::Malformed,
                }
            },
            Stage::Agreeing => {
                if expired {
                    return InitiatorStep::Fail("version handshake failed".to_owned());
                }
                match await_version(news) {
                    Fate::Waiting => InitiatorStep::Wait,
                    Fate::Ready => {
                        self.stage = Stage::Running;
                        InitiatorStep::StartCommand
                    },
                    Fate::Failed(e) => InitiatorStep::Fail(e),
                    Fate::Malformed => InitiatorStep::Malformed,
                }
            },
            Stage::Running => InitiatorStep::Do(initiator_act(news)),
        }
    }
}

// ---------------------------------------------------------------------------
// The listener's session
// ---------------------------------------------------------------------------

/// The command that a listener runs: whether it has ended, and with which code.
pub struct Session {
    pub exited: bool,
    pub code: i32,
}

/// What a listener does for its command.
#[derive(Debug)]
pub enum SessionAct {
    /// Nothing.
    Pass,
    /// Hand bytes to the command, then end its input where that is asked.
    Input(Vec<u8>, bool),
    /// See whether the command has ended.
    Poll,
}

/// What an event does to the session, and the input that it brings the command.
pub open spec fn session_after(s: Session, news: News) -> Session {
    match news {
        News::Closed | News::Gone => Session {
            exited: true,
            code: if s.code < 0 {
                0
            } else {
                s.code
            },
        },
        _ => s,
    }
}

/// The input that an event brings the command: bytes, and whether it ends.
pub open spec fn session_input(news: News) -> Option<(Seq<u8>, bool)> {
    match news {
        News::Message(t, payload) => if t == MSG_TYPE_STREAM_DATA {
            match shell::stream_in(payload) {
                Some((sid, eof, data)) => if sid == SID_STDIN {
                    Some((data, eof))
                } else {
                    None
                },
                None => None,
            }
        } else {
            None
        },
        _ => None,
    }
}

impl Session {
    /// The command has just been started.
    pub fn new() -> (r: Self)
        ensures
            !r.exited,
            r.code == -1,
    {
        Session { exited: false, code: -1 }
    }

    /// Takes an event.
    pub fn step(&mut self, news: &LinkNews) -> (r: SessionAct)
        ensures
            *final(self) == session_after(*old(self), news@),
            match r {
                SessionAct::Input(d, eof) => session_input(news@) == Some((d@, eof)),
                SessionAct::Poll => news@ is Quiet,
                SessionAct::Pass => session_input(news@) is None && !(news@ is Quiet),
            },
            news@ matches News::Message(t, p) ==> t == 0xAC04 && p.len() >= 2 && p[0] % 0x40 == 0
                && p[1] == 0 ==> (r matches SessionAct::Input(d, eof) && eof == (p[0] >= 0x80) && ((
            p[0] / 0x40) % 2 == 0 ==> d@ == p.skip(2))),
    {
        match news {
            LinkNews::Message(t, payload) => {
                if *t == MSG_TYPE_STREAM_DATA {
                    if let Some((sid, eof, data)) = shell::read_stream(payload.as_slice()) {
                        if sid == SID_STDIN {
                            return SessionAct::Input(data, eof);
                        }
                    }
                }
                SessionAct::Pass
            },
            LinkNews::Closed | LinkNews::Gone => {
                if self.code < 0 {
                    self.code = 0;
                }
                self.exited = true;
                SessionAct::Pass
            },
            LinkNews::Quiet => SessionAct::Poll,
            _ => SessionAct::Pass,
        }
    }

    /// The command has ended with a code.
    pub fn ended(&mut self, code: i32)
        ensures
            final(self).exited,
            final(self).code == code,
    {
        self.exited = true;
        self.code = code;
    }

    /// Whether the session is over: the command has ended, and either all its
    /// output was sent or more than three seconds have passed since.
    pub fn over(&self, drained: bool, nanos_since_exit: u128) -> (r: bool)
        ensures
            r == (self.exited && (drained || nanos_since_exit > 3_000_000_000)),
    {
        self.exited && (drained || nanos_since_exit > 3_000_000_000)
    }

    /// The code that is sent: never below zero.
    pub fn exit_message(&self) -> (r: (u16, Vec<u8>))
        ensures
            r.0 == MSG_TYPE_CMD_EXITED,
            r.1@ == msgpack::msgpack(
                msgpack::Msg::Integer(
                    if self.code < 0 {
                        0
                    } else {
                        self.code as int
                    },
                ),
            ),
    {
        let code: i32 = if self.code < 0 {
            0
        } else {
            self.code
        };
        (MSG_TYPE_CMD_EXITED, shell::pack_exit(code))
    }
}

} // verus!
