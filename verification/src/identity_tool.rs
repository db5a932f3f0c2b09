//! The identity utility: its command line, which identity it works with, and what
//! it does with files and messages.

use vstd::prelude::*;

use crate::address;
use crate::args;
use crate::args::{Grammar, Item, Kind, OptRule, Rules};
use crate::codec;
use crate::digits;
use crate::gitutil;
use crate::hash;
use crate::keys;
use crate::keys::WorkingIdentity;
use crate::rpc;
use crate::rsg;
use crate::rsg::Encoding;
use crate::text;

verus! {

pub const DEFAULT_ASPECTS: &'static str = "rns.id";

/// How much of a file is encrypted at a time.
pub const ENC_CHUNK: usize = 16777216;

/// How much of a file is decrypted at a time.
pub const DEC_CHUNK: usize = 16777344;

pub const R_OK: i32 = 0;

pub const R_NO_IDENTITY: i32 = 2;

pub const R_NO_PRVKEY: i32 = 4;

pub const R_NO_FILE: i32 = 6;

pub const R_INVALID_FILE: i32 = 7;

pub const R_INVALID_IDENTITY: i32 = 8;

pub const R_INVALID_ASPECTS: i32 = 9;

pub const R_INVALID_SIGNATURE: i32 = 10;

pub const R_FILE_EXISTS: i32 = 11;

pub const R_DECRYPT_FAILED: i32 = 12;

pub const R_INVALID_ARGS: i32 = 250;

pub const R_READ_ERROR: i32 = 252;

pub const R_WRITE_ERROR: i32 = 253;

pub const R_UNKNOWN_ERROR: i32 = 254;

/// What went wrong: an exit code and a text.
#[derive(Debug)]
pub struct Failure {
    pub code: i32,
    pub message: String,
}

impl View for Failure {
    type V = (i32, Seq<char>);

    open spec fn view(&self) -> (i32, Seq<char>) {
        (self.code, self.message@)
    }
}

fn failure(code: i32, message: &str) -> (r: Failure)
    ensures
        r@ == (code, message@),
{
    Failure { code, message: message.to_owned() }
}

/// A failure with a text between two others.
fn failure_about(code: i32, before: &str, what: &str, after: &str) -> (r: Failure)
    ensures
        r@ == (code, before@ + what@ + after@),
{
    Failure { code, message: text::cat3(before, what, after) }
}

// ---------------------------------------------------------------------------
// Command line
// ---------------------------------------------------------------------------

/// What the command line asks for.
#[derive(Debug)]
pub struct Args {
    pub help: bool,
    pub version: bool,
    pub config: Option<String>,
    pub identity: Option<String>,
    pub generate: Option<String>,
    pub import_pub: Option<String>,
    pub import_prv: Option<String>,
    pub export_pub: bool,
    pub export_prv: bool,
    pub verbose: u8,
    pub quiet: u8,
    pub announce: Option<String>,
    pub hash: Option<String>,
    pub decrypt: Option<Vec<String>>,
    pub encrypt: Option<Vec<String>>,
    pub validate: Option<Vec<String>>,
    pub sign: Option<Vec<String>>,
    pub sign_message: Option<Option<String>>,
    pub embed_meta: Option<String>,
    pub meta_spec: Option<String>,
    pub raw: bool,
    pub write: Option<String>,
    pub read: Option<String>,
    pub force: bool,
    pub stdin: bool,
    pub stdout: bool,
    pub request: bool,
    pub no_cache: bool,
    pub timeout: Option<String>,
    pub print_identity: bool,
    pub print_private: bool,
    pub base32: bool,
    pub base64: bool,
    pub base256: bool,
    pub hex: bool,
    pub meta: bool,
}

/// The options.
pub open spec fn rules() -> Rules {
    Rules {
        opts: seq![
            args::rule("-h"@, "--help"@, Kind::Stop),
            args::rule("--version"@, "--version"@, Kind::Stop),
            args::rule("--config"@, "--config"@, Kind::Text),
            args::rule("-i"@, "--identity"@, Kind::Text),
            args::rule("-g"@, "--generate"@, Kind::Text),
            args::rule("-m"@, "--import-pub"@, Kind::Text),
            args::rule("-M"@, "--import-prv"@, Kind::Text),
            args::rule("-x"@, "--export-pub"@, Kind::Flag),
            args::rule("-X"@, "--export-prv"@, Kind::Flag),
            args::rule("-v"@, "--verbose"@, Kind::Flag),
            args::rule("-q"@, "--quiet"@, Kind::Flag),
            args::rule("-a"@, "--announce"@, Kind::Optional),
            args::rule("-H"@, "--hash"@, Kind::Text),
            args::rule("-d"@, "--decrypt"@, Kind::Many),
            args::rule("-e"@, "--encrypt"@, Kind::Many),
            args::rule("-V"@, "--validate"@, Kind::Many),
            args::rule("-s"@, "--sign"@, Kind::Many),
            args::rule("-S"@, "--sign-message"@, Kind::Optional),
            args::rule("-E"@, "--embed-meta"@, Kind::Optional),
            args::rule("--meta-spec"@, "--meta-spec"@, Kind::Text),
            args::rule("--raw"@, "--raw"@, Kind::Flag),
            args::rule("-w"@, "--write"@, Kind::Text),
            args::rule("-r"@, "--read"@, Kind::Text),
            args::rule("-f"@, "--force"@, Kind::Flag),
            args::rule("-I"@, "--stdin"@, Kind::Flag),
            args::rule("-O"@, "--stdout"@, Kind::Flag),
            args::rule("-R"@, "--request"@, Kind::Flag),
            args::rule("-N"@, "--no-cache"@, Kind::Flag),
            OptRule { short: "-t"@, long: "-t"@, kind: Kind::Decimal, bad: "Invalid timeout"@ },
            args::rule("-p"@, "--print-identity"@, Kind::Flag),
            args::rule("-P"@, "--print-private"@, Kind::Flag),
            args::rule("-B"@, "--base32"@, Kind::Flag),
            args::rule("-b"@, "--base64"@, Kind::Flag),
            args::rule("-U"@, "--base256"@, Kind::Flag),
            args::rule("-F"@, "--hex"@, Kind::Flag),
            args::rule("--meta"@, "--meta"@, Kind::Flag),
        ],
        missing: ("argument "@, " expected one value"@),
        unknown: "unrecognized argument: "@,
        extra: None,
    }
}

fn grammar() -> (r: Grammar)
    ensures
        r@ == rules(),
{
    let g = Grammar {
        opts: vec![
            args::opt("-h", "--help", Kind::Stop, ""),
            args::opt("--version", "--version", Kind::Stop, ""),
            args::opt("--config", "--config", Kind::Text, ""),
            args::opt("-i", "--identity", Kind::Text, ""),
            args::opt("-g", "--generate", Kind::Text, ""),
            args::opt("-m", "--import-pub", Kind::Text, ""),
            args::opt("-M", "--import-prv", Kind::Text, ""),
            args::opt("-x", "--export-pub", Kind::Flag, ""),
            args::opt("-X", "--export-prv", Kind::Flag, ""),
            args::opt("-v", "--verbose", Kind::Flag, ""),
            args::opt("-q", "--quiet", Kind::Flag, ""),
            args::opt("-a", "--announce", Kind::Optional, ""),
            args::opt("-H", "--hash", Kind::Text, ""),
            args::opt("-d", "--decrypt", Kind::Many, ""),
            args::opt("-e", "--encrypt", Kind::Many, ""),
            args::opt("-V", "--validate", Kind::Many, ""),
            args::opt("-s", "--sign", Kind::Many, ""),
            args::opt("-S", "--sign-message", Kind::Optional, ""),
            args::opt("-E", "--embed-meta", Kind::Optional, ""),
            args::opt("--meta-spec", "--meta-spec", Kind::Text, ""),
            args::opt("--raw", "--raw", Kind::Flag, ""),
            args::opt("-w", "--write", Kind::Text, ""),
            args::opt("-r", "--read", Kind::Text, ""),
            args::opt("-f", "--force", Kind::Flag, ""),
            args::opt("-I", "--stdin", Kind::Flag, ""),
            args::opt("-O", "--stdout", Kind::Flag, ""),
            args::opt("-R", "--request", Kind::Flag, ""),
            args::opt("-N", "--no-cache", Kind::Flag, ""),
            args::opt("-t", "-t", Kind::Decimal, "Invalid timeout"),
            args::opt("-p", "--print-identity", Kind::Flag, ""),
            args::opt("-P", "--print-private", Kind::Flag, ""),
            args::opt("-B", "--base32", Kind::Flag, ""),
            args::opt("-b", "--base64", Kind::Flag, ""),
            args::opt("-U", "--base256", Kind::Flag, ""),
            args::opt("-F", "--hex", Kind::Flag, ""),
            args::opt("--meta", "--meta", Kind::Flag, ""),
        ],
        missing: ("argument ", " expected one value"),
        unknown: "unrecognized argument: ",
        extra: None,
    };
    assert(g@.opts =~= rules().opts);
    g
}

/// The texts inside an option, over sequences.
pub open spec fn many_view(o: Option<Vec<String>>) -> Option<Seq<Seq<char>>> {
    match o {
        Some(v) => Some(text::views(v@)),
        None => None,
    }
}

/// A text that may be missing inside an option, over sequences.
pub open spec fn optional_view(o: Option<Option<String>>) -> Option<Option<Seq<char>>> {
    match o {
        Some(v) => Some(args::opt_text(v)),
        None => None,
    }
}

/// How often an option was given, up to 255.
pub open spec fn level(ts: Seq<Item>, name: Seq<char>) -> nat {
    if args::count(ts, name) > 255 {
        255
    } else {
        args::count(ts, name)
    }
}

/// The command line says what the tokens say.
pub open spec fn args_say(a: Args, ts: Seq<Item>) -> bool {
    &&& a.help == (args::count(ts, "--help"@) > 0)
    &&& a.version == (args::count(ts, "--version"@) > 0)
    &&& args::opt_text(a.config) == args::last_value(ts, "--config"@)
    &&& args::opt_text(a.identity) == args::last_value(ts, "--identity"@)
    &&& args::opt_text(a.generate) == args::last_value(ts, "--generate"@)
    &&& args::opt_text(a.import_pub) == args::last_value(ts, "--import-pub"@)
    &&& args::opt_text(a.import_prv) == args::last_value(ts, "--import-prv"@)
    &&& a.export_pub == (args::count(ts, "--export-pub"@) > 0)
    &&& a.export_prv == (args::count(ts, "--export-prv"@) > 0)
    &&& a.verbose == level(ts, "--verbose"@)
    &&& a.quiet == level(ts, "--quiet"@)
    &&& args::opt_text(a.announce) == (match args::last_optional(ts, "--announce"@) {
        Some(Some(v)) => Some(v),
        Some(None) => Some(DEFAULT_ASPECTS@),
        None => None,
    })
    &&& args::opt_text(a.hash) == args::last_value(ts, "--hash"@)
    &&& many_view(a.decrypt) == args::last_many(ts, "--decrypt"@)
    &&& many_view(a.encrypt) == args::last_many(ts, "--encrypt"@)
    &&& many_view(a.validate) == args::last_many(ts, "--validate"@)
    &&& many_view(a.sign) == args::last_many(ts, "--sign"@)
    &&& optional_view(a.sign_message) == args::last_optional(ts, "--sign-message"@)
    &&& args::opt_text(a.embed_meta) == (match args::last_optional(ts, "--embed-meta"@) {
        Some(v) => v,
        None => None,
    })
    &&& args::opt_text(a.meta_spec) == args::last_value(ts, "--meta-spec"@)
    &&& a.raw == (args::count(ts, "--raw"@) > 0)
    &&& args::opt_text(a.write) == args::last_value(ts, "--write"@)
    &&& args::opt_text(a.read) == args::last_value(ts, "--read"@)
    &&& a.force == (args::count(ts, "--force"@) > 0)
    &&& a.stdin == (args::count(ts, "--stdin"@) > 0)
    &&& a.stdout == (args::count(ts, "--stdout"@) > 0)
    &&& a.request == (args::count(ts, "--request"@) > 0)
    &&& a.no_cache == (args::count(ts, "--no-cache"@) > 0)
    &&& args::opt_text(a.timeout) == args::last_value(ts, "-t"@)
    &&& a.print_identity == (args::count(ts, "--print-identity"@) > 0)
    &&& a.print_private == (args::count(ts, "--print-private"@) > 0)
    &&& a.base32 == (args::count(ts, "--base32"@) > 0)
    &&& a.base64 == (args::count(ts, "--base64"@) > 0)
    &&& a.base256 == (args::count(ts, "--base256"@) > 0)
    &&& a.hex == (args::count(ts, "--hex"@) > 0)
    &&& a.meta == (args::count(ts, "--meta"@) > 0)
}

fn level_of(ts: &Vec<args::Token>, name: &str) -> (r: u8)
    ensures
        r == level(args::items(ts@), name@),
{
    let n: usize = args::count_of(ts, name);
    if n > 255 {
        255
    } else {
        n as u8
    }
}

/// Reads the command line.
pub fn parse_args(raw: &[String]) -> (r: Result<Args, Failure>)
    ensures
        match args::scanned(text::views(raw@), rules(), Seq::empty()) {
            Ok(ts) => r matches Ok(a) && args_say(a, ts),
            Err(e) => r matches Err(x) && x@ == (R_INVALID_ARGS, e),
        },
{
    let ts = match args::scan(raw, &grammar()) {
        Ok(ts) => ts,
        Err(e) => {
            return Err(Failure { code: R_INVALID_ARGS, message: e });
        },
    };
    let announce = match args::optional_of(&ts, "--announce") {
        Some(Some(v)) => Some(v),
        Some(None) => Some(DEFAULT_ASPECTS.to_owned()),
        None => None,
    };
    let embed_meta = match args::optional_of(&ts, "--embed-meta") {
        Some(v) => v,
        None => None,
    };
    Ok(
        Args {
            help: args::has(&ts, "--help"),
            version: args::has(&ts, "--version"),
            config: args::value_of(&ts, "--config"),
            identity: args::value_of(&ts, "--identity"),
            generate: args::value_of(&ts, "--generate"),
            import_pub: args::value_of(&ts, "--import-pub"),
            import_prv: args::value_of(&ts, "--import-prv"),
            export_pub: args::has(&ts, "--export-pub"),
            export_prv: args::has(&ts, "--export-prv"),
            verbose: level_of(&ts, "--verbose"),
            quiet: level_of(&ts, "--quiet"),
            announce,
            hash: args::value_of(&ts, "--hash"),
            decrypt: args::many_of(&ts, "--decrypt"),
            encrypt: args::many_of(&ts, "--encrypt"),
            validate: args::many_of(&ts, "--validate"),
            sign: args::many_of(&ts, "--sign"),
            sign_message: args::optional_of(&ts, "--sign-message"),
            embed_meta,
            meta_spec: args::value_of(&ts, "--meta-spec"),
            raw: args::has(&ts, "--raw"),
            write: args::value_of(&ts, "--write"),
            read: args::value_of(&ts, "--read"),
            force: args::has(&ts, "--force"),
            stdin: args::has(&ts, "--stdin"),
            stdout: args::has(&ts, "--stdout"),
            request: args::has(&ts, "--request"),
            no_cache: args::has(&ts, "--no-cache"),
            timeout: args::value_of(&ts, "-t"),
            print_identity: args::has(&ts, "--print-identity"),
            print_private: args::has(&ts, "--print-private"),
            base32: args::has(&ts, "--base32"),
            base64: args::has(&ts, "--base64"),
            base256: args::has(&ts, "--base256"),
            hex: args::has(&ts, "--hex"),
            meta: args::has(&ts, "--meta"),
        },
    )
}

/// One where it holds.
pub open spec fn one(b: bool) -> nat {
    if b {
        1
    } else {
        0
    }
}

/// What is wrong with what the command line asks for.
pub open spec fn complaint(a: Args) -> Option<Seq<char>> {
    if one(a.encrypt is Some) + one(a.decrypt is Some) + one(a.validate is Some) + one(
        a.sign is Some,
    ) + one(a.sign_message is Some) > 1 {
        Some(
            "This utility currently only supports one of the encrypt, decrypt, sign or verify operations per invocation"@,
        )
    } else if one(a.import_pub is Some) + one(a.import_prv is Some) + one(a.identity is Some) + one(
        a.generate is Some,
    ) > 1 {
        Some("The -i, -g, -m and -M args are mutually exclusive"@)
    } else if one(a.base64) + one(a.base32) + one(a.base256) + one(a.hex) > 1 {
        Some("The -b, -B, --hex and --base256 args are mutually exclusive"@)
    } else {
        None
    }
}

fn counted(b: bool) -> (r: u8)
    ensures
        r == one(b),
{
    if b {
        1
    } else {
        0
    }
}

/// Checks what the command line asks for.
pub fn validate_args(a: &Args) -> (r: Result<(), Failure>)
    ensures
        match r {
            Ok(_) => complaint(*a) is None,
            Err(e) => complaint(*a) is Some && e@ == (1i32, complaint(*a)->0),
        },
{
    let ops: u8 = counted(a.encrypt.is_some()) + counted(a.decrypt.is_some()) + counted(
        a.validate.is_some(),
    ) + counted(a.sign.is_some()) + counted(a.sign_message.is_some());
    if ops > 1 {
        return Err(
            failure(
                1,
                "This utility currently only supports one of the encrypt, decrypt, sign or verify operations per invocation",
            ),
        );
    }
    let ids: u8 = counted(a.import_pub.is_some()) + counted(a.import_prv.is_some()) + counted(
        a.identity.is_some(),
    ) + counted(a.generate.is_some());
    if ids > 1 {
        return Err(failure(1, "The -i, -g, -m and -M args are mutually exclusive"));
    }
    let encodings: u8 = counted(a.base64) + counted(a.base32) + counted(a.base256) + counted(
        a.hex,
    );
    if encodings > 1 {
        return Err(failure(1, "The -b, -B, --hex and --base256 args are mutually exclusive"));
    }
    Ok(())
}

/// Something is asked for that needs an identity.
pub open spec fn identity_needed(a: Args) -> bool {
    a.sign is Some || a.sign_message is Some || a.encrypt is Some || a.decrypt is Some
        || a.announce is Some || a.write is Some || a.print_identity || a.export_pub || a.export_prv
}

/// Whether something is asked for that needs an identity.
pub fn needs_identity(a: &Args) -> (r: bool)
    ensures
        r == identity_needed(*a),
{
    a.sign.is_some() || a.sign_message.is_some() || a.encrypt.is_some() || a.decrypt.is_some()
        || a.announce.is_some() || a.write.is_some() || a.print_identity || a.export_pub
        || a.export_prv
}

/// One thing that a run does.
#[derive(Debug, Clone, Copy, PartialEq, Eq, Structural)]
pub enum Task {
    PrintIdentity,
    ExportPublic,
    ExportPrivate,
    ShowHash,
    /// End with the error that announcing is not supported.
    RefuseAnnounce,
    Validate,
    Sign,
    SignMessage,
    Encrypt,
    Decrypt,
    WriteIdentity,
    ShowHelp,
}

/// A task, where it is asked for.
pub open spec fn only(asked: bool, t: Task) -> Seq<Task> {
    if asked {
        seq![t]
    } else {
        Seq::empty()
    }
}

/// The tasks that come before announcing.
pub open spec fn first_tasks(a: Args) -> Seq<Task> {
    only(a.export_pub, Task::ExportPublic) + only(a.export_prv, Task::ExportPrivate) + only(
        a.hash is Some,
        Task::ShowHash,
    )
}

/// All tasks where nothing is announced.
pub open spec fn all_tasks(a: Args) -> Seq<Task> {
    first_tasks(a) + only(a.validate is Some, Task::Validate) + only(a.sign is Some, Task::Sign)
        + only(a.sign_message is Some, Task::SignMessage) + only(
        a.encrypt is Some,
        Task::Encrypt,
    ) + only(a.decrypt is Some, Task::Decrypt) + only(a.write is Some, Task::WriteIdentity)
}

/// What a run does, in order: all that is asked for, up to a refusal to announce.
/// A run that prints the identity does nothing else. Where nothing is asked for,
/// not even a new identity, it shows help.
pub open spec fn tasks(a: Args) -> Seq<Task> {
    if a.print_identity {
        seq![Task::PrintIdentity]
    } else if a.announce is Some {
        first_tasks(a).push(Task::RefuseAnnounce)
    } else {
        if all_tasks(a).len() == 0 && a.generate is None {
            seq![Task::ShowHelp]
        } else {
            all_tasks(a)
        }
    }
}

fn add(list: &mut Vec<Task>, asked: bool, t: Task)
    ensures
        final(list)@ == old(list)@ + only(asked, t),
{
    if asked {
        list.push(t);
    }
    assert(list@ =~= old(list)@ + only(asked, t));
}

fn plan_first(a: &Args) -> (r: Vec<Task>)
    ensures
        r@ == first_tasks(*a),
{
    let mut list: Vec<Task> = Vec::new();
    self::add(&mut list, a.export_pub, Task::ExportPublic);
    assert(list@ =~= only(a.export_pub, Task::ExportPublic));
    self::add(&mut list, a.export_prv, Task::ExportPrivate);
    self::add(&mut list, a.hash.is_some(), Task::ShowHash);
    list
}

fn plan_rest(a: &Args, list: &mut Vec<Task>)
    requires
        old(list)@ == first_tasks(*a),
    ensures
        final(list)@ == all_tasks(*a),
{
    self::add(list, a.validate.is_some(), Task::Validate);
    self::add(list, a.sign.is_some(), Task::Sign);
    self::add(list, a.sign_message.is_some(), Task::SignMessage);
    self::add(list, a.encrypt.is_some(), Task::Encrypt);
    self::add(list, a.decrypt.is_some(), Task::Decrypt);
    self::add(list, a.write.is_some(), Task::WriteIdentity);
}

/// Plans a run. `found` says that there is an identity to work with, without which
/// a run that needs one is refused.
pub fn plan(a: &Args, found: bool) -> (r: Result<Vec<Task>, Failure>)
    ensures
        match r {
            Ok(v) => (identity_needed(*a) ==> found) && v@ == tasks(*a),
            Err(e) => identity_needed(*a) && !found && e@ == (
                R_NO_IDENTITY,
                "Could not get working identity"@,
            ),
        },
{
    if needs_identity(a) && !found {
        return Err(failure(R_NO_IDENTITY, "Could not get working identity"));
    }
    if a.print_identity {
        return Ok(vec![Task::PrintIdentity]);
    }
    let mut list = plan_first(a);
    if a.announce.is_some() {
        list.push(Task::RefuseAnnounce);
        return Ok(list);
    }
    plan_rest(a, &mut list);
    if list.len() == 0 && a.generate.is_none() {
        list.push(Task::ShowHelp);
        assert(list@ =~= seq![Task::ShowHelp]);
    }
    Ok(list)
}

/// A run without an identity does nothing that works with one.
pub proof fn law_tasks_have_their_identity(a: Args, i: int)
    requires
        !identity_needed(a),
        0 <= i < tasks(a).len(),
    ensures
        tasks(a)[i] == Task::ShowHash || tasks(a)[i] == Task::Validate || tasks(a)[i]
            == Task::ShowHelp,
{
}

/// How signed data is put out.
pub open spec fn encoding_of(a: Args) -> Encoding {
    if a.base32 {
        Encoding::Base32
    } else if a.base64 {
        Encoding::Base64
    } else if a.base256 {
        Encoding::Base256
    } else if a.hex {
        Encoding::Hex
    } else {
        Encoding::Bin
    }
}

/// How signed data is put out.
pub fn output_encoding(a: &Args) -> (r: Encoding)
    ensures
        r == encoding_of(*a),
{
    if a.base32 {
        Encoding::Base32
    } else if a.base64 {
        Encoding::Base64
    } else if a.base256 {
        Encoding::Base256
    } else if a.hex {
        Encoding::Hex
    } else {
        Encoding::Bin
    }
}

/// Keys as they are shown.
pub open spec fn key_text(a: Args, b: Seq<u8>) -> Seq<char> {
    if a.base64 {
        codec::base64(b)
    } else if a.base32 {
        codec::base32(b)
    } else if a.base256 {
        codec::base256(b)
    } else {
        digits::hex_text(b)
    }
}

/// Keys as they are shown.
pub fn encode_key(a: &Args, b: &[u8]) -> (r: String)
    ensures
        r@ == key_text(*a, b@),
{
    if a.base64 {
        codec::base64_encode(b)
    } else if a.base32 {
        codec::base32_encode(b)
    } else if a.base256 {
        codec::base256_encode(b)
    } else {
        digits::hex_encode(b)
    }
}

/// A path as it is meant: `~/` stands for the home directory, where that is known.
pub open spec fn expanded(input: Seq<char>, home: Option<Seq<char>>) -> Seq<char> {
    match (text::after(input, "~/"@), home) {
        (Some(rest), Some(h)) => if rest.len() > 0 && rest[0] == '/' {
            rest
        } else {
            text::below(h, rest)
        },
        _ => input,
    }
}

/// A path as it is meant.
pub fn expand_home(input: &str, home: Option<&str>) -> (r: String)
    ensures
        r@ == expanded(input@, gitutil::option_view(home)),
{
    match (text::strip_prefix(input, "~/"), home) {
        (Some(rest), Some(h)) => {
            let v = text::chars(rest.as_str());
            if v.len() > 0 && v[0] == '/' {
                rest
            } else {
                text::join_path(h, rest.as_str())
            }
        },
        _ => input.to_owned(),
    }
}

// ---------------------------------------------------------------------------
// Hexadecimal input
// ---------------------------------------------------------------------------

/// Bytes that are given in hexadecimal, with white space around them, or what is
/// wrong with them.
pub open spec fn hex_given(s: Seq<char>) -> Result<Seq<u8>, (i32, Seq<char>)> {
    match rpc::given(s) {
        Some(b) => Ok(b),
        None => if vstd::utf8::encode_utf8(text::trimmed(s)).len() % 2 != 0 {
            Err((R_INVALID_IDENTITY, "Invalid hexadecimal input"@))
        } else {
            Err((R_INVALID_IDENTITY, "Invalid hexadecimal input: invalid digit found in string"@))
        },
    }
}

/// Reads bytes that are given in hexadecimal.
pub fn decode_hex(input: &str) -> (r: Result<Vec<u8>, Failure>)
    ensures
        match r {
            Ok(b) => hex_given(input@) == Ok::<_, (i32, Seq<char>)>(b@),
            Err(e) => hex_given(input@) == Err::<Seq<u8>, _>(e@),
        },
{
    match rpc::decode_hex(input) {
        Some(b) => Ok(b),
        None => {
            let t = text::trim(input);
            if text::utf8(t.as_str()).len() % 2 != 0 {
                Err(failure(R_INVALID_IDENTITY, "Invalid hexadecimal input"))
            } else {
                Err(
                    failure(
                        R_INVALID_IDENTITY,
                        "Invalid hexadecimal input: invalid digit found in string",
                    ),
                )
            }
        },
    }
}

// ---------------------------------------------------------------------------
// Which identity
// ---------------------------------------------------------------------------

/// Where the identity to work with comes from.
#[derive(Debug, Clone, Copy, PartialEq, Eq, Structural)]
pub enum Source {
    /// It is made anew and written to the file.
    Generate,
    /// It is read from the file.
    Load,
    /// Its public keys are imported.
    ImportPub,
    /// Its private keys are imported.
    ImportPrv,
    /// There is none.
    Nowhere,
}

/// What is known of a path: whether there is something, and whether that is a
/// file.
#[derive(Debug, Clone, Copy, PartialEq, Eq, Structural)]
pub struct PathFacts {
    pub exists: bool,
    pub is_file: bool,
}

/// Where the identity to work with comes from. `path` is the path that the option
/// for it means.
pub open spec fn source_of(
    a: Args,
    path: Seq<char>,
    facts: PathFacts,
    allow_none: bool,
) -> Result<Source, (i32, Seq<char>)> {
    if a.generate is Some {
        if facts.exists && !a.force {
            Err(
                (
                    R_FILE_EXISTS,
                    "Identity file "@ + path + " already exists. Not overwriting."@,
                ),
            )
        } else {
            Ok(Source::Generate)
        }
    } else if a.identity is Some && facts.is_file {
        Ok(Source::Load)
    } else if a.identity is Some && a.no_cache {
        if allow_none {
            Ok(Source::Nowhere)
        } else {
            Err((R_NO_IDENTITY, "Could not resolve identity"@))
        }
    } else if a.identity is Some && vstd::utf8::encode_utf8((a.identity->0)@).len() == 32 {
        if allow_none && !a.request {
            Ok(Source::Nowhere)
        } else {
            match hex_given((a.identity->0)@) {
                Err(e) => Err(e),
                Ok(b) => Err(
                    (
                        R_NO_IDENTITY,
                        "Could not recall Identity for "@ + rpc::shown(b)
                            + ".\nYou can query the network for unknown Identities with the -R option."@,
                    ),
                ),
            }
        }
    } else if a.import_pub is Some {
        Ok(Source::ImportPub)
    } else if a.import_prv is Some {
        Ok(Source::ImportPrv)
    } else {
        Ok(Source::Nowhere)
    }
}

/// Where the identity to work with comes from.
pub fn get_operating_identity(a: &Args, path: &str, facts: PathFacts, allow_none: bool) -> (r: Result<
    Source,
    Failure,
>)
    ensures
        match r {
            Ok(s) => source_of(*a, path@, facts, allow_none) == Ok::<_, (i32, Seq<char>)>(s),
            Err(e) => source_of(*a, path@, facts, allow_none) == Err::<Source, _>(e@),
        },
{
    if a.generate.is_some() {
        if facts.exists && !a.force {
            return Err(
                failure_about(
                    R_FILE_EXISTS,
                    "Identity file ",
                    path,
                    " already exists. Not overwriting.",
                ),
            );
        }
        return Ok(Source::Generate);
    }
    if let Some(input) = &a.identity {
        if facts.is_file {
            return Ok(Source::Load);
        }
        if a.no_cache {
            return if allow_none {
                Ok(Source::Nowhere)
            } else {
                Err(failure(R_NO_IDENTITY, "Could not resolve identity"))
            };
        }
        if text::utf8(input.as_str()).len() == 32 {
            if allow_none && !a.request {
                return Ok(Source::Nowhere);
            }
            let b = match decode_hex(input.as_str()) {
                Ok(b) => b,
                Err(e) => {
                    return Err(e);
                },
            };
            let h = rpc::pretty_hex(b.as_slice());
            return Err(
                failure_about(
                    R_NO_IDENTITY,
                    "Could not recall Identity for ",
                    h.as_str(),
                    ".\nYou can query the network for unknown Identities with the -R option.",
                ),
            );
        }
    }
    if a.import_pub.is_some() {
        return Ok(Source::ImportPub);
    }
    if a.import_prv.is_some() {
        return Ok(Source::ImportPrv);
    }
    Ok(Source::Nowhere)
}

/// Where imported keys were found.
#[derive(Debug, Clone, Copy, PartialEq, Eq, Structural)]
pub enum Origin {
    File,
    Hex,
    Base32,
    Base64,
    Base256,
}

/// The bytes have the size that is wanted.
pub open spec fn sized(b: Option<Seq<u8>>, size: nat) -> bool {
    b is Some && b->0.len() == size
}

/// The keys that a text gives in hexadecimal, where it has just the digits for
/// them.
pub open spec fn keys_in_hex(input: Seq<char>, size: nat) -> Option<Seq<u8>> {
    if vstd::utf8::encode_utf8(input).len() == 2 * size && sized(rpc::given(input), size) {
        rpc::given(input)
    } else {
        None
    }
}

/// The keys that a text or a file gives, and how: from the file where it has the
/// size, else from the text, in hexadecimal, base 32, base 64 or base 256, the
/// first of them that gives the size.
pub open spec fn keys_given(input: Seq<char>, file: Option<Seq<u8>>, size: nat) -> Option<
    (Seq<u8>, Origin),
> {
    if sized(file, size) {
        Some((file->0, Origin::File))
    } else if keys_in_hex(input, size) is Some {
        Some((keys_in_hex(input, size)->0, Origin::Hex))
    } else if sized(codec::base32_bytes(input), size) {
        Some((codec::base32_bytes(input)->0, Origin::Base32))
    } else if sized(codec::base64_bytes(input), size) {
        Some((codec::base64_bytes(input)->0, Origin::Base64))
    } else if sized(codec::base256_bytes(input), size) {
        Some((codec::base256_bytes(input)->0, Origin::Base256))
    } else {
        None
    }
}

/// Keys that are shown in hexadecimal are read as they were, where no file has the
/// name.
pub proof fn law_hex_keys_are_read_back(b: Seq<u8>)
    ensures
        keys_given(digits::hex_text(b), None, b.len()) == Some((b, Origin::Hex)),
{
    rpc::law_hex_is_read_back(b);
    rpc::lemma_hex_text(b);
    vstd::utf8::is_ascii_chars_encode_utf8(digits::hex_text(b));
}

/// The keys of an identity that are shown in base 32 are read as they were, where
/// no file has the name.
pub proof fn law_base32_keys_are_read_back(b: Seq<u8>)
    requires
        b.len() == 64,
    ensures
        keys_given(codec::base32(b), None, 64) == Some((b, Origin::Base32)),
{
    codec::law_base32_round_trip(b);
    codec::lemma_base32_len(b);
    vstd::utf8::is_ascii_chars_encode_utf8(codec::base32(b));
}

/// Where imported keys were found, in words.
pub open spec fn origin_text(o: Origin, path: Seq<char>) -> Seq<char> {
    match o {
        Origin::File => "Reticulum Identity imported from "@ + path,
        Origin::Hex => "Reticulum Identity imported from hex input"@,
        Origin::Base32 => "Reticulum Identity imported from base32 input"@,
        Origin::Base64 => "Reticulum Identity imported from base64 input"@,
        Origin::Base256 => "Reticulum Identity imported from base256 input"@,
    }
}

/// Where imported keys were found, in words.
pub fn describe_origin(o: Origin, path: &str) -> (r: String)
    ensures
        r@ == origin_text(o, path@),
{
    match o {
        Origin::File => text::cat("Reticulum Identity imported from ", path),
        Origin::Hex => "Reticulum Identity imported from hex input".to_owned(),
        Origin::Base32 => "Reticulum Identity imported from base32 input".to_owned(),
        Origin::Base64 => "Reticulum Identity imported from base64 input".to_owned(),
        Origin::Base256 => "Reticulum Identity imported from base256 input".to_owned(),
    }
}

/// Reads the keys that a text or a file gives. `file` is what the file holds that
/// the text means as a path, where there is one. The keys of an identity that are
/// shown in base 64 are read as they were, where nothing that comes before gives
/// any.
pub fn decode_identity_input(input: &str, file: Option<Vec<u8>>, size: usize, public: bool) -> (r:
    Result<(Vec<u8>, Origin), Failure>)
    requires
        2 * size <= usize::MAX,
    ensures
        match r {
            Ok((b, o)) => keys_given(input@, gitutil::bytes_view(file), size as nat) == Some((b@, o))
                && b@.len() == size,
            Err(e) => keys_given(input@, gitutil::bytes_view(file), size as nat) is None && e@ == (
                R_INVALID_IDENTITY,
                if public {
                    "Could not decode specified data to a valid public Reticulum Identity"@
                } else {
                    "Could not decode specified data to a valid private Reticulum Identity"@
                },
            ),
        },
        forall|b: Seq<u8>|
            b.len() == 64 && size == 64 && input@ == #[trigger] codec::base64(b) && keys_in_hex(
                input@,
                64,
            ) is None && !sized(codec::base32_bytes(input@), 64) && !sized(
                gitutil::bytes_view(file),
                64,
            ) ==> (r matches Ok((x, _)) && x@ == b),
{
    if let Some(b) = file {
        if b.len() == size {
            return Ok((b, Origin::File));
        }
    }
    if text::utf8(input).len() == 2 * size {
        if let Some(b) = rpc::decode_hex(input) {
            if b.len() == size {
                return Ok((b, Origin::Hex));
            }
        }
    }
    if let Some(b) = codec::base32_decode(input) {
        if b.len() == size {
            return Ok((b, Origin::Base32));
        }
    }
    if let Some(b) = codec::base64_decode(input) {
        if b.len() == size {
            return Ok((b, Origin::Base64));
        }
    }
    if let Some(b) = codec::base256_decode(input) {
        if b.len() == size {
            return Ok((b, Origin::Base256));
        }
    }
    if public {
        Err(
            failure(
                R_INVALID_IDENTITY,
                "Could not decode specified data to a valid public Reticulum Identity",
            ),
        )
    } else {
        Err(
            failure(
                R_INVALID_IDENTITY,
                "Could not decode specified data to a valid private Reticulum Identity",
            ),
        )
    }
}

/// Takes public keys for an identity.
pub fn public_identity(b: Vec<u8>) -> (r: Result<WorkingIdentity, Failure>)
    requires
        b@.len() == 64,
    ensures
        match r {
            Ok(w) => keys::is_identity(b@) && w@ == keys::Working::Public(b@) && keys::proper(w@),
            Err(e) => !keys::is_identity(b@) && e@ == (
                R_INVALID_IDENTITY,
                "Could not create identity: cryptographic error"@,
            ),
        },
{
    if keys::check_identity(b.as_slice()) {
        Ok(WorkingIdentity::Public(b))
    } else {
        Err(failure(R_INVALID_IDENTITY, "Could not create identity: cryptographic error"))
    }
}

/// The private keys that a file holds: as they are, or in hexadecimal with white
/// space around them.
pub open spec fn file_keys(data: Seq<u8>) -> Option<Seq<u8>> {
    if data.len() == 64 {
        keys::keys_in(digits::hex_text(data))
    } else {
        keys::keys_in(text::trimmed(text::lossy(data)))
    }
}

/// A file of just the keys gives them.
pub proof fn law_key_file_round_trip(data: Seq<u8>)
    requires
        data.len() == 64,
    ensures
        file_keys(data) == Some(data),
{
    digits::law_hex_round_trip(data);
    let t = digits::hex_text(data);
    assert(t.take(128) =~= t);
}

/// Reads private keys from what a file holds.
pub fn read_private_identity(data: &[u8]) -> (r: Result<WorkingIdentity, Failure>)
    ensures
        match r {
            Ok(w) => file_keys(data@) is Some && w@ == keys::Working::Private(file_keys(data@)->0)
                && keys::proper(w@),
            Err(e) => file_keys(data@) is None && e@ == (
                R_INVALID_IDENTITY,
                "Could not load Identity from specified file: IncorrectHash"@,
            ),
        },
{
    let h = if data.len() == 64 {
        digits::hex_encode(data)
    } else {
        let t = text::from_utf8_lossy(data);
        text::trim(t.as_str())
    };
    match keys::private_from_hex(h.as_str()) {
        Some(k) => Ok(WorkingIdentity::Private(k)),
        None => Err(
            failure(
                R_INVALID_IDENTITY,
                "Could not load Identity from specified file: IncorrectHash",
            ),
        ),
    }
}

// ---------------------------------------------------------------------------
// Showing an identity
// ---------------------------------------------------------------------------

/// What is shown of an identity.
pub open spec fn identity_lines(a: Args, w: keys::Working) -> Seq<Seq<char>> {
    let first = seq![
        "Identity Hash : "@ + keys::shown(w),
        "Public Key    : "@ + key_text(a, keys::public_part(w)),
    ];
    match keys::private_part(w) {
        Some(k) => if a.print_private {
            first.push("Private Key   : "@ + key_text(a, k))
        } else {
            first.push("Private Key   : Hidden"@)
        },
        None => first,
    }
}

/// Private keys are shown only where that is asked for.
pub proof fn law_private_keys_stay_hidden(a: Args, w: keys::Working)
    requires
        !a.print_private,
        keys::private_part(w) is Some,
    ensures
        identity_lines(a, w) == seq![
            "Identity Hash : "@ + keys::shown(w),
            "Public Key    : "@ + key_text(a, keys::public_part(w)),
            "Private Key   : Hidden"@,
        ],
{
    assert(identity_lines(a, w) =~= seq![
        "Identity Hash : "@ + keys::shown(w),
        "Public Key    : "@ + key_text(a, keys::public_part(w)),
        "Private Key   : Hidden"@,
    ]);
}

/// What is shown of an identity.
pub fn print_identity_information(a: &Args, w: &WorkingIdentity) -> (r: Vec<String>)
    requires
        keys::proper(w@),
    ensures
        text::views(r@) == identity_lines(*a, w@),
{
    let mut out: Vec<String> = Vec::new();
    out.push(text::cat("Identity Hash : ", w.text().as_str()));
    let p = w.public_key_bytes();
    let k = encode_key(a, p.as_slice());
    out.push(text::cat("Public Key    : ", k.as_str()));
    if let Some(private) = w.private() {
        if a.print_private {
            let k = encode_key(a, private.as_slice());
            out.push(text::cat("Private Key   : ", k.as_str()));
        } else {
            out.push("Private Key   : Hidden".to_owned());
        }
    }
    assert(text::views(out@) =~= identity_lines(*a, w@));
    out
}

/// The line that exports public keys.
pub fn export_pub_identity(a: &Args, w: &WorkingIdentity) -> (r: String)
    requires
        keys::proper(w@),
    ensures
        r@ == "Public Identity Keys  : "@ + key_text(*a, keys::public_part(w@)),
{
    let p = w.public_key_bytes();
    let k = encode_key(a, p.as_slice());
    text::cat("Public Identity Keys  : ", k.as_str())
}

/// The line that exports private keys.
pub fn export_prv_identity(a: &Args, w: &WorkingIdentity) -> (r: Result<String, Failure>)
    ensures
        match keys::private_part(w@) {
            Some(k) => r matches Ok(t) && t@ == "Private Identity Keys : "@ + key_text(*a, k),
            None => r matches Err(e) && e@ == (
                R_NO_PRVKEY,
                "Identity doesn't hold a private key, cannot export"@,
            ),
        },
{
    match w.private() {
        Some(p) => {
            let k = encode_key(a, p.as_slice());
            Ok(text::cat("Private Identity Keys : ", k.as_str()))
        },
        None => Err(failure(R_NO_PRVKEY, "Identity doesn't hold a private key, cannot export")),
    }
}

/// The application and the aspects that a name holds: what stands before its first
/// point, and what stands after.
pub open spec fn aspects_in(s: Seq<char>) -> (Seq<char>, Seq<char>) {
    match text::halves(s, '.') {
        Some((a, b)) => (a, b),
        None => (s, Seq::empty()),
    }
}

/// Splits a name into the application and the aspects.
pub fn split_aspects(aspects: &str) -> (r: Result<(String, String), Failure>)
    ensures
        match r {
            Ok((a, b)) => (a@, b@) == aspects_in(aspects@) && a@.len() > 0,
            Err(e) => aspects_in(aspects@).0.len() == 0 && e@ == (
                R_INVALID_ASPECTS,
                "Invalid destination aspects specified"@,
            ),
        },
{
    let (app, tail) = match text::split_once(aspects, '.') {
        Some(p) => p,
        None => {
            let e = String::new();
            assert(e@ =~= Seq::empty());
            (aspects.to_owned(), e)
        },
    };
    if app.as_str().is_empty() {
        return Err(failure(R_INVALID_ASPECTS, "Invalid destination aspects specified"));
    }
    Ok((app, tail))
}

/// The hash of the identity that destinations are asked for: of the identity that
/// is worked with, or as it is given.
pub open spec fn asked_hash(w: Option<keys::Working>, given: Option<Seq<char>>) -> Result<
    Seq<u8>,
    (i32, Seq<char>),
> {
    match (w, given) {
        (Some(w), _) => Ok(keys::hash_of(w)),
        (None, Some(s)) => if vstd::utf8::encode_utf8(s).len() != 32 {
            Err((R_INVALID_IDENTITY, "Invalid identity hash length"@))
        } else {
            hex_given(s)
        },
        (None, None) => Err((R_INVALID_IDENTITY, "Invalid identity"@)),
    }
}

/// What is said of a destination.
pub open spec fn destination_lines(
    aspects: Seq<char>,
    w: Option<keys::Working>,
    given: Option<Seq<char>>,
) -> Result<Seq<Seq<char>>, (i32, Seq<char>)> {
    match asked_hash(w, given) {
        Err(e) => Err(e),
        Ok(h) => {
            let (app, tail) = aspects_in(aspects);
            if app.len() == 0 {
                Err((R_INVALID_ASPECTS, "Invalid destination aspects specified"@))
            } else {
                let d = rpc::shown(
                    address::destination_address(address::name_digest(app, tail), h),
                );
                let first = "The "@ + aspects + " destination for this Identity is "@ + d;
                Ok(
                    if w is Some {
                        seq![first, "The full destination specifier is "@ + d]
                    } else {
                        seq![first]
                    },
                )
            }
        },
    }
}

/// An identity inside an option.
pub open spec fn working_view(w: Option<&WorkingIdentity>) -> Option<keys::Working> {
    match w {
        Some(w) => Some(w@),
        None => None,
    }
}

/// What is said of the destination with a name.
pub fn print_hash_information(
    aspects: &str,
    w: Option<&WorkingIdentity>,
    identity_arg: Option<&str>,
) -> (r: Result<Vec<String>, Failure>)
    requires
        w matches Some(x) ==> keys::proper(x@),
    ensures
        match r {
            Ok(v) => destination_lines(aspects@, working_view(w), gitutil::option_view(identity_arg))
                == Ok::<_, (i32, Seq<char>)>(text::views(v@)),
            Err(e) => destination_lines(
                aspects@,
                working_view(w),
                gitutil::option_view(identity_arg),
            ) == Err::<Seq<Seq<char>>, _>(e@),
        },
{
    let h = match w {
        Some(x) => x.identity_hash(),
        None => match identity_arg {
            Some(s) => {
                if text::utf8(s).len() != 32 {
                    return Err(failure(R_INVALID_IDENTITY, "Invalid identity hash length"));
                }
                match decode_hex(s) {
                    Ok(b) => b,
                    Err(e) => {
                        return Err(e);
                    },
                }
            },
            None => {
                return Err(failure(R_INVALID_IDENTITY, "Invalid identity"));
            },
        },
    };
    let (app, tail) = match split_aspects(aspects) {
        Ok(p) => p,
        Err(e) => {
            return Err(e);
        },
    };
    let d = address::destination_hash(app.as_str(), tail.as_str(), h.as_slice());
    let shown = rpc::pretty_hex(d.as_slice());
    let mut out: Vec<String> = Vec::new();
    let mut t = text::cat3("The ", aspects, " destination for this Identity is ");
    t.append(shown.as_str());
    out.push(t);
    if w.is_some() {
        out.push(text::cat("The full destination specifier is ", shown.as_str()));
    }
    proof {
        let want = destination_lines(
            aspects@,
            working_view(w),
            gitutil::option_view(identity_arg),
        )->Ok_0;
        assert(text::views(out@) =~= want);
    }
    Ok(out)
}

} // verus!
