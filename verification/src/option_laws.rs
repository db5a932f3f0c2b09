//! What the options of the programs mean: under which names each is given, and what it
//! sets.

use vstd::prelude::*;

use crate::args::{self, Item, Kind, OptRule};
use crate::digits;
use crate::identity_tool;
use crate::path_tool;
use crate::perf;
use crate::shell_session;
use crate::sniff;
use crate::text;

verus! {

/// A flag counts just where it was given.
proof fn lemma_flag_was_given(ts: Seq<Item>, name: Seq<char>)
    ensures
        (args::count(ts, name) > 0) == ts.contains(Item::Flag(name)),
    decreases ts.len(),
{
    if ts.len() > 0 {
        let before = ts.drop_last();
        lemma_flag_was_given(before, name);
        if before.contains(Item::Flag(name)) {
            let i = choose|i: int| 0 <= i < before.len() && before[i] == Item::Flag(name);
            assert(ts[i] == Item::Flag(name));
        }
        if ts.last() == Item::Flag(name) {
            assert(ts[ts.len() - 1] == Item::Flag(name));
        }
        if ts.contains(Item::Flag(name)) {
            let i = choose|i: int| 0 <= i < ts.len() && ts[i] == Item::Flag(name);
            if i < ts.len() - 1 {
                assert(before[i] == Item::Flag(name));
            }
        }
    }
}

// ---------------------------------------------------------------------------
// The identity tool
// ---------------------------------------------------------------------------

/// The options of the identity tool, under their short and long names, with what follows them.
pub proof fn law_identity_options_have_their_names()
    ensures
        identity_tool::rules().opts.len() == 36,
        identity_tool::rules().opts.contains(args::rule("-h"@, "--help"@, Kind::Stop)),
        identity_tool::rules().opts.contains(args::rule("--version"@, "--version"@, Kind::Stop)),
        identity_tool::rules().opts.contains(args::rule("--config"@, "--config"@, Kind::Text)),
        identity_tool::rules().opts.contains(args::rule("-i"@, "--identity"@, Kind::Text)),
        identity_tool::rules().opts.contains(args::rule("-g"@, "--generate"@, Kind::Text)),
        identity_tool::rules().opts.contains(args::rule("-m"@, "--import-pub"@, Kind::Text)),
        identity_tool::rules().opts.contains(args::rule("-M"@, "--import-prv"@, Kind::Text)),
        identity_tool::rules().opts.contains(args::rule("-x"@, "--export-pub"@, Kind::Flag)),
        identity_tool::rules().opts.contains(args::rule("-X"@, "--export-prv"@, Kind::Flag)),
        identity_tool::rules().opts.contains(args::rule("-v"@, "--verbose"@, Kind::Flag)),
        identity_tool::rules().opts.contains(args::rule("-q"@, "--quiet"@, Kind::Flag)),
        identity_tool::rules().opts.contains(args::rule("-a"@, "--announce"@, Kind::Optional)),
        identity_tool::rules().opts.contains(args::rule("-H"@, "--hash"@, Kind::Text)),
        identity_tool::rules().opts.contains(args::rule("-d"@, "--decrypt"@, Kind::Many)),
        identity_tool::rules().opts.contains(args::rule("-e"@, "--encrypt"@, Kind::Many)),
        identity_tool::rules().opts.contains(args::rule("-V"@, "--validate"@, Kind::Many)),
        identity_tool::rules().opts.contains(args::rule("-s"@, "--sign"@, Kind::Many)),
        identity_tool::rules().opts.contains(args::rule("-S"@, "--sign-message"@, Kind::Optional)),
        identity_tool::rules().opts.contains(args::rule("-E"@, "--embed-meta"@, Kind::Optional)),
        identity_tool::rules().opts.contains(args::rule("--meta-spec"@, "--meta-spec"@, Kind::Text)),
        identity_tool::rules().opts.contains(args::rule("--raw"@, "--raw"@, Kind::Flag)),
        identity_tool::rules().opts.contains(args::rule("-w"@, "--write"@, Kind::Text)),
        identity_tool::rules().opts.contains(args::rule("-r"@, "--read"@, Kind::Text)),
        identity_tool::rules().opts.contains(args::rule("-f"@, "--force"@, Kind::Flag)),
        identity_tool::rules().opts.contains(args::rule("-I"@, "--stdin"@, Kind::Flag)),
        identity_tool::rules().opts.contains(args::rule("-O"@, "--stdout"@, Kind::Flag)),
        identity_tool::rules().opts.contains(args::rule("-R"@, "--request"@, Kind::Flag)),
        identity_tool::rules().opts.contains(args::rule("-N"@, "--no-cache"@, Kind::Flag)),
        identity_tool::rules().opts.contains(
            OptRule { short: "-t"@, long: "-t"@, kind: Kind::Decimal, bad: "Invalid timeout"@ },
        ),
        identity_tool::rules().opts.contains(args::rule("-p"@, "--print-identity"@, Kind::Flag)),
        identity_tool::rules().opts.contains(args::rule("-P"@, "--print-private"@, Kind::Flag)),
        identity_tool::rules().opts.contains(args::rule("-B"@, "--base32"@, Kind::Flag)),
        identity_tool::rules().opts.contains(args::rule("-b"@, "--base64"@, Kind::Flag)),
        identity_tool::rules().opts.contains(args::rule("-U"@, "--base256"@, Kind::Flag)),
        identity_tool::rules().opts.contains(args::rule("-F"@, "--hex"@, Kind::Flag)),
        identity_tool::rules().opts.contains(args::rule("--meta"@, "--meta"@, Kind::Flag)),
{
    let o = identity_tool::rules().opts;
    assert(o[0] == args::rule("-h"@, "--help"@, Kind::Stop));
    assert(o[1] == args::rule("--version"@, "--version"@, Kind::Stop));
    assert(o[2] == args::rule("--config"@, "--config"@, Kind::Text));
    assert(o[3] == args::rule("-i"@, "--identity"@, Kind::Text));
    assert(o[4] == args::rule("-g"@, "--generate"@, Kind::Text));
    assert(o[5] == args::rule("-m"@, "--import-pub"@, Kind::Text));
    assert(o[6] == args::rule("-M"@, "--import-prv"@, Kind::Text));
    assert(o[7] == args::rule("-x"@, "--export-pub"@, Kind::Flag));
    assert(o[8] == args::rule("-X"@, "--export-prv"@, Kind::Flag));
    assert(o[9] == args::rule("-v"@, "--verbose"@, Kind::Flag));
    assert(o[10] == args::rule("-q"@, "--quiet"@, Kind::Flag));
    assert(o[11] == args::rule("-a"@, "--announce"@, Kind::Optional));
    assert(o[12] == args::rule("-H"@, "--hash"@, Kind::Text));
    assert(o[13] == args::rule("-d"@, "--decrypt"@, Kind::Many));
    assert(o[14] == args::rule("-e"@, "--encrypt"@, Kind::Many));
    assert(o[15] == args::rule("-V"@, "--validate"@, Kind::Many));
    assert(o[16] == args::rule("-s"@, "--sign"@, Kind::Many));
    assert(o[17] == args::rule("-S"@, "--sign-message"@, Kind::Optional));
    assert(o[18] == args::rule("-E"@, "--embed-meta"@, Kind::Optional));
    assert(o[19] == args::rule("--meta-spec"@, "--meta-spec"@, Kind::Text));
    assert(o[20] == args::rule("--raw"@, "--raw"@, Kind::Flag));
    assert(o[21] == args::rule("-w"@, "--write"@, Kind::Text));
    assert(o[22] == args::rule("-r"@, "--read"@, Kind::Text));
    assert(o[23] == args::rule("-f"@, "--force"@, Kind::Flag));
    assert(o[24] == args::rule("-I"@, "--stdin"@, Kind::Flag));
    assert(o[25] == args::rule("-O"@, "--stdout"@, Kind::Flag));
    assert(o[26] == args::rule("-R"@, "--request"@, Kind::Flag));
    assert(o[27] == args::rule("-N"@, "--no-cache"@, Kind::Flag));
    assert(o[28] == (OptRule { short: "-t"@, long: "-t"@, kind: Kind::Decimal, bad: "Invalid timeout"@ }));
    assert(o[29] == args::rule("-p"@, "--print-identity"@, Kind::Flag));
    assert(o[30] == args::rule("-P"@, "--print-private"@, Kind::Flag));
    assert(o[31] == args::rule("-B"@, "--base32"@, Kind::Flag));
    assert(o[32] == args::rule("-b"@, "--base64"@, Kind::Flag));
    assert(o[33] == args::rule("-U"@, "--base256"@, Kind::Flag));
    assert(o[34] == args::rule("-F"@, "--hex"@, Kind::Flag));
    assert(o[35] == args::rule("--meta"@, "--meta"@, Kind::Flag));
}

/// Each flag of the identity tool sets what it names, just where it is given.
pub proof fn law_identity_flags_are_heard(a: identity_tool::Args, ts: Seq<Item>)
    requires
        identity_tool::args_say(a, ts),
    ensures
        a.help == ts.contains(Item::Flag("--help"@)),
        a.version == ts.contains(Item::Flag("--version"@)),
        a.export_pub == ts.contains(Item::Flag("--export-pub"@)),
        a.export_prv == ts.contains(Item::Flag("--export-prv"@)),
        a.raw == ts.contains(Item::Flag("--raw"@)),
        a.force == ts.contains(Item::Flag("--force"@)),
        a.stdin == ts.contains(Item::Flag("--stdin"@)),
        a.stdout == ts.contains(Item::Flag("--stdout"@)),
        a.request == ts.contains(Item::Flag("--request"@)),
        a.no_cache == ts.contains(Item::Flag("--no-cache"@)),
        a.print_identity == ts.contains(Item::Flag("--print-identity"@)),
        a.print_private == ts.contains(Item::Flag("--print-private"@)),
        a.base32 == ts.contains(Item::Flag("--base32"@)),
        a.base64 == ts.contains(Item::Flag("--base64"@)),
        a.base256 == ts.contains(Item::Flag("--base256"@)),
        a.hex == ts.contains(Item::Flag("--hex"@)),
        a.meta == ts.contains(Item::Flag("--meta"@)),
{
    lemma_flag_was_given(ts, "--help"@);
    lemma_flag_was_given(ts, "--version"@);
    lemma_flag_was_given(ts, "--export-pub"@);
    lemma_flag_was_given(ts, "--export-prv"@);
    lemma_flag_was_given(ts, "--raw"@);
    lemma_flag_was_given(ts, "--force"@);
    lemma_flag_was_given(ts, "--stdin"@);
    lemma_flag_was_given(ts, "--stdout"@);
    lemma_flag_was_given(ts, "--request"@);
    lemma_flag_was_given(ts, "--no-cache"@);
    lemma_flag_was_given(ts, "--print-identity"@);
    lemma_flag_was_given(ts, "--print-private"@);
    lemma_flag_was_given(ts, "--base32"@);
    lemma_flag_was_given(ts, "--base64"@);
    lemma_flag_was_given(ts, "--base256"@);
    lemma_flag_was_given(ts, "--hex"@);
    lemma_flag_was_given(ts, "--meta"@);
}

/// Each option of the identity tool with a value sets what it names to the value that is given last.
pub proof fn law_identity_values_are_heard(
    a: identity_tool::Args,
    ts: Seq<Item>,
    v: Seq<char>,
    many: Seq<Seq<char>>,
)
    ensures
        identity_tool::args_say(a, ts.push(Item::Value("--config"@, v)))
            ==> args::opt_text(a.config) == Some(v),
        identity_tool::args_say(a, ts.push(Item::Value("--identity"@, v)))
            ==> args::opt_text(a.identity) == Some(v),
        identity_tool::args_say(a, ts.push(Item::Value("--generate"@, v)))
            ==> args::opt_text(a.generate) == Some(v),
        identity_tool::args_say(a, ts.push(Item::Value("--import-pub"@, v)))
            ==> args::opt_text(a.import_pub) == Some(v),
        identity_tool::args_say(a, ts.push(Item::Value("--import-prv"@, v)))
            ==> args::opt_text(a.import_prv) == Some(v),
        identity_tool::args_say(a, ts.push(Item::Value("--hash"@, v)))
            ==> args::opt_text(a.hash) == Some(v),
        identity_tool::args_say(a, ts.push(Item::Value("--meta-spec"@, v)))
            ==> args::opt_text(a.meta_spec) == Some(v),
        identity_tool::args_say(a, ts.push(Item::Value("--write"@, v)))
            ==> args::opt_text(a.write) == Some(v),
        identity_tool::args_say(a, ts.push(Item::Value("--read"@, v)))
            ==> args::opt_text(a.read) == Some(v),
        identity_tool::args_say(a, ts.push(Item::Value("-t"@, v)))
            ==> args::opt_text(a.timeout) == Some(v),
        identity_tool::args_say(a, ts.push(Item::Many("--decrypt"@, many)))
            ==> identity_tool::many_view(a.decrypt) == Some(many),
        identity_tool::args_say(a, ts.push(Item::Many("--encrypt"@, many)))
            ==> identity_tool::many_view(a.encrypt) == Some(many),
        identity_tool::args_say(a, ts.push(Item::Many("--validate"@, many)))
            ==> identity_tool::many_view(a.validate) == Some(many),
        identity_tool::args_say(a, ts.push(Item::Many("--sign"@, many)))
            ==> identity_tool::many_view(a.sign) == Some(many),
        identity_tool::args_say(a, ts.push(Item::Optional("--announce"@, Some(v))))
            ==> args::opt_text(a.announce) == Some(v),
        identity_tool::args_say(a, ts.push(Item::Optional("--embed-meta"@, Some(v))))
            ==> args::opt_text(a.embed_meta) == Some(v),
        identity_tool::args_say(a, ts.push(Item::Optional("--sign-message"@, Some(v))))
            ==> identity_tool::optional_view(a.sign_message) == Some(Some(v)),
        identity_tool::args_say(a, ts.push(Item::Optional("--sign-message"@, None)))
            ==> identity_tool::optional_view(a.sign_message) == Some(None::<Seq<char>>),
{
    assert(ts.push(Item::Value("--config"@, v)).drop_last() =~= ts);
    assert(ts.push(Item::Value("--identity"@, v)).drop_last() =~= ts);
    assert(ts.push(Item::Value("--generate"@, v)).drop_last() =~= ts);
    assert(ts.push(Item::Value("--import-pub"@, v)).drop_last() =~= ts);
    assert(ts.push(Item::Value("--import-prv"@, v)).drop_last() =~= ts);
    assert(ts.push(Item::Value("--hash"@, v)).drop_last() =~= ts);
    assert(ts.push(Item::Value("--meta-spec"@, v)).drop_last() =~= ts);
    assert(ts.push(Item::Value("--write"@, v)).drop_last() =~= ts);
    assert(ts.push(Item::Value("--read"@, v)).drop_last() =~= ts);
    assert(ts.push(Item::Value("-t"@, v)).drop_last() =~= ts);
    assert(ts.push(Item::Many("--decrypt"@, many)).drop_last() =~= ts);
    assert(ts.push(Item::Many("--encrypt"@, many)).drop_last() =~= ts);
    assert(ts.push(Item::Many("--validate"@, many)).drop_last() =~= ts);
    assert(ts.push(Item::Many("--sign"@, many)).drop_last() =~= ts);
    assert(ts.push(Item::Optional("--announce"@, Some(v))).drop_last() =~= ts);
    assert(ts.push(Item::Optional("--embed-meta"@, Some(v))).drop_last() =~= ts);
    assert(ts.push(Item::Optional("--sign-message"@, Some(v))).drop_last() =~= ts);
    assert(ts.push(Item::Optional("--sign-message"@, None)).drop_last() =~= ts);
}

/// Each level of the identity tool grows by one where its flag is given once more.
pub proof fn law_identity_levels_grow(a: identity_tool::Args, b: identity_tool::Args, ts: Seq<Item>)
    ensures
        identity_tool::args_say(a, ts)
            && identity_tool::args_say(b, ts.push(Item::Flag("--verbose"@)))
            && a.verbose < 255
            ==> b.verbose == a.verbose + 1,
        identity_tool::args_say(a, ts)
            && identity_tool::args_say(b, ts.push(Item::Flag("--quiet"@)))
            && a.quiet < 255
            ==> b.quiet == a.quiet + 1,
{
    args::law_flags_are_counted(ts, "--verbose"@, Item::Flag("--verbose"@));
    args::law_flags_are_counted(ts, "--quiet"@, Item::Flag("--quiet"@));
}

// ---------------------------------------------------------------------------
// The path utility
// ---------------------------------------------------------------------------

/// The options of the path utility, under their short and long names, with what follows them.
pub proof fn law_path_options_have_their_names()
    ensures
        path_tool::rules().opts.len() == 18,
        path_tool::rules().opts.contains(args::rule("-h"@, "--help"@, Kind::Stop)),
        path_tool::rules().opts.contains(args::rule("--version"@, "--version"@, Kind::Stop)),
        path_tool::rules().opts.contains(args::rule("-t"@, "--table"@, Kind::Flag)),
        path_tool::rules().opts.contains(
            OptRule { short: "-m"@, long: "--max"@, kind: Kind::Number(255), bad: "Invalid max hops"@ },
        ),
        path_tool::rules().opts.contains(args::rule("-r"@, "--rates"@, Kind::Flag)),
        path_tool::rules().opts.contains(args::rule("-d"@, "--drop"@, Kind::Flag)),
        path_tool::rules().opts.contains(args::rule("-D"@, "--drop-announces"@, Kind::Flag)),
        path_tool::rules().opts.contains(args::rule("-x"@, "--drop-via"@, Kind::Flag)),
        path_tool::rules().opts.contains(args::rule("-b"@, "--blackholed"@, Kind::Flag)),
        path_tool::rules().opts.contains(args::rule("-B"@, "--blackhole"@, Kind::Flag)),
        path_tool::rules().opts.contains(args::rule("-U"@, "--unblackhole"@, Kind::Flag)),
        path_tool::rules().opts.contains(
            OptRule { short: "--duration"@, long: "--duration"@, kind: Kind::Decimal, bad: "Invalid duration"@ },
        ),
        path_tool::rules().opts.contains(args::rule("--reason"@, "--reason"@, Kind::Text)),
        path_tool::rules().opts.contains(args::rule("-H"@, "--host"@, Kind::Text)),
        path_tool::rules().opts.contains(
            OptRule { short: "-p"@, long: "--port"@, kind: Kind::Number(65535), bad: "Invalid port"@ },
        ),
        path_tool::rules().opts.contains(args::rule("-k"@, "--rpc-key"@, Kind::Text)),
        path_tool::rules().opts.contains(args::rule("-j"@, "--json"@, Kind::Flag)),
        path_tool::rules().opts.contains(args::rule("-v"@, "--verbose"@, Kind::Flag)),
{
    let o = path_tool::rules().opts;
    assert(o[0] == args::rule("-h"@, "--help"@, Kind::Stop));
    assert(o[1] == args::rule("--version"@, "--version"@, Kind::Stop));
    assert(o[2] == args::rule("-t"@, "--table"@, Kind::Flag));
    assert(o[3] == (OptRule { short: "-m"@, long: "--max"@, kind: Kind::Number(255), bad: "Invalid max hops"@ }));
    assert(o[4] == args::rule("-r"@, "--rates"@, Kind::Flag));
    assert(o[5] == args::rule("-d"@, "--drop"@, Kind::Flag));
    assert(o[6] == args::rule("-D"@, "--drop-announces"@, Kind::Flag));
    assert(o[7] == args::rule("-x"@, "--drop-via"@, Kind::Flag));
    assert(o[8] == args::rule("-b"@, "--blackholed"@, Kind::Flag));
    assert(o[9] == args::rule("-B"@, "--blackhole"@, Kind::Flag));
    assert(o[10] == args::rule("-U"@, "--unblackhole"@, Kind::Flag));
    assert(o[11] == (OptRule { short: "--duration"@, long: "--duration"@, kind: Kind::Decimal, bad: "Invalid duration"@ }));
    assert(o[12] == args::rule("--reason"@, "--reason"@, Kind::Text));
    assert(o[13] == args::rule("-H"@, "--host"@, Kind::Text));
    assert(o[14] == (OptRule { short: "-p"@, long: "--port"@, kind: Kind::Number(65535), bad: "Invalid port"@ }));
    assert(o[15] == args::rule("-k"@, "--rpc-key"@, Kind::Text));
    assert(o[16] == args::rule("-j"@, "--json"@, Kind::Flag));
    assert(o[17] == args::rule("-v"@, "--verbose"@, Kind::Flag));
}

/// Each flag of the path utility sets what it names, just where it is given.
pub proof fn law_path_flags_are_heard(a: path_tool::Args, ts: Seq<Item>, key: Option<Seq<char>>)
    requires
        path_tool::args_say(a, ts, key),
    ensures
        a.help == ts.contains(Item::Flag("--help"@)),
        a.version == ts.contains(Item::Flag("--version"@)),
        a.table == ts.contains(Item::Flag("--table"@)),
        a.rates == ts.contains(Item::Flag("--rates"@)),
        a.drop == ts.contains(Item::Flag("--drop"@)),
        a.drop_announces == ts.contains(Item::Flag("--drop-announces"@)),
        a.drop_via == ts.contains(Item::Flag("--drop-via"@)),
        a.blackholed == ts.contains(Item::Flag("--blackholed"@)),
        a.blackhole == ts.contains(Item::Flag("--blackhole"@)),
        a.unblackhole == ts.contains(Item::Flag("--unblackhole"@)),
        a.json == ts.contains(Item::Flag("--json"@)),
{
    lemma_flag_was_given(ts, "--help"@);
    lemma_flag_was_given(ts, "--version"@);
    lemma_flag_was_given(ts, "--table"@);
    lemma_flag_was_given(ts, "--rates"@);
    lemma_flag_was_given(ts, "--drop"@);
    lemma_flag_was_given(ts, "--drop-announces"@);
    lemma_flag_was_given(ts, "--drop-via"@);
    lemma_flag_was_given(ts, "--blackholed"@);
    lemma_flag_was_given(ts, "--blackhole"@);
    lemma_flag_was_given(ts, "--unblackhole"@);
    lemma_flag_was_given(ts, "--json"@);
}

/// Each option of the path utility with a value sets what it names to the value that is given last.
pub proof fn law_path_values_are_heard(
    a: path_tool::Args,
    ts: Seq<Item>,
    key: Option<Seq<char>>,
    v: Seq<char>,
    n: u64,
)
    ensures
        path_tool::args_say(a, ts.push(Item::Value("--duration"@, v)), key)
            ==> args::opt_text(a.blackhole_duration) == Some(v),
        path_tool::args_say(a, ts.push(Item::Value("--reason"@, v)), key)
            ==> args::opt_text(a.blackhole_reason) == Some(v),
        path_tool::args_say(a, ts.push(Item::Value("--rpc-key"@, v)), key)
            ==> args::opt_text(a.rpc_key) == Some(v),
        path_tool::args_say(a, ts.push(Item::Value("--host"@, v)), key) ==> a.host@ == v,
        path_tool::args_say(a, ts.push(Item::Word(v)), key)
            ==> args::opt_text(a.destination) == Some(v),
        path_tool::args_say(a, ts.push(Item::Value("--max"@, digits::dec(n as nat))), key)
            ==> (n <= 255 ==> (a.max_hops matches Some(k) && k == n)),
{
    assert(ts.push(Item::Value("--duration"@, v)).drop_last() =~= ts);
    assert(ts.push(Item::Value("--reason"@, v)).drop_last() =~= ts);
    assert(ts.push(Item::Value("--rpc-key"@, v)).drop_last() =~= ts);
    assert(ts.push(Item::Value("--host"@, v)).drop_last() =~= ts);
    assert(ts.push(Item::Word(v)).drop_last() =~= ts);
    assert(ts.push(Item::Value("--max"@, digits::dec(n as nat))).drop_last() =~= ts);
    if n <= 255 {
        digits::law_decimal_round_trip(n as nat, (255) as nat);
    }
}

/// Each level of the path utility grows by one where its flag is given once more.
pub proof fn law_path_levels_grow(a: path_tool::Args, b: path_tool::Args, ts: Seq<Item>, key: Option<Seq<char>>)
    ensures
        path_tool::args_say(a, ts, key)
            && path_tool::args_say(b, ts.push(Item::Flag("--verbose"@)), key)
            && a.verbose < 255
            ==> b.verbose == a.verbose + 1,
{
    args::law_flags_are_counted(ts, "--verbose"@, Item::Flag("--verbose"@));
}

// ---------------------------------------------------------------------------
// The throughput test
// ---------------------------------------------------------------------------

/// The options of the throughput test, under their short and long names, with what follows them.
pub proof fn law_perf_options_have_their_names()
    ensures
        perf::rules().opts.len() == 9,
        perf::rules().opts.contains(args::rule("-h"@, "--help"@, Kind::Stop)),
        perf::rules().opts.contains(args::rule("--version"@, "--version"@, Kind::Stop)),
        perf::rules().opts.contains(args::rule("-l"@, "--listen"@, Kind::Flag)),
        perf::rules().opts.contains(
            OptRule { short: "-d"@, long: "--duration"@, kind: Kind::Decimal, bad: "bad duration"@ },
        ),
        perf::rules().opts.contains(
            OptRule { short: "-s"@, long: "--size"@, kind: Kind::Number(u64::MAX), bad: "bad packet size"@ },
        ),
        perf::rules().opts.contains(
            OptRule { short: "-b"@, long: "--announce"@, kind: Kind::Number(u64::MAX), bad: "bad announce interval"@ },
        ),
        perf::rules().opts.contains(args::rule("-R"@, "--remote-identity"@, Kind::Text)),
        perf::rules().opts.contains(
            OptRule { short: "-r"@, long: "--rate"@, kind: Kind::Decimal, bad: "bad rate"@ },
        ),
        perf::rules().opts.contains(args::rule("-v"@, "--verbose"@, Kind::Flag)),
{
    let o = perf::rules().opts;
    assert(o[0] == args::rule("-h"@, "--help"@, Kind::Stop));
    assert(o[1] == args::rule("--version"@, "--version"@, Kind::Stop));
    assert(o[2] == args::rule("-l"@, "--listen"@, Kind::Flag));
    assert(o[3] == (OptRule { short: "-d"@, long: "--duration"@, kind: Kind::Decimal, bad: "bad duration"@ }));
    assert(o[4] == (OptRule { short: "-s"@, long: "--size"@, kind: Kind::Number(u64::MAX), bad: "bad packet size"@ }));
    assert(o[5] == (OptRule { short: "-b"@, long: "--announce"@, kind: Kind::Number(u64::MAX), bad: "bad announce interval"@ }));
    assert(o[6] == args::rule("-R"@, "--remote-identity"@, Kind::Text));
    assert(o[7] == (OptRule { short: "-r"@, long: "--rate"@, kind: Kind::Decimal, bad: "bad rate"@ }));
    assert(o[8] == args::rule("-v"@, "--verbose"@, Kind::Flag));
}

/// Each flag of the throughput test sets what it names, just where it is given.
pub proof fn law_perf_flags_are_heard(a: perf::Args, ts: Seq<Item>)
    requires
        perf::args_say(a, ts),
    ensures
        a.help == ts.contains(Item::Flag("--help"@)),
        a.version == ts.contains(Item::Flag("--version"@)),
        a.listen == ts.contains(Item::Flag("--listen"@)),
{
    lemma_flag_was_given(ts, "--help"@);
    lemma_flag_was_given(ts, "--version"@);
    lemma_flag_was_given(ts, "--listen"@);
}

/// Each option of the throughput test with a value sets what it names to the value that is given last.
pub proof fn law_perf_values_are_heard(
    a: perf::Args,
    ts: Seq<Item>,
    v: Seq<char>,
    n: u64,
)
    ensures
        perf::args_say(a, ts.push(Item::Value("--duration"@, v)))
            ==> args::opt_text(a.duration) == Some(v),
        perf::args_say(a, ts.push(Item::Value("--remote-identity"@, v)))
            ==> args::opt_text(a.remote_identity) == Some(v),
        perf::args_say(a, ts.push(Item::Value("--rate"@, v))) ==> args::opt_text(a.rate) == Some(v),
        perf::args_say(a, ts.push(Item::Word(v))) ==> args::opt_text(a.dest) == Some(v),
        perf::args_say(a, ts.push(Item::Value("--size"@, digits::dec(n as nat))))
            ==> (n <= u64::MAX as nat ==> (a.packet_size matches Some(k) && k == n)),
        perf::args_say(a, ts.push(Item::Value("--announce"@, digits::dec(n as nat))))
            ==> (n <= u64::MAX as nat ==> (a.announce_interval matches Some(k) && k == n)),
{
    assert(ts.push(Item::Value("--duration"@, v)).drop_last() =~= ts);
    assert(ts.push(Item::Value("--remote-identity"@, v)).drop_last() =~= ts);
    assert(ts.push(Item::Value("--rate"@, v)).drop_last() =~= ts);
    assert(ts.push(Item::Word(v)).drop_last() =~= ts);
    assert(ts.push(Item::Value("--size"@, digits::dec(n as nat))).drop_last() =~= ts);
    assert(ts.push(Item::Value("--announce"@, digits::dec(n as nat))).drop_last() =~= ts);
    if n <= u64::MAX as nat {
        digits::law_decimal_round_trip(n as nat, (u64::MAX as nat) as nat);
    }
}

/// Each level of the throughput test grows by one where its flag is given once more.
pub proof fn law_perf_levels_grow(a: perf::Args, b: perf::Args, ts: Seq<Item>)
    ensures
        perf::args_say(a, ts)
            && perf::args_say(b, ts.push(Item::Flag("--verbose"@)))
            && a.verbose < 255
            ==> b.verbose == a.verbose + 1,
{
    args::law_flags_are_counted(ts, "--verbose"@, Item::Flag("--verbose"@));
}

// ---------------------------------------------------------------------------
// The remote shell
// ---------------------------------------------------------------------------

/// The options of the remote shell, under their short and long names, with what follows them.
pub proof fn law_shell_options_have_their_names()
    ensures
        shell_session::rules().opts.len() == 19,
        shell_session::rules().opts.contains(args::rule("-h"@, "--help"@, Kind::Stop)),
        shell_session::rules().opts.contains(args::rule("--version"@, "--version"@, Kind::Stop)),
        shell_session::rules().opts.contains(args::rule("--config"@, "--config"@, Kind::Text)),
        shell_session::rules().opts.contains(args::rule("-i"@, "--identity"@, Kind::Text)),
        shell_session::rules().opts.contains(args::rule("-s"@, "--service"@, Kind::Text)),
        shell_session::rules().opts.contains(args::rule("-l"@, "--listen"@, Kind::Flag)),
        shell_session::rules().opts.contains(args::rule("-S"@, "--scan"@, Kind::Flag)),
        shell_session::rules().opts.contains(args::rule("-v"@, "--verbose"@, Kind::Flag)),
        shell_session::rules().opts.contains(args::rule("-q"@, "--quiet"@, Kind::Flag)),
        shell_session::rules().opts.contains(args::rule("-p"@, "--print-identity"@, Kind::Flag)),
        shell_session::rules().opts.contains(
            OptRule { short: "-b"@, long: "--announce"@, kind: Kind::Number(u64::MAX), bad: "bad announce period"@ },
        ),
        shell_session::rules().opts.contains(args::rule("-a"@, "--allowed"@, Kind::Text)),
        shell_session::rules().opts.contains(args::rule("-n"@, "--no-auth"@, Kind::Flag)),
        shell_session::rules().opts.contains(args::rule("-A"@, "--remote-command-as-args"@, Kind::Flag)),
        shell_session::rules().opts.contains(args::rule("--remote-cmd-as-args"@, "--remote-command-as-args"@, Kind::Flag)),
        shell_session::rules().opts.contains(args::rule("-C"@, "--no-remote-command"@, Kind::Flag)),
        shell_session::rules().opts.contains(args::rule("-N"@, "--no-id"@, Kind::Flag)),
        shell_session::rules().opts.contains(args::rule("-m"@, "--mirror"@, Kind::Flag)),
        shell_session::rules().opts.contains(
            OptRule { short: "-w"@, long: "--timeout"@, kind: Kind::Decimal, bad: "bad timeout"@ },
        ),
{
    let o = shell_session::rules().opts;
    assert(o[0] == args::rule("-h"@, "--help"@, Kind::Stop));
    assert(o[1] == args::rule("--version"@, "--version"@, Kind::Stop));
    assert(o[2] == args::rule("--config"@, "--config"@, Kind::Text));
    assert(o[3] == args::rule("-i"@, "--identity"@, Kind::Text));
    assert(o[4] == args::rule("-s"@, "--service"@, Kind::Text));
    assert(o[5] == args::rule("-l"@, "--listen"@, Kind::Flag));
    assert(o[6] == args::rule("-S"@, "--scan"@, Kind::Flag));
    assert(o[7] == args::rule("-v"@, "--verbose"@, Kind::Flag));
    assert(o[8] == args::rule("-q"@, "--quiet"@, Kind::Flag));
    assert(o[9] == args::rule("-p"@, "--print-identity"@, Kind::Flag));
    assert(o[10] == (OptRule { short: "-b"@, long: "--announce"@, kind: Kind::Number(u64::MAX), bad: "bad announce period"@ }));
    assert(o[11] == args::rule("-a"@, "--allowed"@, Kind::Text));
    assert(o[12] == args::rule("-n"@, "--no-auth"@, Kind::Flag));
    assert(o[13] == args::rule("-A"@, "--remote-command-as-args"@, Kind::Flag));
    assert(o[14] == args::rule("--remote-cmd-as-args"@, "--remote-command-as-args"@, Kind::Flag));
    assert(o[15] == args::rule("-C"@, "--no-remote-command"@, Kind::Flag));
    assert(o[16] == args::rule("-N"@, "--no-id"@, Kind::Flag));
    assert(o[17] == args::rule("-m"@, "--mirror"@, Kind::Flag));
    assert(o[18] == (OptRule { short: "-w"@, long: "--timeout"@, kind: Kind::Decimal, bad: "bad timeout"@ }));
}

/// Each flag of the remote shell sets what it names, just where it is given.
pub proof fn law_shell_flags_are_heard(a: shell_session::Args, ts: Seq<Item>, cmd: Seq<Seq<char>>)
    requires
        shell_session::args_say(a, ts, cmd),
    ensures
        a.help == ts.contains(Item::Flag("--help"@)),
        a.version == ts.contains(Item::Flag("--version"@)),
        a.listen == ts.contains(Item::Flag("--listen"@)),
        a.scan == ts.contains(Item::Flag("--scan"@)),
        a.print_ident == ts.contains(Item::Flag("--print-identity"@)),
        a.no_auth == ts.contains(Item::Flag("--no-auth"@)),
        a.remote_cmd_as_args == ts.contains(Item::Flag("--remote-command-as-args"@)),
        a.no_remote_cmd == ts.contains(Item::Flag("--no-remote-command"@)),
        a.no_id == ts.contains(Item::Flag("--no-id"@)),
        a.mirror == ts.contains(Item::Flag("--mirror"@)),
{
    lemma_flag_was_given(ts, "--help"@);
    lemma_flag_was_given(ts, "--version"@);
    lemma_flag_was_given(ts, "--listen"@);
    lemma_flag_was_given(ts, "--scan"@);
    lemma_flag_was_given(ts, "--print-identity"@);
    lemma_flag_was_given(ts, "--no-auth"@);
    lemma_flag_was_given(ts, "--remote-command-as-args"@);
    lemma_flag_was_given(ts, "--no-remote-command"@);
    lemma_flag_was_given(ts, "--no-id"@);
    lemma_flag_was_given(ts, "--mirror"@);
}

/// Each option of the remote shell with a value sets what it names to the value that is given last.
pub proof fn law_shell_values_are_heard(
    a: shell_session::Args,
    ts: Seq<Item>,
    cmd: Seq<Seq<char>>,
    v: Seq<char>,
    n: u64,
)
    ensures
        shell_session::args_say(a, ts.push(Item::Value("--config"@, v)), cmd)
            ==> args::opt_text(a.config) == Some(v),
        shell_session::args_say(a, ts.push(Item::Value("--identity"@, v)), cmd)
            ==> args::opt_text(a.ident) == Some(v),
        shell_session::args_say(a, ts.push(Item::Value("--timeout"@, v)), cmd)
            ==> args::opt_text(a.timeout) == Some(v),
        shell_session::args_say(a, ts.push(Item::Word(v)), cmd)
            ==> args::opt_text(a.dest) == Some(v),
        shell_session::args_say(a, ts.push(Item::Value("--announce"@, digits::dec(n as nat))), cmd)
            ==> (n <= u64::MAX as nat ==> (a.announce matches Some(k) && k == n)),
        shell_session::args_say(a, ts.push(Item::Value("--allowed"@, v)), cmd)
            ==> a.allowed@.len() > 0 && a.allowed@.last()@ == v,
{
    assert(ts.push(Item::Value("--config"@, v)).drop_last() =~= ts);
    assert(ts.push(Item::Value("--identity"@, v)).drop_last() =~= ts);
    assert(ts.push(Item::Value("--timeout"@, v)).drop_last() =~= ts);
    assert(ts.push(Item::Word(v)).drop_last() =~= ts);
    assert(ts.push(Item::Value("--announce"@, digits::dec(n as nat))).drop_last() =~= ts);
    assert(ts.push(Item::Value("--allowed"@, v)).drop_last() =~= ts);
    if n <= u64::MAX as nat {
        digits::law_decimal_round_trip(n as nat, (u64::MAX as nat) as nat);
    }
    if shell_session::args_say(a, ts.push(Item::Value("--allowed"@, v)), cmd) {
        let all = text::views(a.allowed@);
        assert(all == args::all_values(ts, "--allowed"@).push(v));
        assert(all.last() == a.allowed@.last()@);
    }
}

/// Each level of the remote shell grows by one where its flag is given once more.
pub proof fn law_shell_levels_grow(a: shell_session::Args, b: shell_session::Args, ts: Seq<Item>, cmd: Seq<Seq<char>>)
    ensures
        shell_session::args_say(a, ts, cmd)
            && shell_session::args_say(b, ts.push(Item::Flag("--verbose"@)), cmd)
            && a.verbose < 255
            ==> b.verbose == a.verbose + 1,
        shell_session::args_say(a, ts, cmd)
            && shell_session::args_say(b, ts.push(Item::Flag("--quiet"@)), cmd)
            && a.quiet < 255
            ==> b.quiet == a.quiet + 1,
{
    args::law_flags_are_counted(ts, "--verbose"@, Item::Flag("--verbose"@));
    args::law_flags_are_counted(ts, "--quiet"@, Item::Flag("--quiet"@));
}

// ---------------------------------------------------------------------------
// The announce monitor
// ---------------------------------------------------------------------------

/// The options of the announce monitor, under their short and long names, with what follows them.
pub proof fn law_sniff_options_have_their_names()
    ensures
        sniff::rules().opts.len() == 6,
        sniff::rules().opts.contains(args::rule("-h"@, "--help"@, Kind::Stop)),
        sniff::rules().opts.contains(args::rule("--version"@, "--version"@, Kind::Stop)),
        sniff::rules().opts.contains(args::rule("-i"@, "--identity"@, Kind::Text)),
        sniff::rules().opts.contains(args::rule("-v"@, "--verbose"@, Kind::Flag)),
        sniff::rules().opts.contains(args::rule("-j"@, "--json"@, Kind::Flag)),
        sniff::rules().opts.contains(
            OptRule { short: "--once"@, long: "--once"@, kind: Kind::Number(0xffff_ffff_ffff_ffff), bad: "bad --once count"@ },
        ),
{
    let o = sniff::rules().opts;
    assert(o[0] == args::rule("-h"@, "--help"@, Kind::Stop));
    assert(o[1] == args::rule("--version"@, "--version"@, Kind::Stop));
    assert(o[2] == args::rule("-i"@, "--identity"@, Kind::Text));
    assert(o[3] == args::rule("-v"@, "--verbose"@, Kind::Flag));
    assert(o[4] == args::rule("-j"@, "--json"@, Kind::Flag));
    assert(o[5] == (OptRule { short: "--once"@, long: "--once"@, kind: Kind::Number(0xffff_ffff_ffff_ffff), bad: "bad --once count"@ }));
}

/// Each flag of the announce monitor sets what it names, just where it is given.
pub proof fn law_sniff_flags_are_heard(a: sniff::Args, ts: Seq<Item>)
    requires
        sniff::args_say(a, ts),
    ensures
        a.help == ts.contains(Item::Flag("--help"@)),
        a.version == ts.contains(Item::Flag("--version"@)),
        a.verbose == ts.contains(Item::Flag("--verbose"@)),
        a.json == ts.contains(Item::Flag("--json"@)),
{
    lemma_flag_was_given(ts, "--help"@);
    lemma_flag_was_given(ts, "--version"@);
    lemma_flag_was_given(ts, "--verbose"@);
    lemma_flag_was_given(ts, "--json"@);
}

/// Each option of the announce monitor with a value sets what it names to the value that is given last.
pub proof fn law_sniff_values_are_heard(
    a: sniff::Args,
    ts: Seq<Item>,
    v: Seq<char>,
    n: u64,
)
    ensures
        sniff::args_say(a, ts.push(Item::Value("--identity"@, v)))
            ==> args::opt_text(a.identity) == Some(v),
        sniff::args_say(a, ts.push(Item::Value("--once"@, digits::dec(n as nat))))
            ==> (n <= 0xffff_ffff_ffff_ffff ==> (a.once matches Some(k) && k == n)),
{
    assert(ts.push(Item::Value("--identity"@, v)).drop_last() =~= ts);
    assert(ts.push(Item::Value("--once"@, digits::dec(n as nat))).drop_last() =~= ts);
    if n <= 0xffff_ffff_ffff_ffff {
        digits::law_decimal_round_trip(n as nat, (0xffff_ffff_ffff_ffff) as nat);
    }
}

/// Nothing is set where nothing is given, and levels start at zero and end at 255.
pub proof fn law_levels_start_at_zero(a: identity_tool::Args, ts: Seq<Item>)
    ensures
        identity_tool::args_say(a, Seq::<Item>::empty()) ==> a.verbose == 0 && a.quiet == 0,
        identity_tool::args_say(a, ts) && args::count(ts, "--verbose"@) <= 255 ==> a.verbose
            == args::count(ts, "--verbose"@),
        identity_tool::args_say(a, ts) && args::count(ts, "--verbose"@) > 255 ==> a.verbose == 255,
{
}

} // verus!
