//! What the tool server promises of its messages and its tools.

use vstd::prelude::*;

use crate::digits;
use crate::fields;
use crate::json::{self, JsonModel};
use crate::mcp::{self, Handling, Start};
use crate::mcp_tools::{self, ToolNext};
use crate::msgpack::{self, Msg};
use crate::path_laws;
use crate::pieces::Part;
use crate::text;

verus! {

// ---------------------------------------------------------------------------
// Starting
// ---------------------------------------------------------------------------

/// The options of the server mean what they say, and other arguments are refused.
pub proof fn law_server_options(rest: Seq<Seq<char>>, other: Seq<char>, port: u16, n: u16)
    requires
        other.len() == 0 || other[0] != '-',
    ensures
        mcp::start(Seq::<Seq<char>>::empty(), port) == Ok::<Start, Seq<char>>(Start::Port(port)),
        mcp::start(seq!["--help"@] + rest, port) == Ok::<Start, Seq<char>>(Start::Help),
        mcp::start(seq!["-h"@] + rest, port) == Ok::<Start, Seq<char>>(Start::Help),
        mcp::start(seq!["--version"@] + rest, port) == Ok::<Start, Seq<char>>(Start::Version),
        mcp::start(seq!["--port"@, digits::dec(n as nat)] + rest, port) == mcp::start(rest, n),
        mcp::start(seq!["-p"@, digits::dec(n as nat)] + rest, port) == mcp::start(rest, n),
        mcp::start(seq!["--port"@], port) is Err,
        mcp::start(seq![other] + rest, port) == Err::<Start, Seq<char>>(
            "unrecognized argument: "@ + other,
        ),
{
    reveal_strlit("--help");
    reveal_strlit("-h");
    reveal_strlit("--version");
    reveal_strlit("--port");
    reveal_strlit("-p");
    assert("--help"@.len() == 6 && "--help"@[0] == '-' && "--help"@[2] == 'h');
    assert("-h"@.len() == 2 && "-h"@[0] == '-' && "-h"@[1] == 'h');
    assert("--version"@.len() == 9 && "--version"@[0] == '-');
    assert("--port"@.len() == 6 && "--port"@[0] == '-' && "--port"@[2] == 'p');
    assert("-p"@.len() == 2 && "-p"@[0] == '-' && "-p"@[1] == 'p');
    digits::law_decimal_round_trip(n as nat, 65535);
    assert((seq!["--port"@, digits::dec(n as nat)] + rest).skip(2) =~= rest);
    assert((seq!["-p"@, digits::dec(n as nat)] + rest).skip(2) =~= rest);
}

/// The key is given in hexadecimal, between slashes or not, or in a file; it has at
/// least sixteen bytes.
pub proof fn law_key_is_long_enough(key: Seq<u8>, file: Option<Seq<char>>)
    requires
        key.len() > 0,
    ensures
        key.len() >= 16 ==> mcp::key_in(
            Some("/"@ + digits::hex_text(key) + "/"@),
            None,
        ) == Ok::<Seq<u8>, Seq<char>>(key),
        key.len() < 16 ==> mcp::key_in(Some("/"@ + digits::hex_text(key) + "/"@), None) is Err,
        mcp::key_in(None, file) is Err,
{
    mcp::law_shown_address_is_read_back(key);
}

// ---------------------------------------------------------------------------
// Messages
// ---------------------------------------------------------------------------

proof fn lemma_methods()
    ensures
        "initialize"@.len() == 10,
        "notifications/initialized"@.len() == 25,
        "tools/list"@.len() == 10,
        "tools/call"@.len() == 10,
        "initialize"@[0] == 'i',
        "tools/list"@[0] == 't',
        "tools/call"@[0] == 't',
        "tools/list"@[6] == 'l',
        "tools/call"@[6] == 'c',
{
    reveal_strlit("initialize");
    reveal_strlit("notifications/initialized");
    reveal_strlit("tools/list");
    reveal_strlit("tools/call");
}

/// A greeting is answered with the protocol and the server, the list of tools with the
/// tools, and the note that all is set up with nothing.
pub proof fn law_methods_are_answered(msg: JsonModel, version: Seq<char>)
    ensures
        json::text_entry(msg, "method"@) == Some("initialize"@) ==> mcp::message_handled(
            msg,
            version,
        ) == Handling::Reply(
            mcp::success_model(
                json::entry(msg, "id"@),
                JsonModel::Object(
                    seq![
                        ("protocolVersion"@, JsonModel::Text("2024-11-05"@)),
                        (
                            "capabilities"@,
                            JsonModel::Object(seq![("tools"@, JsonModel::Object(Seq::empty()))]),
                        ),
                        (
                            "serverInfo"@,
                            JsonModel::Object(
                                seq![
                                    ("name"@, JsonModel::Text("rnmcp"@)),
                                    ("version"@, JsonModel::Text(version)),
                                ],
                            ),
                        ),
                    ],
                ),
            ),
        ),
        json::text_entry(msg, "method"@) == Some("notifications/initialized"@)
            ==> mcp::message_handled(msg, version) == Handling::Silent,
        json::text_entry(msg, "method"@) == Some("tools/list"@) ==> mcp::message_handled(
            msg,
            version,
        ) == Handling::Reply(
            mcp::success_model(
                json::entry(msg, "id"@),
                JsonModel::Object(seq![("tools"@, JsonModel::List(mcp::tools()))]),
            ),
        ),
{
    lemma_methods();
}

/// A call of a tool is handed on with its name, its arguments and its id; without the
/// arguments it has none, and without a name it is an error.
pub proof fn law_calls_are_handed_on(
    msg: JsonModel,
    p: Seq<(Seq<char>, JsonModel)>,
    o: Seq<(Seq<char>, JsonModel)>,
    name: Seq<char>,
    version: Seq<char>,
)
    requires
        json::text_entry(msg, "method"@) == Some("tools/call"@),
        json::entry(msg, "params"@) == Some(JsonModel::Object(p)),
    ensures
        json::text_entry(JsonModel::Object(p), "name"@) == Some(name) && json::entry(
            JsonModel::Object(p),
            "arguments"@,
        ) == Some(JsonModel::Object(o)) ==> mcp::message_handled(msg, version) == Handling::Call(
            name,
            JsonModel::Object(o),
            json::entry(msg, "id"@),
        ),
        json::text_entry(JsonModel::Object(p), "name"@) == Some(name) && json::entry(
            JsonModel::Object(p),
            "arguments"@,
        ) is None ==> mcp::message_handled(msg, version) == Handling::Call(
            name,
            JsonModel::Object(Seq::empty()),
            json::entry(msg, "id"@),
        ),
        json::text_entry(JsonModel::Object(p), "name"@) is None ==> mcp::message_handled(
            msg,
            version,
        ) == Handling::Reply(
            mcp::error_model(json::entry(msg, "id"@), -32603, "tool name required"@),
        ),
{
    lemma_methods();
}

/// A message without a method, or with one that is not known, is answered with an error;
/// a blank line is passed over.
pub proof fn law_other_messages_are_errors(
    msg: JsonModel,
    method: Seq<char>,
    line: Seq<char>,
    e: Seq<char>,
    version: Seq<char>,
)
    requires
        method != "initialize"@,
        method != "notifications/initialized"@,
        method != "tools/list"@,
        method != "tools/call"@,
    ensures
        json::text_entry(msg, "method"@) is None ==> mcp::message_handled(msg, version)
            == Handling::Reply(
            mcp::error_model(json::entry(msg, "id"@), -32603, "missing method"@),
        ),
        json::text_entry(msg, "method"@) == Some(method) ==> mcp::message_handled(msg, version)
            == Handling::Reply(
            mcp::error_model(json::entry(msg, "id"@), -32603, "unknown method: "@ + method),
        ),
        text::trimmed(line).len() == 0 ==> mcp::line_handled(line, version) == Handling::Silent,
        text::trimmed(line).len() > 0 && json::json_read(text::trimmed(line)) == Err::<
            JsonModel,
            Seq<char>,
        >(e) ==> mcp::line_handled(line, version) == Handling::Reply(
            mcp::error_model(None, -32603, "invalid JSON: "@ + e),
        ),
        text::trimmed(line).len() > 0 && json::json_read(text::trimmed(line)) == Ok::<
            JsonModel,
            Seq<char>,
        >(msg) ==> mcp::line_handled(line, version) == mcp::message_handled(msg, version),
{
}

/// Answers are of version 2.0: a result stands under `result`, and an error, with its
/// code and its words, under `error`.
pub proof fn law_answers_have_their_form(
    id: JsonModel,
    result: JsonModel,
    said: Seq<char>,
    e: Seq<char>,
)
    ensures
        mcp::success_model(Some(id), result) == JsonModel::Object(
            seq![("jsonrpc"@, JsonModel::Text("2.0"@)), ("result"@, result), ("id"@, id)],
        ),
        mcp::success_model(None, result) == JsonModel::Object(
            seq![("jsonrpc"@, JsonModel::Text("2.0"@)), ("result"@, result)],
        ),
        mcp::call_answer(None, Ok(said)) == mcp::success_model(
            None,
            JsonModel::Object(
                seq![
                    (
                        "content"@,
                        JsonModel::List(
                            seq![
                                JsonModel::Object(
                                    seq![
                                        ("type"@, JsonModel::Text("text"@)),
                                        ("text"@, JsonModel::Text(said)),
                                    ],
                                ),
                            ],
                        ),
                    ),
                ],
            ),
        ),
        mcp::call_answer(Some(id), Err(e)) == JsonModel::Object(
            seq![
                ("jsonrpc"@, JsonModel::Text("2.0"@)),
                (
                    "error"@,
                    JsonModel::Object(
                        seq![
                            ("code"@, JsonModel::NegInt((-32603) as i64)),
                            ("message"@, JsonModel::Text(e)),
                        ],
                    ),
                ),
                ("id"@, id),
            ],
        ),
{
    assert(mcp::success_model(Some(id), result)->Object_0 =~= seq![
        ("jsonrpc"@, JsonModel::Text("2.0"@)),
        ("result"@, result),
        ("id"@, id),
    ]);
    assert(mcp::call_answer(Some(id), Err(e))->Object_0 =~= seq![
        ("jsonrpc"@, JsonModel::Text("2.0"@)),
        (
            "error"@,
            JsonModel::Object(
                seq![("code"@, JsonModel::NegInt((-32603) as i64)), ("message"@, JsonModel::Text(e))],
            ),
        ),
        ("id"@, id),
    ]);
}

// ---------------------------------------------------------------------------
// Tools
// ---------------------------------------------------------------------------

proof fn lemma_tool_names()
    ensures
        "get_path_table"@.len() == 14 && "get_path_table"@[0] == 'g' && "get_path_table"@[4] == 'p',
        "get_path_info"@.len() == 13,
        "get_rate_table"@.len() == 14 && "get_rate_table"@[0] == 'g' && "get_rate_table"@[4] == 'r',
        "get_signal_info"@.len() == 15 && "get_signal_info"@[0] == 'g',
        "list_blackholed"@.len() == 15 && "list_blackholed"@[0] == 'l',
        "blackhole_identity"@.len() == 18,
        "unblackhole_identity"@.len() == 20,
        "drop_path"@.len() == 9,
        "drop_announces"@.len() == 14 && "drop_announces"@[0] == 'd',
        "get_metrics"@.len() == 11,
{
    reveal_strlit("get_path_table");
    reveal_strlit("get_path_info");
    reveal_strlit("get_rate_table");
    reveal_strlit("get_signal_info");
    reveal_strlit("list_blackholed");
    reveal_strlit("blackhole_identity");
    reveal_strlit("unblackhole_identity");
    reveal_strlit("drop_path");
    reveal_strlit("drop_announces");
    reveal_strlit("get_metrics");
}

/// The tools that are offered have the names under which they are called.
pub proof fn law_offered_tools_can_be_called()
    ensures
        mcp::tools().len() == 10,
        json::text_entry(mcp::tools()[0], "name"@) == Some("get_path_table"@),
        json::text_entry(mcp::tools()[1], "name"@) == Some("get_path_info"@),
        json::text_entry(mcp::tools()[2], "name"@) == Some("get_rate_table"@),
        json::text_entry(mcp::tools()[3], "name"@) == Some("get_signal_info"@),
        json::text_entry(mcp::tools()[4], "name"@) == Some("list_blackholed"@),
        json::text_entry(mcp::tools()[5], "name"@) == Some("blackhole_identity"@),
        json::text_entry(mcp::tools()[6], "name"@) == Some("unblackhole_identity"@),
        json::text_entry(mcp::tools()[7], "name"@) == Some("drop_path"@),
        json::text_entry(mcp::tools()[8], "name"@) == Some("drop_announces"@),
        json::text_entry(mcp::tools()[9], "name"@) == Some("get_metrics"@),
{
}

/// What is said of the input of a tool: the properties, and that a destination is
/// required, where it is.
pub open spec fn input_of(i: int) -> Seq<(Seq<char>, JsonModel)> {
    mcp::tools()[i]->Object_0[2].1->Object_0
}

/// The tools that act on a destination, and only those, say that they require it.
pub proof fn law_required_destination_is_told()
    ensures
        ({
            let required = ("required"@, JsonModel::List(seq![JsonModel::Text("destination"@)]));
            &&& input_of(1).len() == 3 && input_of(1)[2] == required
            &&& input_of(5).len() == 3 && input_of(5)[2] == required
            &&& input_of(6).len() == 3 && input_of(6)[2] == required
            &&& input_of(7).len() == 3 && input_of(7)[2] == required
            &&& input_of(0).len() == 2 && input_of(2).len() == 2 && input_of(3).len() == 2
            &&& input_of(4).len() == 2 && input_of(8).len() == 2 && input_of(9).len() == 2
        }),
{
}

/// A tool first asks the instance for what it is about.
pub proof fn law_tools_ask_for_what_they_show(
    a: JsonModel,
    seconds: Option<u64>,
    dest: Seq<char>,
    b: Seq<u8>,
)
    requires
        json::text_entry(a, "destination"@) == Some(dest),
        mcp::given(dest) == Some(b),
        b.len() == 16,
    ensures
        ({
            let none = Seq::<Result<Msg, Seq<char>>>::empty();
            let get = |what: Seq<char>|
                ToolNext::Ask(Msg::Pairs(seq![(Msg::Text("get"@), Msg::Text(what))]));
            &&& mcp_tools::tool_next("get_path_table"@, a, seconds, none) == get("path_table"@)
            &&& mcp_tools::tool_next("get_rate_table"@, a, seconds, none) == get("rate_table"@)
            &&& mcp_tools::tool_next("list_blackholed"@, a, seconds, none) == get(
                "blackholed_identities"@,
            )
            &&& mcp_tools::tool_next("get_signal_info"@, a, seconds, none) == get("packet_snr"@)
            &&& mcp_tools::tool_next("get_metrics"@, a, seconds, none) == get("path_table"@)
            &&& mcp_tools::tool_next("get_path_info"@, a, seconds, none) == ToolNext::Ask(
                Msg::Pairs(
                    seq![
                        (Msg::Text("get"@), Msg::Text("request_path"@)),
                        (Msg::Text("destination_hash"@), Msg::Binary(b)),
                    ],
                ),
            )
            &&& mcp_tools::tool_next("drop_path"@, a, seconds, none) == ToolNext::Ask(
                Msg::Pairs(
                    seq![
                        (Msg::Text("drop"@), Msg::Text("path"@)),
                        (Msg::Text("destination_hash"@), Msg::Binary(b)),
                    ],
                ),
            )
            &&& mcp_tools::tool_next("drop_announces"@, a, seconds, none) == ToolNext::Ask(
                Msg::Pairs(seq![(Msg::Text("drop"@), Msg::Text("announce_queues"@))]),
            )
            &&& mcp_tools::tool_next("unblackhole_identity"@, a, seconds, none) == ToolNext::Ask(
                Msg::Pairs(seq![(Msg::Text("unblackhole_identity"@), Msg::Binary(b))]),
            )
            &&& seconds is None && json::text_entry(a, "reason"@) is None
                ==> mcp_tools::tool_next("blackhole_identity"@, a, seconds, none) == ToolNext::Ask(
                Msg::Pairs(seq![(Msg::Text("blackhole_identity"@), Msg::Binary(b))]),
            )
        }),
{
    lemma_tool_names();
}

/// A blackhole lasts as long as it is asked for and carries the reason that is given.
pub proof fn law_blackhole_carries_its_reason(
    a: JsonModel,
    seconds: u64,
    dest: Seq<char>,
    b: Seq<u8>,
    reason: Seq<char>,
)
    requires
        json::text_entry(a, "destination"@) == Some(dest),
        mcp::given(dest) == Some(b),
        b.len() == 16,
        json::text_entry(a, "reason"@) == Some(reason),
    ensures
        mcp_tools::tool_next(
            "blackhole_identity"@,
            a,
            Some(seconds),
            Seq::<Result<Msg, Seq<char>>>::empty(),
        ) == ToolNext::Ask(
            Msg::Pairs(
                seq![
                    (Msg::Text("blackhole_identity"@), Msg::Binary(b)),
                    (Msg::Text("duration"@), Msg::Double(seconds)),
                    (Msg::Text("reason"@), Msg::Text(reason)),
                ],
            ),
        ),
{
    lemma_tool_names();
    path_laws::law_requests_name_what_they_ask(reason, reason, b, seconds, reason);
}

/// What was granted is told as done, and anything else as not done.
pub proof fn law_tools_tell_what_was_granted(
    a: JsonModel,
    seconds: Option<u64>,
    dest: Seq<char>,
    b: Seq<u8>,
    reply: Msg,
)
    requires
        json::text_entry(a, "destination"@) == Some(dest),
        mcp::given(dest) == Some(b),
        b.len() == 16,
        reply != Msg::Boolean(true),
    ensures
        ({
            let yes = seq![Ok::<Msg, Seq<char>>(Msg::Boolean(true))];
            let no = seq![Ok::<Msg, Seq<char>>(reply)];
            let say = |t: Seq<char>| ToolNext::Done(Ok(seq![Part::Text(t)]));
            &&& mcp_tools::tool_next("drop_path"@, a, seconds, yes) == say(
                "Dropped path to "@ + dest + "\n"@,
            )
            &&& mcp_tools::tool_next("drop_path"@, a, seconds, no) == say(
                "No path to "@ + dest + " exists\n"@,
            )
            &&& mcp_tools::tool_next("blackhole_identity"@, a, seconds, yes) == say(
                "Blackholed identity "@ + dest + "\n"@,
            )
            &&& mcp_tools::tool_next("blackhole_identity"@, a, seconds, no) == say(
                "Could not blackhole identity "@ + dest + "\n"@,
            )
            &&& mcp_tools::tool_next("unblackhole_identity"@, a, seconds, yes) == say(
                "Lifted blackhole for identity "@ + dest + "\n"@,
            )
            &&& mcp_tools::tool_next("unblackhole_identity"@, a, seconds, no) == say(
                "Identity "@ + dest + " was not blackholed\n"@,
            )
        }),
{
    lemma_tool_names();
}

/// Tools that act on a destination need one of sixteen bytes in hexadecimal, and ask for
/// nothing without it; a tool that is not known is an error.
pub proof fn law_tools_need_their_destination(
    a: JsonModel,
    seconds: Option<u64>,
    dest: Seq<char>,
    rs: Seq<Result<Msg, Seq<char>>>,
    b: Seq<u8>,
)
    requires
        json::text_entry(a, "destination"@) is None || (json::text_entry(a, "destination"@) == Some(
            dest,
        ) && (mcp::given(dest) is None || (mcp::given(dest) == Some(b) && b.len() != 16))),
    ensures
        mcp_tools::tool_next("get_path_info"@, a, seconds, rs) matches ToolNext::Done(Err(_)),
        mcp_tools::tool_next("drop_path"@, a, seconds, rs) matches ToolNext::Done(Err(_)),
        mcp_tools::tool_next("blackhole_identity"@, a, seconds, rs) matches ToolNext::Done(Err(_)),
        mcp_tools::tool_next("unblackhole_identity"@, a, seconds, rs) matches ToolNext::Done(
            Err(_),
        ),
        mcp_tools::tool_next(Seq::<char>::empty(), a, seconds, rs) matches ToolNext::Done(Err(_)),
{
    lemma_tool_names();
}

/// A table is shown with the number of its entries and a line for each that is asked
/// for, or a note that there is none.
pub proof fn law_tables_are_shown(a: JsonModel, seconds: Option<u64>, l: Seq<Msg>)
    ensures
        ({
            let rs = seq![Ok::<Msg, Seq<char>>(Msg::Array(l))];
            let lines = mcp_tools::path_lines(l, mcp_tools::filter_in(a), mcp_tools::max_hops_in(a));
            let head = Part::Text("Path Table ("@ + digits::dec(l.len()) + " entries):\n"@);
            &&& lines.len() > 0 ==> mcp_tools::tool_next("get_path_table"@, a, seconds, rs)
                == ToolNext::Done(Ok(seq![head] + lines))
            &&& lines.len() == 0 ==> mcp_tools::tool_next("get_path_table"@, a, seconds, rs)
                == ToolNext::Done(
                Ok(seq![head] + lines.push(Part::Text("  (no matching entries)\n"@))),
            )
        }),
        ({
            let rs = seq![Ok::<Msg, Seq<char>>(Msg::Array(l))];
            let lines = mcp_tools::rate_lines(l, mcp_tools::filter_in(a));
            let head = Part::Text("Rate Table ("@ + digits::dec(l.len()) + " entries):\n"@);
            lines.len() > 0 ==> mcp_tools::tool_next("get_rate_table"@, a, seconds, rs)
                == ToolNext::Done(Ok(seq![head] + lines))
        }),
        mcp_tools::tool_next(
            "get_path_table"@,
            a,
            seconds,
            seq![Ok::<Msg, Seq<char>>(Msg::Nil)],
        ) matches ToolNext::Done(Err(_)),
{
    lemma_tool_names();
    let lines = mcp_tools::path_lines(l, mcp_tools::filter_in(a), mcp_tools::max_hops_in(a));
    let head = Part::Text("Path Table ("@ + digits::dec(l.len()) + " entries):\n"@);
    let note = Part::Text("  (no matching entries)\n"@);
    assert((seq![head] + lines).push(note) =~= seq![head] + lines.push(note));
}

/// Each entry adds its line behind those before it.
pub proof fn law_lines_are_in_order(
    l: Seq<Msg>,
    m: Msg,
    p: Seq<(Msg, Msg)>,
    e: (Msg, Msg),
    filter: Option<Seq<char>>,
    max: Option<u64>,
)
    ensures
        mcp_tools::path_lines(l.push(m), filter, max) == mcp_tools::path_lines(l, filter, max)
            + mcp_tools::path_line(m, filter, max),
        mcp_tools::rate_lines(l.push(m), filter) == mcp_tools::rate_lines(l, filter)
            + mcp_tools::rate_line(m, filter),
        mcp_tools::blackhole_lines(p.push(e), filter) == mcp_tools::blackhole_lines(p, filter)
            + mcp_tools::blackhole_line(e, filter),
        mcp_tools::path_lines(Seq::<Msg>::empty(), filter, max).len() == 0,
        mcp_tools::rate_lines(Seq::<Msg>::empty(), filter).len() == 0,
        mcp_tools::blackhole_lines(Seq::<(Msg, Msg)>::empty(), filter).len() == 0,
{
    assert(l.push(m).drop_last() =~= l);
    assert(p.push(e).drop_last() =~= p);
}

/// A path has its line where it is near enough and its address holds the digits that are
/// asked for, and otherwise none.
pub proof fn law_paths_have_their_line(
    p: Seq<(Msg, Msg)>,
    filter: Seq<char>,
    max: u64,
    hash: Seq<u8>,
    via: Seq<u8>,
    iface: Seq<u8>,
    hops: u64,
    expires: Msg,
)
    requires
        fields::bytes_field(p, "hash"@) == Some(hash),
        fields::bytes_field(p, "via"@) == Some(via),
        fields::bytes_field(p, "interface"@) == Some(iface),
        fields::u64_field(p, "hops"@) == Some(hops),
        fields::number_field(p, "expires"@) == Some(expires),
    ensures
        ({
            let line = seq![
                Part::Text(
                    "  "@ + digits::hex_text(hash) + " | "@ + digits::dec(hops as nat) + " "@ + (
                    if hops == 1 {
                        "hop"@
                    } else {
                        "hops"@
                    }) + " via "@ + digits::hex_text(via) + " on "@ + digits::hex_text(iface)
                        + " | expires "@,
                ),
                Part::Duration(expires),
                Part::Text("\n"@),
            ];
            &&& mcp_tools::path_line(Msg::Pairs(p), None, None) == line
            &&& hops <= max && text::holds(digits::hex_text(hash), filter) ==> mcp_tools::path_line(
                Msg::Pairs(p),
                Some(filter),
                Some(max),
            ) == line
        }),
        hops > max ==> mcp_tools::path_line(Msg::Pairs(p), None, Some(max)).len() == 0,
        !text::holds(digits::hex_text(hash), filter) ==> mcp_tools::path_line(
            Msg::Pairs(p),
            Some(filter),
            None,
        ).len() == 0 && mcp_tools::rate_line(Msg::Pairs(p), Some(filter)).len() == 0,
{
}

/// The rate of a destination has its line.
pub proof fn law_rates_have_their_line(
    p: Seq<(Msg, Msg)>,
    hash: Seq<u8>,
    last: Msg,
    violations: u64,
    blocked: Msg,
)
    requires
        fields::bytes_field(p, "hash"@) == Some(hash),
        fields::number_field(p, "last"@) == Some(last),
        fields::u64_field(p, "rate_violations"@) == Some(violations),
        fields::number_field(p, "blocked_until"@) == Some(blocked),
        violations > 1,
    ensures
        mcp_tools::rate_line(Msg::Pairs(p), None) == seq![
            Part::Text("  "@ + digits::hex_text(hash) + " | last heard "@),
            Part::Duration(last),
            Part::Text(
                " ago, "@ + digits::dec(violations as nat) + " rate violation"@ + "s"@,
            ),
            Part::Positive(blocked, ", blocked "@, ""@),
            Part::Text("\n"@),
        ],
{
}

/// A blackholed identity has its line, with how long, why and by whom.
pub proof fn law_blackholes_have_their_line(
    id: Seq<u8>,
    p: Seq<(Msg, Msg)>,
    filter: Seq<char>,
    until: Msg,
    reason: Seq<char>,
    source: Seq<u8>,
)
    requires
        fields::number_field(p, "until"@) == Some(until),
        fields::text_field(p, "reason"@) == Some(reason),
        fields::bytes_field(p, "source"@) == Some(source),
    ensures
        mcp_tools::blackhole_line((Msg::Binary(id), Msg::Pairs(p)), None) == seq![
            Part::Text("  "@ + digits::hex_text(id) + " blackholed "@),
            Part::Positive(until, "for "@, "indefinitely"@),
            Part::Text(
                " ("@ + reason + ")"@ + (" by "@ + digits::hex_text(source)) + "\n"@,
            ),
        ],
        !text::holds(digits::hex_text(id), filter) ==> mcp_tools::blackhole_line(
            (Msg::Binary(id), Msg::Pairs(p)),
            Some(filter),
        ).len() == 0,
{
}

/// One path is told with how far it is and by whom it goes, and the signal at its first
/// hop where both replies came.
pub proof fn law_path_is_told(
    a: JsonModel,
    seconds: Option<u64>,
    dest: Seq<char>,
    b: Seq<u8>,
    p: Seq<(Msg, Msg)>,
    hops: u64,
    next: Seq<u8>,
    iface: Seq<u8>,
    snr: Msg,
    rssi: i64,
)
    requires
        json::text_entry(a, "destination"@) == Some(dest),
        mcp::given(dest) == Some(b),
        b.len() == 16,
        fields::bool_field(p, "found"@) == Some(true),
        fields::u64_field(p, "hops"@) == Some(hops),
        fields::bytes_field(p, "next_hop"@) == Some(next),
        fields::bytes_field(p, "interface"@) == Some(iface),
        msgpack::is_number(snr),
    ensures
        ({
            let r0 = Ok::<Msg, Seq<char>>(Msg::Pairs(p));
            let r1 = Ok::<Msg, Seq<char>>(snr);
            let r2 = Ok::<Msg, Seq<char>>(Msg::Integer(rssi as int));
            let get = |what: Seq<char>|
                ToolNext::Ask(Msg::Pairs(seq![(Msg::Text("get"@), Msg::Text(what))]));
            &&& mcp_tools::tool_next("get_path_info"@, a, seconds, seq![r0]) == get("packet_snr"@)
            &&& mcp_tools::tool_next("get_path_info"@, a, seconds, seq![r0, r1]) == get(
                "packet_rssi"@,
            )
            &&& mcp_tools::tool_next("get_path_info"@, a, seconds, seq![r0, r1, r2])
                == ToolNext::Done(
                Ok(
                    seq![
                        Part::Text(
                            "Path to "@ + dest + ": "@ + digits::dec(hops as nat) + " "@ + (if hops
                                == 1 {
                                "hop"@
                            } else {
                                "hops"@
                            }) + " away"@ + " via "@ + digits::hex_text(next) + " on "@
                                + digits::hex_text(iface) + "\n"@,
                        ),
                        Part::Text("  First-hop radio: SNR "@),
                        Part::Decimal(snr),
                        Part::Text(
                            " dB, "@ + ("RSSI "@ + digits::signed_dec(rssi as int) + " dBm\n"@),
                        ),
                    ],
                ),
            )
        }),
{
    lemma_tool_names();
    let r0 = Ok::<Msg, Seq<char>>(Msg::Pairs(p));
    let r1 = Ok::<Msg, Seq<char>>(snr);
    let r2 = Ok::<Msg, Seq<char>>(Msg::Integer(rssi as int));
    let rs = seq![r0, r1, r2];
    let head = Part::Text(mcp_tools::path_head(p, dest));
    let radio = mcp_tools::radio(r1, r2);
    assert(rs[1] == r1 && rs[2] == r2);
    assert(seq![head] + radio =~= seq![head, radio[0], radio[1], radio[2]]);
}

/// Where the instance knows no path, none is told.
pub proof fn law_unknown_path_is_told(
    a: JsonModel,
    seconds: Option<u64>,
    dest: Seq<char>,
    b: Seq<u8>,
    p: Seq<(Msg, Msg)>,
)
    requires
        json::text_entry(a, "destination"@) == Some(dest),
        mcp::given(dest) == Some(b),
        b.len() == 16,
        fields::bool_field(p, "found"@) != Some(true),
    ensures
        mcp_tools::tool_next(
            "get_path_info"@,
            a,
            seconds,
            seq![Ok::<Msg, Seq<char>>(Msg::Pairs(p))],
        ) == ToolNext::Done(Ok(seq![Part::Text("No path known\n"@)])),
        mcp_tools::tool_next(
            "get_path_info"@,
            a,
            seconds,
            seq![Ok::<Msg, Seq<char>>(Msg::Nil)],
        ) == ToolNext::Done(Ok(seq![Part::Text("No path known\n"@)])),
{
    lemma_tool_names();
}

/// The signal is told as the two replies say.
pub proof fn law_tools_tell_the_signal(a: JsonModel, seconds: Option<u64>, snr: Msg, rssi: i64)
    requires
        msgpack::is_number(snr),
    ensures
        ({
            let r0 = Ok::<Msg, Seq<char>>(snr);
            let r1 = Ok::<Msg, Seq<char>>(Msg::Integer(rssi as int));
            &&& mcp_tools::tool_next("get_signal_info"@, a, seconds, seq![r0]) == ToolNext::Ask(
                Msg::Pairs(seq![(Msg::Text("get"@), Msg::Text("packet_rssi"@))]),
            )
            &&& mcp_tools::tool_next("get_signal_info"@, a, seconds, seq![r0, r1])
                == ToolNext::Done(
                Ok(
                    seq![
                        Part::Text("Signal Information:\n  SNR: "@),
                        Part::Decimal(snr),
                        Part::Text(
                            " dB\n"@ + ("  RSSI: "@ + digits::signed_dec(rssi as int) + " dBm\n"@),
                        ),
                    ],
                ),
            )
        }),
{
    lemma_tool_names();
    let r0 = Ok::<Msg, Seq<char>>(snr);
    let r1 = Ok::<Msg, Seq<char>>(Msg::Integer(rssi as int));
    assert(seq![r0, r1][1] == r1);
}

/// The metrics ask for the two tables, the blackholes and the signal one after the other,
/// and tell the sizes of the first three.
pub proof fn law_metrics_tell_the_sizes(
    a: JsonModel,
    seconds: Option<u64>,
    paths: Seq<Msg>,
    rates: Seq<Msg>,
    holes: Seq<(Msg, Msg)>,
)
    ensures
        ({
            let r0 = Ok::<Msg, Seq<char>>(Msg::Array(paths));
            let r1 = Ok::<Msg, Seq<char>>(Msg::Array(rates));
            let r2 = Ok::<Msg, Seq<char>>(Msg::Pairs(holes));
            let nil = Ok::<Msg, Seq<char>>(Msg::Nil);
            let get = |what: Seq<char>|
                ToolNext::Ask(Msg::Pairs(seq![(Msg::Text("get"@), Msg::Text(what))]));
            &&& mcp_tools::tool_next("get_metrics"@, a, seconds, seq![r0]) == get("rate_table"@)
            &&& mcp_tools::tool_next("get_metrics"@, a, seconds, seq![r0, r1]) == get(
                "blackholed_identities"@,
            )
            &&& mcp_tools::tool_next("get_metrics"@, a, seconds, seq![r0, r1, r2]) == get(
                "packet_snr"@,
            )
            &&& mcp_tools::tool_next("get_metrics"@, a, seconds, seq![r0, r1, r2, nil]) == get(
                "packet_rssi"@,
            )
            &&& mcp_tools::tool_next("get_metrics"@, a, seconds, seq![r0, r1, r2, nil, nil])
                == ToolNext::Done(
                Ok(
                    seq![
                        Part::Text(
                            "Transport Metrics:\n  Path table entries: "@ + digits::dec(paths.len())
                                + "\n  Rate table entries: "@ + digits::dec(rates.len())
                                + "\n  Blackholed identities: "@ + digits::dec(holes.len())
                                + "\n"@,
                        ),
                    ],
                ),
            )
        }),
{
    lemma_tool_names();
    let r0 = Ok::<Msg, Seq<char>>(Msg::Array(paths));
    let r1 = Ok::<Msg, Seq<char>>(Msg::Array(rates));
    let r2 = Ok::<Msg, Seq<char>>(Msg::Pairs(holes));
    let nil = Ok::<Msg, Seq<char>>(Msg::Nil);
    lemma_no_error(seq![r0]);
    lemma_no_error(seq![r0, r1]);
    lemma_no_error(seq![r0, r1, r2]);
    lemma_no_error(seq![r0, r1, r2, nil]);
    lemma_no_error(seq![r0, r1, r2, nil, nil]);
}

proof fn lemma_no_error(rs: Seq<Result<Msg, Seq<char>>>)
    requires
        forall|i: int| 0 <= i < rs.len() ==> (#[trigger] rs[i]) is Ok,
    ensures
        mcp_tools::first_error(rs) is None,
    decreases rs.len(),
{
    if rs.len() > 0 {
        assert(rs[0] is Ok);
        let rest = rs.skip(1);
        assert forall|i: int| 0 <= i < rest.len() implies (#[trigger] rest[i]) is Ok by {
            assert(rest[i] == rs[i + 1]);
        }
        lemma_no_error(rest);
    }
}

/// The arguments of a tool are read under their names.
pub proof fn law_arguments_are_read(a: JsonModel, s: Seq<char>, n: u64)
    ensures
        json::text_entry(a, "destination"@) == Some(s) ==> mcp_tools::filter_in(a) == Some(
            text::lowercase(s),
        ),
        json::text_entry(a, "destination"@) is None ==> mcp_tools::filter_in(a) is None,
        json::entry(a, "max_hops"@) == Some(JsonModel::UInt(n)) ==> mcp_tools::max_hops_in(a)
            == Some(n),
        json::entry(a, "max_hops"@) is None ==> mcp_tools::max_hops_in(a) is None,
        mcp_tools::is_number(JsonModel::UInt(n)),
        mcp_tools::is_number(JsonModel::NegInt(n as i64)),
        mcp_tools::is_number(JsonModel::Float(Msg::Integer(n as int))),
        !mcp_tools::is_number(JsonModel::Text(s)),
{
}

/// A property of a tool's input tells its type and what it is for.
pub proof fn law_properties_are_described(kind: Seq<char>, description: Seq<char>)
    ensures
        mcp::property_model(kind, description) == JsonModel::Object(
            seq![
                ("type"@, JsonModel::Text(kind)),
                ("description"@, JsonModel::Text(description)),
            ],
        ),
        mcp::destination_model(description) == seq![
            (
                "destination"@,
                JsonModel::Object(
                    seq![
                        ("type"@, JsonModel::Text("string"@)),
                        ("description"@, JsonModel::Text(description)),
                    ],
                ),
            ),
        ],
{
}

} // verus!
