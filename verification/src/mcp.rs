//! The tool server: its messages, the tools that it offers, and what each of them
//! asks the running instance and answers.

use vstd::prelude::*;

use crate::args;
use crate::digits;
use crate::gitutil;
use crate::json;
use crate::json::{Json, JsonModel};
use crate::rpc;
use crate::text;

verus! {

pub const MCP_VERSION: &'static str = "2024-11-05";

pub const SERVER_NAME: &'static str = "rnmcp";

/// The least length of the key.
pub const MIN_RPC_KEY_BYTES: usize = 16;

// ---------------------------------------------------------------------------
// Command line and key
// ---------------------------------------------------------------------------

/// What the command line asks for.
#[derive(Debug)]
pub enum Start {
    Help,
    Version,
    Port(u16),
}

/// What the command line asks for, or an error: the port, unless help or the
/// version is asked for before anything is wrong.
pub open spec fn start(args: Seq<Seq<char>>, port: u16) -> Result<Start, Seq<char>>
    decreases args.len(),
{
    if args.len() == 0 {
        Ok(Start::Port(port))
    } else if args[0] == "--help"@ || args[0] == "-h"@ {
        Ok(Start::Help)
    } else if args[0] == "--version"@ {
        Ok(Start::Version)
    } else if args[0] == "-p"@ || args[0] == "--port"@ {
        if args.len() == 1 {
            Err("--port requires a value"@)
        } else {
            match digits::unsigned(args[1], 65535) {
                Some(n) => start(args.skip(2), n as u16),
                None => Err("invalid port: "@ + args[1]),
            }
        }
    } else {
        Err("unrecognized argument: "@ + args[0])
    }
}

/// Reads the command line.
pub fn parse_args(raw: &[String]) -> (r: Result<Start, String>)
    ensures
        match r {
            Ok(s) => start(text::views(raw@), rpc::DEFAULT_CONTROL_PORT) == Ok::<_, Seq<char>>(s),
            Err(e) => start(text::views(raw@), rpc::DEFAULT_CONTROL_PORT) == Err::<Start, _>(e@),
        },
{
    let ghost all = text::views(raw@);
    let mut port: u16 = rpc::DEFAULT_CONTROL_PORT;
    let mut i: usize = 0;
    assert(all.skip(0) =~= all);
    while i < raw.len()
        invariant
            i <= raw@.len(),
            all == text::views(raw@),
            start(all.skip(i as int), port) == start(all, rpc::DEFAULT_CONTROL_PORT),
        decreases raw@.len() - i,
    {
        let a = raw[i].as_str();
        assert(all.skip(i as int)[0] == a@);
        if text::same(a, "--help") || text::same(a, "-h") {
            return Ok(Start::Help);
        }
        if text::same(a, "--version") {
            return Ok(Start::Version);
        }
        if text::same(a, "-p") || text::same(a, "--port") {
            if i + 1 >= raw.len() {
                return Err("--port requires a value".to_owned());
            }
            assert(all.skip(i as int)[1] == raw@[i + 1]@);
            match digits::parse_unsigned(raw[i + 1].as_str(), 65535) {
                Some(n) => {
                    port = n as u16;
                },
                None => {
                    return Err(text::cat("invalid port: ", raw[i + 1].as_str()));
                },
            }
            assert(all.skip(i as int).skip(2) =~= all.skip(i + 2));
            i = i + 2;
        } else {
            return Err(text::cat("unrecognized argument: ", a));
        }
    }
    assert(all.skip(i as int) =~= Seq::empty());
    Ok(Start::Port(port))
}

/// A text without the slashes at its start.
pub open spec fn without_leading_slashes(s: Seq<char>) -> Seq<char>
    decreases s.len(),
{
    if s.len() > 0 && s[0] == '/' {
        without_leading_slashes(s.skip(1))
    } else {
        s
    }
}

/// A text without the slashes at its end.
pub open spec fn without_trailing_slashes(s: Seq<char>) -> Seq<char>
    decreases s.len(),
{
    if s.len() > 0 && s.last() == '/' {
        without_trailing_slashes(s.drop_last())
    } else {
        s
    }
}

/// The bytes that are given in hexadecimal, with white space and then slashes
/// around them.
pub open spec fn given(s: Seq<char>) -> Option<Seq<u8>> {
    digits::hex_input(
        vstd::utf8::encode_utf8(
            without_trailing_slashes(without_leading_slashes(text::trimmed(s))),
        ),
    )
}

/// An address that is shown between slashes is read as it was.
pub proof fn law_shown_address_is_read_back(b: Seq<u8>)
    ensures
        given(rpc::shown(b)) == Some(b),
{
    let t = digits::hex_text(b);
    let s = rpc::shown(b);
    reveal_strlit("/");
    rpc::lemma_hex_text(b);
    assert(s.len() == t.len() + 2 && s[0] == '/' && s[s.len() - 1] == '/');
    assert(text::trimmed(s) == s);
    let u = s.skip(1);
    assert(u =~= t + "/"@);
    reveal_with_fuel(without_leading_slashes, 3);
    reveal_with_fuel(without_trailing_slashes, 3);
    if t.len() > 0 {
        assert(u[0] == t[0] && t[0] != '/');
        assert(without_leading_slashes(s) == u);
        assert(u.last() == '/');
        assert(u.drop_last() =~= t);
        assert(t[t.len() - 1] != '/');
        assert(without_trailing_slashes(u) == t);
    } else {
        assert(u.skip(1) =~= t);
        assert(without_leading_slashes(s) == t);
    }
    rpc::lemma_hex_input(b);
}

fn strip_slashes(s: &str) -> (r: String)
    ensures
        r@ == without_trailing_slashes(without_leading_slashes(s@)),
{
    let v = text::chars(s);
    let n: usize = v.len();
    let mut from: usize = 0;
    assert(v@.skip(0) =~= v@);
    while from < n && v[from] == '/'
        invariant
            from <= n == v@.len(),
            without_leading_slashes(v@.skip(from as int)) == without_leading_slashes(v@),
        decreases n - from,
    {
        assert(v@.skip(from as int).skip(1) =~= v@.skip(from + 1));
        from = from + 1;
    }
    assert(without_leading_slashes(v@) == v@.skip(from as int));
    let ghost mid = v@.skip(from as int);
    let mut to: usize = n;
    assert(v@.subrange(from as int, n as int) =~= mid);
    while to > from && v[to - 1] == '/'
        invariant
            from <= to <= n == v@.len(),
            mid == v@.skip(from as int),
            without_trailing_slashes(v@.subrange(from as int, to as int))
                == without_trailing_slashes(mid),
        decreases to - from,
    {
        assert(v@.subrange(from as int, to as int).drop_last() =~= v@.subrange(
            from as int,
            to - 1,
        ));
        to = to - 1;
    }
    text::string(v.as_slice(), from, to)
}

/// Reads bytes that are given in hexadecimal, with white space and then slashes
/// around them.
pub fn decode_hex(input: &str) -> (r: Option<Vec<u8>>)
    ensures
        gitutil::bytes_view(r) == given(input@),
{
    let t = text::trim(input);
    let s = strip_slashes(t.as_str());
    let b = text::utf8(s.as_str());
    digits::parse_hex(b.as_slice())
}

/// The key that the environment holds: in hexadecimal, or in a file that holds it
/// so.
pub open spec fn key_in(key: Option<Seq<char>>, file: Option<Seq<char>>) -> Result<
    Seq<u8>,
    Seq<char>,
> {
    match key {
        None => Err("No RPC key specified. Set RETICULUM_RPC_KEY env var to the hex RPC key."@),
        Some(k) => {
            let t = match file {
                Some(f) => text::trimmed(f),
                None => k,
            };
            match given(t) {
                None => Err("invalid hexadecimal input"@),
                Some(b) => if b.len() < MIN_RPC_KEY_BYTES {
                    Err(
                        "RPC key is too short ("@ + digits::dec(b.len())
                            + " bytes); minimum is 16 bytes (32 hex characters)"@,
                    )
                } else {
                    Ok(b)
                },
            }
        },
    }
}

/// The key to use. `file` is what the file holds that the key names, where it
/// names one.
pub fn resolve_rpc_key(key: &Option<String>, file: &Option<String>) -> (r: Result<Vec<u8>, String>)
    ensures
        match r {
            Ok(b) => key_in(args::opt_text(*key), args::opt_text(*file)) == Ok::<_, Seq<char>>(b@),
            Err(e) => key_in(args::opt_text(*key), args::opt_text(*file)) == Err::<Seq<u8>, _>(
                e@,
            ),
        },
{
    match key {
        None => Err(
            "No RPC key specified. Set RETICULUM_RPC_KEY env var to the hex RPC key.".to_owned(),
        ),
        Some(k) => {
            let d = match file {
                Some(f) => {
                    let t = text::trim(f.as_str());
                    decode_hex(t.as_str())
                },
                None => decode_hex(k.as_str()),
            };
            match d {
                None => Err("invalid hexadecimal input".to_owned()),
                Some(b) => if b.len() < MIN_RPC_KEY_BYTES {
                    let n = digits::decimal(b.len() as u64);
                    Err(
                        text::cat3(
                            "RPC key is too short (",
                            n.as_str(),
                            " bytes); minimum is 16 bytes (32 hex characters)",
                        ),
                    )
                } else {
                    Ok(b)
                },
            }
        },
    }
}

// ---------------------------------------------------------------------------
// The tools that are offered
// ---------------------------------------------------------------------------

/// A property of a tool's input.
pub open spec fn property_model(kind: Seq<char>, description: Seq<char>) -> JsonModel {
    JsonModel::Object(
        seq![
            ("type"@, JsonModel::Text(kind)),
            ("description"@, JsonModel::Text(description)),
        ],
    )
}

fn property(kind: &str, description: &str) -> (r: Json)
    ensures
        r@ == property_model(kind@, description@),
{
    let mut o = json::empty();
    json::put(&mut o, "type", json::string(kind));
    json::put(&mut o, "description", json::string(description));
    assert(json::entry_models(o@) =~= property_model(kind@, description@)->Object_0);
    json::object(o)
}

/// A tool: its name, what it does, the properties of its input, and whether a
/// destination has to be among them.
pub open spec fn tool_model(
    name: Seq<char>,
    description: Seq<char>,
    properties: Seq<(Seq<char>, JsonModel)>,
    needs_destination: bool,
) -> JsonModel {
    let schema = seq![
        ("type"@, JsonModel::Text("object"@)),
        ("properties"@, JsonModel::Object(properties)),
    ];
    JsonModel::Object(
        seq![
            ("name"@, JsonModel::Text(name)),
            ("description"@, JsonModel::Text(description)),
            (
                "inputSchema"@,
                JsonModel::Object(
                    if needs_destination {
                        schema.push(
                            (
                                "required"@,
                                JsonModel::List(seq![JsonModel::Text("destination"@)]),
                            ),
                        )
                    } else {
                        schema
                    },
                ),
            ),
        ],
    )
}

fn tool(name: &str, description: &str, properties: Vec<(String, Json)>, needs_destination: bool)
    -> (r: Json)
    ensures
        r@ == tool_model(
            name@,
            description@,
            json::entry_models(properties@),
            needs_destination,
        ),
{
    let ghost want = tool_model(
        name@,
        description@,
        json::entry_models(properties@),
        needs_destination,
    )->Object_0;
    let mut schema = json::empty();
    json::put(&mut schema, "type", json::string("object"));
    json::put(&mut schema, "properties", json::object(properties));
    if needs_destination {
        let mut names: Vec<Json> = Vec::new();
        names.push(json::string("destination"));
        assert(json::list_models(names@) =~= seq![JsonModel::Text("destination"@)]);
        json::put(&mut schema, "required", json::list(names));
    }
    assert(json::entry_models(schema@) =~= want[2].1->Object_0);
    let mut o = json::empty();
    json::put(&mut o, "name", json::string(name));
    json::put(&mut o, "description", json::string(description));
    json::put(&mut o, "inputSchema", json::object(schema));
    assert(json::entry_models(o@) =~= want);
    json::object(o)
}

/// A destination among the properties of a tool's input.
pub open spec fn destination_model(description: Seq<char>) -> Seq<(Seq<char>, JsonModel)> {
    seq![("destination"@, property_model("string"@, description))]
}

fn destination(description: &str) -> (r: Vec<(String, Json)>)
    ensures
        json::entry_models(r@) == destination_model(description@),
{
    let mut o = json::empty();
    json::put(&mut o, "destination", property("string", description));
    assert(json::entry_models(o@) =~= destination_model(description@));
    o
}

/// All tools.
pub open spec fn tools() -> Seq<JsonModel> {
    seq![
        tool_model(
            "get_path_table"@,
            "List all known paths in the routing table. Optionally filter by destination hash or max hops."@,
            destination_model("Optional hex destination hash filter"@).push(
                ("max_hops"@, property_model("number"@, "Optional max hop count filter"@)),
            ),
            false,
        ),
        tool_model(
            "get_path_info"@,
            "Get detailed path information to a specific destination including first-hop radio signal data."@,
            destination_model("Hex destination hash"@),
            true,
        ),
        tool_model(
            "get_rate_table"@,
            "Show announce rate limiting information. Optionally filter by destination hash."@,
            destination_model("Optional hex destination hash filter"@),
            false,
        ),
        tool_model(
            "get_signal_info"@,
            "Get SNR and RSSI from the last received packet on the first-hop radio interface."@,
            Seq::empty(),
            false,
        ),
        tool_model(
            "list_blackholed"@,
            "List all blackholed identities. Optionally filter by identity hash."@,
            destination_model("Optional hex identity hash filter"@),
            false,
        ),
        tool_model(
            "blackhole_identity"@,
            "Blackhole an identity — removes all paths from and via this identity, and ignores their announces. Optionally set a duration (in hours) and reason."@,
            destination_model("Hex identity hash to blackhole"@).push(
                (
                    "duration"@,
                    property_model(
                        "number"@,
                        "Blackhole duration in hours (omit for indefinite)"@,
                    ),
                ),
            ).push(("reason"@, property_model("string"@, "Reason for blackholing"@))),
            true,
        ),
        tool_model(
            "unblackhole_identity"@,
            "Lift a blackhole for a previously blackholed identity."@,
            destination_model("Hex identity hash to unblackhole"@),
            true,
        ),
        tool_model(
            "drop_path"@,
            "Drop (remove) the path to a specific destination from the routing table."@,
            destination_model("Hex destination hash"@),
            true,
        ),
        tool_model(
            "drop_announces"@,
            "Drop all queued announces on all interfaces."@,
            Seq::empty(),
            false,
        ),
        tool_model(
            "get_metrics"@,
            "Get a summary of transport metrics including path table size, rate table size, blackhole count, and last signal data."@,
            Seq::empty(),
            false,
        ),
    ]
}

/// All tools.
pub fn list_tools() -> (r: Vec<Json>)
    ensures
        json::list_models(r@) == tools(),
{
    let mut table = destination("Optional hex destination hash filter");
    json::put(&mut table, "max_hops", property("number", "Optional max hop count filter"));
    let mut hole = destination("Hex identity hash to blackhole");
    json::put(
        &mut hole,
        "duration",
        property("number", "Blackhole duration in hours (omit for indefinite)"),
    );
    json::put(&mut hole, "reason", property("string", "Reason for blackholing"));
    let mut v: Vec<Json> = Vec::new();
    v.push(
        tool(
            "get_path_table",
            "List all known paths in the routing table. Optionally filter by destination hash or max hops.",
            table,
            false,
        ),
    );
    v.push(
        tool(
            "get_path_info",
            "Get detailed path information to a specific destination including first-hop radio signal data.",
            destination("Hex destination hash"),
            true,
        ),
    );
    v.push(
        tool(
            "get_rate_table",
            "Show announce rate limiting information. Optionally filter by destination hash.",
            destination("Optional hex destination hash filter"),
            false,
        ),
    );
    v.push(
        tool(
            "get_signal_info",
            "Get SNR and RSSI from the last received packet on the first-hop radio interface.",
            json::empty(),
            false,
        ),
    );
    v.push(
        tool(
            "list_blackholed",
            "List all blackholed identities. Optionally filter by identity hash.",
            destination("Optional hex identity hash filter"),
            false,
        ),
    );
    v.push(
        tool(
            "blackhole_identity",
            "Blackhole an identity — removes all paths from and via this identity, and ignores their announces. Optionally set a duration (in hours) and reason.",
            hole,
            true,
        ),
    );
    v.push(
        tool(
            "unblackhole_identity",
            "Lift a blackhole for a previously blackholed identity.",
            destination("Hex identity hash to unblackhole"),
            true,
        ),
    );
    v.push(
        tool(
            "drop_path",
            "Drop (remove) the path to a specific destination from the routing table.",
            destination("Hex destination hash"),
            true,
        ),
    );
    v.push(
        tool(
            "drop_announces",
            "Drop all queued announces on all interfaces.",
            json::empty(),
            false,
        ),
    );
    v.push(
        tool(
            "get_metrics",
            "Get a summary of transport metrics including path table size, rate table size, blackhole count, and last signal data.",
            json::empty(),
            false,
        ),
    );
    assert(json::list_models(v@) =~= tools());
    v
}

// ---------------------------------------------------------------------------
// Messages
// ---------------------------------------------------------------------------

/// The entries of a message, with the id of what it answers where that had one.
pub open spec fn with_id(o: Seq<(Seq<char>, JsonModel)>, id: Option<JsonModel>) -> JsonModel {
    JsonModel::Object(
        match id {
            Some(i) => o.push(("id"@, i)),
            None => o,
        },
    )
}

/// A value inside an option.
pub open spec fn id_view(id: Option<Json>) -> Option<JsonModel> {
    match id {
        Some(i) => Some(i@),
        None => None,
    }
}

/// The answer where all went well.
pub open spec fn success_model(id: Option<JsonModel>, result: JsonModel) -> JsonModel {
    with_id(seq![("jsonrpc"@, JsonModel::Text("2.0"@)), ("result"@, result)], id)
}

/// A whole number.
pub open spec fn int_model(n: int) -> JsonModel {
    if n >= 0 {
        JsonModel::UInt(n as u64)
    } else {
        JsonModel::NegInt(n as i64)
    }
}

/// The answer where something went wrong.
pub open spec fn error_model(id: Option<JsonModel>, code: int, message: Seq<char>) -> JsonModel {
    with_id(
        seq![
            ("jsonrpc"@, JsonModel::Text("2.0"@)),
            (
                "error"@,
                JsonModel::Object(
                    seq![("code"@, int_model(code)), ("message"@, JsonModel::Text(message))],
                ),
            ),
        ],
        id,
    )
}

/// The answer where all went well.
pub fn make_success_response(id: Option<Json>, result: Json) -> (r: Json)
    ensures
        r@ == success_model(id_view(id), result@),
{
    let ghost want = success_model(id_view(id), result@)->Object_0;
    let mut o = json::empty();
    json::put(&mut o, "jsonrpc", json::string("2.0"));
    json::put(&mut o, "result", result);
    if let Some(i) = id {
        json::put(&mut o, "id", i);
    }
    assert(json::entry_models(o@) =~= want);
    json::object(o)
}

/// The answer where something went wrong.
pub fn make_error_response(id: Option<Json>, code: i64, message: &str) -> (r: Json)
    ensures
        r@ == error_model(id_view(id), code as int, message@),
{
    let ghost want = error_model(id_view(id), code as int, message@)->Object_0;
    let mut e = json::empty();
    let number = if code >= 0 {
        Json::UInt(code as u64)
    } else {
        Json::NegInt(code)
    };
    json::put(&mut e, "code", number);
    json::put(&mut e, "message", json::string(message));
    assert(json::entry_models(e@) =~= want[1].1->Object_0);
    let mut o = json::empty();
    json::put(&mut o, "jsonrpc", json::string("2.0"));
    json::put(&mut o, "error", json::object(e));
    if let Some(i) = id {
        json::put(&mut o, "id", i);
    }
    assert(json::entry_models(o@) =~= want);
    json::object(o)
}

/// The id of a message.
pub fn extract_id(msg: &Json) -> (r: Option<Json>)
    ensures
        id_view(r) == json::entry(msg@, "id"@),
{
    match msg.get("id") {
        Some(i) => Some(i.copy()),
        None => None,
    }
}

/// What a message comes to.
#[derive(Debug)]
pub enum Handled {
    /// An answer.
    Reply(Json),
    /// Nothing.
    Silent,
    /// A call of a tool: its name, its arguments, and the id to answer with.
    Call(String, Json, Option<Json>),
}

/// What a message comes to, over sequences.
pub enum Handling {
    Reply(JsonModel),
    Silent,
    Call(Seq<char>, JsonModel, Option<JsonModel>),
}

impl View for Handled {
    type V = Handling;

    open spec fn view(&self) -> Handling {
        match self {
            Handled::Reply(j) => Handling::Reply(j@),
            Handled::Silent => Handling::Silent,
            Handled::Call(n, a, i) => Handling::Call(n@, a@, id_view(*i)),
        }
    }
}

/// What the server says of itself.
pub open spec fn greeting(version: Seq<char>) -> JsonModel {
    JsonModel::Object(
        seq![
            ("protocolVersion"@, JsonModel::Text(MCP_VERSION@)),
            (
                "capabilities"@,
                JsonModel::Object(seq![("tools"@, JsonModel::Object(Seq::empty()))]),
            ),
            (
                "serverInfo"@,
                JsonModel::Object(
                    seq![
                        ("name"@, JsonModel::Text(SERVER_NAME@)),
                        ("version"@, JsonModel::Text(version)),
                    ],
                ),
            ),
        ],
    )
}

/// The arguments of a call: an object, empty where there is none.
pub open spec fn call_arguments(params: JsonModel) -> JsonModel {
    match json::entry(params, "arguments"@) {
        Some(JsonModel::Object(o)) => JsonModel::Object(o),
        _ => JsonModel::Object(Seq::empty()),
    }
}

/// What a message comes to.
pub open spec fn handled(msg: JsonModel, version: Seq<char>) -> Result<Handling, Seq<char>> {
    let id = json::entry(msg, "id"@);
    match json::text_entry(msg, "method"@) {
        None => Err("missing method"@),
        Some(method) => if method == "initialize"@ {
            Ok(Handling::Reply(success_model(id, greeting(version))))
        } else if method == "notifications/initialized"@ {
            Ok(Handling::Silent)
        } else if method == "tools/list"@ {
            Ok(
                Handling::Reply(
                    success_model(
                        id,
                        JsonModel::Object(seq![("tools"@, JsonModel::List(tools()))]),
                    ),
                ),
            )
        } else if method == "tools/call"@ {
            match json::entry(msg, "params"@) {
                Some(JsonModel::Object(p)) => match json::text_entry(
                    JsonModel::Object(p),
                    "name"@,
                ) {
                    Some(name) => Ok(
                        Handling::Call(name, call_arguments(JsonModel::Object(p)), id),
                    ),
                    None => Err("tool name required"@),
                },
                _ => Err("tools/call requires params object"@),
            }
        } else {
            Err("unknown method: "@ + method)
        },
    }
}

fn make_greeting(version: &str) -> (r: Json)
    ensures
        r@ == greeting(version@),
{
    let ghost want = greeting(version@)->Object_0;
    let mut caps = json::empty();
    json::put(&mut caps, "tools", json::object(json::empty()));
    assert(json::entry_models(caps@) =~= want[1].1->Object_0);
    let mut info = json::empty();
    json::put(&mut info, "name", json::string(SERVER_NAME));
    json::put(&mut info, "version", json::string(version));
    assert(json::entry_models(info@) =~= want[2].1->Object_0);
    let mut o = json::empty();
    json::put(&mut o, "protocolVersion", json::string(MCP_VERSION));
    json::put(&mut o, "capabilities", json::object(caps));
    json::put(&mut o, "serverInfo", json::object(info));
    assert(json::entry_models(o@) =~= want);
    json::object(o)
}

fn is_object(j: &Json) -> (r: bool)
    ensures
        r == (j@ is Object),
{
    match j {
        Json::Object(_) => true,
        _ => false,
    }
}

/// Reads a message.
pub fn handle_message(msg: &Json, version: &str) -> (r: Result<Handled, String>)
    ensures
        match r {
            Ok(h) => handled(msg@, version@) == Ok::<_, Seq<char>>(h@),
            Err(e) => handled(msg@, version@) == Err::<Handling, _>(e@),
        },
{
    let method = match msg.get_text("method") {
        Some(m) => m,
        None => {
            return Err("missing method".to_owned());
        },
    };
    let id = extract_id(msg);
    if text::same(method, "initialize") {
        return Ok(Handled::Reply(make_success_response(id, make_greeting(version))));
    }
    if text::same(method, "notifications/initialized") {
        return Ok(Handled::Silent);
    }
    if text::same(method, "tools/list") {
        let mut o = json::empty();
        json::put(&mut o, "tools", json::list(list_tools()));
        assert(json::entry_models(o@) =~= seq![("tools"@, JsonModel::List(tools()))]);
        return Ok(Handled::Reply(make_success_response(id, json::object(o))));
    }
    if text::same(method, "tools/call") {
        let params = match msg.get("params") {
            Some(p) => p,
            None => {
                return Err("tools/call requires params object".to_owned());
            },
        };
        if !is_object(params) {
            return Err("tools/call requires params object".to_owned());
        }
        let name = match params.get_text("name") {
            Some(n) => n.to_owned(),
            None => {
                return Err("tool name required".to_owned());
            },
        };
        if let Some(a) = params.get("arguments") {
            if is_object(a) {
                return Ok(Handled::Call(name, a.copy(), id));
            }
        }
        return Ok(Handled::Call(name, json::object(json::empty()), id));
    }
    Err(text::cat("unknown method: ", method))
}

/// A request without an id is answered without one, and one with an id with the
/// same.
pub proof fn law_answers_carry_the_id(msg: JsonModel, version: Seq<char>)
    requires
        handled(msg, version) matches Ok(Handling::Reply(_)),
    ensures
        ({
            let r = handled(msg, version)->Ok_0->Reply_0;
            json::entry(r, "id"@) == json::entry(msg, "id"@)
        }),
{
    let r = handled(msg, version)->Ok_0->Reply_0;
    let result = r->Object_0[1].1;
    lemma_id_of_success(json::entry(msg, "id"@), result);
    assert(r == success_model(json::entry(msg, "id"@), result));
}

proof fn lemma_id_of_success(id: Option<JsonModel>, result: JsonModel)
    ensures
        json::entry(success_model(id, result), "id"@) == id,
{
    reveal_strlit("jsonrpc");
    reveal_strlit("result");
    reveal_strlit("id");
    assert("jsonrpc"@.len() != "id"@.len());
    assert("result"@.len() != "id"@.len());
    let o = success_model(id, result)->Object_0;
    assert(o[0].0 == "jsonrpc"@ && o[1].0 == "result"@);
    reveal_with_fuel(json::lookup, 4);
    let p = o.skip(1);
    let q = p.skip(1);
    assert(p[0] == o[1]);
    if id is Some {
        assert(q[0] == o[2]);
        assert(o[2] == ("id"@, id->0));
    }
}

/// An error answer carries the id that was given to it.
pub proof fn law_errors_carry_the_id(id: Option<JsonModel>, code: int, message: Seq<char>)
    ensures
        json::entry(error_model(id, code, message), "id"@) == id,
{
    reveal_strlit("jsonrpc");
    reveal_strlit("error");
    reveal_strlit("id");
    assert("jsonrpc"@.len() != "id"@.len());
    assert("error"@.len() != "id"@.len());
    let o = error_model(id, code, message)->Object_0;
    assert(o[0].0 == "jsonrpc"@ && o[1].0 == "error"@);
    reveal_with_fuel(json::lookup, 4);
    let p = o.skip(1);
    let q = p.skip(1);
    assert(p[0] == o[1]);
    if id is Some {
        assert(q[0] == o[2]);
        assert(o[2] == ("id"@, id->0));
    }
}

/// What a tool answers, as the result of its call.
pub open spec fn content_model(t: Seq<char>) -> JsonModel {
    JsonModel::Object(
        seq![
            (
                "content"@,
                JsonModel::List(
                    seq![
                        JsonModel::Object(
                            seq![
                                ("type"@, JsonModel::Text("text"@)),
                                ("text"@, JsonModel::Text(t)),
                            ],
                        ),
                    ],
                ),
            ),
        ],
    )
}

/// What a tool answers, as the result of its call.
pub fn tool_content(t: &str) -> (r: Json)
    ensures
        r@ == content_model(t@),
{
    let ghost want = content_model(t@)->Object_0;
    let mut o = json::empty();
    json::put(&mut o, "type", json::string("text"));
    json::put(&mut o, "text", json::string(t));
    let mut l: Vec<Json> = Vec::new();
    assert(json::entry_models(o@) =~= want[0].1->List_0[0]->Object_0);
    l.push(json::object(o));
    assert(json::list_models(l@) =~= want[0].1->List_0);
    let mut c = json::empty();
    json::put(&mut c, "content", json::list(l));
    assert(json::entry_models(c@) =~= want);
    json::object(c)
}


// ---------------------------------------------------------------------------
// Lines
// ---------------------------------------------------------------------------

/// The code of every error answer.
pub const INTERNAL_ERROR: i64 = -32603;

/// What a line comes to: nothing where it is blank, and an error answer, with the
/// id that can be made out, where it is no message that can be handled.
pub open spec fn line_handled(line: Seq<char>, version: Seq<char>) -> Handling {
    let t = text::trimmed(line);
    if t.len() == 0 {
        Handling::Silent
    } else {
        match json::json_read(t) {
            Err(e) => Handling::Reply(
                error_model(None, INTERNAL_ERROR as int, "invalid JSON: "@ + e),
            ),
            Ok(msg) => message_handled(msg, version),
        }
    }
}

/// What a message comes to, with an error as an answer.
pub open spec fn message_handled(msg: JsonModel, version: Seq<char>) -> Handling {
    match handled(msg, version) {
        Ok(h) => h,
        Err(e) => Handling::Reply(error_model(json::entry(msg, "id"@), INTERNAL_ERROR as int, e)),
    }
}

/// What a message comes to, with an error as an answer.
pub fn answer_message(msg: &Json, version: &str) -> (r: Handled)
    ensures
        r@ == message_handled(msg@, version@),
{
    match handle_message(msg, version) {
        Ok(h) => h,
        Err(e) => Handled::Reply(make_error_response(extract_id(msg), INTERNAL_ERROR, e.as_str())),
    }
}

/// What a line of the input comes to.
pub fn handle_line(line: &str, version: &str) -> (r: Handled)
    ensures
        r@ == line_handled(line@, version@),
{
    let t = text::trim(line);
    if t.as_str().unicode_len() == 0 {
        return Handled::Silent;
    }
    match json::read(t.as_str()) {
        Err(e) => {
            let m = text::cat("invalid JSON: ", e.as_str());
            Handled::Reply(make_error_response(None, INTERNAL_ERROR, m.as_str()))
        },
        Ok(msg) => answer_message(&msg, version),
    }
}

/// The answer to a call of a tool, once the tool has ended.
pub open spec fn call_answer(id: Option<JsonModel>, end: Result<Seq<char>, Seq<char>>) -> JsonModel {
    match end {
        Ok(t) => success_model(id, content_model(t)),
        Err(e) => error_model(id, INTERNAL_ERROR as int, e),
    }
}

/// The answer to a call of a tool, once the tool has ended.
pub fn answer_call(id: Option<Json>, end: &Result<String, String>) -> (r: Json)
    ensures
        r@ == call_answer(
            id_view(id),
            match end {
                Ok(t) => Ok(t@),
                Err(e) => Err(e@),
            },
        ),
{
    match end {
        Ok(t) => make_success_response(id, tool_content(t.as_str())),
        Err(e) => make_error_response(id, INTERNAL_ERROR, e.as_str()),
    }
}

/// Whatever a message comes to, an answer to it carries its id, and so does the
/// answer to the call that it makes.
pub proof fn law_every_answer_carries_the_id(
    msg: JsonModel,
    version: Seq<char>,
    end: Result<Seq<char>, Seq<char>>,
)
    ensures
        match message_handled(msg, version) {
            Handling::Reply(r) => json::entry(r, "id"@) == json::entry(msg, "id"@),
            Handling::Silent => true,
            Handling::Call(_, _, id) => json::entry(call_answer(id, end), "id"@) == json::entry(
                msg,
                "id"@,
            ),
        },
{
    match handled(msg, version) {
        Ok(Handling::Reply(_)) => law_answers_carry_the_id(msg, version),
        Ok(Handling::Silent) => {},
        Ok(Handling::Call(_, _, id)) => match end {
            Ok(t) => lemma_id_of_success(id, content_model(t)),
            Err(e) => law_errors_carry_the_id(id, INTERNAL_ERROR as int, e),
        },
        Err(e) => law_errors_carry_the_id(json::entry(msg, "id"@), INTERNAL_ERROR as int, e),
    }
}

} // verus!
