//! The configuration of the router: its values, where it is found, how an older
//! one is rewritten, and which interfaces it asks for.

use vstd::prelude::*;

use crate::args;
use crate::digits;
use crate::text;

verus! {

// ---------------------------------------------------------------------------
// Values
// ---------------------------------------------------------------------------

pub const DEFAULT_PORT: u16 = 4242;

pub const DEFAULT_RPC_DATA_PORT: u16 = 37428;

pub const DEFAULT_RPC_CONTROL_PORT: u16 = 37429;

pub const DEFAULT_LOGLEVEL: u8 = 4;

pub const DEFAULT_LOCAL_BIND_HOST: &'static str = "127.0.0.1";

pub const DEFAULT_METRICS_BIND_PORT: u16 = 9090;

pub const DEFAULT_METRICS_COLLECTION_INTERVAL_SECONDS: u64 = 5;

pub const DEFAULT_METRICS_COLLECTION_TIMEOUT_SECONDS: u64 = 3;

pub const DEFAULT_METRICS_REQUEST_TIMEOUT_SECONDS: u64 = 2;

pub const DEFAULT_SYNC_WORD: u16 = 0x1424;

pub const DEFAULT_PREAMBLE_LENGTH: u16 = 8;

pub const DEFAULT_SPI_SPEED: u32 = 4_000_000;

/// The configuration.
#[derive(Debug)]
pub struct Config {
    pub reticulum: ReticulumConfig,
    pub logging: LoggingConfig,
    pub metrics: MetricsConfig,
    pub interfaces: Vec<NamedInterface>,
}

/// The instance itself.
#[derive(Debug)]
pub struct ReticulumConfig {
    pub enable_transport: bool,
    pub enable_rpc: bool,
    pub rpc_data_port: u16,
    pub rpc_control_port: u16,
    pub rpc_bind_host: String,
    pub panic_on_interface_error: bool,
    pub instance_name: Option<String>,
    pub respond_to_probes: bool,
    pub rpc_key: Option<String>,
    pub blackhole_sources: Option<String>,
    pub blackhole_update_interval: u64,
}

/// How much is logged.
#[derive(Debug)]
pub struct LoggingConfig {
    pub loglevel: u8,
}

/// The metrics that the router offers.
#[derive(Debug)]
pub struct MetricsConfig {
    pub enabled: bool,
    pub bind_host: String,
    pub bind_port: u16,
    pub collection_interval_seconds: u64,
    pub collection_timeout_seconds: u64,
    pub request_timeout_seconds: u64,
}

/// An interface with its name. The numbers of floating point are held as their
/// bits.
#[derive(Debug)]
pub struct NamedInterface {
    pub name: String,
    pub discoverable: bool,
    pub reachable_on: Option<String>,
    pub mode: Option<String>,
    pub latitude: Option<u64>,
    pub longitude: Option<u64>,
    pub height: Option<u64>,
    pub config: InterfaceConfig,
}

/// The kinds of interface. The numbers of floating point are held as their bits.
#[allow(inconsistent_fields)]
#[derive(Debug)]
pub enum InterfaceConfig {
    TCPServerInterface { enabled: bool, bind_host: String, bind_port: u16 },
    TCPClientInterface {
        enabled: bool,
        target_host: String,
        target_port: u16,
        transport_identity: String,
    },
    BackboneInterface {
        enabled: bool,
        port: u16,
        bind_host: Option<String>,
        target_host: Option<String>,
    },
    UDPInterface {
        enabled: bool,
        listen_ip: String,
        listen_port: u16,
        forward_ip: String,
        forward_port: u16,
    },
    AutoInterface { enabled: bool },
    I2PInterface { enabled: bool, connectable: bool, peers: String },
    RNodeInterface {
        enabled: bool,
        port: String,
        frequency: u64,
        bandwidth: u32,
        txpower: u8,
        spreadingfactor: u8,
        codingrate: u8,
        flow_control: bool,
    },
    BLEInterface { enabled: bool, enable_peripheral: bool, enable_central: bool },
    KISSInterface {
        enabled: bool,
        port: String,
        speed: u32,
        databits: u8,
        parity: String,
        stopbits: u8,
        preamble: u32,
        txtail: u32,
        persistence: u32,
        slottime: u32,
        flow_control: bool,
    },
    AX25KISSInterface {
        enabled: bool,
        callsign: String,
        ssid: u8,
        port: String,
        speed: u32,
        databits: u8,
        parity: String,
        stopbits: u8,
        preamble: u32,
        txtail: u32,
        persistence: u32,
        slottime: u32,
        flow_control: bool,
    },
    Modem73Interface {
        enabled: bool,
        target_host: String,
        target_port: u32,
        control_host: String,
        control_port: u32,
    },
    LoRaInterface {
        enabled: bool,
        chipset: String,
        spi_path: String,
        gpio_chip: Option<String>,
        busy_line: Option<u32>,
        reset_line: Option<u32>,
        dio1_line: Option<u32>,
        frequency: u64,
        bandwidth: u64,
        txpower: i8,
        spreadingfactor: u8,
        codingrate: u8,
        sync_word: u16,
        preamble_length: u16,
        crc_enabled: bool,
        implicit_header: bool,
        iq_inverted: bool,
        dio2_rf_switch: bool,
        tcxo_voltage: Option<u64>,
        spi_speed: u32,
        flow_control: bool,
    },
    Unsupported,
}

impl ReticulumConfig {
    /// The values where nothing is configured.
    pub open spec fn is_default(self) -> bool {
        &&& !self.enable_transport
        &&& !self.enable_rpc
        &&& self.rpc_data_port == DEFAULT_RPC_DATA_PORT
        &&& self.rpc_control_port == DEFAULT_RPC_CONTROL_PORT
        &&& self.rpc_bind_host@ == DEFAULT_LOCAL_BIND_HOST@
        &&& !self.panic_on_interface_error
        &&& self.instance_name is None
        &&& !self.respond_to_probes
        &&& self.rpc_key is None
        &&& self.blackhole_sources is None
        &&& self.blackhole_update_interval == 60
    }
}

impl Default for ReticulumConfig {
    fn default() -> (r: Self)
        ensures
            r.is_default(),
    {
        ReticulumConfig {
            enable_transport: false,
            enable_rpc: false,
            rpc_data_port: DEFAULT_RPC_DATA_PORT,
            rpc_control_port: DEFAULT_RPC_CONTROL_PORT,
            rpc_bind_host: DEFAULT_LOCAL_BIND_HOST.to_owned(),
            panic_on_interface_error: false,
            instance_name: None,
            respond_to_probes: false,
            rpc_key: None,
            blackhole_sources: None,
            blackhole_update_interval: 60,
        }
    }
}

impl LoggingConfig {
    /// The values where nothing is configured.
    pub open spec fn is_default(self) -> bool {
        self.loglevel == DEFAULT_LOGLEVEL
    }
}

impl Default for LoggingConfig {
    fn default() -> (r: Self)
        ensures
            r.is_default(),
    {
        LoggingConfig { loglevel: DEFAULT_LOGLEVEL }
    }
}

impl MetricsConfig {
    /// The values where nothing is configured.
    pub open spec fn is_default(self) -> bool {
        &&& !self.enabled
        &&& self.bind_host@ == DEFAULT_LOCAL_BIND_HOST@
        &&& self.bind_port == DEFAULT_METRICS_BIND_PORT
        &&& self.collection_interval_seconds == DEFAULT_METRICS_COLLECTION_INTERVAL_SECONDS
        &&& self.collection_timeout_seconds == DEFAULT_METRICS_COLLECTION_TIMEOUT_SECONDS
        &&& self.request_timeout_seconds == DEFAULT_METRICS_REQUEST_TIMEOUT_SECONDS
    }
}

impl Default for MetricsConfig {
    fn default() -> (r: Self)
        ensures
            r.is_default(),
    {
        MetricsConfig {
            enabled: false,
            bind_host: DEFAULT_LOCAL_BIND_HOST.to_owned(),
            bind_port: DEFAULT_METRICS_BIND_PORT,
            collection_interval_seconds: DEFAULT_METRICS_COLLECTION_INTERVAL_SECONDS,
            collection_timeout_seconds: DEFAULT_METRICS_COLLECTION_TIMEOUT_SECONDS,
            request_timeout_seconds: DEFAULT_METRICS_REQUEST_TIMEOUT_SECONDS,
        }
    }
}

impl Default for Config {
    fn default() -> (r: Self)
        ensures
            r.reticulum.is_default(),
            r.logging.is_default(),
            r.metrics.is_default(),
            r.interfaces@.len() == 0,
    {
        Config {
            reticulum: ReticulumConfig::default(),
            logging: LoggingConfig::default(),
            metrics: MetricsConfig::default(),
            interfaces: Vec::new(),
        }
    }
}

/// The name of the level that is logged at.
pub open spec fn filter_name(loglevel: u8) -> Seq<char> {
    if loglevel <= 1 {
        "error"@
    } else if loglevel == 2 {
        "warn"@
    } else if loglevel <= 4 {
        "info"@
    } else if loglevel <= 6 {
        "debug"@
    } else {
        "trace"@
    }
}

/// The interface that a new configuration starts with.
pub open spec fn first_interface(i: NamedInterface) -> bool {
    &&& i.name@ == "Default TCP Server Interface"@
    &&& !i.discoverable
    &&& i.reachable_on is None
    &&& i.mode is None
    &&& i.latitude is None
    &&& i.longitude is None
    &&& i.height is None
    &&& i.config matches InterfaceConfig::TCPServerInterface { enabled, bind_host, bind_port }
        && enabled && bind_host@ == "127.0.0.1"@ && bind_port == 4242
}

impl Config {
    /// The configuration that is written where none is found.
    pub fn default_config() -> (r: Config)
        ensures
            r.reticulum.is_default(),
            r.logging.is_default(),
            r.metrics.is_default(),
            r.interfaces@.len() == 1,
            first_interface(r.interfaces@[0]),
    {
        let i = NamedInterface {
            name: "Default TCP Server Interface".to_owned(),
            discoverable: false,
            reachable_on: None,
            mode: None,
            latitude: None,
            longitude: None,
            height: None,
            config: InterfaceConfig::TCPServerInterface {
                enabled: true,
                bind_host: "127.0.0.1".to_owned(),
                bind_port: 4242,
            },
        };
        Config {
            reticulum: ReticulumConfig::default(),
            logging: LoggingConfig::default(),
            metrics: MetricsConfig::default(),
            interfaces: vec![i],
        }
    }

    /// The name of the level that is logged at.
    pub fn log_filter(&self) -> (r: &'static str)
        ensures
            r@ == filter_name(self.logging.loglevel),
    {
        match self.logging.loglevel {
            0 => "error",
            1 => "error",
            2 => "warn",
            3 => "info",
            4 => "info",
            5 => "debug",
            6 => "debug",
            _ => "trace",
        }
    }
}

// ---------------------------------------------------------------------------
// Where it is found
// ---------------------------------------------------------------------------

/// The directories that may hold the configuration, the first one first. `haiku`
/// says that the system is Haiku.
pub open spec fn directories(home: Option<Seq<char>>, haiku: bool) -> Seq<Seq<char>> {
    let at_home = match home {
        Some(h) => (if haiku {
            seq![text::below(h, "config/settings/reticulum"@)]
        } else {
            Seq::empty()
        }) + seq![text::below(h, ".config/reticulum"@), text::below(h, ".reticulum"@)],
        None => Seq::empty(),
    };
    at_home.push("/etc/reticulum"@)
}

/// What a directory holds of a configuration.
#[derive(Debug, Clone, Copy, PartialEq, Eq, Structural)]
pub struct DirFacts {
    /// A file `config`.
    pub config: bool,
    /// A file `config.toml`.
    pub config_toml: bool,
}

/// The first directory that holds a configuration.
pub open spec fn existing(paths: Seq<Seq<char>>, facts: Seq<DirFacts>) -> Option<Seq<char>>
    decreases paths.len(),
{
    if paths.len() == 0 || facts.len() == 0 {
        None
    } else if facts[0].config || facts[0].config_toml {
        Some(paths[0])
    } else {
        existing(paths.skip(1), facts.skip(1))
    }
}

/// What is done with a directory that holds a configuration.
#[derive(Debug, Clone, Copy, PartialEq, Eq, Structural)]
pub enum FileStep {
    /// The older file is rewritten first, and then the new one is read.
    Migrate,
    Read,
    /// There is none: the error is `Missing configuration`.
    Missing,
}

impl Config {
    /// The directories that may hold the configuration.
    pub fn search_paths(home: &Option<String>, haiku: bool) -> (r: Vec<String>)
        ensures
            text::views(r@) == directories(args::opt_text(*home), haiku),
    {
        let mut out: Vec<String> = Vec::new();
        if let Some(h) = home {
            if haiku {
                out.push(text::join_path(h.as_str(), "config/settings/reticulum"));
            }
            out.push(text::join_path(h.as_str(), ".config/reticulum"));
            out.push(text::join_path(h.as_str(), ".reticulum"));
        }
        out.push("/etc/reticulum".to_owned());
        assert(text::views(out@) =~= directories(args::opt_text(*home), haiku));
        out
    }

    /// The first directory that holds a configuration, by what each of them holds.
    pub fn find_existing(paths: &[String], facts: &[DirFacts]) -> (r: Option<String>)
        requires
            paths@.len() == facts@.len(),
        ensures
            args::opt_text(r) == existing(text::views(paths@), facts@),
    {
        let n: usize = paths.len();
        let mut i: usize = 0;
        let ghost all = text::views(paths@);
        assert(all.skip(0) =~= all);
        assert(facts@.skip(0) =~= facts@);
        while i < n
            invariant
                i <= n == paths@.len() == facts@.len(),
                all == text::views(paths@),
                existing(all.skip(i as int), facts@.skip(i as int)) == existing(all, facts@),
            decreases n - i,
        {
            assert(all.skip(i as int)[0] == paths@[i as int]@);
            assert(facts@.skip(i as int)[0] == facts@[i as int]);
            if facts[i].config || facts[i].config_toml {
                return Some(paths[i].clone());
            }
            assert(all.skip(i as int).skip(1) =~= all.skip(i + 1));
            assert(facts@.skip(i as int).skip(1) =~= facts@.skip(i + 1));
            i = i + 1;
        }
        None
    }

    /// The directory that a new configuration is written to.
    pub fn default_path(home: &str, haiku: bool) -> (r: String)
        ensures
            r@ == (if haiku {
                text::below(home@, "config/settings/reticulum"@)
            } else {
                text::below(home@, ".config/reticulum"@)
            }),
    {
        if haiku {
            text::join_path(home, "config/settings/reticulum")
        } else {
            text::join_path(home, ".config/reticulum")
        }
    }

    /// What is done with a directory.
    pub fn file_step(facts: DirFacts) -> (r: FileStep)
        ensures
            r == (if facts.config_toml {
                FileStep::Read
            } else if facts.config {
                FileStep::Migrate
            } else {
                FileStep::Missing
            }),
    {
        if facts.config_toml {
            FileStep::Read
        } else if facts.config {
            FileStep::Migrate
        } else {
            FileStep::Missing
        }
    }
}

/// A directory that was found holds a configuration that can be read, perhaps
/// after it was rewritten, and no directory before it does.
pub proof fn law_found_directories_can_be_read(paths: Seq<Seq<char>>, facts: Seq<DirFacts>)
    requires
        paths.len() == facts.len(),
    ensures
        match existing(paths, facts) {
            Some(p) => exists|i: int|
                0 <= i < paths.len() && #[trigger] paths[i] == p && (facts[i].config
                    || facts[i].config_toml) && forall|j: int|
                    0 <= j < i ==> !(#[trigger] facts[j]).config && !facts[j].config_toml,
            None => forall|j: int|
                0 <= j < facts.len() ==> !(#[trigger] facts[j]).config && !facts[j].config_toml,
        },
    decreases paths.len(),
{
    if paths.len() > 0 {
        if facts[0].config || facts[0].config_toml {
            assert(paths[0] == existing(paths, facts)->0);
        } else {
            let p = paths.skip(1);
            let f = facts.skip(1);
            law_found_directories_can_be_read(p, f);
            match existing(p, f) {
                Some(x) => {
                    let i = choose|i: int|
                        0 <= i < p.len() && #[trigger] p[i] == x && (f[i].config
                            || f[i].config_toml) && forall|j: int|
                            0 <= j < i ==> !(#[trigger] f[j]).config && !f[j].config_toml;
                    assert(paths[i + 1] == x);
                    assert forall|j: int| 0 <= j < i + 1 implies !(#[trigger] facts[j]).config
                        && !facts[j].config_toml by {
                        if j > 0 {
                            assert(f[j - 1] == facts[j]);
                        }
                    }
                    assert(f[i] == facts[i + 1]);
                },
                None => {
                    assert forall|j: int| 0 <= j < facts.len() implies !(
                    #[trigger] facts[j]).config && !facts[j].config_toml by {
                        if j > 0 {
                            assert(f[j - 1] == facts[j]);
                        }
                    }
                },
            }
        }
    }
}

// ---------------------------------------------------------------------------
// The older form
// ---------------------------------------------------------------------------

/// A text as it stands between quotes.
pub open spec fn escaped(s: Seq<char>) -> Seq<char> {
    text::replaced(text::replaced(s, "\\"@, "\\\\"@), "\""@, "\\\""@)
}

fn escape(s: &str) -> (r: String)
    ensures
        r@ == escaped(s@),
{
    proof {
        reveal_strlit("\\");
        reveal_strlit("\"");
    }
    let a = text::replace(s, "\\", "\\\\");
    text::replace(a.as_str(), "\"", "\\\"")
}

/// A value that stands without quotes: a number, or a truth value.
pub open spec fn bare(v: Seq<char>) -> bool {
    digits::decimal_text(v) || v == "true"@ || v == "false"@
}

/// A line with the value of a key in quotes. It stays as it is where it does not
/// set the key, where the value is in quotes already, and where it needs none. What
/// follows the first word of the value is dropped.
pub open spec fn quoted(line: Seq<char>, key: Seq<char>) -> Seq<char> {
    let pattern = key + " = "@;
    match text::first_at(line, pattern) {
        None => line,
        Some(at) => {
            let value = text::first_word(line.skip(at + pattern.len()));
            if text::holds(line, key + " = \""@) || bare(value) {
                line
            } else {
                line.take(at) + key + " = \""@ + escaped(value) + "\""@
            }
        },
    }
}

/// Puts the value of a key in quotes.
pub fn quote_if_needed(line: &str, key: &str) -> (r: String)
    ensures
        r@ == quoted(line@, key@),
{
    let pattern = text::cat(key, " = ");
    let marked = text::cat(key, " = \"");
    match text::find(line, pattern.as_str()) {
        None => line.to_owned(),
        Some(at) => {
            proof {
                text::lemma_first_at(line@, pattern@);
            }
            let v = text::chars(line);
            let n: usize = v.len();
            let k: usize = text::chars(pattern.as_str()).len();
            assert(text::begins(line@.skip(at as int), pattern@));
            let rest = text::string(v.as_slice(), at + k, n);
            assert(rest@ =~= line@.skip(at + k));
            let value = text::word(rest.as_str());
            if text::contains(line, marked.as_str()) || digits::is_decimal(value.as_str())
                || text::same(value.as_str(), "true") || text::same(value.as_str(), "false") {
                return line.to_owned();
            }
            let mut out = text::string(v.as_slice(), 0, at);
            assert(out@ =~= line@.take(at as int));
            out.append(key);
            out.append(" = \"");
            out.append(escape(value.as_str()).as_str());
            out.append("\"");
            out
        },
    }
}

/// A line that was put in quotes is not put in quotes again.
pub proof fn law_quoting_twice_is_quoting_once(line: Seq<char>, key: Seq<char>)
    ensures
        quoted(quoted(line, key), key) == quoted(line, key),
{
    let pattern = key + " = "@;
    let marked = key + " = \""@;
    let once = quoted(line, key);
    if once != line {
        let at = text::first_at(line, pattern)->0;
        text::lemma_first_at(line, pattern);
        let value = escaped(text::first_word(line.skip(at + pattern.len())));
        assert(once == line.take(at) + key + " = \""@ + value + "\""@);
        assert(once.skip(at) =~= marked + value + "\""@);
        assert(once.skip(at).take(marked.len() as int) =~= marked);
        assert(text::begins(once.skip(at), marked));
        assert(text::holds(once, marked));
    }
}

/// A line without the key is left alone.
pub proof fn law_other_lines_are_kept(line: Seq<char>, key: Seq<char>)
    requires
        !text::holds(line, key + " = "@),
    ensures
        quoted(line, key) == line,
{
    text::lemma_first_at(line, key + " = "@);
}

/// The keys whose values are texts.
pub open spec fn text_keys() -> Seq<Seq<char>> {
    seq![
        "type"@,
        "remote"@,
        "target_host"@,
        "bind_host"@,
        "listen_ip"@,
        "forward_ip"@,
        "peers"@,
        "instance_name"@,
        "port"@,
        "callsign"@,
        "parity"@,
        "transport_identity"@,
        "spi_path"@,
        "chipset"@,
    ]
}

/// A line with the value of each of the keys in quotes.
pub open spec fn all_quoted(line: Seq<char>, keys: Seq<Seq<char>>) -> Seq<char>
    decreases keys.len(),
{
    if keys.len() == 0 {
        line
    } else {
        quoted(all_quoted(line, keys.drop_last()), keys.last())
    }
}

/// What stands behind a value: nothing, or a comment.
pub open spec fn ends_value(tail: Seq<char>) -> bool {
    tail.len() == 0 || text::begins(text::trimmed(tail), "#"@)
}

/// A value with a truth value in place of a word, where it is that word. A comment
/// behind it stays.
pub open spec fn respelt(value: Seq<char>, word: Seq<char>, truth: Seq<char>) -> Option<Seq<char>> {
    match text::after(value, word) {
        Some(tail) => if ends_value(tail) {
            Some(truth + tail)
        } else {
            None
        },
        None => None,
    }
}

/// The first of two that there is.
pub open spec fn either(a: Option<Seq<char>>, b: Option<Seq<char>>) -> Option<Seq<char>> {
    if a is Some {
        a
    } else {
        b
    }
}

/// A value that is a word for a truth value, spelt anew.
pub open spec fn truth_value(value: Seq<char>) -> Option<Seq<char>> {
    either(
        either(
            either(respelt(value, "True"@, "true"@), respelt(value, "False"@, "false"@)),
            either(respelt(value, "Yes"@, "true"@), respelt(value, "yes"@, "true"@)),
        ),
        either(respelt(value, "No"@, "false"@), respelt(value, "no"@, "false"@)),
    )
}

/// A line with its truth value spelt anew. A value that only begins with such a
/// word is left alone.
pub open spec fn truths(line: Seq<char>) -> Seq<char> {
    match text::first_at(line, " = "@) {
        None => line,
        Some(at) => match truth_value(text::trimmed(line.skip(at + 3))) {
            Some(value) => line.take(at) + " = "@ + value,
            None => line,
        },
    }
}

/// The name in a header.
pub open spec fn header_name(t: Seq<char>) -> Seq<char> {
    text::trimmed(text::back_stripped(text::front_stripped(t, "[["@), "]]"@))
}

/// What is written for a line of the older form.
pub open spec fn rewritten(line: Seq<char>) -> Seq<char> {
    let t = text::trimmed(line);
    if t.len() == 0 {
        "\n"@
    } else if t == "[interfaces]"@ {
        Seq::empty()
    } else if text::begins(t, "[["@) && text::ends(t, "]]"@) {
        if header_name(t) == "interfaces"@ {
            "\n[[interfaces]]\n"@
        } else {
            "\n[[interfaces]]\n"@ + ("name = \""@ + escaped(header_name(t)) + "\"\n"@)
        }
    } else if text::begins(truths(t), "#"@) {
        truths(t) + "\n"@
    } else {
        all_quoted(truths(t), text_keys()) + "\n"@
    }
}

/// What is written for lines of the older form.
pub open spec fn all_rewritten(lines: Seq<Seq<char>>) -> Seq<char>
    decreases lines.len(),
{
    if lines.len() == 0 {
        Seq::empty()
    } else {
        all_rewritten(lines.drop_last()) + rewritten(lines.last())
    }
}

fn respell_word(value: &str, word: &str, truth: &str) -> (r: Option<String>)
    ensures
        args::opt_text(r) == respelt(value@, word@, truth@),
{
    match text::strip_prefix(value, word) {
        Some(tail) => {
            let rest = text::trim(tail.as_str());
            if tail.as_str().is_empty() || text::starts_with(rest.as_str(), "#") {
                Some(text::cat(truth, tail.as_str()))
            } else {
                None
            }
        },
        None => None,
    }
}

fn first_some(a: Option<String>, b: Option<String>) -> (r: Option<String>)
    ensures
        args::opt_text(r) == either(args::opt_text(a), args::opt_text(b)),
{
    if a.is_some() {
        a
    } else {
        b
    }
}

fn respell_value(value: &str) -> (r: Option<String>)
    ensures
        args::opt_text(r) == truth_value(value@),
{
    first_some(
        first_some(
            first_some(
                respell_word(value, "True", "true"),
                respell_word(value, "False", "false"),
            ),
            first_some(respell_word(value, "Yes", "true"), respell_word(value, "yes", "true")),
        ),
        first_some(respell_word(value, "No", "false"), respell_word(value, "no", "false")),
    )
}

fn respell(line: String) -> (r: String)
    ensures
        r@ == truths(line@),
{
    let at = match text::find(line.as_str(), " = ") {
        Some(at) => at,
        None => {
            return line;
        },
    };
    proof {
        reveal_strlit(" = ");
        text::lemma_first_at(line@, " = "@);
    }
    let v = text::chars(line.as_str());
    let n: usize = v.len();
    let rest = text::string(v.as_slice(), at + 3, n);
    assert(rest@ =~= line@.skip(at + 3));
    let value = text::trim(rest.as_str());
    match respell_value(value.as_str()) {
        Some(t) => {
            let key = text::string(v.as_slice(), 0, at);
            assert(key@ =~= line@.take(at as int));
            text::cat3(key.as_str(), " = ", t.as_str())
        },
        None => line,
    }
}

/// The views of string slices.
pub open spec fn slice_views(v: Seq<&'static str>) -> Seq<Seq<char>> {
    Seq::new(v.len(), |i: int| v[i]@)
}

fn quote_all(line: String) -> (r: String)
    ensures
        r@ == all_quoted(line@, text_keys()),
{
    let keys = vec![
        "type",
        "remote",
        "target_host",
        "bind_host",
        "listen_ip",
        "forward_ip",
        "peers",
        "instance_name",
        "port",
        "callsign",
        "parity",
        "transport_identity",
        "spi_path",
        "chipset",
    ];
    let ghost all = slice_views(keys@);
    assert(all =~= text_keys());
    let ghost start = line@;
    let mut out = line;
    let mut i: usize = 0;
    assert(all.take(0) =~= Seq::empty());
    while i < keys.len()
        invariant
            i <= keys@.len(),
            all == slice_views(keys@),
            out@ == all_quoted(start, all.take(i as int)),
        decreases keys@.len() - i,
    {
        assert(all.take(i + 1).drop_last() =~= all.take(i as int));
        assert(all.take(i + 1).last() == keys@[i as int]@);
        out = quote_if_needed(out.as_str(), keys[i]);
        i = i + 1;
    }
    assert(all.take(i as int) =~= all);
    out
}

fn rewrite(line: &str) -> (r: String)
    ensures
        r@ == rewritten(line@),
{
    let t = text::trim(line);
    let s = t.as_str();
    if s.unicode_len() == 0 {
        return "\n".to_owned();
    }
    if text::same(s, "[interfaces]") {
        let r = String::new();
        assert(r@ =~= Seq::empty());
        return r;
    }
    if text::starts_with(s, "[[") && text::ends_with(s, "]]") {
        proof {
            reveal_strlit("[[");
            reveal_strlit("]]");
        }
        let front = text::trim_start_matches(s, "[[");
        let both = text::trim_end_matches(front.as_str(), "]]");
        let name = text::trim(both.as_str());
        if text::same(name.as_str(), "interfaces") {
            return "\n[[interfaces]]\n".to_owned();
        }
        let shown = escape(name.as_str());
        let entry = text::cat3("name = \"", shown.as_str(), "\"\n");
        return text::cat("\n[[interfaces]]\n", entry.as_str());
    }
    let spelt = respell(t);
    if text::starts_with(spelt.as_str(), "#") {
        text::cat(spelt.as_str(), "\n")
    } else {
        let q = quote_all(spelt);
        text::cat(q.as_str(), "\n")
    }
}

impl Config {
    /// Rewrites a configuration of the older form as TOML.
    pub fn convert_python_config(content: &str) -> (r: String)
        ensures
            r@ == all_rewritten(text::rows(content@)),
    {
        let lines = text::lines(content);
        let ghost all = text::views(lines@);
        let mut out = String::new();
        let mut i: usize = 0;
        assert(out@ =~= Seq::empty());
        assert(all.take(0) =~= Seq::empty());
        while i < lines.len()
            invariant
                i <= lines@.len(),
                all == text::views(lines@),
                out@ == all_rewritten(all.take(i as int)),
            decreases lines@.len() - i,
        {
            assert(all.take(i + 1).drop_last() =~= all.take(i as int));
            assert(all.take(i + 1).last() == lines@[i as int]@);
            let w = rewrite(lines[i].as_str());
            out.append(w.as_str());
            i = i + 1;
        }
        assert(all.take(i as int) =~= all);
        out
    }
}

// ---------------------------------------------------------------------------
// Interfaces
// ---------------------------------------------------------------------------

/// An interface that is to be started.
#[derive(Debug)]
pub enum Spawn {
    TcpServer(String),
    TcpClient(String),
    BackboneServer(String),
    BackboneClient(String),
    /// The address to listen at, and the one to send to.
    Udp(String, String),
    /// It is not enabled.
    Disabled,
    /// A backbone must have one side.
    InvalidBackbone,
    /// Automatic interfaces are not offered.
    Auto,
}

/// An interface that is to be started, over sequences.
pub enum Started {
    TcpServer(Seq<char>),
    TcpClient(Seq<char>),
    BackboneServer(Seq<char>),
    BackboneClient(Seq<char>),
    Udp(Seq<char>, Seq<char>),
    Disabled,
    InvalidBackbone,
    Auto,
}

impl View for Spawn {
    type V = Started;

    open spec fn view(&self) -> Started {
        match self {
            Spawn::TcpServer(a) => Started::TcpServer(a@),
            Spawn::TcpClient(a) => Started::TcpClient(a@),
            Spawn::BackboneServer(a) => Started::BackboneServer(a@),
            Spawn::BackboneClient(a) => Started::BackboneClient(a@),
            Spawn::Udp(a, b) => Started::Udp(a@, b@),
            Spawn::Disabled => Started::Disabled,
            Spawn::InvalidBackbone => Started::InvalidBackbone,
            Spawn::Auto => Started::Auto,
        }
    }
}

/// A host and a port as an address.
pub open spec fn socket(host: Seq<char>, port: u16) -> Seq<char> {
    host + ":"@ + digits::dec(port as nat)
}

/// What an interface comes to.
pub open spec fn started(i: InterfaceConfig) -> Started {
    match i {
        InterfaceConfig::TCPServerInterface { enabled, bind_host, bind_port } => if enabled {
            Started::TcpServer(socket(bind_host@, bind_port))
        } else {
            Started::Disabled
        },
        InterfaceConfig::TCPClientInterface { enabled, target_host, target_port, .. } => if enabled {
            Started::TcpClient(socket(target_host@, target_port))
        } else {
            Started::Disabled
        },
        InterfaceConfig::BackboneInterface { enabled, port, bind_host, target_host } => if enabled {
            match (bind_host, target_host) {
                (Some(h), None) => Started::BackboneServer(socket(h@, port)),
                (None, Some(h)) => Started::BackboneClient(socket(h@, port)),
                _ => Started::InvalidBackbone,
            }
        } else {
            Started::Disabled
        },
        InterfaceConfig::UDPInterface {
            enabled,
            listen_ip,
            listen_port,
            forward_ip,
            forward_port,
        } => if enabled {
            Started::Udp(socket(listen_ip@, listen_port), socket(forward_ip@, forward_port))
        } else {
            Started::Disabled
        },
        InterfaceConfig::AutoInterface { enabled } => if enabled {
            Started::Auto
        } else {
            Started::Disabled
        },
        _ => Started::Disabled,
    }
}

fn join_socket(host: &str, port: u16) -> (r: String)
    ensures
        r@ == socket(host@, port),
{
    let p = digits::decimal(port as u64);
    text::cat3(host, ":", p.as_str())
}

/// What an interface comes to.
pub fn spawn_of(i: &InterfaceConfig) -> (r: Spawn)
    ensures
        r@ == started(*i),
{
    match i {
        InterfaceConfig::TCPServerInterface { enabled, bind_host, bind_port } => if *enabled {
            Spawn::TcpServer(join_socket(bind_host.as_str(), *bind_port))
        } else {
            Spawn::Disabled
        },
        InterfaceConfig::TCPClientInterface { enabled, target_host, target_port, .. } => if *enabled {
            Spawn::TcpClient(join_socket(target_host.as_str(), *target_port))
        } else {
            Spawn::Disabled
        },
        InterfaceConfig::BackboneInterface { enabled, port, bind_host, target_host } => if *enabled {
            match (bind_host, target_host) {
                (Some(h), None) => Spawn::BackboneServer(join_socket(h.as_str(), *port)),
                (None, Some(h)) => Spawn::BackboneClient(join_socket(h.as_str(), *port)),
                _ => Spawn::InvalidBackbone,
            }
        } else {
            Spawn::Disabled
        },
        InterfaceConfig::UDPInterface {
            enabled,
            listen_ip,
            listen_port,
            forward_ip,
            forward_port,
        } => if *enabled {
            Spawn::Udp(
                join_socket(listen_ip.as_str(), *listen_port),
                join_socket(forward_ip.as_str(), *forward_port),
            )
        } else {
            Spawn::Disabled
        },
        InterfaceConfig::AutoInterface { enabled } => if *enabled {
            Spawn::Auto
        } else {
            Spawn::Disabled
        },
        _ => Spawn::Disabled,
    }
}

} // verus!
