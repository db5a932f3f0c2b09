//! What the configuration promises: where it is looked for, how the older form of it is
//! rewritten, and which interfaces it starts.

use vstd::prelude::*;

use crate::config::{
    self, DirFacts, InterfaceConfig, LoggingConfig, MetricsConfig, ReticulumConfig, Started,
};
use crate::digits;
use crate::text;

verus! {

// ---------------------------------------------------------------------------
// Where it is found
// ---------------------------------------------------------------------------

/// The configuration is looked for below the home directory first, and then for the
/// whole system.
pub proof fn law_home_comes_before_the_system(home: Seq<char>)
    requires
        home.len() > 0,
        home.last() != '/',
    ensures
        config::directories(Some(home), false) == seq![
            home + "/"@ + ".config/reticulum"@,
            home + "/"@ + ".reticulum"@,
            "/etc/reticulum"@,
        ],
        config::directories(Some(home), true) == seq![
            home + "/"@ + "config/settings/reticulum"@,
            home + "/"@ + ".config/reticulum"@,
            home + "/"@ + ".reticulum"@,
            "/etc/reticulum"@,
        ],
        config::directories(None, false) == seq!["/etc/reticulum"@],
        config::directories(None, true) == seq!["/etc/reticulum"@],
{
    assert(config::directories(Some(home), false) =~= seq![
        home + "/"@ + ".config/reticulum"@,
        home + "/"@ + ".reticulum"@,
        "/etc/reticulum"@,
    ]);
    assert(config::directories(Some(home), true) =~= seq![
        home + "/"@ + "config/settings/reticulum"@,
        home + "/"@ + ".config/reticulum"@,
        home + "/"@ + ".reticulum"@,
        "/etc/reticulum"@,
    ]);
    assert(config::directories(None, false) =~= seq!["/etc/reticulum"@]);
    assert(config::directories(None, true) =~= seq!["/etc/reticulum"@]);
}

/// The first directory that holds either file is taken, and none where none does.
pub proof fn law_first_directory_is_taken(
    path: Seq<char>,
    paths: Seq<Seq<char>>,
    fact: DirFacts,
    facts: Seq<DirFacts>,
)
    ensures
        fact.config || fact.config_toml ==> config::existing(seq![path] + paths, seq![fact] + facts)
            == Some(path),
        !fact.config && !fact.config_toml ==> config::existing(
            seq![path] + paths,
            seq![fact] + facts,
        ) == config::existing(paths, facts),
        config::existing(Seq::<Seq<char>>::empty(), facts) is None,
{
    assert((seq![path] + paths).skip(1) =~= paths);
    assert((seq![fact] + facts).skip(1) =~= facts);
}

/// A higher level logs more.
pub proof fn law_levels_have_their_names(level: u8)
    ensures
        config::filter_name(0) == "error"@,
        config::filter_name(1) == "error"@,
        config::filter_name(2) == "warn"@,
        config::filter_name(3) == "info"@,
        config::filter_name(4) == "info"@,
        config::filter_name(5) == "debug"@,
        config::filter_name(6) == "debug"@,
        level >= 7 ==> config::filter_name(level) == "trace"@,
{
}

// ---------------------------------------------------------------------------
// The older form
// ---------------------------------------------------------------------------

/// Lines are rewritten one by one, in their order.
pub proof fn law_lines_are_rewritten_one_by_one(lines: Seq<Seq<char>>, line: Seq<char>)
    ensures
        config::all_rewritten(lines.push(line)) == config::all_rewritten(lines) + config::rewritten(
            line,
        ),
        config::all_rewritten(Seq::<Seq<char>>::empty()).len() == 0,
{
    assert(lines.push(line).drop_last() =~= lines);
}

proof fn lemma_first_at_is(s: Seq<char>, p: Seq<char>, at: int)
    requires
        0 <= at <= s.len(),
        text::begins(s.skip(at), p),
        forall|j: int| 0 <= j < at ==> !text::begins(#[trigger] s.skip(j), p),
    ensures
        text::first_at(s, p) == Some(at),
    decreases at,
{
    assert(s.skip(0) =~= s);
    if at > 0 {
        assert(!text::begins(s.skip(0), p));
        let t = s.skip(1);
        assert(t.skip(at - 1) =~= s.skip(at));
        assert forall|j: int| 0 <= j < at - 1 implies !text::begins(#[trigger] t.skip(j), p) by {
            assert(t.skip(j) =~= s.skip(j + 1));
            assert(!text::begins(s.skip(j + 1), p));
        }
        lemma_first_at_is(t, p, at - 1);
    }
}

proof fn lemma_set(key: Seq<char>, value: Seq<char>)
    requires
        !key.contains('='),
    ensures
        text::first_at(key + " = "@ + value, " = "@) == Some(key.len() as int),
        (key + " = "@ + value).skip(key.len() as int + 3) == value,
        (key + " = "@ + value).take(key.len() as int) == key,
{
    reveal_strlit(" = ");
    let line = key + " = "@ + value;
    let at = key.len() as int;
    assert(" = "@.len() == 3 && " = "@[0] == ' ' && " = "@[1] == '=' && " = "@[2] == ' ');
    assert(line.skip(at).take(3) =~= " = "@);
    assert forall|j: int| 0 <= j < at implies !text::begins(#[trigger] line.skip(j), " = "@) by {
        if text::begins(line.skip(j), " = "@) {
            assert(line.skip(j).take(3)[1] == line[j + 1]);
            assert(line[j + 1] == '=');
            if j + 1 < at {
                assert(key[j + 1] == '=');
            } else {
                assert(line[at] == ' ');
            }
        }
    }
    lemma_first_at_is(line, " = "@, at);
    assert(line.skip(at + 3) =~= value);
    assert(line.take(at) =~= key);
}

/// What may stand behind a value: nothing, or a blank and a comment.
pub open spec fn comment(tail: Seq<char>) -> bool {
    tail.len() == 0 || (tail.len() >= 2 && tail[0] == ' ' && tail[1] == '#' && !text::white(
        tail.last(),
    ))
}

proof fn lemma_comment_ends_a_value(word: Seq<char>, tail: Seq<char>)
    requires
        comment(tail),
        word.len() > 0,
        !text::white(word[0]),
        !text::white(word.last()),
    ensures
        config::ends_value(tail),
        text::trimmed(word + tail) == word + tail,
        text::after(word + tail, word) == Some(tail),
{
    reveal_strlit("#");
    let v = word + tail;
    assert(v[0] == word[0]);
    if tail.len() > 0 {
        assert(v.last() == tail.last());
        assert(text::white(' '));
        let t = tail.skip(1);
        assert(t[0] == '#');
        assert(!text::white('#'));
        assert(text::trimmed_start(t) == t);
        assert(text::trimmed_start(tail) == t);
        text::lemma_trimmed_end_keeps_the_front(t);
        assert(text::trimmed(tail).take(1) =~= "#"@);
    } else {
        assert(v.last() == word.last());
    }
    assert(v.take(word.len() as int) =~= word);
    assert(v.skip(word.len() as int) =~= tail);
}

/// The six words for truth values are spelt as the new form wants them, with the comment
/// behind them kept.
pub proof fn law_truth_values_are_respelt(key: Seq<char>, tail: Seq<char>)
    requires
        !key.contains('='),
        comment(tail),
    ensures
        config::truths(key + " = "@ + ("True"@ + tail)) == key + " = "@ + ("true"@ + tail),
        config::truths(key + " = "@ + ("Yes"@ + tail)) == key + " = "@ + ("true"@ + tail),
        config::truths(key + " = "@ + ("yes"@ + tail)) == key + " = "@ + ("true"@ + tail),
        config::truths(key + " = "@ + ("False"@ + tail)) == key + " = "@ + ("false"@ + tail),
        config::truths(key + " = "@ + ("No"@ + tail)) == key + " = "@ + ("false"@ + tail),
        config::truths(key + " = "@ + ("no"@ + tail)) == key + " = "@ + ("false"@ + tail),
{
    reveal_strlit("True");
    reveal_strlit("False");
    reveal_strlit("Yes");
    reveal_strlit("yes");
    reveal_strlit("No");
    reveal_strlit("no");
    assert("True"@.len() == 4 && "True"@[0] == 'T' && "True"@.last() == 'e');
    assert("False"@.len() == 5 && "False"@[0] == 'F' && "False"@.last() == 'e');
    assert("Yes"@.len() == 3 && "Yes"@[0] == 'Y' && "Yes"@.last() == 's');
    assert("yes"@.len() == 3 && "yes"@[0] == 'y' && "yes"@.last() == 's');
    assert("No"@.len() == 2 && "No"@[0] == 'N' && "No"@.last() == 'o');
    assert("no"@.len() == 2 && "no"@[0] == 'n' && "no"@.last() == 'o');
    lemma_word("True"@, tail, key);
    lemma_word("False"@, tail, key);
    lemma_word("Yes"@, tail, key);
    lemma_word("yes"@, tail, key);
    lemma_word("No"@, tail, key);
    lemma_word("no"@, tail, key);
}

proof fn lemma_word(word: Seq<char>, tail: Seq<char>, key: Seq<char>)
    requires
        !key.contains('='),
        comment(tail),
        word.len() > 0,
        !text::white(word[0]),
        !text::white(word.last()),
    ensures
        text::after(word + tail, word) == Some(tail),
        config::ends_value(tail),
        (word + tail)[0] == word[0],
        forall|other: Seq<char>|
            other.len() > 0 && other[0] != word[0] ==> (#[trigger] text::after(word + tail, other))
                is None,
        config::truths(key + " = "@ + (word + tail)) == (match config::truth_value(word + tail) {
            Some(value) => key + " = "@ + value,
            None => key + " = "@ + (word + tail),
        }),
{
    lemma_comment_ends_a_value(word, tail);
    lemma_set(key, word + tail);
    let v = word + tail;
    assert forall|other: Seq<char>| other.len() > 0 && other[0] != word[0] implies (
    #[trigger] text::after(v, other)) is None by {
        if text::begins(v, other) {
            assert(v.take(other.len() as int)[0] == v[0]);
        }
    }
}

/// A line that sets nothing is kept, and so is a value that only begins with such a word.
pub proof fn law_other_values_are_kept(key: Seq<char>, rest: Seq<char>, line: Seq<char>)
    requires
        !key.contains('='),
        rest.len() > 0,
        !text::white(rest[0]),
        rest[0] != '#',
        !text::white(rest.last()),
        !text::holds(line, " = "@),
    ensures
        config::truths(key + " = "@ + ("True"@ + rest)) == key + " = "@ + ("True"@ + rest),
        config::truths(line) == line,
{
    reveal_strlit("True");
    reveal_strlit("False");
    reveal_strlit("Yes");
    reveal_strlit("yes");
    reveal_strlit("No");
    reveal_strlit("no");
    reveal_strlit("#");
    assert("True"@.len() == 4 && "True"@[0] == 'T');
    assert("False"@.len() == 5 && "False"@[0] == 'F');
    assert("Yes"@.len() == 3 && "Yes"@[0] == 'Y');
    assert("yes"@.len() == 3 && "yes"@[0] == 'y');
    assert("No"@.len() == 2 && "No"@[0] == 'N');
    assert("no"@.len() == 2 && "no"@[0] == 'n');
    let v = "True"@ + rest;
    lemma_set(key, v);
    text::lemma_first_at(line, " = "@);
    assert(v[0] == 'T');
    assert(v.last() == rest.last());
    assert(text::trimmed(v) == v);
    assert(v.skip(4) =~= rest);
    assert(text::trimmed_start(rest) == rest);
    assert(text::trimmed(rest) == rest);
    assert(rest.take(1)[0] == rest[0]);
    assert("#"@[0] == '#');
    assert forall|other: Seq<char>| other.len() > 0 && other[0] != 'T' implies (
    #[trigger] text::after(v, other)) is None by {
        if text::begins(v, other) {
            assert(v.take(other.len() as int)[0] == v[0]);
        }
    }
}

/// The value of a text key is put in quotes, and a number or a truth value is not.
pub proof fn law_texts_are_quoted(key: Seq<char>, value: Seq<char>)
    requires
        !key.contains('='),
        value.len() > 0,
        forall|i: int| 0 <= i < value.len() ==> !text::white(#[trigger] value[i]),
        !value.contains('"'),
        !value.contains('='),
    ensures
        !digits::decimal_text(value) && value != "true"@ && value != "false"@ ==> config::quoted(
            key + " = "@ + value,
            key,
        ) == key + " = \""@ + config::escaped(value) + "\""@,
        digits::decimal_text(value) || value == "true"@ || value == "false"@ ==> config::quoted(
            key + " = "@ + value,
            key,
        ) == key + " = "@ + value,
{
    reveal_strlit(" = ");
    reveal_strlit(" = \"");
    let pattern = key + " = "@;
    let line = key + " = "@ + value;
    assert(" = \""@.len() == 4 && " = \""@[1] == '=' && " = \""@[3] == '"');
    assert(" = "@[1] == '=');
    assert(line.skip(0) =~= line);
    assert(line.take(pattern.len() as int) =~= pattern);
    assert(text::begins(line, pattern));
    assert(text::first_at(line, pattern) == Some(0int));
    let v = line.skip(pattern.len() as int);
    assert(v =~= value);
    assert(!text::white(value[0]));
    assert(text::trimmed_start(value) == value);
    lemma_unbroken(value);
    assert(text::first_word(v) == value);
    let marked = key + " = \""@;
    assert(!text::holds(line, marked)) by {
        if text::holds(line, marked) {
            let i = choose|i: int|
                0 <= i <= line.len() && #[trigger] text::begins(line.skip(i), marked);
            let n = marked.len() as int;
            let e = key.len() as int + 1;
            let q = key.len() as int + 3;
            assert(line.skip(i).take(n)[e] == line[i + e]);
            assert(line.skip(i).take(n)[q] == line[i + q]);
            assert(marked[e] == '=' && marked[q] == '"');
            assert(line[i + e] == '=');
            if i + e < key.len() {
                assert(key[i + e] == '=');
            } else if i + e >= key.len() + 3 {
                assert(value[i + e - key.len() - 3] == '=');
            }
            assert(i == 0);
            assert(value[0] == '"');
        }
    }
    assert(line.take(0) =~= Seq::empty());
    assert(Seq::empty() + key =~= key);
}

proof fn lemma_unbroken(s: Seq<char>)
    requires
        forall|i: int| 0 <= i < s.len() ==> !text::white(#[trigger] s[i]),
    ensures
        text::unbroken(s) == s,
    decreases s.len(),
{
    if s.len() > 0 {
        assert(!text::white(s[0]));
        let t = s.skip(1);
        assert forall|i: int| 0 <= i < t.len() implies !text::white(#[trigger] t[i]) by {
            assert(t[i] == s[i + 1]);
        }
        lemma_unbroken(t);
        assert(seq![s[0]] + t =~= s);
    } else {
        assert(text::unbroken(s) =~= s);
    }
}

/// The keys whose values are texts.
pub proof fn law_text_keys()
    ensures
        config::text_keys() == seq![
            "type"@,
            "remote"@,
            "target_host"@,
            "bind_host"@,
            "listen_ip"@,
            "forward_ip"@,
            "peers"@,
            "instance_name"@,
            "port"@,
            "callsign"@,
            "parity"@,
            "transport_identity"@,
            "spi_path"@,
            "chipset"@,
        ],
{
}

/// A header in double brackets starts an interface with that name; blank lines stay
/// blank, and the header of all interfaces goes.
pub proof fn law_headers_start_interfaces(name: Seq<char>)
    requires
        name.len() > 0,
        !text::white(name[0]) && !text::white(name.last()),
        name[0] != '[' && name.last() != ']',
        name != "interfaces"@,
    ensures
        config::rewritten("[["@ + name + "]]"@) == "\n[[interfaces]]\n"@ + ("name = \""@
            + config::escaped(name) + "\"\n"@),
        config::rewritten(Seq::<char>::empty()) == "\n"@,
        config::rewritten("[interfaces]"@).len() == 0,
{
    reveal_strlit("[[");
    reveal_strlit("]]");
    reveal_strlit("[interfaces]");
    let t = "[["@ + name + "]]"@;
    let n = t.len() as int;
    assert("[["@[0] == '[' && "[["@[1] == '[' && "]]"@[0] == ']' && "]]"@[1] == ']');
    assert("[interfaces]"@[0] == '[' && "[interfaces]"@[1] == 'i');
    assert("[interfaces]"@.last() == ']');
    assert(t[0] == '[' && t[1] == '[' && t[n - 1] == ']');
    assert(!text::white('[') && !text::white(']'));
    assert(t.last() == ']');
    assert(text::trimmed(t) == t);
    assert(text::trimmed("[interfaces]"@) == "[interfaces]"@);
    assert(t != "[interfaces]"@) by {
        assert(t[1] != "[interfaces]"@[1]);
    }
    assert(t.take(2) =~= "[["@);
    assert(t.skip(n - 2) =~= "]]"@);
    let a = t.skip(2);
    assert(a =~= name + "]]"@);
    assert(a.take(2)[0] == name[0]);
    assert(!text::begins(a, "[["@));
    assert(text::front_stripped(a, "[["@) == a);
    assert(text::front_stripped(t, "[["@) == a);
    let m = a.len() as int;
    assert(a.skip(m - 2) =~= "]]"@);
    let b = a.take(m - 2);
    assert(b =~= name);
    if b.len() >= 2 {
        assert(b.skip(b.len() - 2)[1] == b.last());
    }
    assert(!text::ends(b, "]]"@));
    assert(text::back_stripped(b, "]]"@) == b);
    assert(text::back_stripped(a, "]]"@) == b);
    assert(text::trimmed(b) == b);
}

// ---------------------------------------------------------------------------
// Interfaces
// ---------------------------------------------------------------------------

/// An interface that is enabled is started at its address: a server where it binds, and a
/// client at its target.
pub proof fn law_interfaces_start_at_their_address(
    host: String,
    other: String,
    port: u16,
    second: u16,
    identity: String,
)
    ensures
        config::started(
            InterfaceConfig::TCPServerInterface {
                enabled: true,
                bind_host: host,
                bind_port: port,
            },
        ) == Started::TcpServer(host@ + ":"@ + digits::dec(port as nat)),
        config::started(
            InterfaceConfig::TCPClientInterface {
                enabled: true,
                target_host: host,
                target_port: port,
                transport_identity: identity,
            },
        ) == Started::TcpClient(host@ + ":"@ + digits::dec(port as nat)),
        config::started(
            InterfaceConfig::BackboneInterface {
                enabled: true,
                port,
                bind_host: Some(host),
                target_host: None,
            },
        ) == Started::BackboneServer(host@ + ":"@ + digits::dec(port as nat)),
        config::started(
            InterfaceConfig::BackboneInterface {
                enabled: true,
                port,
                bind_host: None,
                target_host: Some(host),
            },
        ) == Started::BackboneClient(host@ + ":"@ + digits::dec(port as nat)),
        config::started(
            InterfaceConfig::UDPInterface {
                enabled: true,
                listen_ip: host,
                listen_port: port,
                forward_ip: other,
                forward_port: second,
            },
        ) == Started::Udp(
            host@ + ":"@ + digits::dec(port as nat),
            other@ + ":"@ + digits::dec(second as nat),
        ),
        config::started(InterfaceConfig::AutoInterface { enabled: true }) == Started::Auto,
{
}

/// An interface that is not enabled is never started, and a backbone needs just one side.
pub proof fn law_disabled_interfaces_are_not_started(
    host: String,
    other: String,
    port: u16,
    second: u16,
    identity: String,
    bind: Option<String>,
    target: Option<String>,
)
    ensures
        config::started(
            InterfaceConfig::TCPServerInterface {
                enabled: false,
                bind_host: host,
                bind_port: port,
            },
        ) == Started::Disabled,
        config::started(
            InterfaceConfig::TCPClientInterface {
                enabled: false,
                target_host: host,
                target_port: port,
                transport_identity: identity,
            },
        ) == Started::Disabled,
        config::started(
            InterfaceConfig::BackboneInterface {
                enabled: false,
                port,
                bind_host: bind,
                target_host: target,
            },
        ) == Started::Disabled,
        config::started(
            InterfaceConfig::UDPInterface {
                enabled: false,
                listen_ip: host,
                listen_port: port,
                forward_ip: other,
                forward_port: second,
            },
        ) == Started::Disabled,
        config::started(InterfaceConfig::AutoInterface { enabled: false }) == Started::Disabled,
        config::started(
            InterfaceConfig::BackboneInterface {
                enabled: true,
                port,
                bind_host: Some(host),
                target_host: Some(other),
            },
        ) == Started::InvalidBackbone,
        config::started(
            InterfaceConfig::BackboneInterface {
                enabled: true,
                port,
                bind_host: None,
                target_host: None,
            },
        ) == Started::InvalidBackbone,
{
}

/// The values of the keys are put in quotes one after the other.
pub proof fn law_keys_are_quoted_one_by_one(line: Seq<char>, keys: Seq<Seq<char>>, key: Seq<char>)
    ensures
        config::all_quoted(line, keys.push(key)) == config::quoted(
            config::all_quoted(line, keys),
            key,
        ),
        config::all_quoted(line, Seq::<Seq<char>>::empty()) == line,
{
    assert(keys.push(key).drop_last() =~= keys);
}

/// Where nothing is configured, nothing is forwarded or offered, and the ports and
/// intervals are the usual ones.
pub proof fn law_defaults_are_the_usual_ones(
    r: ReticulumConfig,
    l: LoggingConfig,
    m: MetricsConfig,
)
    ensures
        r.is_default() ==> !r.enable_transport && !r.enable_rpc && r.rpc_data_port == 37428
            && r.rpc_control_port == 37429 && r.rpc_bind_host@ == "127.0.0.1"@
            && !r.panic_on_interface_error && r.instance_name is None && !r.respond_to_probes
            && r.rpc_key is None && r.blackhole_sources is None && r.blackhole_update_interval
            == 60,
        l.is_default() ==> l.loglevel == 4,
        m.is_default() ==> !m.enabled && m.bind_host@ == "127.0.0.1"@ && m.bind_port == 9090
            && m.collection_interval_seconds == 5 && m.collection_timeout_seconds == 3
            && m.request_timeout_seconds == 2,
{
}

} // verus!
