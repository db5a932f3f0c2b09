//! What a session of the remote shell comes to: what either side hands on of the
//! other's messages, when a command is run and which, and who may run one.

use vstd::prelude::*;

use crate::digits;
use crate::link::{News, Outlook};
use crate::msgpack;
use crate::msgpack::Msg;
use crate::shell::{self, EscapeAction, Typing};
use crate::shell_session;
use crate::shell_session::{Course, Deed, Progress, Session, Stage};
use crate::text;

verus! {

// ---------------------------------------------------------------------------
// Streams
// ---------------------------------------------------------------------------

/// The two bytes before a chunk say which stream it belongs to, in their lower
/// fourteen bits, and whether the stream ends and the chunk is compressed, in the
/// two bits above.
pub proof fn law_header_bits(first: u8, second: u8, data: Seq<u8>)
    ensures
        ({
            let b = seq![first, second] + data;
            let sid = ((first % 0x40) * 0x100 + second) as u16;
            let ends = first >= 0x80;
            let packed = (first / 0x40) % 2 == 1;
            &&& shell::header_in(b) == Ok::<_, Seq<char>>((sid, ends, packed))
            &&& shell::header(sid, ends, packed) == seq![first, second]
        }),
{
    let b = seq![first, second] + data;
    assert(b[0] == first && b[1] == second);
    let h = first as int * 256 + second as int;
    let sid = ((first % 0x40) * 0x100 + second) as u16;
    assert(h % 0x4000 == sid as int);
    assert((h >= 0x8000) == (first >= 0x80));
    assert((h / 0x4000) % 2 == (first / 0x40) % 2);
    let packed = (first / 0x40) % 2 == 1;
    assert(shell::header(sid, first >= 0x80, packed) =~= seq![first, second]);
}

/// What arrives for the standard input of a command reaches the command: the bytes
/// behind the header as they are, and the end of the input exactly where the header
/// says that the stream ends.
pub proof fn law_input_reaches_the_command(payload: Seq<u8>)
    requires
        payload.len() >= 2,
        payload[0] == 0x00 || payload[0] == 0x80,
        payload[1] == 0,
    ensures
        shell_session::session_input(News::Message(0xAC04, payload)) == Some(
            (payload.skip(2), payload[0] == 0x80),
        ),
{
}

/// What arrives compressed for the standard input reaches the command unpacked, and
/// the end of the input with it.
pub proof fn law_packed_input_reaches_the_command(payload: Seq<u8>, data: Seq<u8>)
    requires
        payload.len() >= 2,
        payload[0] == 0x40 || payload[0] == 0xC0,
        payload[1] == 0,
        shell::bunzip2(payload.skip(2)) == Ok::<_, Seq<char>>(data),
        data.len() <= 16384,
    ensures
        shell_session::session_input(News::Message(0xAC04, payload)) == Some(
            (data, payload[0] == 0xC0),
        ),
{
}

/// The end of the input reaches the command even where the chunk with it cannot be
/// unpacked.
pub proof fn law_end_of_input_is_never_lost(payload: Seq<u8>)
    requires
        payload.len() >= 2,
        payload[0] % 0x40 == 0,
        payload[1] == 0,
    ensures
        shell_session::session_input(News::Message(0xAC04, payload)) is Some,
        (shell_session::session_input(News::Message(0xAC04, payload))->0).1 == (payload[0] >= 0x80),
{
}

/// Nothing but the standard input reaches the command.
pub proof fn law_other_messages_are_no_input(t: u16, payload: Seq<u8>)
    requires
        t != 0xAC04 || payload.len() < 2 || payload[0] % 0x40 != 0 || payload[1] != 0,
    ensures
        shell_session::session_input(News::Message(t, payload)) is None,
{
}

/// A link that is closed ends the session; a command that had no exit code by then
/// counts as ended well. Nothing else on the link ends it.
pub proof fn law_closed_link_ends_the_session(s: Session, news: News)
    ensures
        shell_session::session_after(s, News::Closed).exited,
        shell_session::session_after(s, News::Gone).exited,
        shell_session::session_after(s, News::Closed).code >= 0,
        shell_session::session_after(s, News::Gone).code >= 0,
        s.code >= 0 ==> shell_session::session_after(s, news).code == s.code,
        !(news is Closed) && !(news is Gone) ==> shell_session::session_after(s, news) == s,
{
}

/// What a command writes reaches the same stream of the initiator.
pub proof fn law_output_reaches_its_stream(payload: Seq<u8>)
    requires
        payload.len() >= 2,
        payload[0] == 0x00 || payload[0] == 0x80,
    ensures
        payload[1] == 1 ==> shell_session::initiator_deed(News::Message(0xAC04, payload))
            == Deed::Stdout(payload.skip(2)),
        payload[1] == 2 ==> shell_session::initiator_deed(News::Message(0xAC04, payload))
            == Deed::Stderr(payload.skip(2)),
        payload[1] != 1 && payload[1] != 2 ==> shell_session::initiator_deed(
            News::Message(0xAC04, payload),
        ) == Deed::Pass,
{
}

/// What a command writes reaches the same stream of the initiator where it was sent
/// compressed.
pub proof fn law_packed_output_reaches_its_stream(payload: Seq<u8>, data: Seq<u8>)
    requires
        payload.len() >= 2,
        payload[0] == 0x40 || payload[0] == 0xC0,
        shell::bunzip2(payload.skip(2)) == Ok::<_, Seq<char>>(data),
        data.len() <= 16384,
    ensures
        payload[1] == 1 ==> shell_session::initiator_deed(News::Message(0xAC04, payload))
            == Deed::Stdout(data),
        payload[1] == 2 ==> shell_session::initiator_deed(News::Message(0xAC04, payload))
            == Deed::Stderr(data),
{
}

/// A chunk of a buffer is the front of the buffer, as it is or compressed; it is no
/// longer than allowed, and no more than a chunk may hold goes into it. A buffer that
/// is not empty is never put off where there is room.
pub proof fn law_chunk_is_the_front(buf: Seq<u8>, max: int)
    requires
        max > 0,
    ensures
        ({
            let (packed, n, chunk) = shell::chunk_of(buf, max);
            &&& 0 <= n <= buf.len()
            &&& n <= 16384
            &&& buf.len() > 0 ==> n > 0
            &&& chunk.len() <= max
            &&& packed ==> shell::bzip2(buf.take(n)) == Some(chunk) && chunk.len() < n
            &&& !packed ==> chunk == buf.take(n) && (n == buf.len() || n == max || n == 16384)
        }),
{
    let len: int = if buf.len() < 16384 {
        buf.len() as int
    } else {
        16384
    };
    lemma_chunk(buf, len, max, 1);
}

proof fn lemma_chunk(buf: Seq<u8>, len: int, max: int, t: int)
    requires
        0 <= len <= buf.len(),
        len <= 16384,
        len == buf.len() || len == 16384,
        0 < max,
        t >= 1,
    ensures
        ({
            let (packed, n, chunk) = shell::chunk_from(buf, len, max, t);
            &&& 0 <= n <= len
            &&& len > 0 ==> n > 0
            &&& chunk.len() <= max
            &&& packed ==> shell::bzip2(buf.take(n)) == Some(chunk) && chunk.len() < n
            &&& !packed ==> chunk == buf.take(n) && (n == buf.len() || n == max || n == 16384)
        }),
    decreases shell::COMP_TRIES + 1 - t,
{
    if !(t > shell::COMP_TRIES || len / t < 32) {
        let seg = len / t;
        assert(0 <= seg <= len) by (nonlinear_arith)
            requires
                seg == len / t,
                t >= 1,
                len >= 0,
        ;
        if !shell::worthwhile(shell::bzip2(buf.take(seg)), seg, max) {
            lemma_chunk(buf, len, max, t + 1);
        }
    }
}

// ---------------------------------------------------------------------------
// Ends
// ---------------------------------------------------------------------------

/// The exit code of the command is the exit code of the initiator.
pub proof fn law_exit_code_is_handed_on(payload: Seq<u8>, n: i32)
    requires
        msgpack::msgpack_read(payload) == Ok::<_, Seq<char>>(Msg::Integer(n as int)),
    ensures
        shell_session::initiator_deed(News::Message(0xAC07, payload)) == Deed::Exit(n),
{
    assert(msgpack::i64_of(Msg::Integer(n as int)) == Some(n as i64));
    assert((n as i64) as i32 == n) by (bit_vector);
}

/// An error that the listener reports ends the session of the initiator with its
/// text, and so does the end of the link without one. Everything else leaves it
/// going.
pub proof fn law_initiator_ends_with_its_link(payload: Seq<u8>, message: Seq<char>, fatal: bool)
    requires
        msgpack::msgpack_read(payload) == Ok::<_, Seq<char>>(
            Msg::Array(seq![Msg::Text(message), Msg::Boolean(fatal), Msg::Nil]),
        ),
    ensures
        shell_session::initiator_deed(News::Message(0xAC06, payload)) == Deed::Error(message),
        shell_session::initiator_deed(News::Closed) == Deed::End,
        shell_session::initiator_deed(News::Gone) == Deed::End,
        shell_session::initiator_deed(News::Quiet) == Deed::TellSize,
        shell_session::initiator_deed(News::Other) == Deed::Pass,
{
    reveal_strlit("");
    assert(""@ + message =~= message);
}

// ---------------------------------------------------------------------------
// Handshakes
// ---------------------------------------------------------------------------

/// A peer with the same protocol version is answered with the version of this
/// program, and the handshake is over if its command is known.
pub proof fn law_same_protocol_is_agreed_on(
    p: Progress,
    payload: Seq<u8>,
    software: Seq<char>,
    no_auth: bool,
    listed: bool,
)
    requires
        msgpack::msgpack_read(payload) == Ok::<_, Seq<char>>(
            Msg::Array(seq![Msg::Text(software), Msg::Integer(1)]),
        ),
    ensures
        ({
            let (q, answer, then) = shell_session::shaken(
                p,
                News::Message(0xAC05, payload),
                no_auth,
                listed,
            );
            &&& q.got_ver && q.request == p.request
            &&& answer is Some && (answer->0).0 == 0xAC05
            &&& (answer->0).1 == msgpack::msgpack(
                Msg::Array(seq![Msg::Text(shell::RNSH_VERSION@), Msg::Integer(1)]),
            )
            &&& then == if p.request is Some {
                Outlook::Ready
            } else {
                Outlook::Waiting
            }
        }),
{
    assert(msgpack::u64_of(Msg::Integer(1)) == Some(1u64));
    assert(1u64 as u8 == 1) by (bit_vector);
    assert(shell::version_msg(shell::RNSH_VERSION@, 1)->Array_0 =~= seq![
        Msg::Text(shell::RNSH_VERSION@),
        Msg::Integer(1),
    ]);
}

/// A peer with another protocol version is told so, and its command is not run.
pub proof fn law_other_protocol_is_refused(
    p: Progress,
    payload: Seq<u8>,
    software: Seq<char>,
    version: u8,
    no_auth: bool,
    listed: bool,
)
    requires
        version != 1,
        msgpack::msgpack_read(payload) == Ok::<_, Seq<char>>(
            Msg::Array(seq![Msg::Text(software), Msg::Integer(version as int)]),
        ),
    ensures
        ({
            let (q, answer, then) = shell_session::shaken(
                p,
                News::Message(0xAC05, payload),
                no_auth,
                listed,
            );
            &&& q == p
            &&& answer is Some && (answer->0).0 == 0xAC06
            &&& then is Failed
        }),
{
    assert(msgpack::u64_of(Msg::Integer(version as int)) == Some(version as u64));
    assert((version as u64) as u8 == version) by (bit_vector);
}

/// The command that a peer asks for is the one that is kept, with all that belongs to
/// it, and the handshake is over if the versions agreed.
pub proof fn law_wanted_command_is_kept(
    p: Progress,
    payload: Seq<u8>,
    wanted: shell::Exec,
    no_auth: bool,
    listed: bool,
)
    requires
        msgpack::msgpack_read(payload) == Ok::<_, Seq<char>>(shell::exec_msg(wanted)),
    ensures
        ({
            let (q, answer, then) = shell_session::shaken(
                p,
                News::Message(0xAC03, payload),
                no_auth,
                listed,
            );
            &&& q.request == Some(wanted) && q.got_ver == p.got_ver
            &&& answer is None
            &&& then == if p.got_ver {
                Outlook::Ready
            } else {
                Outlook::Waiting
            }
        }),
{
    shell::law_exec_round_trip(wanted);
}

/// A request for a command names its words first, then which of its streams are
/// piped, then the terminal and its size.
pub proof fn law_request_has_its_places(x: shell::Exec)
    ensures
        shell::exec_msg(x) is Array,
        ({
            let a = shell::exec_msg(x)->Array_0;
            &&& a.len() == 10
            &&& a[0] == Msg::Array(Seq::new(x.cmd.len(), |i: int| Msg::Text(x.cmd[i])))
            &&& a[1] == Msg::Boolean(x.pipe_in)
            &&& a[2] == Msg::Boolean(x.pipe_out)
            &&& a[3] == Msg::Boolean(x.pipe_err)
            &&& a[4] == Msg::Nil
            &&& x.term matches Some(t) ==> a[5] == Msg::Text(t)
            &&& x.term is None ==> a[5] == Msg::Nil
            &&& a[6] == Msg::Integer(x.cols as int)
            &&& a[7] == Msg::Integer(x.rows as int)
            &&& a[8] == Msg::Integer(x.hpix as int)
            &&& a[9] == Msg::Integer(x.vpix as int)
        }),
{
}

/// An identity that is allowed, and any identity where none is asked for, does not
/// stop the handshake.
pub proof fn law_allowed_identity_goes_on(p: Progress, hash: Seq<u8>, no_auth: bool, listed: bool)
    requires
        no_auth || listed,
    ensures
        ({
            let (q, answer, then) = shell_session::shaken(
                p,
                News::Identified(hash),
                no_auth,
                listed,
            );
            &&& q == p && answer is None
            &&& then == if p.got_ver && p.request is Some {
                Outlook::Ready
            } else {
                Outlook::Waiting
            }
        }),
{
}

/// A link that is closed before the handshake is over makes it fail.
pub proof fn law_closed_link_fails_the_handshake(p: Progress, no_auth: bool, listed: bool)
    ensures
        shell_session::shaken(p, News::Closed, no_auth, listed).2 is Failed,
        shell_session::shaken(p, News::Gone, no_auth, listed).2 is Failed,
        shell_session::shaken(p, News::Quiet, no_auth, listed).0 == p,
        shell_session::shaken(p, News::Quiet, no_auth, listed).1 is None,
{
}

/// An identity is allowed that stands in hexadecimal digits among those of the
/// command line or on a line of the files, and no other identity is.
pub proof fn law_listed_identities_are_allowed(
    hash: Seq<u8>,
    given: Seq<Seq<char>>,
    lines: Seq<Seq<char>>,
    i: int,
)
    requires
        hash.len() == 16,
    ensures
        0 <= i < given.len() && given[i] == digits::hex_text(hash) ==> shell::allowed(
            hash,
            given,
            lines,
        ),
        0 <= i < lines.len() && text::trimmed(lines[i]) == digits::hex_text(hash)
            ==> shell::allowed(hash, given, lines),
        given.len() == 0 && lines.len() == 0 ==> !shell::allowed(hash, given, lines),
        shell::allowed(hash, given, lines) ==> (exists|j: int|
            0 <= j < given.len() && (#[trigger] given[j]).len() >= 32 && digits::hex_bytes(
                given[j].take(32),
            ) == Some(hash)) || (exists|j: int|
            0 <= j < lines.len() && digits::hex_bytes(text::trimmed(#[trigger] lines[j])) == Some(
                hash,
            )),
{
    let h = digits::hex_text(hash);
    digits::law_hex_round_trip(hash);
    assert(h.take(32) =~= h);
    assert forall|k: int| 0 <= k < 32 implies digits::is_hex(#[trigger] h[k]) by {}
    if 0 <= i < given.len() && given[i] == h {
        assert(shell::listed_identity(given[i], false) == Some(hash));
    }
    if 0 <= i < lines.len() && text::trimmed(lines[i]) == h {
        assert(shell::listed_identity(lines[i], true) == Some(hash));
    }
    if shell::allowed(hash, given, lines) {
        if shell::listed(given, false, hash) {
            let j = choose|j: int|
                0 <= j < given.len() && shell::listed_identity(#[trigger] given[j], false) == Some(
                    hash,
                );
            let s = given[j].take(32);
            assert forall|k: int| 0 <= k < s.len() implies digits::is_hex(#[trigger] s[k]) by {
                assert(digits::is_hex(given[j][k]));
            }
            assert(digits::hex_bytes(s) == Some(hash));
            assert(given[j].len() >= 32 && digits::hex_bytes(given[j].take(32)) == Some(hash));
        } else {
            let j = choose|j: int|
                0 <= j < lines.len() && shell::listed_identity(#[trigger] lines[j], true) == Some(
                    hash,
                );
            let s = text::trimmed(lines[j]);
            assert(s.take(32) =~= s);
            assert forall|k: int| 0 <= k < s.len() implies digits::is_hex(#[trigger] s[k]) by {}
            assert(digits::hex_bytes(s) == Some(hash));
            assert(digits::hex_bytes(text::trimmed(lines[j])) == Some(hash));
        }
    }
}

/// The command of the peer is run where it is wanted and there is one, after the
/// listener's own where it is to be its arguments; else the listener's own is run, or
/// a shell where it has none.
pub proof fn law_command_is_chosen(
    own: Seq<Seq<char>>,
    remote: Seq<Seq<char>>,
    shell_name: Option<Seq<char>>,
    as_args: bool,
)
    ensures
        remote.len() > 0 ==> shell_session::chosen(own, remote, false, false, shell_name) == remote,
        shell_session::chosen(own, remote, false, true, shell_name) == own + remote,
        own.len() > 0 ==> shell_session::chosen(own, Seq::empty(), false, false, shell_name) == own,
        own.len() > 0 ==> shell_session::chosen(own, remote, true, as_args, shell_name) == own,
        shell_name matches Some(s) ==> shell_session::chosen(
            Seq::empty(),
            remote,
            true,
            as_args,
            shell_name,
        ) == seq![s],
        shell_name matches Some(s) ==> shell_session::chosen(
            Seq::empty(),
            Seq::empty(),
            false,
            false,
            shell_name,
        ) == seq![s],
        shell_session::chosen(Seq::empty(), remote, true, as_args, None) == seq!["/bin/sh"@],
        shell_session::chosen(Seq::empty(), Seq::empty(), false, false, None) == seq!["/bin/sh"@],
{
}

/// A command can be run exactly if it names a program.
pub proof fn law_command_names_a_program(program: Seq<char>, rest: Seq<Seq<char>>)
    ensures
        !shell_session::runnable(Seq::empty()),
        shell_session::runnable(seq![program] + rest) == (program.len() > 0),
{
}

// ---------------------------------------------------------------------------
// The initiator
// ---------------------------------------------------------------------------

/// An initiator greets once its link is up, showing its identity unless it is to be
/// kept back; it asks for the command once the listener has told its version; and it
/// then acts on what the listener sends.
pub proof fn law_initiator_advances(
    no_id: bool,
    expired: bool,
    payload: Seq<u8>,
    software: Seq<char>,
    version: u8,
    news: News,
)
    requires
        msgpack::msgpack_read(payload) == Ok::<_, Seq<char>>(
            Msg::Array(seq![Msg::Text(software), Msg::Integer(version as int)]),
        ),
    ensures
        ({
            let (stage, course) = shell_session::initiated(
                Stage::Opening,
                no_id,
                false,
                News::Activated,
            );
            stage == Stage::Agreeing && (course matches Course::Greet(shows, t, _) && shows
                == !no_id && t == 0xAC05)
        }),
        shell_session::initiated(Stage::Agreeing, no_id, false, News::Message(0xAC05, payload)) == (
            Stage::Running,
            Course::StartCommand,
        ),
        shell_session::initiated(Stage::Running, no_id, expired, news) == (
            Stage::Running,
            Course::Do(shell_session::initiator_deed(news)),
        ),
{
}

/// An initiator fails where its link is closed or time runs out before the command
/// runs.
pub proof fn law_initiator_fails_early(no_id: bool, expired: bool, news: News, stage: Stage)
    requires
        stage != Stage::Running,
        expired || news is Closed || news is Gone,
    ensures
        shell_session::initiated(stage, no_id, expired, news).0 == stage,
        shell_session::initiated(stage, no_id, expired, news).1 is Fail,
{
}

/// What stands before the first pair of dashes is for the program, and what stands
/// behind it is the command, word for word.
pub proof fn law_command_follows_the_dashes(before: Seq<Seq<char>>, command: Seq<Seq<char>>)
    requires
        !before.contains("--"@),
    ensures
        shell_session::own_args(before + seq!["--"@] + command) == before,
        shell_session::command_args(before + seq!["--"@] + command) == command,
        shell_session::own_args(before) == before,
        shell_session::command_args(before) == Seq::<Seq<char>>::empty(),
{
    lemma_own_count(before, command);
    lemma_own_count_alone(before);
    let raw = before + seq!["--"@] + command;
    assert(raw.take(before.len() as int) =~= before);
    assert(raw.skip(before.len() as int + 1) =~= command);
    assert(before.take(before.len() as int) =~= before);
}

proof fn lemma_own_count(before: Seq<Seq<char>>, command: Seq<Seq<char>>)
    requires
        !before.contains("--"@),
    ensures
        shell_session::own_count(before + seq!["--"@] + command) == before.len(),
    decreases before.len(),
{
    let raw = before + seq!["--"@] + command;
    if before.len() == 0 {
        assert(raw[0] == "--"@);
    } else {
        assert(before.contains(before[0]));
        assert forall|i: int| 0 <= i < before.skip(1).len() implies before.skip(1)[i] != "--"@ by {
            assert(before.contains(before[i + 1]));
        }
        lemma_own_count(before.skip(1), command);
        assert(raw.skip(1) =~= before.skip(1) + seq!["--"@] + command);
        assert(raw[0] == before[0]);
    }
}

proof fn lemma_own_count_alone(before: Seq<Seq<char>>)
    requires
        !before.contains("--"@),
    ensures
        shell_session::own_count(before) == before.len(),
    decreases before.len(),
{
    if before.len() > 0 {
        assert(before.contains(before[0]));
        assert forall|i: int| 0 <= i < before.skip(1).len() implies before.skip(1)[i] != "--"@ by {
            assert(before.contains(before[i + 1]));
        }
        lemma_own_count_alone(before.skip(1));
    }
}

// ---------------------------------------------------------------------------
// Typing
// ---------------------------------------------------------------------------

/// The end of a line is always sent, begins a new line, and forgets the old one.
pub proof fn law_line_ends_are_sent(t: Typing)
    ensures
        shell::typed(t, 13) == (
            Typing { pre_newline: true, line: Seq::empty(), ahead: 0, ..t },
            seq![13u8],
            None::<EscapeAction>,
        ),
        shell::typed(t, 10) == (
            Typing { pre_newline: true, line: Seq::empty(), ahead: 0, ..t },
            seq![10u8],
            None::<EscapeAction>,
        ),
{
}

/// What follows a tilde at the start of a line is a command: a point, a question mark or
/// an `L`; anything else is sent with the tilde, and none of it is lost.
pub proof fn law_tilde_starts_a_command(t: Typing, b: u8)
    requires
        t.pre_newline,
        b != 10,
        b != 13,
    ensures
        ({
            let after = shell::typed(t, 126).0;
            &&& shell::typed(t, 126).1.len() == 0 && shell::typed(t, 126).2 is None
            &&& shell::typed(after, 46).2 == Some(EscapeAction::Disconnect)
            &&& shell::typed(after, 63).2 == Some(EscapeAction::Help)
            &&& !t.line_mode ==> shell::typed(after, 76).2 == Some(EscapeAction::LineModeEnabled)
                && shell::typed(after, 76).0.line_mode
            &&& t.line_mode ==> shell::typed(after, 76).2 == Some(EscapeAction::LineModeDisabled)
                && !shell::typed(after, 76).0.line_mode
            &&& shell::typed(after, 126).1 == seq![126u8]
            &&& b != 46 && b != 63 && b != 76 && b != 126 ==> shell::typed(after, b).1 == seq![
                126u8,
                b,
            ] && shell::typed(after, b).2 is None
            &&& !shell::typed(after, b).0.esc_active
            &&& shell::typed(after, b).0.line == t.line
        }),
{
}

/// In line mode a character is shown and kept, and taking it back leaves the line as it
/// was; on an empty line there is nothing to take back.
pub proof fn law_characters_can_be_taken_back(t: Typing, b: u8)
    requires
        t.line_mode,
        !t.esc_active,
        !t.pre_newline,
        b >= 32,
        b != 127,
    ensures
        shell::typed(t, b).1 == seq![b],
        shell::typed(t, b).0.line == t.line.push(b),
        shell::typed(shell::typed(t, b).0, 127) == (t, seq![8u8, 32u8, 8u8], None::<EscapeAction>),
        shell::typed(shell::typed(t, b).0, 8) == (t, seq![8u8, 32u8, 8u8], None::<EscapeAction>),
        t.line.len() == 0 ==> shell::typed(t, 127) == (t, Seq::<u8>::empty(), None::<EscapeAction>),
{
    let n = shell::typed(t, b).0;
    assert(n.line.drop_last() =~= t.line);
    assert(shell::typed(n, 127).0 =~= t);
    assert(shell::typed(n, 8).0 =~= t);
}

/// In line mode a control character sends the line with it, takes back what was shown of
/// it, and begins a new line.
pub proof fn law_control_characters_send_the_line(t: Typing, b: u8)
    requires
        t.line_mode,
        !t.esc_active,
        b == 3 || b == 4 || b == 9 || b == 26 || b == 27 || b == 1 || b == 5 || b == 12 || b == 17
            || b == 19 || b == 21 || b == 25,
    ensures
        shell::typed(t, b).1 == t.line.push(b) + shell::rubouts(t.ahead),
        shell::typed(t, b).0.line.len() == 0,
        shell::typed(t, b).0.ahead == 0,
        shell::typed(t, b).0.line_mode,
        shell::rubouts(t.ahead + 1) == shell::rubouts(t.ahead) + seq![8u8, 32u8, 8u8],
        shell::rubouts(0).len() == 0,
{
}

/// A run of typed bytes does what its parts do one after the other.
pub proof fn law_typing_goes_on(t: Typing, first: Seq<u8>, rest: Seq<u8>)
    ensures
        shell::sent_for(t, first + rest) == shell::sent_for(t, first) + shell::sent_for(
            shell::after_typing(t, first),
            rest,
        ),
        shell::after_typing(t, first + rest) == shell::after_typing(
            shell::after_typing(t, first),
            rest,
        ),
    decreases first.len(),
{
    if first.len() == 0 {
        assert(first + rest =~= rest);
        assert(shell::sent_for(t, first) =~= Seq::empty());
        assert(Seq::<u8>::empty() + shell::sent_for(t, rest) =~= shell::sent_for(t, rest));
    } else {
        let n = shell::typed(t, first[0]).0;
        assert((first + rest)[0] == first[0]);
        assert((first + rest).skip(1) =~= first.skip(1) + rest);
        law_typing_goes_on(n, first.skip(1), rest);
        assert(shell::sent_for(t, first + rest) =~= shell::sent_for(t, first) + shell::sent_for(
            shell::after_typing(t, first),
            rest,
        ));
    }
}

/// The size of the terminal is told by rows, columns and the two sizes in dots, and an
/// error by its words and whether it is fatal.
pub proof fn law_sizes_and_errors_have_their_places(
    rows: u16,
    cols: u16,
    hpix: u16,
    vpix: u16,
    message: Seq<char>,
    fatal: bool,
)
    ensures
        shell::window_msg(rows, cols, hpix, vpix) == Msg::Array(
            seq![
                Msg::Integer(rows as int),
                Msg::Integer(cols as int),
                Msg::Integer(hpix as int),
                Msg::Integer(vpix as int),
            ],
        ),
        shell::error_in(Ok(shell::error_msg(message, fatal))) == (message, fatal),
        shell::error_in(Err(message)) == ("parse error"@, false),
{
}

/// The identity of the default service has the name of the program, and that of another
/// the name of the service behind it.
pub proof fn law_services_have_their_identity(svc: Seq<char>)
    ensures
        shell::ident_name(Seq::<char>::empty()) == "rnsh"@,
        shell::ident_name("default"@) == "rnsh"@,
        svc.len() > 0 && svc != "default"@ ==> shell::ident_name(svc) == "rnsh"@ + "."@ + svc,
{
}

/// A shell is the one that is configured, and otherwise the usual one.
pub proof fn law_shell_is_the_usual_one(name: Seq<char>)
    ensures
        shell_session::shell_command(Some(name)) == seq![name],
        shell_session::shell_command(None) == seq!["/bin/sh"@],
{
}

} // verus!
