//! The remote shell: messages, streams, the escape sequences of its terminal,
//! and the course of a session on either side.

use vstd::prelude::*;

use crate::address;
use crate::args;
use crate::bytes;
use crate::msgpack;
use crate::msgpack::{Msg, MsgValue};
use crate::text;

verus! {

pub const APP_NAME: &'static str = "rnsh";

pub const PROTOCOL_VERSION: u8 = 1;

pub const RNSH_VERSION: &'static str = "0.2.0";

pub const MSG_TYPE_WINDOW_SIZE: u16 = 0xAC02;

pub const MSG_TYPE_EXEC_CMD: u16 = 0xAC03;

pub const MSG_TYPE_STREAM_DATA: u16 = 0xAC04;

pub const MSG_TYPE_VERSION_INFO: u16 = 0xAC05;

pub const MSG_TYPE_ERROR: u16 = 0xAC06;

pub const MSG_TYPE_CMD_EXITED: u16 = 0xAC07;

pub const SID_STDIN: u16 = 0;

pub const SID_STDOUT: u16 = 1;

pub const SID_STDERR: u16 = 2;

/// The most that is put into one chunk.
pub const MAX_CHUNK: usize = 16384;

/// How many lengths are tried in compressing.
pub const COMP_TRIES: usize = 4;

/// The number of a message type, below the byte that all types share.
pub fn msg_type(id: u8) -> (r: u16)
    ensures
        r == 0xAC00 + id,
{
    0xAC00 + (id as u16)
}

// ---------------------------------------------------------------------------
// Messages
// ---------------------------------------------------------------------------

/// The item at a position, if there is one.
pub open spec fn item(a: Seq<Msg>, i: int) -> Option<Msg> {
    if 0 <= i < a.len() {
        Some(a[i])
    } else {
        None
    }
}

/// The truth value at a position; false where there is none.
pub open spec fn bool_item(a: Seq<Msg>, i: int) -> bool {
    match item(a, i) {
        Some(Msg::Boolean(b)) => b,
        _ => false,
    }
}

/// The number at a position, cut to sixteen bits, or a default.
pub open spec fn short_item(a: Seq<Msg>, i: int, default: u64) -> u16 {
    match item(a, i) {
        Some(m) => match msgpack::u64_of(m) {
            Some(n) => n as u16,
            None => default as u16,
        },
        None => default as u16,
    }
}

/// The texts among values.
pub open spec fn texts_among(a: Seq<Msg>) -> Seq<Seq<char>>
    decreases a.len(),
{
    if a.len() == 0 {
        Seq::empty()
    } else {
        match a.last() {
            Msg::Text(s) => texts_among(a.drop_last()).push(s),
            _ => texts_among(a.drop_last()),
        }
    }
}

fn bool_at(a: &Vec<MsgValue>, i: usize) -> (r: bool)
    ensures
        r == bool_item(msgpack::models(a@), i as int),
{
    if i < a.len() {
        assert(msgpack::models(a@)[i as int] == a@[i as int]@);
        match a[i].as_bool() {
            Some(b) => b,
            None => false,
        }
    } else {
        false
    }
}

fn short_at(a: &Vec<MsgValue>, i: usize, default: u64) -> (r: u16)
    ensures
        r == short_item(msgpack::models(a@), i as int, default),
{
    if i < a.len() {
        assert(msgpack::models(a@)[i as int] == a@[i as int]@);
        match a[i].as_u64() {
            Some(n) => n as u16,
            None => default as u16,
        }
    } else {
        default as u16
    }
}

fn texts_in(a: &Vec<MsgValue>) -> (r: Vec<String>)
    ensures
        text::views(r@) == texts_among(msgpack::models(a@)),
{
    let ghost all = msgpack::models(a@);
    let mut out: Vec<String> = Vec::new();
    let mut i: usize = 0;
    assert(all.take(0) =~= Seq::empty());
    assert(text::views(out@) =~= Seq::empty());
    while i < a.len()
        invariant
            i <= a@.len(),
            all == msgpack::models(a@),
            text::views(out@) == texts_among(all.take(i as int)),
        decreases a@.len() - i,
    {
        assert(all.take(i + 1).drop_last() =~= all.take(i as int));
        assert(all.take(i + 1).last() == a@[i as int]@);
        if let Some(s) = a[i].as_str() {
            let ghost before = text::views(out@);
            out.push(s.to_owned());
            assert(text::views(out@) =~= before.push(s@));
        }
        i = i + 1;
    }
    assert(all.take(all.len() as int) =~= all);
    out
}

/// The version message: a software version and a protocol version.
pub open spec fn version_msg(software: Seq<char>, protocol: u8) -> Msg {
    Msg::Array(seq![Msg::Text(software), Msg::Integer(protocol as int)])
}

/// What a version message of at least two items says.
pub open spec fn version_in(m: Msg) -> Result<(Seq<char>, u8), Seq<char>> {
    match m {
        Msg::Array(a) => Ok(
            (
                match a[0] {
                    Msg::Text(s) => s,
                    _ => Seq::empty(),
                },
                match msgpack::u64_of(a[1]) {
                    Some(n) => n as u8,
                    None => 0,
                },
            ),
        ),
        _ => Err("ver not array"@),
    }
}

/// The value is no array, or one of at least `n` items.
pub open spec fn long_enough(m: Msg, n: nat) -> bool {
    m matches Msg::Array(a) ==> a.len() >= n
}

/// Packs a version message.
pub fn pack_ver(sw: &str, pv: u8) -> (r: Vec<u8>)
    ensures
        r@ == msgpack::msgpack(version_msg(sw@, pv)),
{
    let mut a: Vec<MsgValue> = Vec::new();
    a.push(msgpack::string(sw));
    a.push(msgpack::uint(pv as u64));
    let v = msgpack::array(a);
    proof {
        assert(v@->Array_0 =~= version_msg(sw@, pv)->Array_0);
        reveal_with_fuel(msgpack::encodable, 2);
    }
    msgpack::encode(&v)
}

/// What a decoded version message says.
pub fn version_from(v: &MsgValue) -> (r: Result<(String, u8), String>)
    requires
        long_enough(v@, 2),
    ensures
        match r {
            Ok((s, p)) => version_in(v@) == Ok::<_, Seq<char>>((s@, p)),
            Err(e) => version_in(v@) == Err::<(Seq<char>, u8), _>(e@),
        },
{
    match v.as_array() {
        Some(a) => {
            assert(v@ == Msg::Array(msgpack::models(a@)));
            let s = match a[0].as_str() {
                Some(s) => s.to_owned(),
                None => String::new(),
            };
            let p: u8 = match a[1].as_u64() {
                Some(n) => n as u8,
                None => 0,
            };
            Ok((s, p))
        },
        None => Err("ver not array".to_owned()),
    }
}

fn short_array(v: &MsgValue, n: usize) -> (r: bool)
    ensures
        r == !long_enough(v@, n as nat),
{
    match v.as_array() {
        Some(a) => a.len() < n,
        None => false,
    }
}

/// Unpacks a version message. `None` where it is an array of fewer than two
/// items.
pub fn unpack_ver(raw: &[u8]) -> (r: Option<Result<(String, u8), String>>)
    ensures
        match msgpack::msgpack_read(raw@) {
            Err(e) => r matches Some(Err(x)) && x@ == e,
            Ok(m) => if long_enough(m, 2) {
                match version_in(m) {
                    Ok((s, p)) => r matches Some(Ok((x, y))) && x@ == s && y == p,
                    Err(e) => r matches Some(Err(x)) && x@ == e,
                }
            } else {
                r is None
            },
        },
        forall|s: Seq<char>, p: u8|
            raw@ == #[trigger] msgpack::msgpack(version_msg(s, p)) && msgpack::plain(
                version_msg(s, p),
                8,
            ) ==> (r matches Some(Ok((x, y))) && x@ == s && y == p),
{
    let d = msgpack::decode(raw);
    proof {
        assert forall|s: Seq<char>, p: u8|
            raw@ == #[trigger] msgpack::msgpack(version_msg(s, p)) && msgpack::plain(
                version_msg(s, p),
                8,
            ) implies d is Ok && version_in((d->Ok_0)@) == Ok::<_, Seq<char>>((s, p)) && long_enough(
            (d->Ok_0)@,
            2,
        ) by {
            assert((d->Ok_0)@ == version_msg(s, p));
            assert(msgpack::u64_of(Msg::Integer(p as int)) == Some(p as u64));
            assert((p as u64) as u8 == p) by (bit_vector);
        }
    }
    match d {
        Err(e) => Some(Err(e)),
        Ok(v) => if short_array(&v, 2) {
            None
        } else {
            Some(version_from(&v))
        },
    }
}

/// A request to run a command.
#[derive(Debug)]
pub struct ExecRequest {
    pub cmd: Vec<String>,
    pub pipe_in: bool,
    pub pipe_out: bool,
    pub pipe_err: bool,
    pub term: Option<String>,
    pub rows: u16,
    pub cols: u16,
    pub hpix: u16,
    pub vpix: u16,
}

/// A request to run a command, over sequences.
#[verifier::ext_equal]
pub struct Exec {
    pub cmd: Seq<Seq<char>>,
    pub pipe_in: bool,
    pub pipe_out: bool,
    pub pipe_err: bool,
    pub term: Option<Seq<char>>,
    pub rows: u16,
    pub cols: u16,
    pub hpix: u16,
    pub vpix: u16,
}

impl View for ExecRequest {
    type V = Exec;

    open spec fn view(&self) -> Exec {
        Exec {
            cmd: text::views(self.cmd@),
            pipe_in: self.pipe_in,
            pipe_out: self.pipe_out,
            pipe_err: self.pipe_err,
            term: args::opt_text(self.term),
            rows: self.rows,
            cols: self.cols,
            hpix: self.hpix,
            vpix: self.vpix,
        }
    }
}

/// The message that asks to run a command.
pub open spec fn exec_msg(x: Exec) -> Msg {
    Msg::Array(
        seq![
            Msg::Array(Seq::new(x.cmd.len(), |i: int| Msg::Text(x.cmd[i]))),
            Msg::Boolean(x.pipe_in),
            Msg::Boolean(x.pipe_out),
            Msg::Boolean(x.pipe_err),
            Msg::Nil,
            match x.term {
                Some(t) => Msg::Text(t),
                None => Msg::Nil,
            },
            Msg::Integer(x.cols as int),
            Msg::Integer(x.rows as int),
            Msg::Integer(x.hpix as int),
            Msg::Integer(x.vpix as int),
        ],
    )
}

/// What a message that asks to run a command says; what it leaves out has a
/// default.
pub open spec fn exec_in(m: Msg) -> Result<Exec, Seq<char>> {
    match m {
        Msg::Array(a) => Ok(
            Exec {
                cmd: match item(a, 0) {
                    Some(Msg::Array(c)) => texts_among(c),
                    _ => Seq::empty(),
                },
                pipe_in: bool_item(a, 1),
                pipe_out: bool_item(a, 2),
                pipe_err: bool_item(a, 3),
                term: match item(a, 5) {
                    Some(Msg::Text(t)) => Some(t),
                    _ => None,
                },
                cols: short_item(a, 6, 80),
                rows: short_item(a, 7, 24),
                hpix: short_item(a, 8, 0),
                vpix: short_item(a, 9, 0),
            },
        ),
        _ => Err("exec not array"@),
    }
}

proof fn lemma_texts_among(s: Seq<Seq<char>>)
    ensures
        texts_among(Seq::new(s.len(), |i: int| Msg::Text(s[i]))) == s,
    decreases s.len(),
{
    let a = Seq::new(s.len(), |i: int| Msg::Text(s[i]));
    if s.len() > 0 {
        let t = s.drop_last();
        lemma_texts_among(t);
        assert(a.drop_last() =~= Seq::new(t.len(), |i: int| Msg::Text(t[i])));
        assert(t.push(s.last()) =~= s);
    } else {
        assert(a =~= Seq::empty());
        assert(s =~= Seq::empty());
    }
}

/// A request to run a command is read as it was written.
pub proof fn law_exec_round_trip(x: Exec)
    ensures
        exec_in(exec_msg(x)) == Ok::<_, Seq<char>>(x),
{
    lemma_texts_among(x.cmd);
    let a = exec_msg(x)->Array_0;
    let (c, r, h, v) = (x.cols, x.rows, x.hpix, x.vpix);
    assert((c as u64) as u16 == c) by (bit_vector);
    assert((r as u64) as u16 == r) by (bit_vector);
    assert((h as u64) as u16 == h) by (bit_vector);
    assert((v as u64) as u16 == v) by (bit_vector);
    assert(msgpack::u64_of(a[6]) == Some(c as u64));
    assert(msgpack::u64_of(a[7]) == Some(r as u64));
    assert(msgpack::u64_of(a[8]) == Some(h as u64));
    assert(msgpack::u64_of(a[9]) == Some(v as u64));
    assert(exec_in(exec_msg(x))->Ok_0 =~= x);
}

/// Packs a request to run a command.
pub fn pack_exec(x: &ExecRequest) -> (r: Vec<u8>)
    ensures
        r@ == msgpack::msgpack(exec_msg(x@)),
{
    let mut cmds: Vec<MsgValue> = Vec::new();
    let mut i: usize = 0;
    while i < x.cmd.len()
        invariant
            i <= x.cmd@.len(),
            cmds@.len() == i,
            forall|j: int| 0 <= j < i ==> (#[trigger] cmds@[j])@ == Msg::Text(x.cmd@[j]@),
        decreases x.cmd@.len() - i,
    {
        cmds.push(msgpack::string(x.cmd[i].as_str()));
        i = i + 1;
    }
    let ghost want = exec_msg(x@)->Array_0;
    assert(msgpack::models(cmds@) =~= want[0]->Array_0);
    let mut a: Vec<MsgValue> = Vec::new();
    a.push(msgpack::array(cmds));
    a.push(msgpack::boolean(x.pipe_in));
    a.push(msgpack::boolean(x.pipe_out));
    a.push(msgpack::boolean(x.pipe_err));
    a.push(MsgValue::Nil);
    match &x.term {
        Some(t) => a.push(msgpack::string(t.as_str())),
        None => a.push(MsgValue::Nil),
    }
    a.push(msgpack::uint(x.cols as u64));
    a.push(msgpack::uint(x.rows as u64));
    a.push(msgpack::uint(x.hpix as u64));
    a.push(msgpack::uint(x.vpix as u64));
    let v = msgpack::array(a);
    proof {
        assert(v@->Array_0 =~= want);
        reveal_with_fuel(msgpack::encodable, 3);
    }
    msgpack::encode(&v)
}

/// What a decoded message that asks to run a command says.
pub fn exec_from(v: &MsgValue) -> (r: Result<ExecRequest, String>)
    ensures
        match r {
            Ok(x) => exec_in(v@) == Ok::<_, Seq<char>>(x@),
            Err(e) => exec_in(v@) == Err::<Exec, _>(e@),
        },
{
    let a = match v.as_array() {
        Some(a) => a,
        None => {
            return Err("exec not array".to_owned());
        },
    };
    let ghost all = msgpack::models(a@);
    assert(v@ == Msg::Array(all));
    let cmd = if a.len() > 0 {
        assert(all[0] == a@[0]@);
        match a[0].as_array() {
            Some(c) => texts_in(c),
            None => Vec::new(),
        }
    } else {
        Vec::new()
    };
    let term = if a.len() > 5 {
        assert(all[5] == a@[5]@);
        match a[5].as_str() {
            Some(t) => Some(t.to_owned()),
            None => None,
        }
    } else {
        None
    };
    let x = ExecRequest {
        cmd,
        pipe_in: bool_at(a, 1),
        pipe_out: bool_at(a, 2),
        pipe_err: bool_at(a, 3),
        term,
        cols: short_at(a, 6, 80),
        rows: short_at(a, 7, 24),
        hpix: short_at(a, 8, 0),
        vpix: short_at(a, 9, 0),
    };
    assert(x@ =~= exec_in(v@)->Ok_0);
    Ok(x)
}

/// Unpacks a request to run a command.
pub fn unpack_exec(raw: &[u8]) -> (r: Result<ExecRequest, String>)
    ensures
        match msgpack::msgpack_read(raw@) {
            Err(e) => r matches Err(x) && x@ == e,
            Ok(m) => match exec_in(m) {
                Ok(x) => r matches Ok(y) && y@ == x,
                Err(e) => r matches Err(x) && x@ == e,
            },
        },
        forall|x: Exec|
            raw@ == #[trigger] msgpack::msgpack(exec_msg(x)) && msgpack::plain(exec_msg(x), 8)
                ==> (r matches Ok(y) && y@ == x),
{
    let d = msgpack::decode(raw);
    proof {
        assert forall|x: Exec|
            raw@ == #[trigger] msgpack::msgpack(exec_msg(x)) && msgpack::plain(
                exec_msg(x),
                8,
            ) implies d is Ok && exec_in((d->Ok_0)@) == Ok::<_, Seq<char>>(x) by {
            law_exec_round_trip(x);
        }
    }
    match d {
        Err(e) => Err(e),
        Ok(v) => exec_from(&v),
    }
}

/// The message that tells the size of the terminal.
pub open spec fn window_msg(rows: u16, cols: u16, hpix: u16, vpix: u16) -> Msg {
    Msg::Array(
        seq![
            Msg::Integer(rows as int),
            Msg::Integer(cols as int),
            Msg::Integer(hpix as int),
            Msg::Integer(vpix as int),
        ],
    )
}

/// Packs the size of the terminal.
pub fn pack_winsz(rows: u16, cols: u16, hpix: u16, vpix: u16) -> (r: Vec<u8>)
    ensures
        r@ == msgpack::msgpack(window_msg(rows, cols, hpix, vpix)),
{
    let mut a: Vec<MsgValue> = Vec::new();
    a.push(msgpack::uint(rows as u64));
    a.push(msgpack::uint(cols as u64));
    a.push(msgpack::uint(hpix as u64));
    a.push(msgpack::uint(vpix as u64));
    let v = msgpack::array(a);
    proof {
        assert(v@->Array_0 =~= window_msg(rows, cols, hpix, vpix)->Array_0);
        reveal_with_fuel(msgpack::encodable, 2);
    }
    msgpack::encode(&v)
}

/// Packs an exit code.
pub fn pack_exit(code: i32) -> (r: Vec<u8>)
    ensures
        r@ == msgpack::msgpack(Msg::Integer(code as int)),
{
    let v = msgpack::integer(code as i64);
    msgpack::encode(&v)
}

/// The exit code that a value denotes, cut to 32 bits.
pub open spec fn exit_in(m: Msg) -> Result<i32, Seq<char>> {
    match msgpack::i64_of(m) {
        Some(n) => Ok(n as i32),
        None => Err("exit decode"@),
    }
}

/// The exit code that a decoded value denotes.
pub fn exit_from(v: &MsgValue) -> (r: Result<i32, String>)
    ensures
        match r {
            Ok(n) => exit_in(v@) == Ok::<_, Seq<char>>(n),
            Err(e) => exit_in(v@) == Err::<i32, _>(e@),
        },
{
    match v.as_i64() {
        Some(n) => Ok(n as i32),
        None => Err("exit decode".to_owned()),
    }
}

/// Unpacks an exit code.
pub fn unpack_exit(raw: &[u8]) -> (r: Result<i32, String>)
    ensures
        match msgpack::msgpack_read(raw@) {
            Err(e) => r matches Err(x) && x@ == e,
            Ok(m) => match exit_in(m) {
                Ok(n) => r matches Ok(k) && k == n,
                Err(e) => r matches Err(x) && x@ == e,
            },
        },
        forall|n: i32|
            raw@ == #[trigger] msgpack::msgpack(Msg::Integer(n as int)) ==> (r matches Ok(k) && k
                == n),
{
    let d = msgpack::decode(raw);
    proof {
        assert forall|n: i32| raw@ == #[trigger] msgpack::msgpack(Msg::Integer(n as int)) implies d is Ok
            && exit_in((d->Ok_0)@) == Ok::<_, Seq<char>>(n) by {
            assert(msgpack::plain(Msg::Integer(n as int), 8));
            assert((n as i64) as i32 == n) by (bit_vector);
            assert(msgpack::i64_of(Msg::Integer(n as int)) == Some(n as i64));
        }
    }
    match d {
        Err(e) => Err(e),
        Ok(v) => exit_from(&v),
    }
}

/// The message that reports an error.
pub open spec fn error_msg(message: Seq<char>, fatal: bool) -> Msg {
    Msg::Array(seq![Msg::Text(message), Msg::Boolean(fatal), Msg::Nil])
}

/// What a message that reports an error says, if it is an array of at least one
/// item or no array.
pub open spec fn error_in(m: Result<Msg, Seq<char>>) -> (Seq<char>, bool) {
    match m {
        Ok(Msg::Array(a)) => (
            match a[0] {
                Msg::Text(s) => s,
                _ => "?"@,
            },
            bool_item(a, 1),
        ),
        _ => ("parse error"@, false),
    }
}

/// Packs the report of an error.
pub fn pack_err(msg: &str, fatal: bool) -> (r: Vec<u8>)
    ensures
        r@ == msgpack::msgpack(error_msg(msg@, fatal)),
{
    let mut a: Vec<MsgValue> = Vec::new();
    a.push(msgpack::string(msg));
    a.push(msgpack::boolean(fatal));
    a.push(MsgValue::Nil);
    let v = msgpack::array(a);
    proof {
        assert(v@->Array_0 =~= error_msg(msg@, fatal)->Array_0);
        reveal_with_fuel(msgpack::encodable, 2);
    }
    msgpack::encode(&v)
}

/// What a decoded report of an error says.
pub fn error_from(d: &Result<MsgValue, String>) -> (r: (String, bool))
    requires
        d matches Ok(v) ==> long_enough(v@, 1),
    ensures
        (r.0@, r.1) == error_in(decoded_view(*d)),
{
    if let Ok(v) = d {
        if let Some(a) = v.as_array() {
            assert(v@ == Msg::Array(msgpack::models(a@)));
            let m = match a[0].as_str() {
                Some(s) => s.to_owned(),
                None => "?".to_owned(),
            };
            return (m, bool_at(a, 1));
        }
    }
    ("parse error".to_owned(), false)
}

/// What decoding gave, over sequences.
pub open spec fn decoded_view(d: Result<MsgValue, String>) -> Result<Msg, Seq<char>> {
    match d {
        Ok(v) => Ok(v@),
        Err(e) => Err(e@),
    }
}

/// Unpacks the report of an error. `None` where it is an empty array.
pub fn unpack_err_msg(raw: &[u8]) -> (r: Option<(String, bool)>)
    ensures
        match msgpack::msgpack_read(raw@) {
            Ok(m) => if long_enough(m, 1) {
                r matches Some((s, f)) && (s@, f) == error_in(msgpack::msgpack_read(raw@))
            } else {
                r is None
            },
            Err(_) => r matches Some((s, f)) && (s@, f) == error_in(msgpack::msgpack_read(raw@)),
        },
{
    let d = msgpack::decode(raw);
    if let Ok(v) = &d {
        if short_array(v, 1) {
            return None;
        }
    }
    Some(error_from(&d))
}

// ---------------------------------------------------------------------------
// Streams
// ---------------------------------------------------------------------------

/// The header of a chunk: two bytes, of which the top two bits say that the
/// stream ends and that the chunk is compressed, and the others which stream.
pub open spec fn header(sid: u16, eof: bool, compressed: bool) -> Seq<u8> {
    let h = (sid % 0x4000) + (if eof {
        0x8000int
    } else {
        0
    }) + (if compressed {
        0x4000int
    } else {
        0
    });
    seq![(h / 256) as u8, (h % 256) as u8]
}

/// What the header of a chunk says.
pub open spec fn header_in(b: Seq<u8>) -> Result<(u16, bool, bool), Seq<char>> {
    if b.len() < 2 {
        Err("stream header too short"@)
    } else {
        let h = b[0] as int * 256 + b[1] as int;
        Ok(((h % 0x4000) as u16, h >= 0x8000, (h / 0x4000) % 2 == 1))
    }
}

/// A header is read as it was written, whatever follows it.
pub proof fn law_header_round_trip(sid: u16, eof: bool, compressed: bool, data: Seq<u8>)
    ensures
        header_in(header(sid, eof, compressed) + data) == Ok::<_, Seq<char>>(
            ((sid % 0x4000) as u16, eof, compressed),
        ),
{
    let b = header(sid, eof, compressed) + data;
    let h = (sid % 0x4000) + (if eof {
        0x8000int
    } else {
        0
    }) + (if compressed {
        0x4000int
    } else {
        0
    });
    assert(b[0] == (h / 256) as u8 && b[1] == (h % 256) as u8);
    assert(b[0] as int * 256 + b[1] as int == h);
}

/// Writes the header of a chunk.
pub fn stream_hdr(sid: u16, eof: bool, comp: bool) -> (r: Vec<u8>)
    ensures
        r@ == header(sid, eof, comp),
{
    let mut h: u32 = (sid % 0x4000) as u32;
    if eof {
        h = h + 0x8000;
    }
    if comp {
        h = h + 0x4000;
    }
    let mut r: Vec<u8> = Vec::new();
    r.push((h / 256) as u8);
    r.push((h % 256) as u8);
    assert(r@ =~= header(sid, eof, comp));
    r
}

/// Reads the header of a chunk.
pub fn stream_unhdr(raw: &[u8]) -> (r: Result<(u16, bool, bool), String>)
    ensures
        match r {
            Ok(h) => header_in(raw@) == Ok::<_, Seq<char>>(h),
            Err(e) => header_in(raw@) == Err::<(u16, bool, bool), _>(e@),
        },
{
    if raw.len() < 2 {
        return Err("stream header too short".to_owned());
    }
    let h: u32 = (raw[0] as u32) * 256 + (raw[1] as u32);
    Ok(((h % 0x4000) as u16, h >= 0x8000, (h / 0x4000) % 2 == 1))
}

/// What `bzip2::write::BzEncoder` makes of bytes at its default level.
pub uninterp spec fn bzip2(data: Seq<u8>) -> Option<Seq<u8>>;

/// What `bzip2::read::BzDecoder` makes of bytes, or the text of its error.
pub uninterp spec fn bunzip2(data: Seq<u8>) -> Result<Seq<u8>, Seq<char>>;

/// `bzip2::write::BzEncoder` over a vector, written to and finished. What comes
/// out depends on the bytes alone.
#[verifier::external_body]
fn bz_compress(data: &[u8]) -> (r: Option<Vec<u8>>)
    ensures
        crate::gitutil::bytes_view(r) == bzip2(data@),
{
    let mut e = bzip2::write::BzEncoder::new(Vec::new(), bzip2::Compression::default());
    std::io::Write::write_all(&mut e, data).and_then(|_| e.finish()).ok()
}

/// `bzip2::read::BzDecoder` over the bytes, read to its end. What comes out
/// depends on the bytes alone, and is what went in where they were compressed.
#[verifier::external_body]
fn bz_decompress(data: &[u8]) -> (r: Result<Vec<u8>, String>)
    ensures
        match r {
            Ok(b) => bunzip2(data@) == Ok::<_, Seq<char>>(b@),
            Err(e) => bunzip2(data@) == Err::<Seq<u8>, _>(e@),
        },
        forall|d: Seq<u8>| #[trigger] bzip2(d) == Some(data@) ==> r is Ok && r->Ok_0@ == d,
{
    let mut out = Vec::new();
    let mut d = bzip2::read::BzDecoder::new(data);
    std::io::Read::read_to_end(&mut d, &mut out).map_err(|e| e.to_string())?;
    Ok(out)
}

/// A compressed segment is worth sending: it fits, and it is shorter than it was.
pub open spec fn worthwhile(c: Option<Seq<u8>>, seg: int, max: int) -> bool {
    c is Some && c->0.len() < max && c->0.len() < seg
}

/// What is sent of a buffer of which `len` bytes count, when dividing them by `t`
/// and more is still to be tried: whether it is compressed, how many bytes it
/// stands for, and the chunk.
pub open spec fn chunk_from(buf: Seq<u8>, len: int, max: int, t: int) -> (bool, int, Seq<u8>)
    decreases COMP_TRIES + 1 - t,
{
    let plain = if max < len {
        max
    } else {
        len
    };
    if t <= 0 || t > COMP_TRIES || len / t < 32 {
        (false, plain, buf.take(plain))
    } else {
        let seg = len / t;
        let c = bzip2(buf.take(seg));
        if worthwhile(c, seg, max) {
            (true, seg, c->0)
        } else {
            chunk_from(buf, len, max, t + 1)
        }
    }
}

/// What is sent of a buffer: a segment of it that is worth compressing, or else
/// as much as fits.
pub open spec fn chunk_of(buf: Seq<u8>, max: int) -> (bool, int, Seq<u8>) {
    let len: int = if buf.len() < MAX_CHUNK {
        buf.len() as int
    } else {
        MAX_CHUNK as int
    };
    chunk_from(buf, len, max, 1)
}

/// Whether a compressed segment of `seg` bytes is worth sending.
pub fn is_worthwhile(c: &Option<Vec<u8>>, seg: usize, max: usize) -> (r: bool)
    ensures
        r == worthwhile(crate::gitutil::bytes_view(*c), seg as int, max as int),
{
    match c {
        Some(b) => b.len() < max && b.len() < seg,
        None => false,
    }
}

/// Makes a chunk of at most `max` bytes from a buffer. Returns whether it is
/// compressed, how many bytes of the buffer it stands for, and the chunk.
pub fn compress(buf: &[u8], max: usize) -> (r: (bool, usize, Vec<u8>))
    ensures
        (r.0, r.1 as int, r.2@) == chunk_of(buf@, max as int),
        r.1 <= buf@.len(),
        r.2@.len() <= max,
        !r.0 ==> r.2@ == buf@.take(r.1 as int),
        r.0 ==> bzip2(buf@.take(r.1 as int)) == Some(r.2@),
{
    let n: usize = buf.len();
    let len: usize = if n < MAX_CHUNK {
        n
    } else {
        MAX_CHUNK
    };
    let mut t: usize = 1;
    while t <= COMP_TRIES && len / t >= 32
        invariant
            1 <= t <= COMP_TRIES + 1,
            len <= n == buf@.len(),
            chunk_of(buf@, max as int) == chunk_from(buf@, len as int, max as int, t as int),
        decreases COMP_TRIES + 1 - t,
    {
        let seg: usize = len / t;
        assert(seg <= len) by (nonlinear_arith)
            requires
                seg == len / t,
                t >= 1,
        ;
        let part = bytes::cut(buf, 0, seg);
        assert(part@ =~= buf@.take(seg as int));
        let c = bz_compress(part.as_slice());
        if is_worthwhile(&c, seg, max) {
            let chunk = c.unwrap();
            return (true, seg, chunk);
        }
        t = t + 1;
    }
    let plain: usize = if max < len {
        max
    } else {
        len
    };
    let chunk = bytes::cut(buf, 0, plain);
    assert(chunk@ =~= buf@.take(plain as int));
    (false, plain, chunk)
}

/// What a compressed chunk holds, if it is no longer than `max`.
pub open spec fn unpacked(r: Result<Seq<u8>, Seq<char>>, max: int) -> Result<Seq<u8>, Seq<char>> {
    match r {
        Ok(b) => if b.len() > max {
            Err("decompressed data exceeds max"@)
        } else {
            Ok(b)
        },
        Err(e) => Err(e),
    }
}

/// Unpacks a compressed chunk. One that was compressed from no more than `max`
/// bytes gives them back.
pub fn decompress(data: &[u8], max: usize) -> (r: Result<Vec<u8>, String>)
    ensures
        match r {
            Ok(b) => unpacked(bunzip2(data@), max as int) == Ok::<_, Seq<char>>(b@),
            Err(e) => unpacked(bunzip2(data@), max as int) == Err::<Seq<u8>, _>(e@),
        },
        forall|d: Seq<u8>|
            #[trigger] bzip2(d) == Some(data@) && d.len() <= max ==> r is Ok && r->Ok_0@ == d,
{
    match bz_decompress(data) {
        Ok(b) => {
            if b.len() > max {
                return Err("decompressed data exceeds max".to_owned());
            }
            Ok(b)
        },
        Err(e) => Err(e),
    }
}

/// What arrives of a stream message: the stream, whether it ends, and the bytes.
/// A chunk that cannot be unpacked counts as empty.
pub open spec fn stream_in(b: Seq<u8>) -> Option<(u16, bool, Seq<u8>)> {
    match header_in(b) {
        Err(_) => None,
        Ok((sid, eof, compressed)) => {
            let data = b.skip(2);
            Some(
                (
                    sid,
                    eof,
                    if compressed {
                        match unpacked(bunzip2(data), MAX_CHUNK as int) {
                            Ok(d) => d,
                            Err(_) => Seq::empty(),
                        }
                    } else {
                        data
                    },
                ),
            )
        },
    }
}

/// Reads a stream message. The bytes of a chunk that was made by `compress` come
/// back.
pub fn read_stream(payload: &[u8]) -> (r: Option<(u16, bool, Vec<u8>)>)
    ensures
        match r {
            Some((s, e, d)) => stream_in(payload@) == Some((s, e, d@)),
            None => stream_in(payload@) is None,
        },
        forall|sid: u16, eof: bool, buf: Seq<u8>, max: int|
            #![trigger header(sid, eof, chunk_of(buf, max).0), chunk_of(buf, max)]
            0 <= max && payload@ == header(sid, eof, chunk_of(buf, max).0) + chunk_of(buf, max).2
                ==> (r matches Some((s, e, d)) && s == sid % 0x4000 && e == eof && d@ == buf.take(
                chunk_of(buf, max).1,
            )),
{
    proof {
        assert forall|sid: u16, eof: bool, buf: Seq<u8>, max: int|
            #![trigger header(sid, eof, chunk_of(buf, max).0), chunk_of(buf, max)]
            0 <= max && payload@ == header(sid, eof, chunk_of(buf, max).0) + chunk_of(
                buf,
                max,
            ).2 implies header_in(payload@) == Ok::<_, Seq<char>>(
            ((sid % 0x4000) as u16, eof, chunk_of(buf, max).0),
        ) && payload@.skip(2) == chunk_of(buf, max).2 && chunk_of(buf, max).1 <= MAX_CHUNK && (
        chunk_of(buf, max).0 ==> bzip2(buf.take(chunk_of(buf, max).1)) == Some(
            chunk_of(buf, max).2,
        )) && (!chunk_of(buf, max).0 ==> chunk_of(buf, max).2 == buf.take(chunk_of(buf, max).1))
            && 0 <= chunk_of(buf, max).1 <= buf.len() by {
            let c = chunk_of(buf, max);
            law_header_round_trip(sid, eof, c.0, c.2);
            assert((header(sid, eof, c.0) + c.2).skip(2) =~= c.2);
            let len: int = if buf.len() < MAX_CHUNK {
                buf.len() as int
            } else {
                MAX_CHUNK as int
            };
            lemma_chunk(buf, len, max, 1);
        }
    }
    let (sid, eof, comp) = match stream_unhdr(payload) {
        Ok(h) => h,
        Err(_) => {
            return None;
        },
    };
    let data = bytes::cut(payload, 2, payload.len());
    assert(data@ =~= payload@.skip(2));
    let d = if comp {
        match decompress(data.as_slice(), MAX_CHUNK) {
            Ok(d) => d,
            Err(_) => Vec::new(),
        }
    } else {
        data
    };
    assert(comp && unpacked(bunzip2(payload@.skip(2)), MAX_CHUNK as int) is Err ==> d@
        =~= Seq::empty());
    Some((sid, eof, d))
}

proof fn lemma_chunk(buf: Seq<u8>, len: int, max: int, t: int)
    requires
        0 <= len <= buf.len(),
        0 <= max,
    ensures
        0 <= chunk_from(buf, len, max, t).1 <= len,
        chunk_from(buf, len, max, t).0 ==> bzip2(buf.take(chunk_from(buf, len, max, t).1)) == Some(
            chunk_from(buf, len, max, t).2,
        ),
        !chunk_from(buf, len, max, t).0 ==> chunk_from(buf, len, max, t).2 == buf.take(
            chunk_from(buf, len, max, t).1,
        ),
    decreases COMP_TRIES + 1 - t,
{
    if !(t <= 0 || t > COMP_TRIES || len / t < 32) {
        let seg = len / t;
        assert(0 <= seg <= len) by (nonlinear_arith)
            requires
                seg == len / t,
                t >= 1,
                len >= 0,
        ;
        if !worthwhile(bzip2(buf.take(seg)), seg, max) {
            lemma_chunk(buf, len, max, t + 1);
        }
    }
}

/// Puts a chunk of a buffer into a stream message.
pub fn stream_message(sid: u16, buf: &[u8], max: usize) -> (r: Vec<u8>)
    ensures
        r@ == header(sid, false, chunk_of(buf@, max as int).0) + chunk_of(buf@, max as int).2,
{
    let (comp, _, chunk) = compress(buf, max);
    let mut p = stream_hdr(sid, false, comp);
    bytes::append(&mut p, chunk.as_slice());
    p
}

/// Puts a chunk of typed input into a stream message. Its header never says that
/// the chunk is compressed.
pub fn stdin_message(buf: &[u8], max: usize) -> (r: Vec<u8>)
    ensures
        r@ == header(SID_STDIN, false, false) + chunk_of(buf@, max as int).2,
{
    let (_, _, chunk) = compress(buf, max);
    let mut p = stream_hdr(SID_STDIN, false, false);
    bytes::append(&mut p, chunk.as_slice());
    p
}

// ---------------------------------------------------------------------------
// Escape sequences
// ---------------------------------------------------------------------------

/// What an escape sequence asks for.
#[derive(Debug, Clone, Copy, PartialEq, Eq, Structural)]
pub enum EscapeAction {
    Disconnect,
    Help,
    LineModeEnabled,
    LineModeDisabled,
}

/// The state of typing: whether a new line was begun, whether an escape sequence
/// was, whether lines are edited here, and the line so far with the number of its
/// characters that were written ahead.
pub struct EscapeHandler {
    pre_newline: bool,
    esc_active: bool,
    line_mode: bool,
    line_buffer: Vec<u8>,
    blind_write_count: usize,
}

/// The state of typing over sequences.
#[verifier::ext_equal]
pub struct Typing {
    pub pre_newline: bool,
    pub esc_active: bool,
    pub line_mode: bool,
    pub line: Seq<u8>,
    /// How many characters of the line were written ahead.
    pub ahead: nat,
}

/// The bytes that take back a character: back, blank, back.
pub open spec fn rubout() -> Seq<u8> {
    seq![8u8, 32u8, 8u8]
}

/// `n` characters are taken back.
pub open spec fn rubouts(n: nat) -> Seq<u8>
    decreases n,
{
    if n == 0 {
        Seq::empty()
    } else {
        rubouts((n - 1) as nat) + rubout()
    }
}

/// The control characters that end the editing of a line.
pub open spec fn flushes(b: u8) -> bool {
    b == 1 || b == 3 || b == 4 || b == 5 || b == 12 || b == 17 || b == 19 || b == 21 || b == 25
        || b == 9 || b == 26 || b == 27
}

/// The effect of a typed byte: the new state, what is sent, and what is asked
/// for.
pub open spec fn typed(t: Typing, b: u8) -> (Typing, Seq<u8>, Option<EscapeAction>) {
    if b == 13 || b == 10 {
        (Typing { pre_newline: true, line: Seq::empty(), ahead: 0, ..t }, seq![b], None)
    } else if t.pre_newline && b == 126 {
        (Typing { pre_newline: false, esc_active: true, ..t }, Seq::empty(), None)
    } else if t.esc_active {
        let after = Typing { pre_newline: false, esc_active: false, ..t };
        if b == 46 {
            (after, Seq::empty(), Some(EscapeAction::Disconnect))
        } else if b == 63 {
            (after, Seq::empty(), Some(EscapeAction::Help))
        } else if b == 76 {
            (
                Typing { line_mode: !t.line_mode, ..after },
                Seq::empty(),
                Some(
                    if t.line_mode {
                        EscapeAction::LineModeDisabled
                    } else {
                        EscapeAction::LineModeEnabled
                    },
                ),
            )
        } else if b == 126 {
            (after, seq![126u8], None)
        } else {
            (after, seq![126u8, b], None)
        }
    } else {
        let after = Typing { pre_newline: false, ..t };
        if !t.line_mode {
            (after, seq![b], None)
        } else if b == 8 || b == 127 {
            if t.line.len() > 0 {
                let ahead = if t.ahead > 0 {
                    (t.ahead - 1) as nat
                } else {
                    0
                };
                (Typing { line: t.line.drop_last(), ahead, ..after }, rubout(), None)
            } else {
                (after, Seq::empty(), None)
            }
        } else if flushes(b) {
            (
                Typing { line: Seq::empty(), ahead: 0, ..after },
                t.line.push(b) + rubouts(t.ahead),
                None,
            )
        } else {
            (Typing { line: t.line.push(b), ahead: t.ahead + 1, ..after }, seq![b], None)
        }
    }
}

/// What is sent for a run of typed bytes.
pub open spec fn sent_for(t: Typing, data: Seq<u8>) -> Seq<u8>
    decreases data.len(),
{
    if data.len() == 0 {
        Seq::empty()
    } else {
        typed(t, data[0]).1 + sent_for(typed(t, data[0]).0, data.skip(1))
    }
}

/// The state after a run of typed bytes.
pub open spec fn after_typing(t: Typing, data: Seq<u8>) -> Typing
    decreases data.len(),
{
    if data.len() == 0 {
        t
    } else {
        after_typing(typed(t, data[0]).0, data.skip(1))
    }
}

/// Outside of line mode, bytes are sent as they are typed, where no tilde among
/// them begins a line.
pub proof fn law_plain_typing_is_sent(t: Typing, data: Seq<u8>)
    requires
        !t.line_mode,
        !t.esc_active,
        forall|i: int|
            0 <= i < data.len() && #[trigger] data[i] == 126 ==> if i == 0 {
                !t.pre_newline
            } else {
                data[i - 1] != 10 && data[i - 1] != 13
            },
    ensures
        sent_for(t, data) == data,
        !after_typing(t, data).line_mode,
        !after_typing(t, data).esc_active,
    decreases data.len(),
{
    if data.len() > 0 {
        let n = typed(t, data[0]).0;
        let rest = data.skip(1);
        assert forall|i: int| 0 <= i < rest.len() && #[trigger] rest[i] == 126 implies if i == 0 {
            !n.pre_newline
        } else {
            rest[i - 1] != 10 && rest[i - 1] != 13
        } by {
            assert(data[i + 1] == 126);
        }
        law_plain_typing_is_sent(n, rest);
        assert(sent_for(t, data) =~= data);
    } else {
        assert(data =~= Seq::empty());
    }
}

/// A tilde typed twice at the start of a line is sent once.
pub proof fn law_double_tilde_is_one(t: Typing)
    requires
        t.pre_newline,
    ensures
        sent_for(t, seq![126u8, 126u8]) == seq![126u8],
{
    let data = seq![126u8, 126u8];
    let n = typed(t, 126).0;
    assert(data.skip(1) =~= seq![126u8]);
    assert(sent_for(n, seq![126u8]) =~= seq![126u8]) by {
        assert(seq![126u8].skip(1) =~= Seq::<u8>::empty());
        assert(sent_for(typed(n, 126).0, Seq::<u8>::empty()) == Seq::<u8>::empty());
    }
    assert(sent_for(t, data) =~= seq![126u8]);
}

/// A tilde and a point at the start of a line disconnect, and nothing is sent.
pub proof fn law_tilde_point_disconnects(t: Typing)
    requires
        t.pre_newline,
    ensures
        typed(t, 126).1 == Seq::<u8>::empty(),
        typed(typed(t, 126).0, 46).1 == Seq::<u8>::empty(),
        typed(typed(t, 126).0, 46).2 == Some(EscapeAction::Disconnect),
{
}

/// Line mode is left as it was by switching it twice.
pub proof fn law_line_mode_toggles(t: Typing)
    requires
        t.esc_active,
        !t.pre_newline,
    ensures
        ({
            let once = typed(t, 76).0;
            let again = typed(Typing { esc_active: true, ..once }, 76).0;
            again.line_mode == t.line_mode && again.line == t.line && again.ahead == t.ahead
        }),
{
}

impl View for EscapeHandler {
    type V = Typing;

    closed spec fn view(&self) -> Typing {
        Typing {
            pre_newline: self.pre_newline,
            esc_active: self.esc_active,
            line_mode: self.line_mode,
            line: self.line_buffer@,
            ahead: self.blind_write_count as nat,
        }
    }
}

impl Default for EscapeHandler {
    fn default() -> (r: Self)
        ensures
            r@ == (Typing {
                pre_newline: false,
                esc_active: false,
                line_mode: false,
                line: Seq::empty(),
                ahead: 0,
            }),
            r.wf(),
    {
        let r = EscapeHandler {
            pre_newline: false,
            esc_active: false,
            line_mode: false,
            line_buffer: Vec::new(),
            blind_write_count: 0,
        };
        assert(r@.line =~= Seq::empty());
        r
    }
}

impl EscapeHandler {
    /// Every character of the line was written ahead.
    pub closed spec fn wf(&self) -> bool {
        self.blind_write_count == self.line_buffer@.len()
    }

    /// Takes a typed byte. What is sent for it is appended to `out`.
    pub fn process_byte(&mut self, b: u8, out: &mut Vec<u8>) -> (r: Option<EscapeAction>)
        requires
            old(self).wf(),
        ensures
            final(self).wf(),
            final(self)@ == typed(old(self)@, b).0,
            final(out)@ == old(out)@ + typed(old(self)@, b).1,
            r == typed(old(self)@, b).2,
    {
        let ghost t = self@;
        let ghost o = out@;
        if b == 13 || b == 10 {
            self.pre_newline = true;
            self.line_buffer.clear();
            self.blind_write_count = 0;
            out.push(b);
            assert(self@ =~= typed(t, b).0);
            assert(out@ =~= o + typed(t, b).1);
            return None;
        }
        if self.pre_newline && b == 126 {
            self.pre_newline = false;
            self.esc_active = true;
            assert(self@ =~= typed(t, b).0);
            assert(out@ =~= o + typed(t, b).1);
            return None;
        }
        if self.esc_active {
            self.esc_active = false;
            self.pre_newline = false;
            if b == 46 {
                assert(self@ =~= typed(t, b).0);
                assert(out@ =~= o + typed(t, b).1);
                return Some(EscapeAction::Disconnect);
            }
            if b == 63 {
                assert(self@ =~= typed(t, b).0);
                assert(out@ =~= o + typed(t, b).1);
                return Some(EscapeAction::Help);
            }
            if b == 76 {
                self.line_mode = !self.line_mode;
                assert(self@ =~= typed(t, b).0);
                assert(out@ =~= o + typed(t, b).1);
                return Some(
                    if self.line_mode {
                        EscapeAction::LineModeEnabled
                    } else {
                        EscapeAction::LineModeDisabled
                    },
                );
            }
            out.push(126);
            if b != 126 {
                out.push(b);
            }
            assert(self@ =~= typed(t, b).0);
            assert(out@ =~= o + typed(t, b).1);
            return None;
        }
        self.pre_newline = false;
        if self.line_mode {
            if b == 8 || b == 127 {
                if self.line_buffer.len() > 0 {
                    let _ = self.line_buffer.pop();
                    self.blind_write_count = self.blind_write_count - 1;
                    push_rubout(out);
                }
                assert(self@ =~= typed(t, b).0);
                assert(out@ =~= o + typed(t, b).1);
                return None;
            }
            if is_flush(b) {
                self.line_buffer.push(b);
                self.flush_line(out);
                assert(self@ =~= typed(t, b).0);
                assert(out@ =~= o + typed(t, b).1);
                return None;
            }
            self.line_buffer.push(b);
            let n: usize = self.line_buffer.len();
            self.blind_write_count = n;
            out.push(b);
            assert(self@ =~= typed(t, b).0);
            assert(out@ =~= o + typed(t, b).1);
            return None;
        }
        out.push(b);
        assert(self@ =~= typed(t, b).0);
        assert(out@ =~= o + typed(t, b).1);
        None
    }

    fn flush_line(&mut self, out: &mut Vec<u8>)
        requires
            old(self).line_buffer@.len() > 0,
            old(self).blind_write_count == old(self).line_buffer@.len() - 1,
        ensures
            final(self).wf(),
            final(self).pre_newline == old(self).pre_newline,
            final(self).esc_active == old(self).esc_active,
            final(self).line_mode == old(self).line_mode,
            final(self).line_buffer@ == Seq::<u8>::empty(),
            final(out)@ == old(out)@ + old(self).line_buffer@ + rubouts(
                old(self).blind_write_count as nat,
            ),
    {
        let ghost o = out@;
        let ghost line = self.line_buffer@;
        bytes::append(out, self.line_buffer.as_slice());
        let count: usize = self.blind_write_count;
        let mut i: usize = 0;
        while i < count
            invariant
                i <= count,
                out@ =~= o + line + rubouts(i as nat),
            decreases count - i,
        {
            push_rubout(out);
            i = i + 1;
        }
        self.line_buffer.clear();
        self.blind_write_count = 0;
    }
}

fn is_flush(b: u8) -> (r: bool)
    ensures
        r == flushes(b),
{
    b == 1 || b == 3 || b == 4 || b == 5 || b == 12 || b == 17 || b == 19 || b == 21 || b == 25
        || b == 9 || b == 26 || b == 27
}

fn push_rubout(out: &mut Vec<u8>)
    ensures
        final(out)@ == old(out)@ + rubout(),
{
    let ghost o = out@;
    out.push(8);
    out.push(32);
    out.push(8);
    assert(out@ =~= o + rubout());
}

// ---------------------------------------------------------------------------
// Identities
// ---------------------------------------------------------------------------

/// The name of the identity file of a service.
pub open spec fn ident_name(svc: Seq<char>) -> Seq<char> {
    if svc.len() == 0 || svc == "default"@ {
        APP_NAME@
    } else {
        APP_NAME@ + "."@ + svc
    }
}

/// The identity file of a service, in the directory of the program's files.
pub fn ident_path(dir: &str, svc: &str) -> (r: String)
    ensures
        r@ == text::below(dir@, ident_name(svc@)),
{
    if svc.is_empty() || text::same(svc, "default") {
        text::join_path(dir, APP_NAME)
    } else {
        let name = text::cat3(APP_NAME, ".", svc);
        text::join_path(dir, name.as_str())
    }
}

/// The identity that an entry of a list names.
pub open spec fn listed_identity(entry: Seq<char>, exact: bool) -> Option<Seq<u8>> {
    if exact {
        let t = text::trimmed(entry);
        if t.len() == 32 {
            address::address_in(t)
        } else {
            None
        }
    } else {
        address::address_in(entry)
    }
}

/// An identity is among those that a list names. The lines of a file must hold
/// an identity and nothing else, but for white space around it.
pub open spec fn listed(list: Seq<Seq<char>>, exact: bool, hash: Seq<u8>) -> bool {
    exists|i: int|
        0 <= i < list.len() && listed_identity(#[trigger] list[i], exact) == Some(hash)
}

fn identity_in(entry: &str, exact: bool) -> (r: Option<Vec<u8>>)
    ensures
        crate::gitutil::bytes_view(r) == listed_identity(entry@, exact),
{
    if exact {
        let t = text::trim(entry);
        if text::chars(t.as_str()).len() == 32 {
            address::address_from_hex(t.as_str())
        } else {
            None
        }
    } else {
        address::address_from_hex(entry)
    }
}

fn is_listed(list: &[String], exact: bool, hash: &[u8]) -> (r: bool)
    ensures
        r == listed(text::views(list@), exact, hash@),
{
    let ghost all = text::views(list@);
    let mut i: usize = 0;
    while i < list.len()
        invariant
            i <= list@.len(),
            all == text::views(list@),
            forall|j: int|
                0 <= j < i ==> listed_identity(#[trigger] all[j], exact) != Some(hash@),
        decreases list@.len() - i,
    {
        assert(all[i as int] == list@[i as int]@);
        if let Some(h) = identity_in(list[i].as_str(), exact) {
            if bytes::same(h.as_slice(), hash) {
                assert(listed_identity(all[i as int], exact) == Some(hash@));
                return true;
            }
        }
        i = i + 1;
    }
    false
}

/// An identity may connect: it is named on the command line or on a line of the
/// files of allowed identities.
pub open spec fn allowed(hash: Seq<u8>, given: Seq<Seq<char>>, lines: Seq<Seq<char>>) -> bool {
    listed(given, false, hash) || listed(lines, true, hash)
}

/// Whether an identity may connect.
pub fn check_allowed(hash: &[u8], given: &[String], file_lines: &[String]) -> (r: bool)
    ensures
        r == allowed(hash@, text::views(given@), text::views(file_lines@)),
{
    is_listed(given, false, hash) || is_listed(file_lines, true, hash)
}

} // verus!
