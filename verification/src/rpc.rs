//! Talking to a running instance over its control port: frames, the proof of
//! knowing the key on both sides, and the requests.

use vstd::prelude::*;

use crate::bytes;
use crate::digits;
use crate::gitutil;
use crate::hash;
use crate::msgpack;
use crate::msgpack::{Msg, MsgValue};
use crate::text;

verus! {

pub const DEFAULT_CONTROL_HOST: &'static str = "127.0.0.1";

pub const DEFAULT_CONTROL_PORT: u16 = 37429;

/// The most that a frame holds while the key is proved.
pub const AUTH_MAX_FRAME: usize = 256;

/// The most that the frame of an answer holds.
pub const MAX_RPC_FRAME: usize = 1048576;

/// The length of an address.
pub const ADDRESS_HASH_SIZE: usize = 16;

// ---------------------------------------------------------------------------
// Frames
// ---------------------------------------------------------------------------

/// A number in bytes, the most significant first.
pub open spec fn big_endian(n: nat, len: nat) -> Seq<u8>
    decreases len,
{
    if len == 0 {
        Seq::empty()
    } else {
        big_endian(n / 256, (len - 1) as nat).push((n % 256) as u8)
    }
}

/// The number that bytes denote, the most significant first.
pub open spec fn from_big_endian(b: Seq<u8>) -> nat
    decreases b.len(),
{
    if b.len() == 0 {
        0
    } else {
        from_big_endian(b.drop_last()) * 256 + b.last() as nat
    }
}

/// 256 to a power.
pub open spec fn power(len: nat) -> nat
    decreases len,
{
    if len == 0 {
        1
    } else {
        256 * power((len - 1) as nat)
    }
}

/// A number that fits is read from its bytes as it was.
pub proof fn law_big_endian_round_trip(n: nat, len: nat)
    requires
        n < power(len),
    ensures
        from_big_endian(big_endian(n, len)) == n,
        big_endian(n, len).len() == len,
    decreases len,
{
    if len > 0 {
        law_big_endian_round_trip(n / 256, (len - 1) as nat);
        assert(big_endian(n, len).drop_last() =~= big_endian(n / 256, (len - 1) as nat));
    }
}

/// Appends a number in bytes, the most significant first.
pub fn push_big_endian(out: &mut Vec<u8>, n: u64, len: usize)
    requires
        len <= 8,
    ensures
        final(out)@ == old(out)@ + big_endian(n as nat, len as nat),
    decreases len,
{
    let ghost o = out@;
    if len > 0 {
        push_big_endian(out, n / 256, len - 1);
        out.push((n % 256) as u8);
    }
    assert(out@ =~= o + big_endian(n as nat, len as nat));
}

fn read_big_endian(b: &[u8], len: usize) -> (r: u64)
    requires
        len <= 8,
        len <= b@.len(),
    ensures
        r == from_big_endian(b@.take(len as int)),
        r < power(len as nat),
    decreases len,
{
    if len == 0 {
        0
    } else {
        let hi: u64 = read_big_endian(b, len - 1);
        proof {
            assert(b@.take(len as int).drop_last() =~= b@.take(len - 1));
            reveal_with_fuel(power, 9);
        }
        hi * 256 + (b[len - 1] as u64)
    }
}

/// What the first four bytes of a frame say.
#[derive(Debug, Clone, Copy, PartialEq, Eq, Structural)]
pub enum FrameLength {
    /// The length.
    Short(u32),
    /// That the length follows in eight bytes.
    Long,
    /// Nothing of use: a length below zero.
    Negative,
}

/// What the first four bytes of a frame say: as a signed number, the length, or
/// minus one for a length in eight bytes more.
pub open spec fn frame_length_in(b: Seq<u8>) -> FrameLength {
    let n = from_big_endian(b.take(4));
    if n < 0x8000_0000 {
        FrameLength::Short(n as u32)
    } else if n == 0xffff_ffff {
        FrameLength::Long
    } else {
        FrameLength::Negative
    }
}

/// Reads the first four bytes of a frame.
pub fn frame_length(b: &[u8]) -> (r: FrameLength)
    requires
        b@.len() >= 4,
    ensures
        r == frame_length_in(b@),
{
    let n: u64 = read_big_endian(b, 4);
    proof {
        reveal_with_fuel(power, 5);
    }
    if n < 0x8000_0000 {
        FrameLength::Short(n as u32)
    } else if n == 0xffff_ffff {
        FrameLength::Long
    } else {
        FrameLength::Negative
    }
}

/// Reads the eight bytes of a long length.
pub fn long_frame_length(b: &[u8]) -> (r: u64)
    requires
        b@.len() >= 8,
    ensures
        r == from_big_endian(b@.take(8)),
{
    read_big_endian(b, 8)
}

/// The bytes before the data of a frame.
pub open spec fn frame_header(len: nat) -> Seq<u8> {
    if len < 0x8000_0000 {
        big_endian(len, 4)
    } else {
        seq![0xffu8, 0xff, 0xff, 0xff] + big_endian(len, 8)
    }
}

/// A frame.
pub open spec fn frame(data: Seq<u8>) -> Seq<u8> {
    frame_header(data.len()) + data
}

/// Puts data into a frame.
pub fn encode_frame(data: &[u8]) -> (r: Vec<u8>)
    ensures
        r@ == frame(data@),
{
    let n: usize = data.len();
    let mut out: Vec<u8> = Vec::new();
    if (n as u64) < 0x8000_0000 {
        push_big_endian(&mut out, n as u64, 4);
    } else {
        out.push(0xff);
        out.push(0xff);
        out.push(0xff);
        out.push(0xff);
        assert(out@ =~= seq![0xffu8, 0xff, 0xff, 0xff]);
        push_big_endian(&mut out, n as u64, 8);
    }
    assert(out@ =~= frame_header(data@.len()));
    bytes::append(&mut out, data);
    out
}

/// The length that a reader takes from a frame is that of the data that were put
/// in, and the data follow.
pub proof fn law_frame_round_trip(data: Seq<u8>)
    requires
        data.len() <= u64::MAX,
    ensures
        ({
            let f = frame(data);
            match frame_length_in(f) {
                FrameLength::Short(n) => n == data.len() && f.skip(4) == data,
                FrameLength::Long => from_big_endian(f.skip(4).take(8)) == data.len() && f.skip(12)
                    == data,
                FrameLength::Negative => false,
            }
        }),
{
    reveal_with_fuel(power, 9);
    let f = frame(data);
    let n = data.len();
    if n < 0x8000_0000 {
        law_big_endian_round_trip(n, 4);
        assert(f.take(4) =~= big_endian(n, 4));
        assert(f.skip(4) =~= data);
    } else {
        law_big_endian_round_trip(n, 8);
        let ones = seq![0xffu8, 0xff, 0xff, 0xff];
        assert(f.take(4) =~= ones);
        assert(from_big_endian(ones) == 0xffff_ffff) by {
            reveal_with_fuel(from_big_endian, 5);
            assert(ones.drop_last() =~= seq![0xffu8, 0xff, 0xff]);
            assert(seq![0xffu8, 0xff, 0xff].drop_last() =~= seq![0xffu8, 0xff]);
            assert(seq![0xffu8, 0xff].drop_last() =~= seq![0xffu8]);
            assert(seq![0xffu8].drop_last() =~= Seq::<u8>::empty());
        }
        assert(f.skip(4).take(8) =~= big_endian(n, 8));
        assert(f.skip(12) =~= data);
    }
}

// ---------------------------------------------------------------------------
// Errors
// ---------------------------------------------------------------------------

/// Why a connection fails.
#[derive(Debug, Clone, Copy, PartialEq, Eq, Structural)]
pub enum RpcError {
    /// A frame has a length below zero.
    Negative,
    /// A frame is longer than it may be: its length, and the most.
    TooLarge(u64, u64),
    /// The server did not send a challenge.
    NoChallenge,
    /// The server rejected the key.
    Rejected,
    /// The server sent something else.
    Unexpected,
    /// The server did not prove that it knows the key.
    NotMutual,
}

/// The text of an error, as the path utility words it.
pub open spec fn path_wording(e: RpcError) -> Seq<char> {
    match e {
        RpcError::Negative => "Invalid frame length"@,
        RpcError::TooLarge(n, max) => "Frame too large: "@ + digits::dec(n as nat) + " > "@
            + digits::dec(max as nat),
        RpcError::NoChallenge => "Server did not send a challenge"@,
        RpcError::Rejected => "Authentication failed: server rejected RPC key"@,
        RpcError::Unexpected => "Unexpected response during authentication"@,
        RpcError::NotMutual => "Server failed mutual authentication"@,
    }
}

/// The text of an error, as the tool server words it.
pub open spec fn mcp_wording(e: RpcError) -> Seq<char> {
    match e {
        RpcError::Negative => "invalid frame length"@,
        RpcError::TooLarge(n, max) => "frame too large: "@ + digits::dec(n as nat) + " > "@
            + digits::dec(max as nat),
        RpcError::NoChallenge => "server did not send a challenge"@,
        RpcError::Rejected => "authentication failed: RPC key rejected"@,
        RpcError::Unexpected => "unexpected response during authentication"@,
        RpcError::NotMutual => "server failed mutual authentication"@,
    }
}

fn too_large(before: &str, n: u64, max: u64) -> (r: String)
    ensures
        r@ == before@ + digits::dec(n as nat) + " > "@ + digits::dec(max as nat),
{
    let a = digits::decimal(n);
    let b = digits::decimal(max);
    let x = text::cat3(before, a.as_str(), " > ");
    text::cat(x.as_str(), b.as_str())
}

impl RpcError {
    /// The text of the error, as the path utility words it.
    pub fn path_text(&self) -> (r: String)
        ensures
            r@ == path_wording(*self),
    {
        match self {
            RpcError::Negative => "Invalid frame length".to_owned(),
            RpcError::TooLarge(n, max) => too_large("Frame too large: ", *n, *max),
            RpcError::NoChallenge => "Server did not send a challenge".to_owned(),
            RpcError::Rejected => "Authentication failed: server rejected RPC key".to_owned(),
            RpcError::Unexpected => "Unexpected response during authentication".to_owned(),
            RpcError::NotMutual => "Server failed mutual authentication".to_owned(),
        }
    }

    /// The text of the error, as the tool server words it.
    pub fn mcp_text(&self) -> (r: String)
        ensures
            r@ == mcp_wording(*self),
    {
        match self {
            RpcError::Negative => "invalid frame length".to_owned(),
            RpcError::TooLarge(n, max) => too_large("frame too large: ", *n, *max),
            RpcError::NoChallenge => "server did not send a challenge".to_owned(),
            RpcError::Rejected => "authentication failed: RPC key rejected".to_owned(),
            RpcError::Unexpected => "unexpected response during authentication".to_owned(),
            RpcError::NotMutual => "server failed mutual authentication".to_owned(),
        }
    }
}

/// The number of bytes to read for a frame, if that is no more than allowed.
pub fn checked_length(len: u64, max: usize) -> (r: Result<usize, RpcError>)
    ensures
        r == (if len > max {
            Err::<usize, _>(RpcError::TooLarge(len, max as u64))
        } else {
            Ok(len as usize)
        }),
{
    if len > max as u64 {
        Err(RpcError::TooLarge(len, max as u64))
    } else {
        Ok(len as usize)
    }
}

// ---------------------------------------------------------------------------
// Proving the key
// ---------------------------------------------------------------------------

/// What a challenge starts with.
pub open spec fn challenge_mark() -> Seq<u8> {
    seq![0x23u8, 0x43, 0x48, 0x41, 0x4c, 0x4c, 0x45, 0x4e, 0x47, 0x45, 0x23]
}

/// What is sent where the key was proved.
pub open spec fn welcome_mark() -> Seq<u8> {
    seq![0x23u8, 0x57, 0x45, 0x4c, 0x43, 0x4f, 0x4d, 0x45, 0x23]
}

/// What is sent where it was not.
pub open spec fn failure_mark() -> Seq<u8> {
    seq![0x23u8, 0x46, 0x41, 0x49, 0x4c, 0x55, 0x52, 0x45, 0x23]
}

/// The name of the digest in challenges and answers.
pub open spec fn digest_mark() -> Seq<u8> {
    seq![0x7bu8, 0x73, 0x68, 0x61, 0x32, 0x35, 0x36, 0x7d]
}

fn challenge_bytes() -> (r: Vec<u8>)
    ensures
        r@ == challenge_mark(),
{
    let r = vec![0x23u8, 0x43, 0x48, 0x41, 0x4c, 0x4c, 0x45, 0x4e, 0x47, 0x45, 0x23];
    assert(r@ =~= challenge_mark());
    r
}

/// What is sent where the key was proved: `#WELCOME#`.
pub fn welcome() -> (r: Vec<u8>)
    ensures
        r@ == welcome_mark(),
{
    let r = vec![0x23u8, 0x57, 0x45, 0x4c, 0x43, 0x4f, 0x4d, 0x45, 0x23];
    assert(r@ =~= welcome_mark());
    r
}

fn failure() -> (r: Vec<u8>)
    ensures
        r@ == failure_mark(),
{
    let r = vec![0x23u8, 0x46, 0x41, 0x49, 0x4c, 0x55, 0x52, 0x45, 0x23];
    assert(r@ =~= failure_mark());
    r
}

fn digest_name() -> (r: Vec<u8>)
    ensures
        r@ == digest_mark(),
{
    let r = vec![0x7bu8, 0x73, 0x68, 0x61, 0x32, 0x35, 0x36, 0x7d];
    assert(r@ =~= digest_mark());
    r
}

/// The bytes start with the others.
pub open spec fn starts(b: Seq<u8>, p: Seq<u8>) -> bool {
    b.len() >= p.len() && b.take(p.len() as int) == p
}

/// The answer to a message: the name of the digest and the digest with the key.
pub open spec fn answer(key: Seq<u8>, message: Seq<u8>) -> Seq<u8> {
    digest_mark() + hash::hmac_sha256(key, message)
}

/// Answers a message.
pub fn hmac_response(auth_key: &[u8], message: &[u8]) -> (r: Vec<u8>)
    ensures
        r@ == answer(auth_key@, message@),
        r@.len() == 40,
{
    let mut r = digest_name();
    let d = hash::keyed_digest(auth_key, message);
    bytes::append(&mut r, d.as_slice());
    r
}

/// Answers what the server sends first, which has to be a challenge.
pub fn answer_challenge(challenge: &[u8], key: &[u8]) -> (r: Result<Vec<u8>, RpcError>)
    ensures
        match r {
            Ok(a) => starts(challenge@, challenge_mark()) && a@ == answer(key@, challenge@.skip(11)),
            Err(e) => !starts(challenge@, challenge_mark()) && e == RpcError::NoChallenge,
        },
{
    let mark = challenge_bytes();
    if challenge.len() < 11 {
        return Err(RpcError::NoChallenge);
    }
    let head = bytes::cut(challenge, 0, 11);
    assert(head@ =~= challenge@.take(11));
    if !bytes::same(head.as_slice(), mark.as_slice()) {
        return Err(RpcError::NoChallenge);
    }
    let message = bytes::cut(challenge, 11, challenge.len());
    assert(message@ =~= challenge@.skip(11));
    Ok(hmac_response(key, message.as_slice()))
}

/// Reads what the server says to the answer.
pub fn check_welcome(reply: &[u8]) -> (r: Result<(), RpcError>)
    ensures
        r == (if reply@ == failure_mark() {
            Err::<(), _>(RpcError::Rejected)
        } else if reply@ == welcome_mark() {
            Ok(())
        } else {
            Err(RpcError::Unexpected)
        }),
{
    let f = failure();
    let w = welcome();
    if bytes::same(reply, f.as_slice()) {
        Err(RpcError::Rejected)
    } else if bytes::same(reply, w.as_slice()) {
        Ok(())
    } else {
        Err(RpcError::Unexpected)
    }
}

/// A challenge with random bytes.
pub open spec fn challenge_of(random: Seq<u8>) -> Seq<u8> {
    challenge_mark() + digest_mark() + random
}

/// Makes a challenge from random bytes.
pub fn make_challenge(random: &[u8]) -> (r: Vec<u8>)
    ensures
        r@ == challenge_of(random@),
{
    let mut r = challenge_bytes();
    let d = digest_name();
    bytes::append(&mut r, d.as_slice());
    bytes::append(&mut r, random);
    r
}

/// An answer to a challenge proves the key: it is the digest with the key, with
/// its name or without.
pub open spec fn proves(challenge: Seq<u8>, response: Seq<u8>, key: Seq<u8>) -> bool {
    let m = challenge.skip(11);
    response == answer(key, m) || response == hash::hmac_sha256(key, m)
}

/// Whether an answer to a challenge proves the key.
pub fn verify_response(challenge: &[u8], response: &[u8], auth_key: &[u8]) -> (r: bool)
    requires
        challenge@.len() >= 11,
    ensures
        r == proves(challenge@, response@, auth_key@),
{
    let message = bytes::cut(challenge, 11, challenge.len());
    assert(message@ =~= challenge@.skip(11));
    let expected = hmac_response(auth_key, message.as_slice());
    if bytes::same(response, expected.as_slice()) {
        return true;
    }
    let raw = bytes::cut(expected.as_slice(), 8, expected.len());
    assert(raw@ =~= hash::hmac_sha256(auth_key@, message@));
    bytes::same(response, raw.as_slice())
}

/// Reads the server's answer to a challenge.
pub fn check_answer(challenge: &[u8], response: &[u8], auth_key: &[u8]) -> (r: Result<
    (),
    RpcError,
>)
    requires
        challenge@.len() >= 11,
    ensures
        r == (if proves(challenge@, response@, auth_key@) {
            Ok::<_, RpcError>(())
        } else {
            Err(RpcError::NotMutual)
        }),
{
    if verify_response(challenge, response, auth_key) {
        Ok(())
    } else {
        Err(RpcError::NotMutual)
    }
}

/// Two sides with the same key accept each other: the answer that is given to a
/// challenge proves the key to whoever sent it.
pub proof fn law_same_key_is_accepted(random: Seq<u8>, key: Seq<u8>)
    ensures
        ({
            let c = challenge_of(random);
            starts(c, challenge_mark()) && proves(c, answer(key, c.skip(11)), key)
        }),
{
    let c = challenge_of(random);
    assert(c.take(11) =~= challenge_mark());
}

// ---------------------------------------------------------------------------
// Hexadecimal input and output
// ---------------------------------------------------------------------------

/// Bytes as they are shown: hexadecimal digits between slashes.
pub open spec fn shown(b: Seq<u8>) -> Seq<char> {
    "/"@ + digits::hex_text(b) + "/"@
}

/// Bytes as they are shown.
pub fn pretty_hex(b: &[u8]) -> (r: String)
    ensures
        r@ == shown(b@),
{
    let h = digits::hex_encode(b);
    text::cat3("/", h.as_str(), "/")
}

/// The bytes that are given in hexadecimal, with white space around them.
pub open spec fn given(s: Seq<char>) -> Option<Seq<u8>> {
    digits::hex_input(vstd::utf8::encode_utf8(text::trimmed(s)))
}

/// Hexadecimal digits are read as the bytes that they were written for.
pub proof fn law_hex_is_read_back(b: Seq<u8>)
    ensures
        given(digits::hex_text(b)) == Some(b),
{
    let t = digits::hex_text(b);
    lemma_hex_text(b);
    assert(text::trimmed(t) == t) by {
        if t.len() > 0 {
            assert(!text::white(t[0]));
            assert(!text::white(t[t.len() - 1]));
        }
    }
    lemma_hex_input(b);
}

/// Hexadecimal digits are ASCII, and no white space or slash.
pub proof fn lemma_hex_text(b: Seq<u8>)
    ensures
        vstd::utf8::is_ascii_chars(digits::hex_text(b)),
        forall|i: int|
            0 <= i < digits::hex_text(b).len() ==> !text::white(#[trigger] digits::hex_text(b)[i])
                && digits::hex_text(b)[i] != '/',
{
}

/// The bytes of hexadecimal digits are read as the bytes that they were written
/// for.
pub proof fn lemma_hex_input(b: Seq<u8>)
    ensures
        digits::hex_input(vstd::utf8::encode_utf8(digits::hex_text(b))) == Some(b),
{
    let t = digits::hex_text(b);
    let e = vstd::utf8::encode_utf8(t);
    lemma_hex_text(b);
    vstd::utf8::is_ascii_chars_encode_utf8(t);
    assert(e.len() / 2 == b.len());
    assert forall|i: int| 0 <= i < b.len() implies (#[trigger] digits::hex_byte(
        e[2 * i],
        e[2 * i + 1],
    )) == Some(b[i]) by {
        assert((2 * i) / 2 == i && (2 * i + 1) / 2 == i);
        assert(t[2 * i] == digits::hex_digit((b[i] / 16) as nat));
        assert(t[2 * i + 1] == digits::hex_digit((b[i] % 16) as nat));
        assert(e[2 * i] == t[2 * i] as u8);
        assert(e[2 * i + 1] == t[2 * i + 1] as u8);
    }
    assert(digits::hex_input(e)->0 =~= b);
}

/// Reads bytes that are given in hexadecimal, with white space around them.
pub fn decode_hex(input: &str) -> (r: Option<Vec<u8>>)
    ensures
        gitutil::bytes_view(r) == given(input@),
{
    let t = text::trim(input);
    let b = text::utf8(t.as_str());
    digits::parse_hex(b.as_slice())
}

// ---------------------------------------------------------------------------
// Requests
// ---------------------------------------------------------------------------

/// A request with one text field.
pub open spec fn ask_msg(key: Seq<char>, what: Seq<char>) -> Msg {
    Msg::Pairs(seq![(Msg::Text(key), Msg::Text(what))])
}

/// A request with one text field.
pub fn ask(key: &str, what: &str) -> (r: MsgValue)
    ensures
        r@ == ask_msg(key@, what@),
        msgpack::encodable(r@),
{
    let mut m: Vec<(MsgValue, MsgValue)> = Vec::new();
    m.push((msgpack::string(key), msgpack::string(what)));
    let r = msgpack::map(m);
    proof {
        assert(r@->Pairs_0 =~= ask_msg(key@, what@)->Pairs_0);
        reveal_with_fuel(msgpack::encodable, 2);
    }
    r
}

/// A request about a destination.
pub open spec fn ask_about_msg(key: Seq<char>, what: Seq<char>, dest: Seq<u8>) -> Msg {
    Msg::Pairs(
        seq![
            (Msg::Text(key), Msg::Text(what)),
            (Msg::Text("destination_hash"@), Msg::Binary(dest)),
        ],
    )
}

/// A request about a destination.
pub fn ask_about(key: &str, what: &str, dest: &[u8]) -> (r: MsgValue)
    ensures
        r@ == ask_about_msg(key@, what@, dest@),
        msgpack::encodable(r@),
{
    let mut m: Vec<(MsgValue, MsgValue)> = Vec::new();
    m.push((msgpack::string(key), msgpack::string(what)));
    m.push((msgpack::string("destination_hash"), msgpack::binary(dest)));
    let r = msgpack::map(m);
    proof {
        assert(r@->Pairs_0 =~= ask_about_msg(key@, what@, dest@)->Pairs_0);
        reveal_with_fuel(msgpack::encodable, 2);
    }
    r
}

/// The request to blackhole an identity: for so many seconds, a number of double
/// precision, and for a reason, as far as they are given.
pub open spec fn blackhole_msg(
    identity: Seq<u8>,
    seconds: Option<u64>,
    reason: Option<Seq<char>>,
) -> Msg {
    let first = seq![(Msg::Text("blackhole_identity"@), Msg::Binary(identity))];
    let second = match seconds {
        Some(s) => first.push((Msg::Text("duration"@), Msg::Double(s))),
        None => first,
    };
    Msg::Pairs(
        match reason {
            Some(t) => second.push((Msg::Text("reason"@), Msg::Text(t))),
            None => second,
        },
    )
}

/// The request to blackhole an identity. The seconds are the bits of a number of
/// double precision.
pub fn blackhole(identity: &[u8], seconds: Option<u64>, reason: Option<&str>) -> (r: MsgValue)
    requires
        seconds matches Some(s) ==> !msgpack::is_nan(s),
    ensures
        r@ == blackhole_msg(identity@, seconds, gitutil::option_view(reason)),
        msgpack::encodable(r@),
{
    let mut m: Vec<(MsgValue, MsgValue)> = Vec::new();
    m.push((msgpack::string("blackhole_identity"), msgpack::binary(identity)));
    if let Some(s) = seconds {
        m.push((msgpack::string("duration"), MsgValue::Double(s)));
    }
    if let Some(t) = reason {
        m.push((msgpack::string("reason"), msgpack::string(t)));
    }
    let r = msgpack::map(m);
    proof {
        let want = blackhole_msg(identity@, seconds, gitutil::option_view(reason))->Pairs_0;
        assert(r@->Pairs_0 =~= want);
        reveal_with_fuel(msgpack::encodable, 2);
    }
    r
}

/// The request to lift a blackhole.
pub open spec fn unblackhole_msg(identity: Seq<u8>) -> Msg {
    Msg::Pairs(seq![(Msg::Text("unblackhole_identity"@), Msg::Binary(identity))])
}

/// The request to lift a blackhole.
pub fn unblackhole(identity: &[u8]) -> (r: MsgValue)
    ensures
        r@ == unblackhole_msg(identity@),
        msgpack::encodable(r@),
{
    let mut m: Vec<(MsgValue, MsgValue)> = Vec::new();
    m.push((msgpack::string("unblackhole_identity"), msgpack::binary(identity)));
    let r = msgpack::map(m);
    proof {
        assert(r@->Pairs_0 =~= unblackhole_msg(identity@)->Pairs_0);
        reveal_with_fuel(msgpack::encodable, 2);
    }
    r
}

/// The frame of a request.
pub fn request_frame(request: &MsgValue) -> (r: Vec<u8>)
    requires
        msgpack::encodable(request@),
    ensures
        r@ == frame(msgpack::msgpack(request@)),
{
    let b = msgpack::encode(request);
    encode_frame(b.as_slice())
}

/// Whether a request was granted.
pub fn granted(response: &MsgValue) -> (r: bool)
    ensures
        r == (response@ == Msg::Boolean(true)),
{
    match response.as_bool() {
        Some(b) => b,
        None => false,
    }
}

} // verus!
