//! The wire format of the git service: result codes, request paths, request and
//! resource payloads.

use vstd::prelude::*;

use crate::bytes;
use crate::gitutil;
use crate::hash;
use crate::msgpack;
use crate::msgpack::{Msg, MsgValue};
use crate::text;

verus! {

pub const RES_OK: u8 = 0x00;

pub const RES_DISALLOWED: u8 = 0x01;

pub const RES_INVALID_REQ: u8 = 0x02;

pub const RES_NOT_FOUND: u8 = 0x03;

pub const RES_REMOTE_FAIL: u8 = 0xFF;

pub const IDX_REPOSITORY: i64 = 0x00;

pub const IDX_RESULT_CODE: i64 = 0x01;

/// The length of a full hash.
pub const HASH_SIZE: usize = 32;

/// The length of a hash in the hash map of a resource.
pub const MAPHASH_LEN: usize = 4;

/// The most that the length prefix of metadata can count.
pub const MAX_METADATA: usize = 0x00FF_FFFF;

pub const PATH_LIST: &'static str = "/git/list";

pub const PATH_FETCH: &'static str = "/git/fetch";

pub const PATH_PUSH: &'static str = "/git/push";

pub const PATH_DELETE: &'static str = "/git/delete";

pub const PATH_CREATE: &'static str = "/git/create";

// ---------------------------------------------------------------------------
// Paths
// ---------------------------------------------------------------------------

/// The hash that stands for a request path.
pub open spec fn path_key(path: Seq<char>) -> Seq<u8> {
    hash::short_hash(vstd::utf8::encode_utf8(path))
}

/// Hashes a request path.
pub fn path_hash(path: &str) -> (r: Vec<u8>)
    ensures
        r@ == path_key(path@),
        r@.len() == 16,
{
    hash::truncated(path.as_bytes())
}

// ---------------------------------------------------------------------------
// Metadata
// ---------------------------------------------------------------------------

/// A number in three bytes, the most significant first.
pub open spec fn three_bytes(n: nat) -> Seq<u8> {
    seq![(n / 65536) as u8, ((n / 256) % 256) as u8, (n % 256) as u8]
}

/// The number that the first three bytes denote.
pub open spec fn three_byte_number(b: Seq<u8>) -> nat {
    (b[0] as nat) * 65536 + (b[1] as nat) * 256 + (b[2] as nat)
}

/// Metadata as it stands before a payload: its length and its encoding.
pub open spec fn metadata_prefix(m: Msg) -> Result<Seq<u8>, Seq<char>> {
    let packed = msgpack::msgpack(m);
    if packed.len() > MAX_METADATA {
        Err("resource metadata too large"@)
    } else {
        Ok(three_bytes(packed.len()) + packed)
    }
}

/// What follows the metadata of a response. There must be room for the length,
/// and for as much metadata as it says.
pub open spec fn payload(b: Seq<u8>) -> Result<Seq<u8>, Seq<char>> {
    if b.len() < 3 {
        Err("fetch response too short"@)
    } else if b.len() < 3 + three_byte_number(b) {
        Err("fetch response truncated"@)
    } else {
        Ok(b.skip(3 + three_byte_number(b) as int))
    }
}

/// Taking the metadata off gives back the payload that it was put before.
pub proof fn law_payload_follows_metadata(m: Msg, data: Seq<u8>)
    ensures
        metadata_prefix(m) matches Ok(p) ==> payload(p + data) == Ok::<Seq<u8>, Seq<char>>(data),
{
    if metadata_prefix(m) is Ok {
        let n = msgpack::msgpack(m).len();
        let p = metadata_prefix(m)->Ok_0;
        let b = p + data;
        assert(b[0] == three_bytes(n)[0] && b[1] == three_bytes(n)[1] && b[2] == three_bytes(
            n,
        )[2]);
        assert(three_byte_number(b) == n) by {
            assert(n / 65536 < 256);
            assert((n / 65536) * 65536 + ((n / 256) % 256) * 256 + n % 256 == n)
                by (nonlinear_arith);
        }
        assert(b.skip(3 + n as int) =~= data);
    }
}

/// Packs resource metadata: three bytes of length and the encoding.
pub fn pack_metadata(metadata: &MsgValue) -> (r: Result<Vec<u8>, String>)
    requires
        msgpack::encodable(metadata@),
    ensures
        match r {
            Ok(b) => metadata_prefix(metadata@) == Ok::<Seq<u8>, Seq<char>>(b@),
            Err(e) => metadata_prefix(metadata@) == Err::<Seq<u8>, Seq<char>>(e@),
        },
{
    let packed = msgpack::encode(metadata);
    let n: usize = packed.len();
    if n > MAX_METADATA {
        return Err("resource metadata too large".to_owned());
    }
    let mut out: Vec<u8> = Vec::new();
    out.push((n / 65536) as u8);
    out.push(((n / 256) % 256) as u8);
    out.push((n % 256) as u8);
    assert(out@ =~= three_bytes(n as nat));
    bytes::append(&mut out, packed.as_slice());
    Ok(out)
}

/// Takes the metadata off a response.
pub fn strip_metadata(b: &[u8]) -> (r: Result<Vec<u8>, String>)
    ensures
        match r {
            Ok(d) => payload(b@) == Ok::<Seq<u8>, Seq<char>>(d@),
            Err(e) => payload(b@) == Err::<Seq<u8>, Seq<char>>(e@),
        },
{
    let n: usize = b.len();
    if n < 3 {
        return Err("fetch response too short".to_owned());
    }
    let m: usize = (b[0] as usize) * 65536 + (b[1] as usize) * 256 + (b[2] as usize);
    if n - 3 < m {
        return Err("fetch response truncated".to_owned());
    }
    let r = bytes::cut(b, 3 + m, n);
    assert(r@ =~= b@.skip(3 + m as int));
    Ok(r)
}

// ---------------------------------------------------------------------------
// Requests
// ---------------------------------------------------------------------------

/// A decoded request: when it was made, for which path, with what data.
pub struct UnpackedRequest {
    pub requested_at: MsgValue,
    pub path_hash: Vec<u8>,
    pub data: MsgValue,
}

/// A decoded request over sequences.
pub struct Request {
    pub requested_at: Msg,
    pub path_hash: Seq<u8>,
    pub data: Msg,
}

impl View for UnpackedRequest {
    type V = Request;

    open spec fn view(&self) -> Request {
        Request {
            requested_at: self.requested_at@,
            path_hash: self.path_hash@,
            data: self.data@,
        }
    }
}

/// The request that a value denotes: an array of a number, bytes, and anything.
pub open spec fn request_in(m: Msg) -> Option<Request> {
    match m {
        Msg::Array(a) => if a.len() == 3 && msgpack::is_number(a[0]) && msgpack::bytes_of(
            a[1],
        ) is Some {
            Some(
                Request {
                    requested_at: a[0],
                    path_hash: msgpack::bytes_of(a[1])->0,
                    data: a[2],
                },
            )
        } else {
            None
        },
        _ => None,
    }
}

/// The value of a request.
pub open spec fn request_value(now: Msg, path: Seq<char>, data: Msg) -> Msg {
    Msg::Array(seq![now, Msg::Binary(path_key(path)), data])
}

/// A request is read back as it was written.
pub proof fn law_request_round_trip(now: Msg, path: Seq<char>, data: Msg)
    requires
        msgpack::is_number(now),
    ensures
        request_in(request_value(now, path, data)) == Some(
            Request { requested_at: now, path_hash: path_key(path), data },
        ),
{
}

/// The request that a decoded value denotes.
pub fn request_from(v: &MsgValue) -> (r: Option<UnpackedRequest>)
    ensures
        match r {
            Some(u) => request_in(v@) == Some(u@),
            None => request_in(v@) is None,
        },
{
    match v.as_array() {
        Some(a) => {
            assert(v@ == Msg::Array(msgpack::models(a@)));
            if a.len() != 3 || !a[0].is_number() {
                return None;
            }
            match a[1].as_slice() {
                Some(p) => Some(
                    UnpackedRequest {
                        requested_at: a[0].copy(),
                        path_hash: p,
                        data: a[2].copy(),
                    },
                ),
                None => None,
            }
        },
        None => None,
    }
}

/// Decodes a request.
pub fn unpack_request(packed: &[u8]) -> (r: Option<UnpackedRequest>)
    ensures
        match r {
            Some(u) => msgpack::msgpack_read(packed@) matches Ok(m) && request_in(m) == Some(u@),
            None => msgpack::msgpack_read(packed@) matches Ok(m) ==> request_in(m) is None,
        },
        forall|m: Msg|
            #[trigger] msgpack::plain(m, 8) && packed@ == msgpack::msgpack(m) ==> match r {
                Some(u) => request_in(m) == Some(u@),
                None => request_in(m) is None,
            },
{
    match msgpack::decode(packed) {
        Ok(v) => request_from(&v),
        Err(_) => None,
    }
}

// ---------------------------------------------------------------------------
// Resources
// ---------------------------------------------------------------------------

/// The first 32 bytes, where there are as many.
pub open spec fn leading_hash(b: Seq<u8>) -> Option<Seq<u8>> {
    if b.len() >= HASH_SIZE {
        Some(b.take(HASH_SIZE as int))
    } else {
        None
    }
}

/// The hash in a request for parts. A first byte of 0xFF says that a map hash
/// stands before it.
pub open spec fn requested_hash(b: Seq<u8>) -> Option<Seq<u8>> {
    let pad: int = if b[0] == 0xFF {
        1 + MAPHASH_LEN
    } else {
        1
    };
    if b.len() > 0 && b.len() >= pad {
        leading_hash(b.skip(pad))
    } else {
        None
    }
}

fn copy_hash(b: &[u8], from: usize) -> (r: Option<Vec<u8>>)
    requires
        from <= b@.len(),
    ensures
        match r {
            Some(h) => leading_hash(b@.skip(from as int)) == Some(h@),
            None => leading_hash(b@.skip(from as int)) is None,
        },
{
    let n: usize = b.len();
    if n - from < HASH_SIZE {
        return None;
    }
    let h = bytes::cut(b, from, from + HASH_SIZE);
    assert(h@ =~= b@.skip(from as int).take(HASH_SIZE as int));
    Some(h)
}

/// The resource hash of a request for parts.
pub fn resource_hash_from_request(data: &[u8]) -> (r: Option<Vec<u8>>)
    ensures
        match r {
            Some(h) => requested_hash(data@) == Some(h@),
            None => requested_hash(data@) is None,
        },
{
    if data.len() == 0 {
        return None;
    }
    let pad: usize = if data[0] == 0xFF {
        1 + MAPHASH_LEN
    } else {
        1
    };
    if data.len() < pad {
        return None;
    }
    copy_hash(data, pad)
}

/// The resource hash of an update of the hash map.
pub fn resource_hash_from_hmu(data: &[u8]) -> (r: Option<Vec<u8>>)
    ensures
        match r {
            Some(h) => leading_hash(data@) == Some(h@),
            None => leading_hash(data@) is None,
        },
{
    assert(data@.skip(0) =~= data@);
    copy_hash(data, 0)
}

/// The resource hash of a proof.
pub fn resource_hash_from_proof(data: &[u8]) -> (r: Option<Vec<u8>>)
    ensures
        match r {
            Some(h) => leading_hash(data@) == Some(h@),
            None => leading_hash(data@) is None,
        },
{
    assert(data@.skip(0) =~= data@);
    copy_hash(data, 0)
}

/// The segment and the hashes of an update, by its decoded body.
pub open spec fn update_in(m: Msg) -> Option<(u64, Seq<u8>)> {
    match m {
        Msg::Array(a) => if a.len() == 2 && msgpack::u64_of(a[0]) is Some && msgpack::bytes_of(
            a[1],
        ) is Some {
            Some((msgpack::u64_of(a[0])->0, msgpack::bytes_of(a[1])->0))
        } else {
            None
        },
        _ => None,
    }
}

/// An update of the hash map: after the resource hash, an array of a segment and
/// the hashes.
pub open spec fn hashmap_update(b: Seq<u8>) -> Result<(u64, Seq<u8>), Seq<char>> {
    if b.len() < HASH_SIZE {
        Err("invalid hashmap update"@)
    } else {
        match msgpack::msgpack_read(b.skip(HASH_SIZE as int)) {
            Err(e) => Err("invalid hashmap update: "@ + e),
            Ok(m) => match update_in(m) {
                Some(u) => Ok(u),
                None => Err("invalid hashmap update"@),
            },
        }
    }
}

/// The segment and the hashes of a decoded update.
pub fn update_from(v: &MsgValue) -> (r: Option<(u64, Vec<u8>)>)
    ensures
        match r {
            Some((n, h)) => update_in(v@) == Some((n, h@)),
            None => update_in(v@) is None,
        },
{
    match v.as_array() {
        Some(a) => {
            assert(v@ == Msg::Array(msgpack::models(a@)));
            if a.len() != 2 {
                return None;
            }
            match (a[0].as_u64(), a[1].as_slice()) {
                (Some(n), Some(h)) => Some((n, h)),
                _ => None,
            }
        },
        None => None,
    }
}

/// Reads an update of the hash map.
pub fn process_hashmap_update(hmu_data: &[u8]) -> (r: Result<(u64, Vec<u8>), String>)
    ensures
        match r {
            Ok((n, h)) => hashmap_update(hmu_data@) == Ok::<(u64, Seq<u8>), Seq<char>>((n, h@)),
            Err(e) => hashmap_update(hmu_data@) == Err::<(u64, Seq<u8>), Seq<char>>(e@),
        },
{
    let n: usize = hmu_data.len();
    if n < HASH_SIZE {
        return Err("invalid hashmap update".to_owned());
    }
    let body = bytes::cut(hmu_data, HASH_SIZE, n);
    assert(body@ =~= hmu_data@.skip(HASH_SIZE as int));
    match msgpack::decode(body.as_slice()) {
        Err(e) => Err(text::cat("invalid hashmap update: ", e.as_str())),
        Ok(v) => match update_from(&v) {
            Some(u) => Ok(u),
            None => Err("invalid hashmap update".to_owned()),
        },
    }
}

// ---------------------------------------------------------------------------
// Advertisements
// ---------------------------------------------------------------------------

/// The flags and the request identifier of the resource that
/// `ResourceAdvertisement::unpack` reads, if it reads one.
pub uninterp spec fn advertised(data: Seq<u8>) -> Option<(u8, Option<Seq<u8>>)>;

/// `ResourceAdvertisement::unpack`, for the flags and the request identifier of the
/// resource, which depend on the bytes alone. Its one error is a packet error.
#[verifier::external_body]
pub(crate) fn read_advertisement(data: &[u8]) -> (r: Result<(u8, Option<Vec<u8>>), String>)
    ensures
        match r {
            Ok((flags, id)) => advertised(data@) == Some((flags, gitutil::bytes_view(id))),
            Err(e) => advertised(data@) is None && e@ == "packet error"@,
        },
{
    match reticulum_sdk::destination::resource::ResourceAdvertisement::unpack(data) {
        Ok(a) => Ok((a.flags, a.request_id)),
        Err(e) => Err(e.to_string()),
    }
}

} // verus!
