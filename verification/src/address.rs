//! Addresses on the mesh, and what they are derived from.

use vstd::prelude::*;

use crate::bytes;
use crate::digits;
use crate::hash;
use crate::text;

verus! {

/// The length of an address.
pub const ADDRESS_HASH_SIZE: usize = 16;

/// The address at the start of a text: its first 32 characters, which must be
/// hexadecimal digits.
pub open spec fn address_in(s: Seq<char>) -> Option<Seq<u8>> {
    if s.len() >= 32 && (forall|i: int| 0 <= i < 32 ==> digits::is_hex(#[trigger] s[i])) {
        Some(digits::hex_pairs(s.take(32)))
    } else {
        None
    }
}

/// `reticulum_sdk::hash::AddressHash::new_from_hex_string`: the first 32
/// characters as hexadecimal digits of either case; what follows them does not
/// matter, and fewer, or any other character among them, is an error.
#[verifier::external_body]
pub(crate) fn address_from_hex(s: &str) -> (r: Option<Vec<u8>>)
    ensures
        match r {
            Some(b) => address_in(s@) == Some(b@) && b@.len() == 16,
            None => address_in(s@) is None,
        },
{
    reticulum_sdk::hash::AddressHash::new_from_hex_string(s).ok().map(|h| h.as_slice().to_vec())
}

/// The full name of a destination: the name of its application and its aspects.
pub open spec fn full_name(app: Seq<char>, aspects: Seq<char>) -> Seq<u8> {
    if aspects.len() == 0 {
        vstd::utf8::encode_utf8(app)
    } else {
        vstd::utf8::encode_utf8(app) + vstd::utf8::encode_utf8("."@) + vstd::utf8::encode_utf8(
            aspects,
        )
    }
}

/// The hash of a destination's name: the first ten bytes of the digest of its
/// full name.
pub open spec fn name_digest(app: Seq<char>, aspects: Seq<char>) -> Seq<u8> {
    hash::sha256(full_name(app, aspects)).take(10)
}

/// `reticulum_sdk::destination::DestinationName::new` and `as_name_hash_slice`:
/// the first ten bytes of the SHA-256 digest of the application's name, followed
/// by a point and the aspects where there are any.
#[verifier::external_body]
pub(crate) fn name_hash(app: &str, aspects: &str) -> (r: Vec<u8>)
    ensures
        r@ == name_digest(app@, aspects@),
        r@.len() == 10,
{
    reticulum_sdk::destination::DestinationName::new(app, aspects).as_name_hash_slice().to_vec()
}

/// The address of a destination: the first sixteen bytes of the digest of the
/// hash of its name and the hash of its identity.
pub open spec fn destination_address(name: Seq<u8>, identity: Seq<u8>) -> Seq<u8> {
    hash::short_hash(name + identity)
}

/// The address of the destination with a name for an identity.
pub fn destination_hash(app: &str, aspects: &str, identity: &[u8]) -> (r: Vec<u8>)
    ensures
        r@ == destination_address(name_digest(app@, aspects@), identity@),
        r@.len() == 16,
{
    let name = name_hash(app, aspects);
    let both = bytes::cat(name.as_slice(), identity);
    hash::truncated(both.as_slice())
}

/// A destination as it is given in hexadecimal digits.
pub open spec fn destination_in(s: Seq<char>) -> Result<Seq<u8>, Seq<char>> {
    if vstd::utf8::encode_utf8(s).len() != 32 {
        Err("destination must be 32 hex chars"@)
    } else {
        match address_in(s) {
            Some(h) => Ok(h),
            None => Err("invalid destination hash"@),
        }
    }
}

/// Reads a destination that is given in hexadecimal digits.
pub fn parse_destination(s: &str) -> (r: Result<Vec<u8>, String>)
    ensures
        match r {
            Ok(h) => destination_in(s@) == Ok::<_, Seq<char>>(h@) && h@.len() == 16,
            Err(e) => destination_in(s@) == Err::<Seq<u8>, _>(e@),
        },
{
    if text::utf8(s).len() != 32 {
        return Err("destination must be 32 hex chars".to_owned());
    }
    match address_from_hex(s) {
        Some(h) => Ok(h),
        None => Err("invalid destination hash".to_owned()),
    }
}

} // verus!
