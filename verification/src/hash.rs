//! Digests: SHA-256, and SHA-256 with a key.

use vstd::prelude::*;

use crate::bytes;

verus! {

/// The SHA-256 digest of bytes, as `sha2::Sha256::digest` gives it.
pub uninterp spec fn sha256(data: Seq<u8>) -> Seq<u8>;

/// The HMAC-SHA-256 of a message, as `hmac::Hmac<sha2::Sha256>` gives it.
pub uninterp spec fn hmac_sha256(key: Seq<u8>, message: Seq<u8>) -> Seq<u8>;

/// `sha2::Sha256::digest`: 32 bytes that depend on the data alone.
#[verifier::external_body]
pub(crate) fn digest(data: &[u8]) -> (r: Vec<u8>)
    ensures
        r@ == sha256(data@),
        r@.len() == 32,
{
    <sha2::Sha256 as sha2::Digest>::digest(data).to_vec()
}

/// `hmac::Hmac<sha2::Sha256>`, which takes a key of any length: 32 bytes that
/// depend on the key and the message alone.
#[verifier::external_body]
pub(crate) fn keyed_digest(key: &[u8], message: &[u8]) -> (r: Vec<u8>)
    ensures
        r@ == hmac_sha256(key@, message@),
        r@.len() == 32,
{
    let mut mac = <hmac::Hmac<sha2::Sha256> as hmac::Mac>::new_from_slice(key).unwrap();
    hmac::Mac::update(&mut mac, message);
    hmac::Mac::finalize(mac).into_bytes().to_vec()
}

/// The first sixteen bytes of the digest.
pub open spec fn short_hash(data: Seq<u8>) -> Seq<u8> {
    sha256(data).take(16)
}

/// The first sixteen bytes of the digest.
pub fn truncated(data: &[u8]) -> (r: Vec<u8>)
    ensures
        r@ == short_hash(data@),
        r@.len() == 16,
{
    let d = digest(data);
    let r = bytes::cut(d.as_slice(), 0, 16);
    assert(r@ =~= short_hash(data@));
    r
}

} // verus!
