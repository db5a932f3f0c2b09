//! Keys, signatures and encryption. Keys are held as bytes: a private identity is
//! its key for exchange and its key for signing, a public one its key for exchange
//! and its key for verifying, 32 bytes each.

use vstd::prelude::*;

use crate::digits;
use crate::gitutil;
use crate::hash;

verus! {

/// The length of the two keys of an identity.
pub const IDENTITY_LENGTH: usize = 64;

/// The public keys of private ones, as `reticulum_sdk::identity::PrivateIdentity`
/// derives them.
pub uninterp spec fn public_of(private: Seq<u8>) -> Seq<u8>;

/// The signature that `PrivateIdentity::sign` gives with private keys.
pub uninterp spec fn signature(private: Seq<u8>, data: Seq<u8>) -> Seq<u8>;

/// `reticulum_sdk::identity::Identity::new_from_slices` takes the public keys.
pub uninterp spec fn is_identity(public: Seq<u8>) -> bool;

/// `Identity::verify` accepts a signature.
pub uninterp spec fn verifies(public: Seq<u8>, data: Seq<u8>, sig: Seq<u8>) -> bool;

/// What `Identity::encrypt_packet` makes of data with the random numbers of a
/// seed; nothing where the keys are not taken.
pub uninterp spec fn sealed(public: Seq<u8>, data: Seq<u8>, seed: Seq<u8>) -> Option<Seq<u8>>;

/// What `PrivateIdentity::decrypt_packet` makes of data; nothing where it fails.
pub uninterp spec fn opened(private: Seq<u8>, data: Seq<u8>) -> Option<Seq<u8>>;

/// The two keys at the start of a text: its first 128 characters, which must be
/// hexadecimal digits.
pub open spec fn keys_in(s: Seq<char>) -> Option<Seq<u8>> {
    if s.len() >= 128 && (forall|i: int| 0 <= i < 128 ==> digits::is_hex(#[trigger] s[i])) {
        Some(digits::hex_pairs(s.take(128)))
    } else {
        None
    }
}

/// `PrivateIdentity::new_from_hex_string`, and its keys as `to_hex_string` gives
/// them: the first 128 characters as hexadecimal digits of either case; what
/// follows them does not matter, and fewer, or any other character among them, is
/// an error.
#[verifier::external_body]
pub(crate) fn private_from_hex(s: &str) -> (r: Option<Vec<u8>>)
    ensures
        gitutil::bytes_view(r) == keys_in(s@),
        r matches Some(b) ==> b@.len() == 64,
{
    let id = reticulum_sdk::identity::PrivateIdentity::new_from_hex_string(s).ok()?;
    hex::decode(id.to_hex_string()).ok()
}

/// `Identity::new_from_hex_string`, and its keys: the first 128 characters as
/// hexadecimal digits of either case; what follows them does not matter. The error
/// is `IncorrectHash` where they are not, and `CryptoError` where the keys are not
/// taken.
#[verifier::external_body]
pub(crate) fn public_from_hex(s: &str) -> (r: Result<Vec<u8>, String>)
    ensures
        match keys_in(s@) {
            Some(k) => if is_identity(k) {
                r is Ok && r->Ok_0@ == k && k.len() == 64
            } else {
                r is Err && r->Err_0@ == "CryptoError"@
            },
            None => r is Err && r->Err_0@ == "IncorrectHash"@,
        },
{
    let id = reticulum_sdk::identity::Identity::new_from_hex_string(s);
    let id = id.map_err(|e| format!("{e:?}"))?;
    Ok([id.public_key_bytes().as_slice(), id.verifying_key_bytes().as_slice()].concat())
}

/// `PrivateIdentity::as_identity`, with `public_key_bytes` and
/// `verifying_key_bytes`: 64 bytes that depend on the private keys alone.
#[verifier::external_body]
pub(crate) fn public_keys(private: &[u8]) -> (r: Vec<u8>)
    requires
        private@.len() == 64,
    ensures
        r@ == public_of(private@),
        r@.len() == 64,
{
    let id = reticulum_sdk::identity::PrivateIdentity::new_from_hex_string(&hex::encode(private));
    let id = id.unwrap();
    let public = id.as_identity();
    [public.public_key_bytes().as_slice(), public.verifying_key_bytes().as_slice()].concat()
}

/// `PrivateIdentity::sign`: 64 bytes that depend on the private keys and the data
/// alone.
#[verifier::external_body]
pub(crate) fn sign(private: &[u8], data: &[u8]) -> (r: Vec<u8>)
    requires
        private@.len() == 64,
    ensures
        r@ == signature(private@, data@),
        r@.len() == 64,
{
    let id = reticulum_sdk::identity::PrivateIdentity::new_from_hex_string(&hex::encode(private));
    id.unwrap().sign(data).to_bytes().to_vec()
}

/// `Identity::new_from_slices`: whether the second key is one for verifying, which
/// depends on the keys alone. The keys of a private identity are taken.
#[verifier::external_body]
pub(crate) fn check_identity(public: &[u8]) -> (r: bool)
    requires
        public@.len() == 64,
    ensures
        r == is_identity(public@),
        forall|private: Seq<u8>|
            private.len() == 64 && public@ == #[trigger] public_of(private) ==> r,
{
    reticulum_sdk::identity::Identity::new_from_slices(&public[..32], &public[32..]).is_ok()
}

/// `Identity::verify`, which depends on the keys, the data and the signature
/// alone. It accepts what `PrivateIdentity::sign` gave for the same data with the
/// private keys.
#[verifier::external_body]
pub(crate) fn verify(public: &[u8], data: &[u8], sig: &[u8]) -> (r: bool)
    requires
        public@.len() == 64,
        sig@.len() == 64,
    ensures
        r == verifies(public@, data@, sig@),
        forall|private: Seq<u8>|
            private.len() == 64 && public@ == public_of(private) && sig@ == #[trigger] signature(
                private,
                data@,
            ) ==> r,
{
    let sig = ed25519_dalek::Signature::from_slice(sig).unwrap();
    reticulum_sdk::identity::Identity::new_from_slices(&public[..32], &public[32..])
        .is_ok_and(|id| id.verify(data, &sig).is_ok())
}

/// `Identity::encrypt_packet` without a salt, into a buffer with room for what it
/// adds to the data, and with the random numbers that `rand::rngs::StdRng` takes
/// from a seed. What comes out depends on the keys, the data and the seed alone.
#[verifier::external_body]
fn seal_into(public: &[u8], data: &[u8], seed: [u8; 32], buffer: Vec<u8>) -> (r: Option<Vec<u8>>)
    requires
        public@.len() == 64,
        buffer@.len() >= data@.len() + 256,
    ensures
        gitutil::bytes_view(r) == sealed(public@, data@, seed@),
        r is Some == is_identity(public@),
{
    let id = reticulum_sdk::identity::Identity::new_from_slices(&public[..32], &public[32..]);
    let mut rng = <rand::rngs::StdRng as rand::SeedableRng>::from_seed(seed);
    let mut out = buffer;
    id.ok()?.encrypt_packet(&mut rng, data, None, &mut out).ok().map(<[u8]>::to_vec)
}

/// Encrypts data for an identity with the random numbers of a seed; nothing where
/// the keys are not those of an identity.
pub fn seal(public: &[u8], data: &[u8], seed: [u8; 32]) -> (r: Option<Vec<u8>>)
    requires
        public@.len() == 64,
        data@.len() + 256 <= usize::MAX,
    ensures
        gitutil::bytes_view(r) == sealed(public@, data@, seed@),
        r is Some == is_identity(public@),
{
    let n: usize = data.len();
    let buffer: Vec<u8> = vec![0u8; n + 256];
    seal_into(public, data, seed, buffer)
}

/// `PrivateIdentity::decrypt_packet` without a salt. What comes out depends on the
/// keys and the data alone, and is what went into `Identity::encrypt_packet` with
/// the public keys.
#[verifier::external_body]
pub(crate) fn open(private: &[u8], data: &[u8]) -> (r: Option<Vec<u8>>)
    requires
        private@.len() == 64,
    ensures
        gitutil::bytes_view(r) == opened(private@, data@),
        forall|text: Seq<u8>, seed: Seq<u8>|
            seed.len() == 32 && #[trigger] sealed(public_of(private@), text, seed) == Some(data@)
                ==> r is Some && r->0@ == text,
{
    let id = reticulum_sdk::identity::PrivateIdentity::new_from_hex_string(&hex::encode(private));
    let mut rng = <rand::rngs::StdRng as rand::SeedableRng>::from_seed([0u8; 32]);
    let mut out = vec![0u8; data.len()];
    id.unwrap().decrypt_packet(&mut rng, data, None, &mut out).ok().map(<[u8]>::to_vec)
}

/// The hash of an identity: the first sixteen bytes of the digest of its public
/// keys.
pub open spec fn identity_digest(public: Seq<u8>) -> Seq<u8> {
    hash::short_hash(public)
}

/// An identity that is worked with: private keys, or public ones only.
#[derive(Debug)]
pub enum WorkingIdentity {
    Private(Vec<u8>),
    Public(Vec<u8>),
}

/// An identity that is worked with, over sequences.
pub enum Working {
    Private(Seq<u8>),
    Public(Seq<u8>),
}

impl View for WorkingIdentity {
    type V = Working;

    open spec fn view(&self) -> Working {
        match self {
            WorkingIdentity::Private(k) => Working::Private(k@),
            WorkingIdentity::Public(k) => Working::Public(k@),
        }
    }
}

/// The keys have their length.
pub open spec fn proper(w: Working) -> bool {
    match w {
        Working::Private(k) => k.len() == 64,
        Working::Public(k) => k.len() == 64,
    }
}

/// The public keys of an identity.
pub open spec fn public_part(w: Working) -> Seq<u8> {
    match w {
        Working::Private(k) => public_of(k),
        Working::Public(k) => k,
    }
}

/// The private keys of an identity, where it has them.
pub open spec fn private_part(w: Working) -> Option<Seq<u8>> {
    match w {
        Working::Private(k) => Some(k),
        Working::Public(_) => None,
    }
}

/// The hash of an identity.
pub open spec fn hash_of(w: Working) -> Seq<u8> {
    identity_digest(public_part(w))
}

/// An identity as it is shown.
pub open spec fn shown(w: Working) -> Seq<char> {
    crate::rpc::shown(hash_of(w))
}

impl WorkingIdentity {
    /// The private keys, where it has them.
    pub fn private(&self) -> (r: Option<&Vec<u8>>)
        ensures
            match r {
                Some(k) => private_part(self@) == Some(k@),
                None => private_part(self@) is None,
            },
    {
        match self {
            WorkingIdentity::Private(k) => Some(k),
            WorkingIdentity::Public(_) => None,
        }
    }

    /// The public keys.
    pub fn public_key_bytes(&self) -> (r: Vec<u8>)
        requires
            proper(self@),
        ensures
            r@ == public_part(self@),
            r@.len() == 64,
    {
        match self {
            WorkingIdentity::Private(k) => public_keys(k.as_slice()),
            WorkingIdentity::Public(k) => crate::bytes::copy(k.as_slice()),
        }
    }

    /// The hash.
    pub fn identity_hash(&self) -> (r: Vec<u8>)
        requires
            proper(self@),
        ensures
            r@ == hash_of(self@),
            r@.len() == 16,
    {
        let p = self.public_key_bytes();
        hash::truncated(p.as_slice())
    }

    /// The identity as it is shown: its hash between slashes.
    pub fn text(&self) -> (r: String)
        requires
            proper(self@),
        ensures
            r@ == shown(self@),
    {
        let h = self.identity_hash();
        crate::rpc::pretty_hex(h.as_slice())
    }
}

} // verus!
