//! Signed data: a signature, and an envelope that holds the digest of a message,
//! the keys to verify with, and, if it is wanted, the message itself.

use vstd::prelude::*;

use crate::bytes;
use crate::codec;
use crate::digits;
use crate::gitutil;
use crate::hash;
use crate::keys;
use crate::msgpack;
use crate::msgpack::{Msg, MsgValue};
use crate::text;

verus! {

/// The exit code for signed data that is not valid.
pub const R_INVALID_SIGNATURE: i32 = 10;

/// How bytes are put out.
#[derive(Debug, Clone, Copy, PartialEq, Eq, Structural)]
pub enum Encoding {
    Bin,
    Hex,
    Base32,
    Base64,
    Base256,
}

/// Bytes as they are put out.
pub open spec fn encoded(b: Seq<u8>, e: Encoding) -> Seq<u8> {
    match e {
        Encoding::Bin => b,
        Encoding::Hex => vstd::utf8::encode_utf8(digits::hex_text(b)),
        Encoding::Base32 => vstd::utf8::encode_utf8(codec::base32(b)),
        Encoding::Base64 => vstd::utf8::encode_utf8(codec::base64(b)),
        Encoding::Base256 => vstd::utf8::encode_utf8(codec::base256(b)),
    }
}

/// Puts bytes out.
pub fn encode(b: Vec<u8>, e: Encoding) -> (r: Vec<u8>)
    ensures
        r@ == encoded(b@, e),
{
    match e {
        Encoding::Bin => b,
        Encoding::Hex => text::utf8(digits::hex_encode(b.as_slice()).as_str()),
        Encoding::Base32 => text::utf8(codec::base32_encode(b.as_slice()).as_str()),
        Encoding::Base64 => text::utf8(codec::base64_encode(b.as_slice()).as_str()),
        Encoding::Base256 => text::utf8(codec::base256_encode(b.as_slice()).as_str()),
    }
}

// ---------------------------------------------------------------------------
// Making
// ---------------------------------------------------------------------------

/// A key of the metadata that is not taken from elsewhere.
pub open spec fn reserved(key: Seq<char>) -> bool {
    key == "signer"@ || key == "pubkey"@
}

/// Further metadata, without what is reserved.
pub open spec fn extra_entries(meta: Seq<(Seq<char>, Seq<char>)>) -> Seq<(Msg, Msg)>
    decreases meta.len(),
{
    if meta.len() == 0 {
        Seq::empty()
    } else {
        let before = extra_entries(meta.drop_last());
        if reserved(meta.last().0) {
            before
        } else {
            before.push((Msg::Text(meta.last().0), Msg::Text(meta.last().1)))
        }
    }
}

/// The metadata: who signs, with which keys, and what else is given.
pub open spec fn meta_entries(public: Seq<u8>, meta: Seq<(Seq<char>, Seq<char>)>) -> Seq<(Msg, Msg)> {
    seq![
        (Msg::Text("signer"@), Msg::Binary(keys::identity_digest(public))),
        (Msg::Text("pubkey"@), Msg::Binary(public)),
    ] + extra_entries(meta)
}

/// What is signed.
pub open spec fn signed_data(
    public: Seq<u8>,
    message: Seq<u8>,
    embed: bool,
    meta: Seq<(Seq<char>, Seq<char>)>,
) -> Msg {
    let first = seq![
        (Msg::Text("hashtype"@), Msg::Text("sha256"@)),
        (Msg::Text("hash"@), Msg::Binary(hash::sha256(message))),
        (Msg::Text("meta"@), Msg::Pairs(meta_entries(public, meta))),
    ];
    Msg::Pairs(
        if embed {
            first.push((Msg::Text("message"@), Msg::Binary(message)))
        } else {
            first
        },
    )
}

/// The envelope of a message.
pub open spec fn envelope(
    private: Seq<u8>,
    message: Seq<u8>,
    embed: bool,
    meta: Seq<(Seq<char>, Seq<char>)>,
) -> Seq<u8> {
    msgpack::msgpack(signed_data(keys::public_of(private), message, embed, meta))
}

/// A message, signed: the signature of the envelope, and the envelope.
pub open spec fn rsg(
    private: Seq<u8>,
    message: Seq<u8>,
    embed: bool,
    meta: Seq<(Seq<char>, Seq<char>)>,
) -> Seq<u8> {
    let e = envelope(private, message, embed, meta);
    keys::signature(private, e) + e
}

fn extra_values(meta: &[(String, String)], out: &mut Vec<(MsgValue, MsgValue)>)
    ensures
        msgpack::pair_models(final(out)@) == msgpack::pair_models(old(out)@) + extra_entries(
            text::pair_views(meta@),
        ),
{
    let ghost all = text::pair_views(meta@);
    let ghost o = msgpack::pair_models(out@);
    let mut i: usize = 0;
    assert(all.take(0) =~= Seq::empty());
    assert(o + extra_entries(all.take(0)) =~= o);
    while i < meta.len()
        invariant
            i <= meta@.len(),
            all == text::pair_views(meta@),
            msgpack::pair_models(out@) == o + extra_entries(all.take(i as int)),
        decreases meta@.len() - i,
    {
        assert(all.take(i + 1).drop_last() =~= all.take(i as int));
        assert(all.take(i + 1).last() == (meta@[i as int].0@, meta@[i as int].1@));
        let k = meta[i].0.as_str();
        if !(text::same(k, "signer") || text::same(k, "pubkey")) {
            let ghost before = msgpack::pair_models(out@);
            out.push((msgpack::string(k), msgpack::string(meta[i].1.as_str())));
            assert(msgpack::pair_models(out@) =~= before.push(
                (Msg::Text(all[i as int].0), Msg::Text(all[i as int].1)),
            ));
            assert(msgpack::pair_models(out@) =~= o + extra_entries(all.take(i + 1)));
        }
        i = i + 1;
    }
    assert(all.take(all.len() as int) =~= all);
}

proof fn lemma_extra_entries_are_texts(meta: Seq<(Seq<char>, Seq<char>)>)
    ensures
        forall|i: int|
            0 <= i < extra_entries(meta).len() ==> (#[trigger] extra_entries(meta)[i]).0 is Text
                && extra_entries(meta)[i].1 is Text && !reserved(extra_entries(meta)[i].0->Text_0),
    decreases meta.len(),
{
    if meta.len() > 0 {
        lemma_extra_entries_are_texts(meta.drop_last());
    }
}

/// Signs a message. The metadata may be none.
pub fn create_rsg(
    private: &[u8],
    message: &[u8],
    embed: bool,
    meta: &[(String, String)],
    output: Encoding,
) -> (r: Vec<u8>)
    requires
        private@.len() == 64,
    ensures
        r@ == encoded(rsg(private@, message@, embed, text::pair_views(meta@)), output),
        keys::public_of(private@).len() == 64,
        ({
            let e = envelope(private@, message@, embed, text::pair_views(meta@));
            e.len() > 0 && keys::signature(private@, e).len() == 64
        }),
{
    let ghost ms = text::pair_views(meta@);
    let public = keys::public_keys(private);
    let digest = hash::truncated(public.as_slice());
    let mut m: Vec<(MsgValue, MsgValue)> = Vec::new();
    m.push((msgpack::string("signer"), msgpack::binary(digest.as_slice())));
    m.push((msgpack::string("pubkey"), msgpack::binary(public.as_slice())));
    extra_values(meta, &mut m);
    assert(msgpack::pair_models(m@) =~= meta_entries(public@, ms));
    let sum = hash::digest(message);
    let mut d: Vec<(MsgValue, MsgValue)> = Vec::new();
    d.push((msgpack::string("hashtype"), msgpack::string("sha256")));
    d.push((msgpack::string("hash"), msgpack::binary(sum.as_slice())));
    d.push((msgpack::string("meta"), msgpack::map(m)));
    if embed {
        d.push((msgpack::string("message"), msgpack::binary(message)));
    }
    let v = msgpack::map(d);
    proof {
        assert(v@->Pairs_0 =~= signed_data(public@, message@, embed, ms)->Pairs_0);
        lemma_encodable(public@, message@, embed, ms);
    }
    let e = msgpack::encode(&v);
    let sig = keys::sign(private, e.as_slice());
    let all = bytes::cat(sig.as_slice(), e.as_slice());
    encode(all, output)
}

proof fn lemma_encodable(
    public: Seq<u8>,
    message: Seq<u8>,
    embed: bool,
    meta: Seq<(Seq<char>, Seq<char>)>,
)
    ensures
        msgpack::encodable(signed_data(public, message, embed, meta)),
{
    lemma_extra_entries_are_texts(meta);
    let m = meta_entries(public, meta);
    reveal_with_fuel(msgpack::encodable, 3);
    assert forall|i: int| 0 <= i < m.len() implies msgpack::encodable((#[trigger] m[i]).0)
        && msgpack::encodable(m[i].1) by {
        if i >= 2 {
            assert(m[i] == extra_entries(meta)[i - 2]);
        }
    }
    assert(msgpack::encodable(Msg::Pairs(m)));
}

// ---------------------------------------------------------------------------
// Reading
// ---------------------------------------------------------------------------

/// The bytes of a value: a binary one, or valid text.
pub open spec fn value_bytes(m: Msg) -> Option<Seq<u8>> {
    match m {
        Msg::Binary(b) => Some(b),
        Msg::Text(s) => Some(vstd::utf8::encode_utf8(s)),
        _ => None,
    }
}

/// The bytes of an entry of a map.
pub open spec fn entry_bytes(p: Seq<(Msg, Msg)>, key: Seq<char>) -> Option<Seq<u8>> {
    match msgpack::lookup(p, key) {
        Some(m) => value_bytes(m),
        None => None,
    }
}

/// The bytes of a value.
pub fn value_as_bytes(v: &MsgValue) -> (r: Option<Vec<u8>>)
    ensures
        gitutil::bytes_view(r) == value_bytes(v@),
{
    match v {
        MsgValue::Binary(b) => Some(bytes::copy(b.as_slice())),
        MsgValue::Text(s) => Some(text::utf8(s.as_str())),
        _ => None,
    }
}

fn bytes_at(p: &Vec<(MsgValue, MsgValue)>, key: &str) -> (r: Option<Vec<u8>>)
    ensures
        gitutil::bytes_view(r) == entry_bytes(msgpack::pair_models(p@), key@),
{
    match msgpack::get(p, key) {
        Some(v) => value_as_bytes(v),
        None => None,
    }
}

/// What signed data says once it is read, for a message and the identity that is
/// asked for: that it cannot be judged, or whether it is valid, with the keys that
/// it names. They are not read where it is about another message.
pub open spec fn judged(
    m: Msg,
    env: Seq<u8>,
    sig: Seq<u8>,
    message: Seq<u8>,
    required: Option<Seq<u8>>,
) -> Result<(bool, Option<Seq<u8>>), ()> {
    match m {
        Msg::Pairs(p) => if msgpack::lookup(p, "hashtype"@) != Some(Msg::Text("sha256"@)) {
            Err(())
        } else if entry_bytes(p, "hash"@) != Some(hash::sha256(message)) {
            Ok((false, None))
        } else {
            match msgpack::lookup(p, "meta"@) {
                Some(Msg::Pairs(q)) => match entry_bytes(q, "pubkey"@) {
                    None => Err(()),
                    Some(public) => if public.len() != 64 || !keys::is_identity(public) {
                        Err(())
                    } else if required is Some && required->0 != keys::identity_digest(public) {
                        Ok((false, Some(public)))
                    } else {
                        Ok((keys::verifies(public, env, sig), Some(public)))
                    },
                },
                _ => Err(()),
            }
        },
        _ => Err(()),
    }
}

/// Why signed data is refused: an exit code and a text.
pub open spec fn invalid() -> (i32, Seq<char>) {
    (R_INVALID_SIGNATURE, "Invalid signature"@)
}

fn invalid_signature() -> (r: (i32, String))
    ensures
        (r.0, r.1@) == invalid(),
{
    (R_INVALID_SIGNATURE, "Invalid signature".to_owned())
}

/// What the envelope of signed data holds.
pub open spec fn envelope_in(b: Seq<u8>) -> Result<Msg, ()> {
    if b.len() <= 64 {
        Err(())
    } else {
        match msgpack::msgpack_read(b.skip(64)) {
            Ok(m) => Ok(m),
            Err(_) => Err(()),
        }
    }
}

/// Reads the envelope of signed data.
pub fn parse_rsg_envelope(b: &[u8]) -> (r: Result<MsgValue, (i32, String)>)
    ensures
        match r {
            Ok(v) => envelope_in(b@) == Ok::<_, ()>(v@),
            Err(e) => envelope_in(b@) is Err && (e.0, e.1@) == invalid(),
        },
        forall|m: Msg|
            #[trigger] msgpack::plain(m, 8) && b@.len() > 64 && b@.skip(64) == msgpack::msgpack(m)
                ==> (r matches Ok(v) && v@ == m),
{
    if b.len() <= 64 {
        return Err(invalid_signature());
    }
    let e = bytes::cut(b, 64, b.len());
    assert(e@ =~= b@.skip(64));
    match msgpack::decode(e.as_slice()) {
        Ok(v) => Ok(v),
        Err(_) => Err(invalid_signature()),
    }
}

/// What signed data says, for a message and the identity that is asked for.
pub open spec fn verdict(b: Seq<u8>, message: Seq<u8>, required: Option<Seq<u8>>) -> Result<
    (bool, Option<Seq<u8>>),
    (),
> {
    match envelope_in(b) {
        Err(_) => Err(()),
        Ok(m) => judged(m, b.skip(64), b.take(64), message, required),
    }
}

pub proof fn lemma_own_data(
    public: Seq<u8>,
    message: Seq<u8>,
    embed: bool,
    meta: Seq<(Seq<char>, Seq<char>)>,
)
    ensures
        ({
            let p = signed_data(public, message, embed, meta)->Pairs_0;
            &&& msgpack::lookup(p, "hashtype"@) == Some(Msg::Text("sha256"@))
            &&& entry_bytes(p, "hash"@) == Some(hash::sha256(message))
            &&& msgpack::lookup(p, "meta"@) == Some(Msg::Pairs(meta_entries(public, meta)))
            &&& entry_bytes(meta_entries(public, meta), "pubkey"@) == Some(public)
            &&& embed ==> entry_bytes(p, "message"@) == Some(message)
        }),
{
    reveal_strlit("hashtype");
    reveal_strlit("hash");
    reveal_strlit("meta");
    reveal_strlit("message");
    reveal_strlit("signer");
    reveal_strlit("pubkey");
    assert("hash"@ != "meta"@) by {
        assert("hash"@[0] != "meta"@[0]);
    }
    assert("signer"@ != "pubkey"@) by {
        assert("signer"@[0] != "pubkey"@[0]);
    }
    assert("hashtype"@.len() != "hash"@.len() && "hashtype"@.len() != "message"@.len());
    assert("hash"@.len() != "message"@.len());
    let p = signed_data(public, message, embed, meta)->Pairs_0;
    let q = meta_entries(public, meta);
    reveal_with_fuel(msgpack::lookup, 5);
    assert(p.skip(1)[0] == p[1]);
    assert(p.skip(1).skip(1)[0] == p[2]);
    assert(q.skip(1)[0] == q[1]);
    if embed {
        assert(p.skip(1).skip(1).skip(1)[0] == p[3]);
    }
}

/// Judges decoded signed data.
pub fn judge(
    v: &MsgValue,
    env: &[u8],
    sig: &[u8],
    message: &[u8],
    required: Option<&[u8]>,
) -> (r: Result<(bool, Option<Vec<u8>>), (i32, String)>)
    requires
        sig@.len() == 64,
    ensures
        match r {
            Ok((valid, k)) => judged(v@, env@, sig@, message@, slice_view(required)) == Ok::<_, ()>(
                (valid, gitutil::bytes_view(k)),
            ),
            Err(e) => judged(v@, env@, sig@, message@, slice_view(required)) is Err && (e.0, e.1@)
                == invalid(),
        },
        forall|private: Seq<u8>, embed: bool, meta: Seq<(Seq<char>, Seq<char>)>|
            private.len() == 64 && v@ == #[trigger] signed_data(
                keys::public_of(private),
                message@,
                embed,
                meta,
            ) && sig@ == keys::signature(private, env@) && keys::public_of(private).len() == 64 && (
            required is None || slice_view(required)->0 == keys::identity_digest(
                keys::public_of(private),
            )) ==> (r matches Ok((valid, Some(k))) && valid && k@ == keys::public_of(private)),
{
    proof {
        assert forall|private: Seq<u8>, embed: bool, meta: Seq<(Seq<char>, Seq<char>)>| v@
            == #[trigger] signed_data(
            keys::public_of(private),
            message@,
            embed,
            meta,
        ) implies v@ is Pairs && msgpack::lookup(v@->Pairs_0, "hashtype"@) == Some(
            Msg::Text("sha256"@),
        ) && entry_bytes(v@->Pairs_0, "hash"@) == Some(hash::sha256(message@)) && msgpack::lookup(
            v@->Pairs_0,
            "meta"@,
        ) == Some(Msg::Pairs(meta_entries(keys::public_of(private), meta))) && entry_bytes(
            meta_entries(keys::public_of(private), meta),
            "pubkey"@,
        ) == Some(keys::public_of(private)) by {
            lemma_own_data(keys::public_of(private), message@, embed, meta);
        }
    }
    let p = match v.as_map() {
        Some(p) => p,
        None => {
            return Err(invalid_signature());
        },
    };
    let known = match msgpack::get(p, "hashtype") {
        Some(t) => t.is_text("sha256"),
        None => false,
    };
    if !known {
        return Err(invalid_signature());
    }
    let sum = hash::digest(message);
    let fits = match bytes_at(p, "hash") {
        Some(h) => bytes::same(h.as_slice(), sum.as_slice()),
        None => false,
    };
    if !fits {
        return Ok((false, None));
    }
    let q = match msgpack::get(p, "meta") {
        Some(m) => match m.as_map() {
            Some(q) => q,
            None => {
                return Err(invalid_signature());
            },
        },
        None => {
            return Err(invalid_signature());
        },
    };
    let public = match bytes_at(q, "pubkey") {
        Some(k) => k,
        None => {
            return Err(invalid_signature());
        },
    };
    if public.len() != 64 {
        return Err(invalid_signature());
    }
    if !keys::check_identity(public.as_slice()) {
        return Err(invalid_signature());
    }
    if let Some(want) = required {
        let have = hash::truncated(public.as_slice());
        if !bytes::same(have.as_slice(), want) {
            return Ok((false, Some(public)));
        }
    }
    let valid = keys::verify(public.as_slice(), env, sig);
    Ok((valid, Some(public)))
}

/// Bytes inside an option.
pub open spec fn slice_view(o: Option<&[u8]>) -> Option<Seq<u8>> {
    match o {
        Some(b) => Some(b@),
        None => None,
    }
}

/// Validates signed data for a message: an error where it cannot be judged, and
/// else whether it is valid for the message and of the identity with the hash that
/// is asked for, with the public keys of the signer that it names. These are not
/// given where it is about another message. What `create_rsg` makes is valid for
/// its message and the identity that signed.
pub fn validate_rsg(b: &[u8], message: &[u8], required: Option<&[u8]>) -> (r: Result<
    (bool, Option<Vec<u8>>),
    (i32, String),
>)
    ensures
        match r {
            Ok((valid, k)) => verdict(b@, message@, slice_view(required)) == Ok::<_, ()>(
                (valid, gitutil::bytes_view(k)),
            ),
            Err(e) => verdict(b@, message@, slice_view(required)) is Err && (e.0, e.1@)
                == invalid(),
        },
        forall|private: Seq<u8>, embed: bool, meta: Seq<(Seq<char>, Seq<char>)>|
            b@ == #[trigger] rsg(private, message@, embed, meta) && private.len() == 64
                && keys::public_of(private).len() == 64 && keys::signature(
                private,
                envelope(private, message@, embed, meta),
            ).len() == 64 && envelope(private, message@, embed, meta).len() > 0 && msgpack::plain(
                signed_data(keys::public_of(private), message@, embed, meta),
                8,
            ) && (required is None || slice_view(required)->0 == keys::identity_digest(
                keys::public_of(private),
            )) ==> (r matches Ok((valid, Some(k))) && valid && k@ == keys::public_of(private)),
{
    proof {
        assert forall|private: Seq<u8>, embed: bool, meta: Seq<(Seq<char>, Seq<char>)>|
            b@ == #[trigger] rsg(private, message@, embed, meta) && keys::signature(
                private,
                envelope(private, message@, embed, meta),
            ).len() == 64 && envelope(private, message@, embed, meta).len() > 0 implies b@.take(64)
            == keys::signature(private, envelope(private, message@, embed, meta)) && b@.skip(64)
            == envelope(private, message@, embed, meta) && b@.len() > 64 by {
            let e = envelope(private, message@, embed, meta);
            let s = keys::signature(private, e);
            assert((s + e).take(64) =~= s);
            assert((s + e).skip(64) =~= e);
        }
    }
    let v = match parse_rsg_envelope(b) {
        Ok(v) => v,
        Err(e) => {
            return Err(e);
        },
    };
    let sig = bytes::cut(b, 0, 64);
    let env = bytes::cut(b, 64, b.len());
    assert(sig@ =~= b@.take(64));
    assert(env@ =~= b@.skip(64));
    judge(&v, env.as_slice(), sig.as_slice(), message, required)
}

/// The message that signed data holds itself.
pub open spec fn embedded(m: Msg) -> Option<Seq<u8>> {
    match m {
        Msg::Pairs(p) => entry_bytes(p, "message"@),
        _ => None,
    }
}

/// The message that decoded signed data holds itself.
pub fn embedded_message(v: &MsgValue) -> (r: Option<Vec<u8>>)
    ensures
        gitutil::bytes_view(r) == embedded(v@),
{
    match v.as_map() {
        Some(p) => bytes_at(p, "message"),
        None => None,
    }
}

/// A message that was embedded is found again.
pub proof fn law_embedded_message_is_found(
    public: Seq<u8>,
    message: Seq<u8>,
    meta: Seq<(Seq<char>, Seq<char>)>,
)
    ensures
        embedded(signed_data(public, message, true, meta)) == Some(message),
{
    lemma_own_data(public, message, true, meta);
}

/// Signed data is not valid for a message with another digest.
pub proof fn law_other_message_is_not_valid(
    public: Seq<u8>,
    env: Seq<u8>,
    sig: Seq<u8>,
    message: Seq<u8>,
    other: Seq<u8>,
    embed: bool,
    meta: Seq<(Seq<char>, Seq<char>)>,
    required: Option<Seq<u8>>,
)
    ensures
        hash::sha256(message) != hash::sha256(other) ==> judged(
            signed_data(public, message, embed, meta),
            env,
            sig,
            other,
            required,
        ) == Ok::<_, ()>((false, None::<Seq<u8>>)),
{
    lemma_own_data(public, message, embed, meta);
}

} // verus!
