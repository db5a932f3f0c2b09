//! What the identity utility does with files: which it reads and writes, and what
//! it makes of them.

use vstd::prelude::*;

use crate::bytes;
use crate::digits;
use crate::gitutil;
use crate::hash;
use crate::identity_tool;
use crate::identity_tool::{
    Args, Failure, ENC_CHUNK, R_DECRYPT_FAILED, R_FILE_EXISTS, R_INVALID_ARGS, R_INVALID_FILE,
    R_INVALID_SIGNATURE, R_NO_FILE, R_NO_IDENTITY, R_NO_PRVKEY, R_UNKNOWN_ERROR,
};
use crate::keys;
use crate::keys::WorkingIdentity;
use crate::msgpack;
use crate::msgpack::{Msg, MsgValue};
use crate::rpc;
use crate::rsg;
use crate::rsg::Encoding;
use crate::text;

verus! {

fn failure(code: i32, message: &str) -> (r: Failure)
    ensures
        r@ == (code, message@),
{
    Failure { code, message: message.to_owned() }
}

fn failure_about(code: i32, before: &str, what: &str, after: &str) -> (r: Failure)
    ensures
        r@ == (code, before@ + what@ + after@),
{
    Failure { code, message: text::cat3(before, what, after) }
}

/// An outcome over sequences.
pub open spec fn text_outcome(r: Result<String, Failure>) -> Result<Seq<char>, (i32, Seq<char>)> {
    match r {
        Ok(s) => Ok(s@),
        Err(e) => Err(e@),
    }
}

/// An outcome without a value, over sequences.
pub open spec fn unit_outcome(r: Result<(), Failure>) -> Result<(), (i32, Seq<char>)> {
    match r {
        Ok(_) => Ok(()),
        Err(e) => Err(e@),
    }
}

/// A list of files has to name one.
pub fn require_paths(paths: &Vec<String>, what: &str) -> (r: Result<(), Failure>)
    ensures
        unit_outcome(r) == (if paths@.len() == 0 {
            Err::<(), _>((R_INVALID_ARGS, "No file specified for "@ + what@))
        } else {
            Ok(())
        }),
{
    if paths.len() == 0 {
        Err(Failure { code: R_INVALID_ARGS, message: text::cat("No file specified for ", what) })
    } else {
        Ok(())
    }
}

// ---------------------------------------------------------------------------
// Signing files
// ---------------------------------------------------------------------------

/// The file for the signature of a file.
pub open spec fn signature_path(path: Seq<char>) -> Seq<char> {
    path + ".rsg"@
}

/// The file for the signature of a file.
pub fn signature_file(path: &str) -> (r: String)
    ensures
        r@ == signature_path(path@),
{
    text::cat(path, ".rsg")
}

/// Whether a file can be signed. `given` is the path as it is given, `path` as it
/// is meant.
pub open spec fn sign_check(
    a: Args,
    private: bool,
    given: Seq<char>,
    path: Seq<char>,
    is_file: bool,
    signature_exists: bool,
) -> Result<(), (i32, Seq<char>)> {
    if !private {
        Err(
            (
                R_NO_PRVKEY,
                "Cannot sign \""@ + given + "\", the identity does not hold a private key"@,
            ),
        )
    } else if !is_file {
        Err((R_NO_FILE, "The file \""@ + path + "\" does not exist"@))
    } else if identity_tool::encoding_of(a) == Encoding::Bin && signature_exists && !a.force {
        Err(
            (
                R_FILE_EXISTS,
                "The signature file \""@ + signature_path(path)
                    + "\" already exists, not overwriting"@,
            ),
        )
    } else {
        Ok(())
    }
}

/// Checks whether a file can be signed.
pub fn check_sign(
    a: &Args,
    private: bool,
    given: &str,
    path: &str,
    is_file: bool,
    signature_exists: bool,
) -> (r: Result<(), Failure>)
    ensures
        unit_outcome(r) == sign_check(*a, private, given@, path@, is_file, signature_exists),
{
    if !private {
        return Err(
            failure_about(
                R_NO_PRVKEY,
                "Cannot sign \"",
                given,
                "\", the identity does not hold a private key",
            ),
        );
    }
    if !is_file {
        return Err(failure_about(R_NO_FILE, "The file \"", path, "\" does not exist"));
    }
    if identity_tool::output_encoding(a) == Encoding::Bin && signature_exists && !a.force {
        let p = signature_file(path);
        return Err(
            failure_about(
                R_FILE_EXISTS,
                "The signature file \"",
                p.as_str(),
                "\" already exists, not overwriting",
            ),
        );
    }
    Ok(())
}

/// What comes of signing: bytes for a file, or a text to show.
#[derive(Debug)]
pub enum SignOutput {
    File(Vec<u8>),
    Show(String),
}

/// What comes of signing, over sequences.
pub enum SignResult {
    File(Seq<u8>),
    Show(Seq<char>),
}

impl View for SignOutput {
    type V = SignResult;

    open spec fn view(&self) -> SignResult {
        match self {
            SignOutput::File(b) => SignResult::File(b@),
            SignOutput::Show(t) => SignResult::Show(t@),
        }
    }
}

/// What comes of signing the data of a file: its plain signature, or signed data
/// that is put out.
pub open spec fn file_signed(a: Args, private: Seq<u8>, data: Seq<u8>) -> SignResult {
    if a.raw {
        SignResult::File(keys::signature(private, data))
    } else {
        let e = identity_tool::encoding_of(a);
        let b = rsg::encoded(rsg::rsg(private, data, false, Seq::empty()), e);
        if e == Encoding::Bin {
            SignResult::File(b)
        } else {
            SignResult::Show("\n"@ + wrapped(b) + "\n"@)
        }
    }
}

/// Signs the data of a file.
pub fn sign_file(a: &Args, private: &Vec<u8>, data: &[u8]) -> (r: SignOutput)
    requires
        private@.len() == 64,
    ensures
        r@ == file_signed(*a, private@, data@),
{
    if a.raw {
        return SignOutput::File(keys::sign(private.as_slice(), data));
    }
    let e = identity_tool::output_encoding(a);
    let meta: Vec<(String, String)> = Vec::new();
    assert(text::pair_views(meta@) =~= Seq::empty());
    let b = rsg::create_rsg(private.as_slice(), data, false, meta.as_slice(), e);
    if e == Encoding::Bin {
        SignOutput::File(b)
    } else {
        let w = wrap_rsg(b.as_slice());
        SignOutput::Show(text::cat3("\n", w.as_str(), "\n"))
    }
}

// ---------------------------------------------------------------------------
// Signing messages
// ---------------------------------------------------------------------------

/// Where a message to sign comes from.
#[derive(Debug)]
pub enum MessageSource {
    /// The command line.
    Given(String),
    /// The file with this path.
    File(String),
}

/// Where a message to sign comes from, over sequences.
pub enum MessageOrigin {
    Given(Seq<char>),
    File(Seq<char>),
}

/// Where the message to sign comes from, or why it cannot be signed.
pub open spec fn message_origin(a: Args, private: bool) -> Result<MessageOrigin, (i32, Seq<char>)> {
    if !private {
        Err((R_NO_PRVKEY, "Cannot sign, the identity does not hold a private key"@))
    } else if identity_tool::encoding_of(a) == Encoding::Bin && a.write is None {
        Err((R_INVALID_ARGS, "No write path specified"@))
    } else {
        match (a.sign_message, a.read) {
            (Some(Some(_)), Some(_)) => Err(
                (
                    R_INVALID_ARGS,
                    "Both an input file and command-line provided message was specified, aborting"@,
                ),
            ),
            (Some(Some(m)), None) => Ok(MessageOrigin::Given(m@)),
            (Some(None), Some(p)) => Ok(MessageOrigin::File(p@)),
            _ => Err((R_INVALID_ARGS, "No message specified"@)),
        }
    }
}

/// Where the message to sign comes from.
pub fn message_source(a: &Args, private: bool) -> (r: Result<MessageSource, Failure>)
    ensures
        match r {
            Ok(MessageSource::Given(m)) => message_origin(*a, private) == Ok::<_, (i32, Seq<char>)>(
                MessageOrigin::Given(m@),
            ),
            Ok(MessageSource::File(p)) => message_origin(*a, private) == Ok::<_, (i32, Seq<char>)>(
                MessageOrigin::File(p@),
            ),
            Err(e) => message_origin(*a, private) == Err::<MessageOrigin, _>(e@),
        },
{
    if !private {
        return Err(failure(R_NO_PRVKEY, "Cannot sign, the identity does not hold a private key"));
    }
    if identity_tool::output_encoding(a) == Encoding::Bin && a.write.is_none() {
        return Err(failure(R_INVALID_ARGS, "No write path specified"));
    }
    match (&a.sign_message, &a.read) {
        (Some(Some(_)), Some(_)) => Err(
            failure(
                R_INVALID_ARGS,
                "Both an input file and command-line provided message was specified, aborting",
            ),
        ),
        (Some(Some(m)), None) => Ok(MessageSource::Given(m.clone())),
        (Some(None), Some(p)) => Ok(MessageSource::File(p.clone())),
        _ => Err(failure(R_INVALID_ARGS, "No message specified")),
    }
}

/// Signs a message, with metadata. A message that is empty is refused.
pub fn sign_message(a: &Args, private: &Vec<u8>, message: &[u8], meta: &Vec<(String, String)>) -> (r:
    Result<SignOutput, Failure>)
    requires
        private@.len() == 64,
    ensures
        if message@.len() == 0 {
            r matches Err(e) && e@ == (R_INVALID_ARGS, "No message specified"@)
        } else {
            let e = identity_tool::encoding_of(*a);
            let b = rsg::encoded(
                rsg::rsg(private@, message@, true, text::pair_views(meta@)),
                e,
            );
            r matches Ok(o) && o@ == (if e == Encoding::Bin {
                SignResult::File(b)
            } else {
                SignResult::Show("\n"@ + wrapped(b) + "\n"@)
            })
        },
{
    if message.len() == 0 {
        return Err(failure(R_INVALID_ARGS, "No message specified"));
    }
    let e = identity_tool::output_encoding(a);
    let b = rsg::create_rsg(private.as_slice(), message, true, meta.as_slice(), e);
    if e == Encoding::Bin {
        Ok(SignOutput::File(b))
    } else {
        let w = wrap_rsg(b.as_slice());
        Ok(SignOutput::Show(text::cat3("\n", w.as_str(), "\n")))
    }
}

/// The file for a signed message: with its ending, which is added where it is
/// missing.
pub fn message_file(path: &str) -> (r: String)
    ensures
        r@ == (if text::ends(path@, ".rsm"@) {
            path@
        } else {
            path@ + ".rsm"@
        }),
{
    if text::ends_with(path, ".rsm") {
        path.to_owned()
    } else {
        text::cat(path, ".rsm")
    }
}

/// Checks that a file may be written.
pub fn check_overwrite(exists: bool, force: bool, before: &str, path: &str, after: &str) -> (r: Result<
    (),
    Failure,
>)
    ensures
        unit_outcome(r) == (if exists && !force {
            Err::<(), _>((R_FILE_EXISTS, before@ + path@ + after@))
        } else {
            Ok(())
        }),
{
    if exists && !force {
        Err(failure_about(R_FILE_EXISTS, before, path, after))
    } else {
        Ok(())
    }
}

/// A line of metadata: its key and value.
pub open spec fn meta_line(line: Seq<char>) -> Option<(Seq<char>, Seq<char>)> {
    let t = text::trimmed(line);
    if t.len() == 0 || t[0] == '#' {
        None
    } else {
        match text::halves(t, '=') {
            Some((k, v)) => Some((text::trimmed(k), text::trimmed(v))),
            None => None,
        }
    }
}

/// The metadata that lines hold.
pub open spec fn meta_in(lines: Seq<Seq<char>>) -> Seq<(Seq<char>, Seq<char>)>
    decreases lines.len(),
{
    if lines.len() == 0 {
        Seq::empty()
    } else {
        let before = meta_in(lines.drop_last());
        match meta_line(lines.last()) {
            Some(p) => before.push(p),
            None => before,
        }
    }
}

fn meta_line_of(line: &str) -> (r: Option<(String, String)>)
    ensures
        match r {
            Some(p) => meta_line(line@) == Some(text::pair_view(p)),
            None => meta_line(line@) is None,
        },
{
    let t = text::trim(line);
    let v = text::chars(t.as_str());
    if v.len() == 0 || v[0] == '#' {
        return None;
    }
    match text::split_once(t.as_str(), '=') {
        Some((k, v)) => Some((text::trim(k.as_str()), text::trim(v.as_str()))),
        None => None,
    }
}

/// Reads metadata from a text: a key, an equals sign and a value on each line;
/// other lines, and those that start with `#`, are passed over.
pub fn load_simple_meta(content: &str) -> (r: Vec<(String, String)>)
    ensures
        text::pair_views(r@) == meta_in(text::rows(content@)),
{
    let lines = text::lines(content);
    let ghost all = text::views(lines@);
    let mut out: Vec<(String, String)> = Vec::new();
    let mut i: usize = 0;
    assert(all.take(0) =~= Seq::empty());
    assert(text::pair_views(out@) =~= Seq::empty());
    while i < lines.len()
        invariant
            i <= lines@.len(),
            all == text::views(lines@),
            text::pair_views(out@) == meta_in(all.take(i as int)),
        decreases lines@.len() - i,
    {
        assert(all.take(i + 1).drop_last() =~= all.take(i as int));
        assert(all.take(i + 1).last() == lines@[i as int]@);
        if let Some(p) = meta_line_of(lines[i].as_str()) {
            let ghost before = text::pair_views(out@);
            let ghost v = text::pair_view(p);
            out.push(p);
            assert(text::pair_views(out@) =~= before.push(v));
        }
        i = i + 1;
    }
    assert(all.take(all.len() as int) =~= all);
    out
}

// ---------------------------------------------------------------------------
// Showing signed data
// ---------------------------------------------------------------------------

/// A row, filled up with equals signs to 64 bytes.
pub open spec fn row(chunk: Seq<u8>) -> Seq<char> {
    let s = text::lossy(chunk);
    let n = vstd::utf8::encode_utf8(s).len();
    if n < 64 {
        s + Seq::new((64 - n) as nat, |i: int| '=')
    } else {
        s
    }
}

/// The rows of bytes, 64 each, with a line feed behind each row.
pub open spec fn wrapped_rows(b: Seq<u8>) -> Seq<char>
    decreases b.len(),
{
    if b.len() == 0 {
        Seq::empty()
    } else if b.len() <= 64 {
        row(b) + "\n"@
    } else {
        row(b.take(64)) + "\n"@ + wrapped_rows(b.skip(64))
    }
}

/// Signed data as it is shown: its rows between two lines that mark them.
pub open spec fn wrapped(b: Seq<u8>) -> Seq<char> {
    "#### Start of rsg data #########################################\n"@ + wrapped_rows(
        vstd::utf8::encode_utf8(text::lossy(b)),
    ) + "########################################### End of rsg data ####"@
}

fn make_row(chunk: &[u8]) -> (r: String)
    ensures
        r@ == row(chunk@),
{
    let mut s = text::from_utf8_lossy(chunk);
    let ghost t = s@;
    let n: usize = text::utf8(s.as_str()).len();
    let mut k: usize = n;
    assert(t + Seq::new(0, |i: int| '=') =~= t);
    while k < 64
        invariant
            n <= k,
            k <= 64 || k == n,
            s@ =~= t + Seq::new((k - n) as nat, |i: int| '='),
        decreases 64 - k,
    {
        s.push('=');
        k = k + 1;
    }
    s
}

/// Signed data as it is shown.
pub fn wrap_rsg(b: &[u8]) -> (r: String)
    ensures
        r@ == wrapped(b@),
{
    let t = text::from_utf8_lossy(b);
    let data = text::utf8(t.as_str());
    let n: usize = data.len();
    let ghost head = "#### Start of rsg data #########################################\n"@;
    let ghost all = wrapped_rows(data@);
    let mut out = "#### Start of rsg data #########################################\n".to_owned();
    let mut from: usize = 0;
    assert(data@.skip(0) =~= data@);
    assert(head + all =~= out@ + wrapped_rows(data@.skip(0)));
    while from < n
        invariant
            from <= n == data@.len(),
            head + all == out@ + wrapped_rows(data@.skip(from as int)),
        decreases n - from,
    {
        let ghost rest = data@.skip(from as int);
        let to: usize = if n - from <= 64 {
            n
        } else {
            from + 64
        };
        let chunk = bytes::cut(data.as_slice(), from, to);
        let line = make_row(chunk.as_slice());
        let ghost before = out@;
        out.append(line.as_str());
        out.append("\n");
        proof {
            if n - from <= 64 {
                assert(chunk@ =~= rest);
                assert(data@.skip(to as int) =~= Seq::empty());
                assert(wrapped_rows(data@.skip(to as int)) =~= Seq::empty());
                assert(out@ + wrapped_rows(data@.skip(to as int)) =~= before + wrapped_rows(rest));
            } else {
                assert(chunk@ =~= rest.take(64));
                assert(rest.skip(64) =~= data@.skip(to as int));
                assert(out@ + wrapped_rows(data@.skip(to as int)) =~= before + wrapped_rows(rest));
            }
        }
        from = to;
    }
    assert(data@.skip(n as int) =~= Seq::empty());
    assert(out@ =~= head + all);
    out.append("########################################### End of rsg data ####");
    out
}

// ---------------------------------------------------------------------------
// Validating
// ---------------------------------------------------------------------------

/// What there is to validate: a message that is signed data itself, or a file
/// with its signature beside it.
#[derive(Debug)]
pub enum Target {
    Message,
    File(String, String),
}

/// What there is to validate, over sequences.
pub enum TargetView {
    Message,
    File(Seq<char>, Seq<char>),
}

impl View for Target {
    type V = TargetView;

    open spec fn view(&self) -> TargetView {
        match self {
            Target::Message => TargetView::Message,
            Target::File(s, f) => TargetView::File(s@, f@),
        }
    }
}

/// What a path means for validating: the signature and the file, by its ending,
/// whose case does not matter.
pub open spec fn target_of(path: Seq<char>) -> TargetView {
    let low = text::lowercase(path);
    if text::ends(low, ".rsm"@) {
        TargetView::Message
    } else if text::ends(low, ".rsg"@) && path.len() >= 4 {
        TargetView::File(path, path.take(path.len() - 4))
    } else {
        TargetView::File(signature_path(path), path)
    }
}

/// What a path means for validating.
pub fn validation_target(path: &str) -> (r: Target)
    ensures
        r@ == target_of(path@),
{
    let low = text::to_lowercase(path);
    if text::ends_with(low.as_str(), ".rsm") {
        return Target::Message;
    }
    let v = text::chars(path);
    let n: usize = v.len();
    if text::ends_with(low.as_str(), ".rsg") && n >= 4 {
        let file = text::string(v.as_slice(), 0, n - 4);
        assert(file@ =~= path@.take(path@.len() - 4));
        return Target::File(path.to_owned(), file);
    }
    Target::File(signature_file(path), path.to_owned())
}

/// Checks that a file and its signature are there.
pub fn check_validate(file: &str, file_there: bool, signature_there: bool) -> (r: Result<(), Failure>)
    ensures
        unit_outcome(r) == (if !file_there {
            Err::<(), _>((R_NO_FILE, "The validation target \""@ + file@ + "\" does not exist"@))
        } else if !signature_there {
            Err((R_NO_FILE, "No signature file exists for \""@ + file@ + "\""@))
        } else {
            Ok(())
        }),
{
    if !file_there {
        return Err(
            failure_about(R_NO_FILE, "The validation target \"", file, "\" does not exist"),
        );
    }
    if !signature_there {
        return Err(failure_about(R_NO_FILE, "No signature file exists for \"", file, "\""));
    }
    Ok(())
}

/// Who did not sign, where that was asked for.
pub open spec fn not_signed_by(what: Seq<char>, w: Option<keys::Working>) -> Seq<char> {
    match w {
        Some(w) => what + keys::shown(w),
        None => Seq::empty(),
    }
}

fn not_signed_text(what: &str, w: Option<&WorkingIdentity>) -> (r: String)
    requires
        w matches Some(x) ==> keys::proper(x@),
    ensures
        r@ == not_signed_by(what@, identity_tool::working_view(w)),
{
    match w {
        Some(x) => text::cat(what, x.text().as_str()),
        None => {
            let r = String::new();
            assert(r@ =~= Seq::empty());
            r
        },
    }
}

/// The hash of the identity that is asked for.
pub open spec fn required_hash(w: Option<keys::Working>) -> Option<Seq<u8>> {
    match w {
        Some(w) => Some(keys::hash_of(w)),
        None => None,
    }
}

/// What is said of the signature of a file: by whom it was signed, or why that is
/// not so. A plain signature needs the identity that it is asked of.
pub open spec fn file_verdict(
    sig: Seq<u8>,
    data: Seq<u8>,
    sig_path: Seq<char>,
    file: Seq<char>,
    w: Option<keys::Working>,
) -> Result<Seq<char>, (i32, Seq<char>)> {
    let good = "Signature is valid, the file "@ + file + " was signed by "@;
    let bad = "Invalid signature "@ + sig_path + " for file "@ + file;
    if sig.len() == 64 {
        match w {
            None => Err(
                (
                    R_NO_IDENTITY,
                    "Cannot validate legacy rsg signatures without an explicit required identity"@,
                ),
            ),
            Some(x) => if keys::verifies(keys::public_part(x), data, sig) {
                Ok(good + keys::shown(x))
            } else {
                Err(
                    (
                        R_INVALID_SIGNATURE,
                        bad + not_signed_by("\nThis file was NOT signed by "@, w),
                    ),
                )
            },
        }
    } else {
        match rsg::verdict(sig, data, required_hash(w)) {
            Err(_) => Err(rsg::invalid()),
            Ok((true, Some(k))) => Ok(good + rpc::shown(keys::identity_digest(k))),
            Ok(_) => Err(
                (
                    R_INVALID_SIGNATURE,
                    bad + not_signed_by("\nThis file was NOT signed by "@, w),
                ),
            ),
        }
    }
}

fn bad_signature(sig_path: &str, file: &str, w: Option<&WorkingIdentity>) -> (r: Failure)
    requires
        w matches Some(x) ==> keys::proper(x@),
    ensures
        r@ == (
            R_INVALID_SIGNATURE,
            "Invalid signature "@ + sig_path@ + " for file "@ + file@ + not_signed_by(
                "\nThis file was NOT signed by "@,
                identity_tool::working_view(w),
            ),
        ),
{
    let by = not_signed_text("\nThis file was NOT signed by ", w);
    let mut t = text::cat3("Invalid signature ", sig_path, " for file ");
    t.append(file);
    t.append(by.as_str());
    Failure { code: R_INVALID_SIGNATURE, message: t }
}

/// Validates the signature of a file.
pub fn validate_file(
    sig: &[u8],
    data: &[u8],
    sig_path: &str,
    file: &str,
    w: Option<&WorkingIdentity>,
) -> (r: Result<String, Failure>)
    requires
        w matches Some(x) ==> keys::proper(x@),
    ensures
        text_outcome(r) == file_verdict(
            sig@,
            data@,
            sig_path@,
            file@,
            identity_tool::working_view(w),
        ),
        forall|private: Seq<u8>, embed: bool, meta: Seq<(Seq<char>, Seq<char>)>|
            sig@ == #[trigger] rsg::rsg(private, data@, embed, meta) && private.len() == 64
                && keys::public_of(private).len() == 64 && keys::signature(
                private,
                rsg::envelope(private, data@, embed, meta),
            ).len() == 64 && rsg::envelope(private, data@, embed, meta).len() > 0
                && msgpack::plain(
                rsg::signed_data(keys::public_of(private), data@, embed, meta),
                8,
            ) && (w matches Some(x) ==> keys::public_part(x@) == keys::public_of(private)) ==> r is Ok,
{
    let good = text::cat3("Signature is valid, the file ", file, " was signed by ");
    if sig.len() == 64 {
        return match w {
            None => Err(
                failure(
                    R_NO_IDENTITY,
                    "Cannot validate legacy rsg signatures without an explicit required identity",
                ),
            ),
            Some(x) => {
                let p = x.public_key_bytes();
                if keys::verify(p.as_slice(), data, sig) {
                    Ok(text::cat(good.as_str(), x.text().as_str()))
                } else {
                    Err(bad_signature(sig_path, file, w))
                }
            },
        };
    }
    let verdict = match w {
        Some(x) => {
            let h = x.identity_hash();
            rsg::validate_rsg(sig, data, Some(h.as_slice()))
        },
        None => rsg::validate_rsg(sig, data, None),
    };
    match verdict {
        Err((code, message)) => Err(Failure { code, message }),
        Ok((true, Some(k))) => {
            let h = hash::truncated(k.as_slice());
            Ok(text::cat(good.as_str(), rpc::pretty_hex(h.as_slice()).as_str()))
        },
        Ok(_) => Err(bad_signature(sig_path, file, w)),
    }
}

/// A line of output: a text, and a value whose own notation follows it.
#[derive(Debug)]
pub struct OutLine {
    pub text: String,
    pub value: Option<MsgValue>,
}

/// A line of output over sequences.
pub struct LineView {
    pub text: Seq<char>,
    pub value: Option<Msg>,
}

impl View for OutLine {
    type V = LineView;

    open spec fn view(&self) -> LineView {
        LineView { text: self.text@, value: crate::fields::value_view(self.value) }
    }
}

/// Lines of output over sequences.
pub open spec fn line_views(v: Seq<OutLine>) -> Seq<LineView> {
    Seq::new(v.len(), |i: int| v[i]@)
}

/// A line of text.
pub open spec fn plain_line(t: Seq<char>) -> LineView {
    LineView { text: t, value: None }
}

fn push_line(out: &mut Vec<OutLine>, t: String)
    ensures
        line_views(final(out)@) == line_views(old(out)@).push(plain_line(t@)),
{
    let ghost o = line_views(out@);
    out.push(OutLine { text: t, value: None });
    assert(line_views(out@) =~= o.push(plain_line(t@)));
}

fn push_value_line(out: &mut Vec<OutLine>, t: String, v: MsgValue)
    ensures
        line_views(final(out)@) == line_views(old(out)@).push(
            LineView { text: t@, value: Some(v@) },
        ),
{
    let ghost o = line_views(out@);
    out.push(OutLine { text: t, value: Some(v) });
    assert(line_views(out@) =~= o.push(LineView { text: t@, value: Some(v@) }));
}

/// The key of metadata as it is shown.
pub open spec fn key_shown(key: Msg) -> Seq<char> {
    match key {
        Msg::Text(s) => s,
        _ => "<decode-error>"@,
    }
}

/// The lines that show an entry of metadata: a letter for its kind, its key, and
/// its value; for a map, its entries, two blanks farther in.
pub open spec fn meta_lines(key: Msg, value: Msg, indent: Seq<char>) -> Seq<LineView>
    decreases value, 1nat, 0nat,
{
    let k = indent + key_shown(key);
    match value {
        Msg::Pairs(p) => {
            proof {
                assert(decreases_to!(value => value->Pairs_0));
            }
            seq![plain_line("d"@ + k + ":"@)] + meta_map_lines(p, indent + "  "@)
        },
        Msg::Binary(b) => seq![plain_line("b"@ + k + "="@ + digits::hex_text(b))],
        Msg::Text(s) => seq![plain_line("s"@ + k + "="@ + s)],
        Msg::RawText(_) => seq![plain_line("s"@ + k + "=<decode-error>"@)],
        Msg::Integer(n) => seq![plain_line("i"@ + k + "="@ + digits::signed_dec(n))],
        Msg::Single(_) => seq![LineView { text: "f"@ + k + "="@, value: Some(value) }],
        Msg::Double(_) => seq![LineView { text: "f"@ + k + "="@, value: Some(value) }],
        Msg::Nil => seq![plain_line("N"@ + k + "=None"@)],
        Msg::Array(_) => seq![LineView { text: "l"@ + k + "="@, value: Some(value) }],
        _ => seq![LineView { text: "u"@ + k + "="@, value: Some(value) }],
    }
}

/// The lines that show the entries of metadata.
pub open spec fn meta_map_lines(p: Seq<(Msg, Msg)>, indent: Seq<char>) -> Seq<LineView>
    decreases p, 0nat, p.len(),
{
    if p.len() == 0 {
        Seq::empty()
    } else {
        proof {
            let e = p.last();
            assert(decreases_to!(p => p[p.len() - 1]));
            assert(decreases_to!(e => e.1));
        }
        meta_map_lines(p.drop_last(), indent) + meta_lines(p.last().0, p.last().1, indent)
    }
}

fn show_key(key: &MsgValue) -> (r: String)
    ensures
        r@ == key_shown(key@),
{
    match key {
        MsgValue::Text(s) => s.clone(),
        _ => "<decode-error>".to_owned(),
    }
}

/// Adds the lines that show an entry of metadata.
pub fn print_meta_entry(out: &mut Vec<OutLine>, key: &MsgValue, value: &MsgValue, indent: &str)
    ensures
        line_views(final(out)@) == line_views(old(out)@) + meta_lines(key@, value@, indent@),
    decreases value@,
{
    let ghost o = line_views(out@);
    let name = show_key(key);
    let k = text::cat(indent, name.as_str());
    match value {
        MsgValue::Pairs(p) => {
            let ghost all = msgpack::pair_models(p@);
            assert(value@->Pairs_0 =~= all);
            push_line(out, text::cat3("d", k.as_str(), ":"));
            let ghost head = line_views(out@);
            let inner = text::cat(indent, "  ");
            let mut j: usize = 0;
            assert(all.take(0) =~= Seq::empty());
            assert(head + meta_map_lines(all.take(0), inner@) =~= head);
            while j < p.len()
                invariant
                    j <= p@.len(),
                    all == msgpack::pair_models(p@),
                    value@ == Msg::Pairs(all),
                    line_views(out@) == head + meta_map_lines(all.take(j as int), inner@),
                decreases p@.len() - j,
            {
                proof {
                    assert(all.take(j + 1).drop_last() =~= all.take(j as int));
                    assert(all.take(j + 1).last() == (p@[j as int].0@, p@[j as int].1@));
                    let e = value@->Pairs_0[j as int];
                    assert(decreases_to!(value@ => value@->Pairs_0[j as int]));
                    assert(decreases_to!(e => e.1));
                }
                print_meta_entry(out, &p[j].0, &p[j].1, inner.as_str());
                assert(line_views(out@) =~= head + meta_map_lines(all.take(j + 1), inner@));
                j = j + 1;
            }
            assert(all.take(all.len() as int) =~= all);
        },
        MsgValue::Binary(b) => {
            let h = digits::hex_encode(b.as_slice());
            let mut t = text::cat3("b", k.as_str(), "=");
            t.append(h.as_str());
            push_line(out, t);
        },
        MsgValue::Text(s) => {
            let mut t = text::cat3("s", k.as_str(), "=");
            t.append(s.as_str());
            push_line(out, t);
        },
        MsgValue::RawText(_) => {
            push_line(out, text::cat3("s", k.as_str(), "=<decode-error>"));
        },
        MsgValue::UInt(n) => {
            let d = digits::decimal(*n);
            let mut t = text::cat3("i", k.as_str(), "=");
            t.append(d.as_str());
            push_line(out, t);
        },
        MsgValue::NegInt(n) => {
            let d = digits::signed_decimal(*n);
            let mut t = text::cat3("i", k.as_str(), "=");
            t.append(d.as_str());
            push_line(out, t);
        },
        MsgValue::Single(_) => {
            push_value_line(out, text::cat3("f", k.as_str(), "="), value.copy());
        },
        MsgValue::Double(_) => {
            push_value_line(out, text::cat3("f", k.as_str(), "="), value.copy());
        },
        MsgValue::Nil => {
            push_line(out, text::cat3("N", k.as_str(), "=None"));
        },
        MsgValue::Array(_) => {
            push_value_line(out, text::cat3("l", k.as_str(), "="), value.copy());
        },
        _ => {
            push_value_line(out, text::cat3("u", k.as_str(), "="), value.copy());
        },
    }
    assert(line_views(out@) =~= o + meta_lines(key@, value@, indent@));
}

/// What is said of a signed message: by whom it was signed, with its metadata
/// where that is wanted, and the message.
pub open spec fn message_lines(m: Msg, message: Seq<u8>, public: Seq<u8>, meta: bool) -> Seq<LineView> {
    let by = rpc::shown(keys::identity_digest(public));
    let words = plain_line(text::lossy(message));
    if meta {
        let entries = match m {
            Msg::Pairs(p) => match msgpack::lookup(p, "meta"@) {
                Some(Msg::Pairs(q)) => meta_map_lines(q, "  "@),
                _ => Seq::empty(),
            },
            _ => Seq::empty(),
        };
        seq![plain_line("RSM Metadata\n============\n"@)] + entries + seq![
            plain_line("\nValidation\n=========="@),
            plain_line("\nSignature is valid, the message was signed by "@ + by + "\n"@),
            plain_line("Message\n=======\n"@),
            words,
        ]
    } else {
        seq![
            plain_line(
                "\nSignature is valid, the following message was signed by "@ + by + ":\n"@,
            ),
            words,
        ]
    }
}

/// What is said of signed data that holds its message, or why it is not valid.
pub open spec fn message_verdict(
    b: Seq<u8>,
    path: Seq<char>,
    w: Option<keys::Working>,
    meta: bool,
) -> Result<Seq<LineView>, (i32, Seq<char>)> {
    match rsg::envelope_in(b) {
        Err(_) => Err(rsg::invalid()),
        Ok(m) => match rsg::embedded(m) {
            None => Err((R_INVALID_SIGNATURE, "No embedded message in "@ + path)),
            Some(message) => match rsg::verdict(b, message, required_hash(w)) {
                Err(_) => Err(rsg::invalid()),
                Ok((true, Some(k))) => Ok(message_lines(m, message, k, meta)),
                Ok(_) => Err(
                    (
                        R_INVALID_SIGNATURE,
                        "Invalid signature in "@ + path + not_signed_by(
                            "\nThe message was NOT signed by "@,
                            w,
                        ),
                    ),
                ),
            },
        },
    }
}

fn make_message_lines(v: &MsgValue, message: &[u8], public: &[u8], meta: bool) -> (r: Vec<OutLine>)
    ensures
        line_views(r@) == message_lines(v@, message@, public@, meta),
{
    let h = hash::truncated(public);
    let by = rpc::pretty_hex(h.as_slice());
    let mut out: Vec<OutLine> = Vec::new();
    assert(line_views(out@) =~= Seq::empty());
    if meta {
        push_line(&mut out, "RSM Metadata\n============\n".to_owned());
        let ghost head = line_views(out@);
        let ghost mut entries: Seq<LineView> = Seq::empty();
        if let Some(p) = v.as_map() {
            if let Some(x) = msgpack::get(p, "meta") {
                if let Some(q) = x.as_map() {
                    let ghost all = msgpack::pair_models(q@);
                    let mut j: usize = 0;
                    assert(all.take(0) =~= Seq::empty());
                    assert(head + meta_map_lines(all.take(0), "  "@) =~= head);
                    while j < q.len()
                        invariant
                            j <= q@.len(),
                            all == msgpack::pair_models(q@),
                            line_views(out@) == head + meta_map_lines(all.take(j as int), "  "@),
                        decreases q@.len() - j,
                    {
                        assert(all.take(j + 1).drop_last() =~= all.take(j as int));
                        assert(all.take(j + 1).last() == (q@[j as int].0@, q@[j as int].1@));
                        print_meta_entry(&mut out, &q[j].0, &q[j].1, "  ");
                        assert(line_views(out@) =~= head + meta_map_lines(all.take(j + 1), "  "@));
                        j = j + 1;
                    }
                    assert(all.take(all.len() as int) =~= all);
                    proof {
                        entries = meta_map_lines(all, "  "@);
                    }
                }
            }
        }
        assert(line_views(out@) =~= head + entries);
        push_line(&mut out, "\nValidation\n==========".to_owned());
        push_line(
            &mut out,
            text::cat3("\nSignature is valid, the message was signed by ", by.as_str(), "\n"),
        );
        push_line(&mut out, "Message\n=======\n".to_owned());
    } else {
        push_line(
            &mut out,
            text::cat3(
                "\nSignature is valid, the following message was signed by ",
                by.as_str(),
                ":\n",
            ),
        );
    }
    push_line(&mut out, text::from_utf8_lossy(message));
    assert(line_views(out@) =~= message_lines(v@, message@, public@, meta));
    out
}

/// Validates signed data that holds its message.
pub fn validate_message(b: &[u8], path: &str, w: Option<&WorkingIdentity>, meta: bool) -> (r: Result<
    Vec<OutLine>,
    Failure,
>)
    requires
        w matches Some(x) ==> keys::proper(x@),
    ensures
        match r {
            Ok(v) => message_verdict(b@, path@, identity_tool::working_view(w), meta) == Ok::<
                _,
                (i32, Seq<char>),
            >(line_views(v@)),
            Err(e) => message_verdict(b@, path@, identity_tool::working_view(w), meta) == Err::<
                Seq<LineView>,
                _,
            >(e@),
        },
        forall|private: Seq<u8>, message: Seq<u8>, entries: Seq<(Seq<char>, Seq<char>)>|
            b@ == #[trigger] rsg::rsg(private, message, true, entries) && private.len() == 64
                && keys::public_of(private).len() == 64 && keys::signature(
                private,
                rsg::envelope(private, message, true, entries),
            ).len() == 64 && rsg::envelope(private, message, true, entries).len() > 0
                && msgpack::plain(
                rsg::signed_data(keys::public_of(private), message, true, entries),
                8,
            ) && (w matches Some(x) ==> keys::public_part(x@) == keys::public_of(private)) ==> r is Ok,
{
    proof {
        assert forall|private: Seq<u8>, message: Seq<u8>, entries: Seq<(Seq<char>, Seq<char>)>|
            b@ == #[trigger] rsg::rsg(private, message, true, entries) && keys::signature(
                private,
                rsg::envelope(private, message, true, entries),
            ).len() == 64 implies b@.skip(64) == rsg::envelope(private, message, true, entries)
            && rsg::embedded(rsg::signed_data(keys::public_of(private), message, true, entries))
            == Some(message) by {
            let e = rsg::envelope(private, message, true, entries);
            assert((keys::signature(private, e) + e).skip(64) =~= e);
            rsg::law_embedded_message_is_found(keys::public_of(private), message, entries);
        }
    }
    let v = match rsg::parse_rsg_envelope(b) {
        Ok(v) => v,
        Err((code, message)) => {
            return Err(Failure { code, message });
        },
    };
    let message = match rsg::embedded_message(&v) {
        Some(m) => m,
        None => {
            return Err(
                Failure {
                    code: R_INVALID_SIGNATURE,
                    message: text::cat("No embedded message in ", path),
                },
            );
        },
    };
    let verdict = match w {
        Some(x) => {
            let h = x.identity_hash();
            rsg::validate_rsg(b, message.as_slice(), Some(h.as_slice()))
        },
        None => rsg::validate_rsg(b, message.as_slice(), None),
    };
    match verdict {
        Err((code, message)) => Err(Failure { code, message }),
        Ok((true, Some(k))) => Ok(make_message_lines(&v, message.as_slice(), k.as_slice(), meta)),
        Ok(_) => {
            let by = not_signed_text("\nThe message was NOT signed by ", w);
            Err(failure_about(R_INVALID_SIGNATURE, "Invalid signature in ", path, by.as_str()))
        },
    }
}

/// Signed data that can be read and verified: its envelope says what was put into it,
/// and the public keys of the signer accept its signature.
pub open spec fn sound(
    private: Seq<u8>,
    message: Seq<u8>,
    embed: bool,
    meta: Seq<(Seq<char>, Seq<char>)>,
) -> bool {
    let public = keys::public_of(private);
    let e = rsg::envelope(private, message, embed, meta);
    &&& public.len() == 64
    &&& keys::is_identity(public)
    &&& e.len() > 0
    &&& keys::signature(private, e).len() == 64
    &&& keys::verifies(public, e, keys::signature(private, e))
    &&& msgpack::msgpack_read(e) == Ok::<_, Seq<char>>(
        rsg::signed_data(public, message, embed, meta),
    )
}

proof fn lemma_sound_verdict(
    private: Seq<u8>,
    message: Seq<u8>,
    embed: bool,
    meta: Seq<(Seq<char>, Seq<char>)>,
)
    requires
        sound(private, message, embed, meta),
    ensures
        ({
            let b = rsg::rsg(private, message, embed, meta);
            let public = keys::public_of(private);
            &&& b.len() > 64
            &&& rsg::envelope_in(b) == Ok::<_, ()>(rsg::signed_data(public, message, embed, meta))
            &&& forall|required: Option<Seq<u8>>|
                #![trigger rsg::verdict(b, message, required)]
                rsg::verdict(b, message, required) == Ok::<_, ()>(
                    (
                        required is None || required->0 == hash::sha256(public).take(16),
                        Some(public),
                    ),
                )
        }),
{
    let public = keys::public_of(private);
    let e = rsg::envelope(private, message, embed, meta);
    let sig = keys::signature(private, e);
    rsg::lemma_own_data(public, message, embed, meta);
    assert((sig + e).take(64) =~= sig);
    assert((sig + e).skip(64) =~= e);
}

/// A signature that was made of the data of a file with private keys is valid for the
/// same data where no identity is asked for, and where the identity with the public
/// keys to them is; it is not valid where an identity with another hash is asked for.
pub proof fn law_signed_file_is_validated(
    private: Seq<u8>,
    data: Seq<u8>,
    embed: bool,
    meta: Seq<(Seq<char>, Seq<char>)>,
    sig_path: Seq<char>,
    file: Seq<char>,
    w: keys::Working,
)
    requires
        sound(private, data, embed, meta),
    ensures
        ({
            let sig = rsg::rsg(private, data, embed, meta);
            let public = keys::public_of(private);
            let good = Ok::<_, (i32, Seq<char>)>(
                "Signature is valid, the file "@ + file + " was signed by "@ + rpc::shown(
                    hash::sha256(public).take(16),
                ),
            );
            let theirs = match w {
                keys::Working::Private(k) => keys::public_of(k),
                keys::Working::Public(k) => k,
            };
            &&& file_verdict(sig, data, sig_path, file, None) == good
            &&& theirs == public ==> file_verdict(sig, data, sig_path, file, Some(w)) == good
            &&& hash::sha256(theirs).take(16) != hash::sha256(public).take(16) ==> file_verdict(
                sig,
                data,
                sig_path,
                file,
                Some(w),
            ) is Err
        }),
{
    lemma_sound_verdict(private, data, embed, meta);
    let sig = rsg::rsg(private, data, embed, meta);
    assert(rsg::verdict(sig, data, None) == Ok::<_, ()>((true, Some(keys::public_of(private)))));
    assert(rsg::verdict(sig, data, Some(keys::hash_of(w))) is Ok);
}

/// A signature that was made of other data is not valid, whoever is asked for, where
/// the digests differ.
pub proof fn law_changed_file_is_not_validated(
    private: Seq<u8>,
    data: Seq<u8>,
    other: Seq<u8>,
    embed: bool,
    meta: Seq<(Seq<char>, Seq<char>)>,
    sig_path: Seq<char>,
    file: Seq<char>,
    w: Option<keys::Working>,
)
    requires
        sound(private, data, embed, meta),
        hash::sha256(data) != hash::sha256(other),
    ensures
        file_verdict(rsg::rsg(private, data, embed, meta), other, sig_path, file, w) is Err,
{
    lemma_sound_verdict(private, data, embed, meta);
    let e = rsg::envelope(private, data, embed, meta);
    rsg::law_other_message_is_not_valid(
        keys::public_of(private),
        rsg::rsg(private, data, embed, meta).skip(64),
        rsg::rsg(private, data, embed, meta).take(64),
        data,
        other,
        embed,
        meta,
        required_hash(w),
    );
}

/// A file is said to be signed only where the public keys that the signed data names
/// are those of an identity and accept the signature, the data has the digest that was
/// signed, and, where an identity is asked for, it has the hash of these keys.
pub proof fn law_validated_file_was_signed(
    sig: Seq<u8>,
    data: Seq<u8>,
    sig_path: Seq<char>,
    file: Seq<char>,
    w: Option<keys::Working>,
) -> (public: Seq<u8>)
    requires
        sig.len() != 64,
        file_verdict(sig, data, sig_path, file, w) is Ok,
    ensures
        sig.len() > 64,
        keys::is_identity(public),
        keys::verifies(public, sig.skip(64), sig.take(64)),
        w matches Some(x) ==> hash::sha256(public).take(16) == hash::sha256(
            match x {
                keys::Working::Private(k) => keys::public_of(k),
                keys::Working::Public(k) => k,
            },
        ).take(16),
        msgpack::msgpack_read(sig.skip(64)) is Ok,
        msgpack::msgpack_read(sig.skip(64))->Ok_0 is Pairs,
        ({
            let p = msgpack::msgpack_read(sig.skip(64))->Ok_0->Pairs_0;
            let d = msgpack::lookup(p, "hash"@);
            &&& msgpack::lookup(p, "hashtype"@) == Some(Msg::Text("sha256"@))
            &&& d == Some(Msg::Binary(hash::sha256(data))) || (d matches Some(Msg::Text(t))
                && vstd::utf8::encode_utf8(t) == hash::sha256(data))
        }),
{
    (rsg::verdict(sig, data, required_hash(w))->Ok_0.1)->0
}

/// A plain signature is valid exactly where an identity is asked for whose public keys
/// accept it for the data.
pub proof fn law_plain_signature_needs_its_identity(
    sig: Seq<u8>,
    data: Seq<u8>,
    sig_path: Seq<char>,
    file: Seq<char>,
    w: Option<keys::Working>,
)
    requires
        sig.len() == 64,
    ensures
        file_verdict(sig, data, sig_path, file, w) is Ok <==> (w matches Some(x) && keys::verifies(
            match x {
                keys::Working::Private(k) => keys::public_of(k),
                keys::Working::Public(k) => k,
            },
            data,
            sig,
        )),
{
}

/// A message that was signed with private keys is validated, and shown as it was
/// signed, where no identity is asked for and where the identity with the public keys to
/// them is, and refused where an identity with another hash is.
pub proof fn law_signed_message_is_validated(
    private: Seq<u8>,
    message: Seq<u8>,
    meta: Seq<(Seq<char>, Seq<char>)>,
    path: Seq<char>,
    w: keys::Working,
    verbose: bool,
)
    requires
        sound(private, message, true, meta),
    ensures
        ({
            let b = rsg::rsg(private, message, true, meta);
            let public = keys::public_of(private);
            let theirs = match w {
                keys::Working::Private(k) => keys::public_of(k),
                keys::Working::Public(k) => k,
            };
            let plain = message_verdict(b, path, None, verbose);
            &&& plain is Ok
            &&& plain->Ok_0.len() > 0 && plain->Ok_0.last().text == text::lossy(message)
            &&& theirs == public ==> message_verdict(b, path, Some(w), verbose) == plain
            &&& hash::sha256(theirs).take(16) != hash::sha256(public).take(16) ==> message_verdict(
                b,
                path,
                Some(w),
                verbose,
            ) is Err
        }),
{
    lemma_sound_verdict(private, message, true, meta);
    rsg::law_embedded_message_is_found(keys::public_of(private), message, meta);
    let b = rsg::rsg(private, message, true, meta);
    assert(rsg::verdict(b, message, None) == Ok::<_, ()>((true, Some(keys::public_of(private)))));
    assert(rsg::verdict(b, message, Some(keys::hash_of(w))) is Ok);
}

/// Signed data is the signature of an envelope and the envelope, which names the digest
/// of the message, the keys of the signer and their hash, and holds the message where
/// it is to be embedded.
pub proof fn law_signed_data_names_its_message(
    private: Seq<u8>,
    message: Seq<u8>,
    embed: bool,
    meta: Seq<(Seq<char>, Seq<char>)>,
)
    ensures
        ({
            let public = keys::public_of(private);
            let e = rsg::envelope(private, message, embed, meta);
            &&& rsg::rsg(private, message, embed, meta) == keys::signature(private, e) + e
            &&& rsg::signed_data(public, message, embed, meta) is Pairs
            &&& e == msgpack::msgpack(rsg::signed_data(public, message, embed, meta))
            &&& ({
                let p = rsg::signed_data(public, message, embed, meta)->Pairs_0;
                &&& p.len() == if embed {
                    4nat
                } else {
                    3
                }
                &&& p[0] == (Msg::Text("hashtype"@), Msg::Text("sha256"@))
                &&& p[1] == (Msg::Text("hash"@), Msg::Binary(hash::sha256(message)))
                &&& p[2].0 == Msg::Text("meta"@) && p[2].1 is Pairs
                &&& p[2].1->Pairs_0.len() >= 2
                &&& p[2].1->Pairs_0[0] == (
                    Msg::Text("signer"@),
                    Msg::Binary(hash::sha256(public).take(16)),
                )
                &&& p[2].1->Pairs_0[1] == (Msg::Text("pubkey"@), Msg::Binary(public))
                &&& embed ==> p[3] == (Msg::Text("message"@), Msg::Binary(message))
            })
        }),
{
}

/// Metadata that is given with a message, and is not named like what the signed data
/// says itself, is in the signed data.
pub proof fn law_given_metadata_is_signed(
    public: Seq<u8>,
    meta: Seq<(Seq<char>, Seq<char>)>,
    i: int,
)
    requires
        0 <= i < meta.len(),
        meta[i].0 != "signer"@ && meta[i].0 != "pubkey"@,
    ensures
        rsg::meta_entries(public, meta).contains((Msg::Text(meta[i].0), Msg::Text(meta[i].1))),
{
    let x = (Msg::Text(meta[i].0), Msg::Text(meta[i].1));
    lemma_extra_entry(meta, i);
    let j = choose|j: int|
        0 <= j < rsg::extra_entries(meta).len() && rsg::extra_entries(meta)[j] == x;
    assert(rsg::meta_entries(public, meta)[j + 2] == x);
}

proof fn lemma_extra_entry(meta: Seq<(Seq<char>, Seq<char>)>, i: int)
    requires
        0 <= i < meta.len(),
        !rsg::reserved(meta[i].0),
    ensures
        rsg::extra_entries(meta).contains((Msg::Text(meta[i].0), Msg::Text(meta[i].1))),
    decreases meta.len(),
{
    let x = (Msg::Text(meta[i].0), Msg::Text(meta[i].1));
    let before = rsg::extra_entries(meta.drop_last());
    if i == meta.len() - 1 {
        assert(before.push(x)[before.len() as int] == x);
    } else {
        lemma_extra_entry(meta.drop_last(), i);
        let j = choose|j: int| 0 <= j < before.len() && before[j] == x;
        assert(rsg::extra_entries(meta)[j] == x);
    }
}

/// The signature of a file is a plain one where that is asked for, and otherwise signed
/// data without the file in it, for a file as it is and for showing in rows.
pub proof fn law_file_is_signed_as_asked(a: Args, private: Seq<u8>, data: Seq<u8>)
    ensures
        a.raw ==> file_signed(a, private, data) == SignResult::File(keys::signature(private, data)),
        !a.raw && identity_tool::encoding_of(a) == Encoding::Bin ==> file_signed(a, private, data)
            == SignResult::File(rsg::rsg(private, data, false, Seq::empty())),
        !a.raw && identity_tool::encoding_of(a) != Encoding::Bin ==> file_signed(
            a,
            private,
            data,
        ) is Show,
{
}

// ---------------------------------------------------------------------------
// Encrypting and decrypting
// ---------------------------------------------------------------------------

/// The file that an encrypted file is written to: as it is given, or beside the
/// file.
pub open spec fn encrypted_path(path: Seq<char>, write: Option<Seq<char>>) -> Seq<char> {
    match write {
        Some(w) => w,
        None => path + ".rfe"@,
    }
}

/// The file that an encrypted file is written to.
pub fn encrypt_target(path: &str, write: Option<&str>) -> (r: String)
    ensures
        r@ == encrypted_path(path@, gitutil::option_view(write)),
{
    match write {
        Some(w) => w.to_owned(),
        None => text::cat(path, ".rfe"),
    }
}

/// Checks that a file can be encrypted.
pub fn check_encrypt(path: &str, is_file: bool, target: &str, target_exists: bool, force: bool) -> (r:
    Result<(), Failure>)
    ensures
        unit_outcome(r) == (if !is_file {
            Err::<(), _>((R_NO_FILE, "The file \""@ + path@ + "\" does not exist"@))
        } else if target_exists && !force {
            Err(
                (
                    R_FILE_EXISTS,
                    "The encryption output file \""@ + target@
                        + "\" already exists, not overwriting"@,
                ),
            )
        } else {
            Ok(())
        }),
{
    if !is_file {
        return Err(failure_about(R_NO_FILE, "The file \"", path, "\" does not exist"));
    }
    check_overwrite(
        target_exists,
        force,
        "The encryption output file \"",
        target,
        "\" already exists, not overwriting",
    )
}

/// The file that a decrypted file is written to: as it is given, or without the
/// ending that encrypted files have, which it must have either way.
pub open spec fn decrypted_path(
    private: bool,
    given: Seq<char>,
    path: Seq<char>,
    write: Option<Seq<char>>,
) -> Result<Seq<char>, (i32, Seq<char>)> {
    if !private {
        Err(
            (
                R_NO_PRVKEY,
                "Cannot decrypt \""@ + given + "\", the identity does not hold a private key"@,
            ),
        )
    } else if !text::ends(path, ".rfe"@) {
        Err(
            (
                R_INVALID_FILE,
                "The file "@ + path + " does not appear to be a Reticulum encrypted file"@,
            ),
        )
    } else {
        match write {
            Some(w) => Ok(w),
            None => Ok(path.take(path.len() - ".rfe"@.len())),
        }
    }
}

/// The file that a decrypted file is written to. `given` is the path as it is
/// given, `path` as it is meant.
pub fn decrypt_target(private: bool, given: &str, path: &str, write: Option<&str>) -> (r: Result<
    String,
    Failure,
>)
    ensures
        text_outcome(r) == decrypted_path(private, given@, path@, gitutil::option_view(write)),
{
    if !private {
        return Err(
            failure_about(
                R_NO_PRVKEY,
                "Cannot decrypt \"",
                given,
                "\", the identity does not hold a private key",
            ),
        );
    }
    if !text::ends_with(path, ".rfe") {
        return Err(
            failure_about(
                R_INVALID_FILE,
                "The file ",
                path,
                " does not appear to be a Reticulum encrypted file",
            ),
        );
    }
    match write {
        Some(w) => Ok(w.to_owned()),
        None => {
            proof {
                reveal_strlit(".rfe");
            }
            let v = text::chars(path);
            let n: usize = v.len();
            let r = text::string(v.as_slice(), 0, n - 4);
            assert(r@ =~= path@.take(path@.len() - ".rfe"@.len()));
            Ok(r)
        },
    }
}

/// Checks that a file can be decrypted.
pub fn check_decrypt(path: &str, is_file: bool, target: &str, target_exists: bool, force: bool) -> (r:
    Result<(), Failure>)
    ensures
        unit_outcome(r) == (if !is_file {
            Err::<(), _>((R_NO_FILE, "The file \""@ + path@ + "\" does not exist"@))
        } else if target_exists && !force {
            Err(
                (
                    R_FILE_EXISTS,
                    "The decryption output file \""@ + target@
                        + "\" already exists, not overwriting"@,
                ),
            )
        } else {
            Ok(())
        }),
{
    if !is_file {
        return Err(failure_about(R_NO_FILE, "The file \"", path, "\" does not exist"));
    }
    check_overwrite(
        target_exists,
        force,
        "The decryption output file \"",
        target,
        "\" already exists, not overwriting",
    )
}

/// A file that was encrypted beside itself is decrypted to where it was.
pub proof fn law_decrypting_restores_the_path(given: Seq<char>, path: Seq<char>)
    ensures
        decrypted_path(true, given, encrypted_path(path, None), None) == Ok::<_, (i32, Seq<char>)>(
            path,
        ),
{
    let e = encrypted_path(path, None);
    assert(e.skip(e.len() - ".rfe"@.len()) =~= ".rfe"@);
    assert(text::ends(e, ".rfe"@));
    assert(e.take(e.len() - ".rfe"@.len()) =~= path);
}

/// Encrypts a chunk of the file at a path for an identity, with the random numbers of
/// a seed. It fails where the public keys are not those of an identity.
pub fn encrypt_chunk(path: &str, w: &WorkingIdentity, chunk: &[u8], seed: [u8; 32]) -> (r: Result<
    Vec<u8>,
    Failure,
>)
    requires
        keys::proper(w@),
        chunk@.len() <= ENC_CHUNK,
    ensures
        match r {
            Ok(b) => keys::sealed(keys::public_part(w@), chunk@, seed@) == Some(b@),
            Err(e) => !keys::is_identity(keys::public_part(w@)) && e@ == (
                R_UNKNOWN_ERROR,
                "Could not encrypt "@ + path@ + ": CryptoError"@,
            ),
        },
        keys::is_identity(keys::public_part(w@)) ==> r is Ok,
        w@ is Private ==> r is Ok,
{
    let p = w.public_key_bytes();
    let known = keys::check_identity(p.as_slice());
    assert(w@ is Private ==> known);
    match keys::seal(p.as_slice(), chunk, seed) {
        Some(b) => Ok(b),
        None => Err(failure_about(R_UNKNOWN_ERROR, "Could not encrypt ", path, ": CryptoError")),
    }
}

/// Decrypts a chunk of a file with private keys. What was encrypted for their
/// identity comes back as it was.
pub fn decrypt_chunk(private: &Vec<u8>, chunk: &[u8]) -> (r: Result<Vec<u8>, Failure>)
    requires
        private@.len() == 64,
    ensures
        match r {
            Ok(b) => keys::opened(private@, chunk@) == Some(b@),
            Err(e) => keys::opened(private@, chunk@) is None && e@ == (
                R_DECRYPT_FAILED,
                "The provided identity could not decrypt the file"@,
            ),
        },
        forall|data: Seq<u8>, seed: Seq<u8>|
            seed.len() == 32 && #[trigger] keys::sealed(keys::public_of(private@), data, seed)
                == Some(chunk@) ==> r is Ok
                && r->Ok_0@ == data,
{
    match keys::open(private.as_slice(), chunk) {
        Some(b) => Ok(b),
        None => Err(
            failure(R_DECRYPT_FAILED, "The provided identity could not decrypt the file"),
        ),
    }
}

// ---------------------------------------------------------------------------
// Writing an identity
// ---------------------------------------------------------------------------

/// The file that an identity is written to: the path, for private keys, and for
/// public ones with their ending, which is added where it is missing.
pub open spec fn identity_file(export_prv: bool, private: bool, path: Seq<char>) -> Result<
    Seq<char>,
    (i32, Seq<char>),
> {
    if export_prv {
        if private {
            Ok(path)
        } else {
            Err((R_NO_PRVKEY, "Identity doesn't hold a private key, cannot export"@))
        }
    } else if text::ends(text::lowercase(path), ".pub"@) {
        Ok(path)
    } else {
        Ok(path + ".pub"@)
    }
}

/// The file that an identity is written to.
pub fn write_target(export_prv: bool, private: bool, path: &str) -> (r: Result<String, Failure>)
    ensures
        text_outcome(r) == identity_file(export_prv, private, path@),
{
    if export_prv {
        return if private {
            Ok(path.to_owned())
        } else {
            Err(failure(R_NO_PRVKEY, "Identity doesn't hold a private key, cannot export"))
        };
    }
    let low = text::to_lowercase(path);
    if text::ends_with(low.as_str(), ".pub") {
        Ok(path.to_owned())
    } else {
        Ok(text::cat(path, ".pub"))
    }
}

} // verus!
