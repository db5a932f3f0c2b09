//! What the identity tool promises of its command line, of the identity that it works
//! with, and of the files that it reads and writes.

use vstd::prelude::*;

use crate::address;
use crate::codec;
use crate::digits;
use crate::hash;
use crate::identity_files::{self, LineView, MessageOrigin, TargetView};
use crate::identity_store::{self, Intent};
use crate::identity_tool::{self, Args, Origin, PathFacts, Source, Task};
use crate::keys::{self, Working};
use crate::msgpack::Msg;
use crate::rpc;
use crate::rsg::Encoding;
use crate::text;

verus! {

// ---------------------------------------------------------------------------
// What is asked for
// ---------------------------------------------------------------------------

/// Two operations on files do not go together, nor two sources of an identity, nor two
/// encodings; all else does.
pub proof fn law_one_operation_at_a_time(a: Args)
    ensures
        a.encrypt is Some && a.decrypt is Some ==> identity_tool::complaint(a) is Some,
        a.encrypt is Some && a.validate is Some ==> identity_tool::complaint(a) is Some,
        a.encrypt is Some && a.sign is Some ==> identity_tool::complaint(a) is Some,
        a.encrypt is Some && a.sign_message is Some ==> identity_tool::complaint(a) is Some,
        a.decrypt is Some && a.validate is Some ==> identity_tool::complaint(a) is Some,
        a.decrypt is Some && a.sign is Some ==> identity_tool::complaint(a) is Some,
        a.decrypt is Some && a.sign_message is Some ==> identity_tool::complaint(a) is Some,
        a.validate is Some && a.sign is Some ==> identity_tool::complaint(a) is Some,
        a.validate is Some && a.sign_message is Some ==> identity_tool::complaint(a) is Some,
        a.sign is Some && a.sign_message is Some ==> identity_tool::complaint(a) is Some,
        a.import_pub is Some && a.import_prv is Some ==> identity_tool::complaint(a) is Some,
        a.import_pub is Some && a.identity is Some ==> identity_tool::complaint(a) is Some,
        a.import_pub is Some && a.generate is Some ==> identity_tool::complaint(a) is Some,
        a.import_prv is Some && a.identity is Some ==> identity_tool::complaint(a) is Some,
        a.import_prv is Some && a.generate is Some ==> identity_tool::complaint(a) is Some,
        a.identity is Some && a.generate is Some ==> identity_tool::complaint(a) is Some,
        a.base64 && a.base32 ==> identity_tool::complaint(a) is Some,
        a.base64 && a.base256 ==> identity_tool::complaint(a) is Some,
        a.base64 && a.hex ==> identity_tool::complaint(a) is Some,
        a.base32 && a.base256 ==> identity_tool::complaint(a) is Some,
        a.base32 && a.hex ==> identity_tool::complaint(a) is Some,
        a.base256 && a.hex ==> identity_tool::complaint(a) is Some,
        a.decrypt is None && a.validate is None && a.sign is None && a.sign_message is None
            && a.import_prv is None && a.identity is None && a.generate is None && !a.base32
            && !a.base256 && !a.hex ==> identity_tool::complaint(a) is None,
        a.encrypt is None && a.validate is None && a.sign is None && a.sign_message is None
            && a.import_pub is None && a.import_prv is None && a.generate is None && !a.base64
            && !a.base256 && !a.hex ==> identity_tool::complaint(a) is None,
        a.encrypt is None && a.decrypt is None && a.validate is None && a.sign_message is None
            && a.import_pub is None && a.import_prv is None && a.identity is None && !a.base64
            && !a.base32 && !a.base256 ==> identity_tool::complaint(a) is None,
        a.encrypt is None && a.decrypt is None && a.validate is None && a.sign is None
            && a.import_pub is None && a.identity is None && a.generate is None && !a.base64
            && !a.base32 && !a.hex ==> identity_tool::complaint(a) is None,
{
}

/// The command line asks for a task, where neither the identity is printed nor something
/// is announced.
pub open spec fn asks_for(a: Args, t: Task) -> bool {
    match t {
        Task::ExportPublic => a.export_pub,
        Task::ExportPrivate => a.export_prv,
        Task::ShowHash => a.hash is Some,
        Task::Validate => a.validate is Some,
        Task::Sign => a.sign is Some,
        Task::SignMessage => a.sign_message is Some,
        Task::Encrypt => a.encrypt is Some,
        Task::Decrypt => a.decrypt is Some,
        Task::WriteIdentity => a.write is Some,
        _ => false,
    }
}

/// Where neither the identity is printed nor something is announced, a run does all that
/// is asked for and nothing else, but for showing help where nothing is.
pub proof fn law_all_that_is_asked_is_done(a: Args, t: Task)
    requires
        !a.print_identity,
        a.announce is None,
    ensures
        t != Task::ShowHelp ==> identity_tool::tasks(a).contains(t) == asks_for(a, t),
        identity_tool::tasks(a).contains(Task::ShowHelp) ==> a.generate is None && !asks_for(a, t),
{
    lemma_all_tasks(a, t);
    lemma_all_tasks(a, Task::ShowHelp);
    let all = identity_tool::all_tasks(a);
    if all.len() == 0 && a.generate is None {
        let help = identity_tool::tasks(a);
        assert(!all.contains(t));
        assert(help.contains(t) ==> t == Task::ShowHelp);
    }
}

proof fn lemma_all_tasks(a: Args, t: Task)
    ensures
        identity_tool::all_tasks(a).contains(t) == asks_for(a, t),
{
    let s1 = identity_tool::only(a.export_pub, Task::ExportPublic);
    lemma_joined(Seq::empty(), a.export_pub, Task::ExportPublic, t);
    assert(Seq::empty() + s1 =~= s1);
    let s2 = s1 + identity_tool::only(a.export_prv, Task::ExportPrivate);
    lemma_joined(s1, a.export_prv, Task::ExportPrivate, t);
    let s3 = s2 + identity_tool::only(a.hash is Some, Task::ShowHash);
    lemma_joined(s2, a.hash is Some, Task::ShowHash, t);
    let s4 = s3 + identity_tool::only(a.validate is Some, Task::Validate);
    lemma_joined(s3, a.validate is Some, Task::Validate, t);
    let s5 = s4 + identity_tool::only(a.sign is Some, Task::Sign);
    lemma_joined(s4, a.sign is Some, Task::Sign, t);
    let s6 = s5 + identity_tool::only(a.sign_message is Some, Task::SignMessage);
    lemma_joined(s5, a.sign_message is Some, Task::SignMessage, t);
    let s7 = s6 + identity_tool::only(a.encrypt is Some, Task::Encrypt);
    lemma_joined(s6, a.encrypt is Some, Task::Encrypt, t);
    let s8 = s7 + identity_tool::only(a.decrypt is Some, Task::Decrypt);
    lemma_joined(s7, a.decrypt is Some, Task::Decrypt, t);
    lemma_joined(s8, a.write is Some, Task::WriteIdentity, t);
}

proof fn lemma_joined(s: Seq<Task>, asked: bool, t: Task, x: Task)
    ensures
        (s + identity_tool::only(asked, t)).contains(x) == (s.contains(x) || (asked && x == t)),
{
    let r = s + identity_tool::only(asked, t);
    if s.contains(x) {
        let k = choose|k: int| 0 <= k < s.len() && s[k] == x;
        assert(r[k] == x);
    }
    if asked && x == t {
        assert(r[s.len() as int] == x);
    }
    if r.contains(x) {
        let k = choose|k: int| 0 <= k < r.len() && r[k] == x;
        if k < s.len() {
            assert(s[k] == x);
        }
    }
}

/// Printing the identity is all that a run does then; announcing is refused before any
/// file is touched; and a run that is asked for nothing shows help.
pub proof fn law_other_runs_touch_no_file(a: Args, i: int)
    requires
        0 <= i < identity_tool::tasks(a).len(),
    ensures
        a.print_identity ==> identity_tool::tasks(a) == seq![Task::PrintIdentity],
        !a.print_identity && a.announce is Some ==> identity_tool::tasks(a).last()
            == Task::RefuseAnnounce && identity_tool::tasks(a)[i] != Task::Validate
            && identity_tool::tasks(a)[i] != Task::Sign && identity_tool::tasks(a)[i]
            != Task::SignMessage && identity_tool::tasks(a)[i] != Task::Encrypt
            && identity_tool::tasks(a)[i] != Task::Decrypt && identity_tool::tasks(a)[i]
            != Task::WriteIdentity,
{
}

/// Signed data is put out in the encoding that is asked for, and as it is where none is.
pub proof fn law_encoding_is_as_asked(a: Args)
    requires
        identity_tool::complaint(a) is None,
    ensures
        a.base32 ==> identity_tool::encoding_of(a) == Encoding::Base32,
        a.base64 ==> identity_tool::encoding_of(a) == Encoding::Base64,
        a.base256 ==> identity_tool::encoding_of(a) == Encoding::Base256,
        a.hex ==> identity_tool::encoding_of(a) == Encoding::Hex,
        !a.base32 && !a.base64 && !a.base256 && !a.hex ==> identity_tool::encoding_of(a)
            == Encoding::Bin,
{
}

/// Keys that are shown can be imported again in every encoding but base 64 and base
/// 256: they are read as they were, where no file of their size has the name.
pub proof fn law_shown_keys_can_be_imported(a: Args, b: Seq<u8>)
    requires
        b.len() == 64,
        !a.base64,
        !a.base256,
    ensures
        identity_tool::keys_given(identity_tool::key_text(a, b), None, 64) matches Some(k) ==> k.0
            == b,
        identity_tool::keys_given(identity_tool::key_text(a, b), None, 64) is Some,
{
    if a.base32 {
        identity_tool::law_base32_keys_are_read_back(b);
    } else {
        identity_tool::law_hex_keys_are_read_back(b);
    }
}

/// Keys that are shown in base 256 are the bytes that they stand for, and those in base
/// 64 are named by the encoder.
pub proof fn law_shown_keys_can_be_decoded(a: Args, b: Seq<u8>)
    ensures
        a.base64 ==> identity_tool::key_text(a, b) == codec::base64(b),
        !a.base64 && !a.base32 && a.base256 ==> codec::base256_bytes(identity_tool::key_text(a, b))
            == Some(b),
        !a.base64 && a.base32 ==> codec::base32_bytes(identity_tool::key_text(a, b)) == Some(b),
        !a.base64 && !a.base32 && !a.base256 ==> rpc::given(identity_tool::key_text(a, b)) == Some(
            b,
        ),
{
    codec::law_base256_round_trip(b);
    codec::law_base32_round_trip(b);
    rpc::law_hex_is_read_back(b);
}

/// A file of the right size gives the keys, whatever the text would give.
pub proof fn law_key_file_comes_first(input: Seq<char>, file: Seq<u8>)
    ensures
        identity_tool::keys_given(input, Some(file), file.len()) == Some((file, Origin::File)),
{
}

/// Keys that are read have the size that is wanted.
pub proof fn law_keys_have_their_size(input: Seq<char>, file: Option<Seq<u8>>, size: nat)
    ensures
        identity_tool::keys_given(input, file, size) matches Some(k) ==> k.0.len() == size,
{
}

/// `~/` stands for the home directory; other paths are meant as they are written, and so
/// are all where the home directory is not known.
pub proof fn law_home_is_expanded(rest: Seq<char>, path: Seq<char>, home: Seq<char>)
    requires
        home.len() > 0,
        home.last() != '/',
        rest.len() == 0 || rest[0] != '/',
        path.len() < 2 || path[0] != '~' || path[1] != '/',
    ensures
        identity_tool::expanded("~/"@ + rest, Some(home)) == home + "/"@ + rest,
        identity_tool::expanded("~/"@ + rest, None) == "~/"@ + rest,
        identity_tool::expanded(path, Some(home)) == path,
        identity_tool::expanded(path, None) == path,
{
    reveal_strlit("~/");
    let p = "~/"@ + rest;
    assert(p.take(2) =~= "~/"@);
    assert(p.skip(2) =~= rest);
    if path.len() >= 2 {
        assert(path.take(2)[0] == path[0]);
        assert(path.take(2)[1] == path[1]);
        assert("~/"@[0] == '~');
        assert("~/"@[1] == '/');
    }
}

// ---------------------------------------------------------------------------
// Which identity
// ---------------------------------------------------------------------------

/// A new identity is never written over another unless that is forced, and is made
/// wherever nothing is in the way.
pub proof fn law_identities_are_not_overwritten(
    a: Args,
    path: Seq<char>,
    facts: PathFacts,
    allow_none: bool,
)
    ensures
        a.generate is Some && facts.exists && !a.force ==> identity_tool::source_of(
            a,
            path,
            facts,
            allow_none,
        ) is Err,
        a.generate is Some && (!facts.exists || a.force) ==> identity_tool::source_of(
            a,
            path,
            facts,
            allow_none,
        ) == Ok::<Source, (i32, Seq<char>)>(Source::Generate),
        identity_tool::source_of(a, path, facts, allow_none) == Ok::<Source, (i32, Seq<char>)>(
            Source::Generate,
        ) ==> a.generate is Some,
{
}

/// An identity is loaded from the file that is named, and only from a file; keys are
/// imported where they are given and nothing else names an identity.
pub proof fn law_identity_comes_from_where_it_is_named(
    a: Args,
    path: Seq<char>,
    facts: PathFacts,
    allow_none: bool,
)
    requires
        a.generate is None,
    ensures
        a.identity is Some && facts.is_file ==> identity_tool::source_of(
            a,
            path,
            facts,
            allow_none,
        ) == Ok::<Source, (i32, Seq<char>)>(Source::Load),
        identity_tool::source_of(a, path, facts, allow_none) == Ok::<Source, (i32, Seq<char>)>(
            Source::Load,
        ) ==> a.identity is Some && facts.is_file,
        a.identity is None && a.import_pub is Some ==> identity_tool::source_of(
            a,
            path,
            facts,
            allow_none,
        ) == Ok::<Source, (i32, Seq<char>)>(Source::ImportPub),
        a.identity is None && a.import_pub is None && a.import_prv is Some
            ==> identity_tool::source_of(a, path, facts, allow_none) == Ok::<
            Source,
            (i32, Seq<char>),
        >(Source::ImportPrv),
        a.identity is None && a.import_pub is None && a.import_prv is None
            ==> identity_tool::source_of(a, path, facts, allow_none) == Ok::<
            Source,
            (i32, Seq<char>),
        >(Source::Nowhere),
        a.identity is Some && !facts.is_file && a.no_cache && !allow_none
            ==> identity_tool::source_of(a, path, facts, allow_none) is Err,
        a.identity is Some && !facts.is_file && a.no_cache && allow_none
            ==> identity_tool::source_of(a, path, facts, allow_none) == Ok::<
            Source,
            (i32, Seq<char>),
        >(Source::Nowhere),
{
}

/// Everything that works with keys needs an identity; showing a hash and validating do
/// not.
pub proof fn law_keys_need_an_identity(a: Args)
    ensures
        a.sign is Some ==> identity_tool::identity_needed(a),
        a.sign_message is Some ==> identity_tool::identity_needed(a),
        a.encrypt is Some ==> identity_tool::identity_needed(a),
        a.decrypt is Some ==> identity_tool::identity_needed(a),
        a.announce is Some ==> identity_tool::identity_needed(a),
        a.write is Some ==> identity_tool::identity_needed(a),
        a.print_identity ==> identity_tool::identity_needed(a),
        a.export_pub ==> identity_tool::identity_needed(a),
        a.export_prv ==> identity_tool::identity_needed(a),
        a.sign is None && a.sign_message is None && a.encrypt is None && a.decrypt is None
            && a.announce is None && a.write is None && !a.print_identity && !a.export_pub
            && !a.export_prv ==> !identity_tool::identity_needed(a),
{
}

/// An identity is shown by the first sixteen bytes of the digest of its public keys, and
/// its private keys stand in the last line where they are asked for.
pub proof fn law_identity_is_shown(a: Args, private: Seq<u8>, public: Seq<u8>)
    ensures
        identity_tool::identity_lines(a, Working::Public(public)) == seq![
            "Identity Hash : "@ + ("/"@ + digits::hex_text(hash::sha256(public).take(16)) + "/"@),
            "Public Key    : "@ + identity_tool::key_text(a, public),
        ],
        a.print_private ==> identity_tool::identity_lines(a, Working::Private(private)).last()
            == "Private Key   : "@ + identity_tool::key_text(a, private),
        identity_tool::identity_lines(a, Working::Private(private)).take(2)
            == identity_tool::identity_lines(a, Working::Public(keys::public_of(private))),
        identity_tool::identity_lines(a, Working::Private(private)).len() == 3,
{
    assert(identity_tool::identity_lines(a, Working::Private(private)).take(2)
        =~= identity_tool::identity_lines(a, Working::Public(keys::public_of(private))));
}

/// The address of a destination is made of its name up to the first point, what follows
/// that point, and the hash of the identity.
pub proof fn law_destination_has_its_address(
    app: Seq<char>,
    aspects: Seq<char>,
    public: Seq<u8>,
    given: Option<Seq<char>>,
)
    requires
        app.len() > 0,
        !app.contains('.'),
    ensures
        ({
            let name = app + "."@ + aspects;
            let h = hash::sha256(public).take(16);
            let d = "/"@ + digits::hex_text(
                hash::sha256(address::name_digest(app, aspects) + h).take(16),
            ) + "/"@;
            identity_tool::destination_lines(name, Some(Working::Public(public)), given) == Ok::<
                Seq<Seq<char>>,
                (i32, Seq<char>),
            >(
                seq![
                    "The "@ + name + " destination for this Identity is "@ + d,
                    "The full destination specifier is "@ + d,
                ],
            )
        }),
{
    reveal_strlit(".");
    let name = app + "."@ + aspects;
    text::lemma_first_is(name, '.', app.len() as int);
    assert(name.take(app.len() as int) =~= app);
    assert(name.skip(app.len() as int + 1) =~= aspects);
}

/// A name that starts with a point, or is empty, is no destination's.
pub proof fn law_destination_needs_an_application(
    aspects: Seq<char>,
    w: Option<Working>,
    given: Option<Seq<char>>,
)
    requires
        aspects.len() == 0 || aspects[0] == '.',
    ensures
        identity_tool::destination_lines(aspects, w, given) is Err,
{
    if aspects.len() > 0 {
        assert(aspects.take(0) =~= Seq::empty());
    }
}

/// Without an identity, destinations can be asked for by the 32 digits of its hash.
pub proof fn law_hash_can_be_given(b: Seq<u8>)
    requires
        b.len() == 16,
    ensures
        identity_tool::asked_hash(None, Some(digits::hex_text(b))) == Ok::<
            Seq<u8>,
            (i32, Seq<char>),
        >(b),
{
    rpc::law_hex_is_read_back(b);
    rpc::lemma_hex_text(b);
    vstd::utf8::is_ascii_chars_encode_utf8(digits::hex_text(b));
}

/// A tool reads the file that is named and never makes one in its place; its own file is
/// made only where it is missing.
pub proof fn law_named_identity_must_exist(
    given: Seq<char>,
    given_is_file: bool,
    own: Seq<char>,
    own_is_file: bool,
)
    ensures
        identity_store::intent(Some(given), true, own, own_is_file) == Ok::<Intent, Seq<char>>(
            Intent::Read(given),
        ),
        identity_store::intent(Some(given), false, own, own_is_file) is Err,
        identity_store::intent(None, given_is_file, own, true) == Ok::<Intent, Seq<char>>(
            Intent::Read(own),
        ),
        identity_store::intent(None, given_is_file, own, false) == Ok::<Intent, Seq<char>>(
            Intent::Create(own),
        ),
{
}

// ---------------------------------------------------------------------------
// Files
// ---------------------------------------------------------------------------

/// What encrypting a file writes, decrypting reads, and gives the file its name back.
pub proof fn law_decrypting_undoes_the_name(given: Seq<char>, path: Seq<char>)
    ensures
        identity_files::encrypted_path(path, None) == path + ".rfe"@,
        identity_files::decrypted_path(
            true,
            given,
            identity_files::encrypted_path(path, None),
            None,
        ) == Ok::<Seq<char>, (i32, Seq<char>)>(path),
{
    reveal_strlit(".rfe");
    let e = path + ".rfe"@;
    assert(e.skip(e.len() - 4) =~= ".rfe"@);
    assert(e.take(e.len() - 4) =~= path);
}

/// What is written goes where it is asked for; decrypting needs private keys and a file
/// with its ending.
pub proof fn law_output_goes_where_it_is_asked(
    private: bool,
    given: Seq<char>,
    path: Seq<char>,
    write: Seq<char>,
)
    ensures
        identity_files::encrypted_path(path, Some(write)) == write,
        !private ==> identity_files::decrypted_path(private, given, path, Some(write)) is Err
            && identity_files::decrypted_path(private, given, path, None) is Err,
        identity_files::decrypted_path(private, given, path, Some(write)) matches Ok(p) ==> p
            == write,
        (identity_files::decrypted_path(private, given, path, None) is Ok)
            == (identity_files::decrypted_path(private, given, path, Some(write)) is Ok),
        path.len() < 4 || path.last() != 'e' ==> identity_files::decrypted_path(
            private,
            given,
            path,
            None,
        ) is Err,
{
    reveal_strlit(".rfe");
    if path.len() >= 4 {
        assert(path.skip(path.len() - 4)[3] == path.last());
        assert(".rfe"@[3] == 'e');
    }
}

/// A file can be signed just where there are private keys and the file, and no signature
/// stands in the way; one that is shown, or forced, is never in the way.
pub proof fn law_file_can_be_signed(
    a: Args,
    private: bool,
    given: Seq<char>,
    path: Seq<char>,
    is_file: bool,
    signature_exists: bool,
)
    ensures
        !private || !is_file ==> identity_files::sign_check(
            a,
            private,
            given,
            path,
            is_file,
            signature_exists,
        ) is Err,
        private && is_file && (!signature_exists || a.force || a.hex || a.base32 || a.base64
            || a.base256) ==> identity_files::sign_check(
            a,
            private,
            given,
            path,
            is_file,
            signature_exists,
        ) is Ok,
        signature_exists && !a.force && !a.hex && !a.base32 && !a.base64 && !a.base256
            ==> identity_files::sign_check(
            a,
            private,
            given,
            path,
            is_file,
            signature_exists,
        ) is Err,
{
}

/// A message to sign is the one that is given, or the file that is named, and never both
/// or neither.
pub proof fn law_message_is_the_one_given(a: Args, private: bool)
    ensures
        !private ==> identity_files::message_origin(a, private) is Err,
        a.sign_message matches Some(Some(_)) ==> a.read is Some ==> identity_files::message_origin(
            a,
            private,
        ) is Err,
        !(a.sign_message matches Some(Some(_))) && a.read is None
            ==> identity_files::message_origin(a, private) is Err,
        private && a.write is Some && a.read is None ==> (a.sign_message matches Some(Some(m))
            ==> identity_files::message_origin(a, private) == Ok::<
            MessageOrigin,
            (i32, Seq<char>),
        >(MessageOrigin::Given(m@))),
        private && a.write is Some && a.sign_message == Some(None::<String>) ==> (
        a.read matches Some(p) ==> identity_files::message_origin(a, private) == Ok::<
            MessageOrigin,
            (i32, Seq<char>),
        >(MessageOrigin::File(p@))),
        a.write is None && !a.hex && !a.base32 && !a.base64 && !a.base256
            ==> identity_files::message_origin(a, private) is Err,
{
}

/// A file and its signature are found from each other's name: validating either checks
/// the same two files.
pub proof fn law_signature_stands_beside_its_file(path: Seq<char>)
    ensures
        !text::ends(text::lowercase(path), ".rsm"@) && !text::ends(text::lowercase(path), ".rsg"@)
            ==> identity_files::target_of(path) == TargetView::File(path + ".rsg"@, path),
        text::ends(text::lowercase(path + ".rsg"@), ".rsg"@) ==> identity_files::target_of(
            path + ".rsg"@,
        ) == TargetView::File(path + ".rsg"@, path),
{
    reveal_strlit(".rsg");
    reveal_strlit(".rsm");
    let s = path + ".rsg"@;
    let low = text::lowercase(s);
    assert(s.take(s.len() - 4) =~= path);
    if text::ends(low, ".rsg"@) {
        assert(low.skip(low.len() - 4)[3] == ".rsg"@[3]);
    }
    assert(".rsg"@[3] == 'g' && ".rsm"@[3] == 'm');
}

/// A signed message is validated alone.
pub proof fn law_signed_message_stands_alone(path: Seq<char>)
    ensures
        text::ends(text::lowercase(path), ".rsm"@) ==> identity_files::target_of(path)
            == TargetView::Message,
{
}

/// Each line with an equals sign adds one entry of metadata, without the white space
/// around key and value; comments and other lines add nothing.
pub proof fn law_metadata_is_read_by_lines(
    lines: Seq<Seq<char>>,
    key: Seq<char>,
    value: Seq<char>,
    other: Seq<char>,
)
    requires
        key.len() > 0,
        !text::white(key[0]) && key[0] != '#' && !text::white(key.last()),
        !key.contains('='),
        value.len() > 0,
        !text::white(value[0]) && !text::white(value.last()),
        other.len() == 0 || other[0] == '#',
    ensures
        identity_files::meta_in(lines.push(key + "="@ + value)) == identity_files::meta_in(
            lines,
        ).push((key, value)),
        identity_files::meta_in(lines.push(other)) == identity_files::meta_in(lines),
        identity_files::meta_in(Seq::<Seq<char>>::empty()).len() == 0,
{
    reveal_strlit("=");
    let line = key + "="@ + value;
    assert(lines.push(line).drop_last() =~= lines);
    assert(lines.push(other).drop_last() =~= lines);
    assert(line[0] == key[0]);
    assert(line.last() == value.last());
    assert(text::trimmed(line) == line);
    text::lemma_first_is(line, '=', key.len() as int);
    assert(line.take(key.len() as int) =~= key);
    assert(line.skip(key.len() as int + 1) =~= value);
    assert(text::trimmed(key) == key);
    assert(text::trimmed(value) == value);
    if other.len() > 0 {
        assert(!text::white('#'));
        assert(text::trimmed_start(other) == other);
        text::lemma_trimmed_end_keeps_the_front(other);
    }
}

/// An entry of metadata is shown with the letter of its kind, its key and its value, and
/// the entries of a map two blanks farther in.
pub proof fn law_metadata_is_shown_by_kind(
    key: Seq<char>,
    words: Seq<char>,
    b: Seq<u8>,
    n: int,
    p: Seq<(Msg, Msg)>,
    indent: Seq<char>,
)
    ensures
        identity_files::meta_lines(Msg::Text(key), Msg::Text(words), indent) == seq![
            LineView { text: "s"@ + (indent + key) + "="@ + words, value: None },
        ],
        identity_files::meta_lines(Msg::Text(key), Msg::Binary(b), indent) == seq![
            LineView { text: "b"@ + (indent + key) + "="@ + digits::hex_text(b), value: None },
        ],
        identity_files::meta_lines(Msg::Text(key), Msg::Integer(n), indent) == seq![
            LineView { text: "i"@ + (indent + key) + "="@ + digits::signed_dec(n), value: None },
        ],
        identity_files::meta_lines(Msg::Text(key), Msg::Pairs(p), indent) == seq![
            LineView { text: "d"@ + (indent + key) + ":"@, value: None },
        ] + identity_files::meta_map_lines(p, indent + "  "@),
{
}

/// Every entry of metadata is shown, in its order.
pub proof fn law_every_entry_is_shown(p: Seq<(Msg, Msg)>, key: Msg, value: Msg, indent: Seq<char>)
    ensures
        identity_files::meta_map_lines(p.push((key, value)), indent)
            == identity_files::meta_map_lines(p, indent) + identity_files::meta_lines(
            key,
            value,
            indent,
        ),
        identity_files::meta_map_lines(Seq::<(Msg, Msg)>::empty(), indent).len() == 0,
{
    assert(p.push((key, value)).drop_last() =~= p);
}

/// What is said of a signed message ends in the message, and names the signer by the
/// hash of its public keys.
pub proof fn law_message_is_shown_with_its_signer(
    m: Msg,
    message: Seq<u8>,
    public: Seq<u8>,
    meta: bool,
)
    ensures
        ({
            let lines = identity_files::message_lines(m, message, public, meta);
            let by = "/"@ + digits::hex_text(hash::sha256(public).take(16)) + "/"@;
            &&& lines.last() == LineView { text: text::lossy(message), value: None }
            &&& !meta ==> lines.len() == 2 && lines[0].text
                == "\nSignature is valid, the following message was signed by "@ + by + ":\n"@
            &&& meta ==> lines.len() >= 5 && lines[lines.len() - 3].text
                == "\nSignature is valid, the message was signed by "@ + by + "\n"@
        }),
{
}

/// Private keys are exported under the name that is given, and only where there are any;
/// public ones get their ending once.
pub proof fn law_identity_files_have_their_ending(private: bool, path: Seq<char>)
    ensures
        identity_files::identity_file(true, true, path) == Ok::<Seq<char>, (i32, Seq<char>)>(path),
        identity_files::identity_file(true, false, path) is Err,
        text::ends(text::lowercase(path), ".pub"@) ==> identity_files::identity_file(
            false,
            private,
            path,
        ) == Ok::<Seq<char>, (i32, Seq<char>)>(path),
        !text::ends(text::lowercase(path), ".pub"@) ==> identity_files::identity_file(
            false,
            private,
            path,
        ) == Ok::<Seq<char>, (i32, Seq<char>)>(path + ".pub"@),
{
}

/// Signed data that is shown stands in rows of 64 characters between two marks; what
/// comes later does not change the rows before it.
pub proof fn law_rows_follow_each_other(first: Seq<u8>, rest: Seq<u8>)
    requires
        first.len() == 64,
        rest.len() > 0,
    ensures
        identity_files::wrapped_rows(first + rest) == identity_files::wrapped_rows(first)
            + identity_files::wrapped_rows(rest),
        identity_files::wrapped_rows(first) == identity_files::row(first) + "\n"@,
{
    assert((first + rest).take(64) =~= first);
    assert((first + rest).skip(64) =~= rest);
}

/// An identity that is named by the 32 digits of its hash, and is no file, cannot be had:
/// that is an error unless none is needed and none is asked for.
pub proof fn law_unknown_identity_is_an_error(
    a: Args,
    path: Seq<char>,
    facts: PathFacts,
    allow_none: bool,
    b: Seq<u8>,
)
    requires
        a.generate is None,
        a.identity is Some,
        !facts.is_file,
        !a.no_cache,
        (a.identity->0)@ == digits::hex_text(b),
        b.len() == 16,
    ensures
        allow_none && !a.request ==> identity_tool::source_of(a, path, facts, allow_none) == Ok::<
            Source,
            (i32, Seq<char>),
        >(Source::Nowhere),
        !allow_none || a.request ==> identity_tool::source_of(a, path, facts, allow_none) == Err::<
            Source,
            (i32, Seq<char>),
        >(
            (
                2,
                "Could not recall Identity for "@ + ("/"@ + digits::hex_text(b) + "/"@)
                    + ".\nYou can query the network for unknown Identities with the -R option."@,
            ),
        ),
{
    rpc::law_hex_is_read_back(b);
    rpc::lemma_hex_text(b);
    vstd::utf8::is_ascii_chars_encode_utf8(digits::hex_text(b));
}

} // verus!
