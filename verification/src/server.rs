//! The git service: who asks for what, and what is answered.
//!
//! A handler takes what is known so far: the request, the facts about the
//! repository on disk, and the outcomes of the git commands that were run. It
//! returns what is to be done next, or the answer.

use vstd::prelude::*;

use crate::byte_map::ByteMap;
use crate::bytes;
use crate::digits;
use crate::gitutil;
use crate::gitutil::{CreateStep, GitOutcome, Step};
use crate::msgpack;
use crate::msgpack::{Msg, MsgValue};
use crate::perms;
use crate::perms::{AccessLists, Perm};
use crate::rngit_config::Cfg;
use crate::text;
use crate::transfer;

verus! {

/// How often a resource is advertised again before it is given up.
pub const MAX_ADV_RETRIES: u8 = 4;

/// The git service.
pub struct Rngit {
    pub cfg: Cfg,
}

/// What is on disk for a repository.
pub struct Facts {
    /// The directory of the repository.
    pub repo_path: String,
    pub group_is_dir: bool,
    pub repo_is_dir: bool,
    pub repo_exists: bool,
    /// The contents of the group's access file.
    pub group_allowed: Option<String>,
    /// The contents of the repository's access file.
    pub repo_allowed: Option<String>,
    /// The contents of the repository's `HEAD` file.
    pub head: Option<Vec<u8>>,
}

/// What a handler wants done next.
#[derive(Debug)]
pub enum ServerStep {
    /// Find out the facts about a repository in the directory of a group.
    Inspect(String, String),
    /// Store the bundle of a push.
    WriteBundle(Vec<u8>),
    /// Run git in the repository.
    Git(Vec<String>),
    /// Send the bundle that git made.
    SendBundle,
    MakeDirectory(String),
    /// Run git in the new directory.
    Initialize(Vec<String>),
    WriteFile(String, String),
    /// Remove the directory that was made, and send this answer.
    Discard(String, Vec<u8>),
    /// Send this answer.
    Answer(Vec<u8>),
}

// ---------------------------------------------------------------------------
// Specification
// ---------------------------------------------------------------------------

/// What a handler wants done next, over sequences.
pub enum Act {
    Inspect(Seq<char>, Seq<char>),
    WriteBundle(Seq<u8>),
    Git(Seq<Seq<char>>),
    SendBundle,
    MakeDirectory(Seq<char>),
    Initialize(Seq<Seq<char>>),
    WriteFile(Seq<char>, Seq<char>),
    Discard(Seq<char>, Seq<u8>),
    Answer(Seq<u8>),
}

impl View for ServerStep {
    type V = Act;

    open spec fn view(&self) -> Act {
        match self {
            ServerStep::Inspect(g, r) => Act::Inspect(g@, r@),
            ServerStep::WriteBundle(b) => Act::WriteBundle(b@),
            ServerStep::Git(a) => Act::Git(text::views(a@)),
            ServerStep::SendBundle => Act::SendBundle,
            ServerStep::MakeDirectory(p) => Act::MakeDirectory(p@),
            ServerStep::Initialize(a) => Act::Initialize(text::views(a@)),
            ServerStep::WriteFile(p, c) => Act::WriteFile(p@, c@),
            ServerStep::Discard(p, b) => Act::Discard(p@, b@),
            ServerStep::Answer(b) => Act::Answer(b@),
        }
    }
}

/// An answer: a code and a message.
pub open spec fn reply(code: u8, message: Seq<char>) -> Seq<u8> {
    seq![code] + vstd::utf8::encode_utf8(message)
}

/// The answer to a peer that is not identified.
pub open spec fn reply_not_identified() -> Seq<u8> {
    reply(transfer::RES_DISALLOWED, "Not identified"@)
}

/// The answer to a request that cannot be understood.
pub open spec fn reply_invalid() -> Seq<u8> {
    reply(transfer::RES_INVALID_REQ, "Invalid request"@)
}

/// The answer that says no more than that there is nothing.
pub open spec fn reply_not_found() -> Seq<u8> {
    reply(transfer::RES_NOT_FOUND, "Not found"@)
}

/// The answer that an object name is not valid.
pub open spec fn reply_bad_sha() -> Seq<u8> {
    reply(transfer::RES_INVALID_REQ, "Invalid SHA"@)
}

/// The answer to a request without data that says what to push.
pub open spec fn reply_no_push() -> Seq<u8> {
    reply(transfer::RES_INVALID_REQ, "Invalid request data"@)
}

/// The repository that a request names.
pub open spec fn repository_in(data: Msg) -> Option<Seq<char>> {
    match data {
        Msg::Pairs(p) => match msgpack::lookup_int(p, transfer::IDX_REPOSITORY as int) {
            Some(m) => msgpack::text_of(m),
            None => None,
        },
        _ => None,
    }
}

/// The entries that the request data holds; none where it is no map.
pub open spec fn entries(data: Msg) -> Seq<(Msg, Msg)> {
    match data {
        Msg::Pairs(p) => p,
        _ => Seq::empty(),
    }
}

/// The identity is blocked.
pub open spec fn blocked(cfg: Cfg, peer: Seq<u8>) -> bool {
    exists|i: int|
        0 <= i < cfg.blocked_identities@.len() && text::alike(
            (#[trigger] cfg.blocked_identities@[i])@,
            digits::hex_text(peer),
        )
}

/// The contents of the access file of a group, followed by the entries that are
/// configured for it.
pub open spec fn group_text(cfg: Cfg, group: Seq<char>, facts: Facts) -> Seq<char> {
    let file = match facts.group_allowed {
        Some(c) => c@ + "\n"@,
        None => Seq::empty(),
    };
    if cfg.access@.contains_key(group) {
        file + gitutil::terminated(text::views(cfg.access@[group]@))
    } else {
        file
    }
}

/// The access lists of a group.
pub open spec fn group_lists(cfg: Cfg, group: Seq<char>, facts: Facts) -> perms::Access {
    perms::granted(text::rows(group_text(cfg, group, facts)), cfg.aliases@)
}

/// The access lists of a repository; they are empty without an access file.
pub open spec fn repo_lists(cfg: Cfg, facts: Facts) -> perms::Access {
    match facts.repo_allowed {
        Some(c) => perms::granted(text::rows(c@), cfg.aliases@),
        None => perms::Access::none(),
    }
}

/// The access file of the repository is as it was written for the creator with
/// this hash.
pub open spec fn made_for(cfg: Cfg, facts: Facts, h: Seq<char>) -> bool {
    &&& facts.repo_allowed matches Some(c) && c@ == gitutil::admin_entry(h)
    &&& perms::is_own_hash(h, cfg.aliases@)
}

/// The peer has a kind of access to the repository.
pub open spec fn may(cfg: Cfg, peer: Seq<u8>, group: Seq<char>, facts: Facts, perm: Perm) -> bool {
    &&& !blocked(cfg, peer)
    &&& facts.group_is_dir
    &&& facts.repo_is_dir
    &&& perms::grants(repo_lists(cfg, facts), group_lists(cfg, group, facts), peer, perm)
}

/// The access files and entries hold ASCII characters only.
pub open spec fn plain_facts(cfg: Cfg, group: Seq<char>, facts: Facts) -> bool {
    &&& vstd::utf8::is_ascii_chars(group_text(cfg, group, facts))
    &&& facts.repo_allowed matches Some(c) ==> vstd::utf8::is_ascii_chars(c@)
}

/// The peer has a kind of access to the repository, where all is in ASCII
/// characters.
pub open spec fn plainly_may(
    cfg: Cfg,
    peer: Seq<u8>,
    group: Seq<char>,
    facts: Facts,
    perm: Perm,
) -> bool {
    let repo = match facts.repo_allowed {
        Some(c) => perms::plainly_granted(text::rows(c@), cfg.aliases@),
        None => perms::Access::none(),
    };
    let lists = perms::plainly_granted(
        text::rows(group_text(cfg, group, facts)),
        cfg.aliases@,
    );
    &&& !blocked(cfg, peer)
    &&& facts.group_is_dir
    &&& facts.repo_is_dir
    &&& perms::grants(repo, lists, peer, perm)
}

/// The peer has a kind of access to the group.
pub open spec fn may_in_group(
    cfg: Cfg,
    peer: Seq<u8>,
    group: Seq<char>,
    facts: Facts,
    perm: Perm,
) -> bool {
    &&& !blocked(cfg, peer)
    &&& facts.group_is_dir
    &&& perms::group_grants(group_lists(cfg, group, facts), peer, perm)
}

/// What stands at the start of every request for a repository: an answer or a
/// wish for facts, or the peer, the group and the facts to go on with.
pub enum Gate {
    Closed(Act),
    Open(Seq<u8>, Seq<char>, Facts),
}

/// The start of a request for a repository that should exist.
pub open spec fn gate(
    cfg: Cfg,
    peer: Option<Vec<u8>>,
    data: Msg,
    facts: Option<Facts>,
) -> Gate {
    match (peer, repository_in(data)) {
        (None, _) => Gate::Closed(Act::Answer(reply_not_identified())),
        (Some(_), None) => Gate::Closed(Act::Answer(reply_invalid())),
        (Some(p), Some(path)) => match gitutil::repository_path(path) {
            None => Gate::Closed(Act::Answer(reply_not_found())),
            Some((group, repo)) => if !cfg.repositories@.contains_key(group) {
                Gate::Closed(Act::Answer(reply_not_found()))
            } else {
                match facts {
                    None => Gate::Closed(Act::Inspect(cfg.repositories@[group]@, repo)),
                    Some(f) => Gate::Open(p@, group, f),
                }
            },
        },
    }
}

/// The answer to a peer without the access that it needs: with read access it
/// learns that it is not allowed, and else no more than that there is nothing.
pub open spec fn refusal(read: bool, code: u8) -> Seq<u8> {
    if read {
        reply(code, "Not allowed"@)
    } else {
        reply_not_found()
    }
}

/// Listing the refs needs read access, or write access for a push.
pub open spec fn list_act(
    cfg: Cfg,
    peer: Option<Vec<u8>>,
    data: Msg,
    facts: Option<Facts>,
    done: Seq<gitutil::Outcome>,
) -> Act {
    match gate(cfg, peer, data, facts) {
        Gate::Closed(a) => a,
        Gate::Open(p, group, f) => {
            let read = may(cfg, p, group, f, Perm::Read);
            let for_push = msgpack::flag_at(entries(data), "for_push"@);
            let access = if for_push {
                may(cfg, p, group, f, Perm::Write)
            } else {
                read
            };
            if !access {
                Act::Answer(refusal(read, transfer::RES_NOT_FOUND))
            } else {
                match gitutil::list_refs_step(gitutil::bytes_view(f.head), done) {
                    gitutil::Next::Run(a) => Act::Git(a),
                    gitutil::Next::Done(Ok(refs)) => Act::Answer(seq![0u8] + refs),
                    gitutil::Next::Done(Err(_)) => Act::Answer(
                        reply(transfer::RES_REMOTE_FAIL, "Could not list refs"@),
                    ),
                }
            }
        },
    }
}

/// One ref of a fetch request: its name, which must be accepted, and the object
/// that the client has of it, which must be accepted where it is given.
pub open spec fn wanted_ref(m: Msg) -> Result<(Seq<char>, Option<Seq<char>>), Seq<u8>> {
    match m {
        Msg::Pairs(p) => match msgpack::text_at(p, "ref"@) {
            Some(name) => if !gitutil::ref_ok(name) {
                Err(reply_invalid())
            } else {
                match msgpack::text_at(p, "have"@) {
                    Some(h) => if gitutil::sha_ok(h) {
                        Ok((name, Some(h)))
                    } else {
                        Err(reply_bad_sha())
                    },
                    None => Ok((name, None)),
                }
            },
            None => Err(reply_invalid()),
        },
        _ => Err(reply_invalid()),
    }
}

/// The refs of a fetch request, or the answer to the first that is not accepted.
pub open spec fn wanted_refs(refs: Seq<Msg>) -> Result<
    Seq<(Seq<char>, Option<Seq<char>>)>,
    Seq<u8>,
>
    decreases refs.len(),
{
    if refs.len() == 0 {
        Ok(Seq::empty())
    } else {
        match wanted_refs(refs.drop_last()) {
            Err(e) => Err(e),
            Ok(before) => match wanted_ref(refs.last()) {
                Err(e) => Err(e),
                Ok(w) => Ok(before.push(w)),
            },
        }
    }
}

/// The objects that the client says it has, or the answer where one is not
/// accepted.
pub open spec fn had_shas(haves: Seq<Msg>) -> Result<Seq<Seq<char>>, Seq<u8>>
    decreases haves.len(),
{
    if haves.len() == 0 {
        Ok(Seq::empty())
    } else {
        match had_shas(haves.drop_last()) {
            Err(e) => Err(e),
            Ok(before) => match msgpack::text_of(haves.last()) {
                Some(s) => if gitutil::sha_ok(s) {
                    Ok(before.push(s))
                } else {
                    Err(reply_bad_sha())
                },
                None => Err(reply_bad_sha()),
            },
        }
    }
}

/// What a fetch request asks for, or the answer where it is not accepted.
pub open spec fn fetch_plan(data: Msg) -> Result<
    (Seq<(Seq<char>, Option<Seq<char>>)>, Seq<Seq<char>>),
    Seq<u8>,
> {
    match msgpack::lookup(entries(data), "refs"@) {
        Some(Msg::Array(refs)) => match wanted_refs(refs) {
            Err(e) => Err(e),
            Ok(w) => match msgpack::lookup(entries(data), "have"@) {
                Some(Msg::Array(haves)) => match had_shas(haves) {
                    Err(e) => Err(e),
                    Ok(h) => Ok((w, h)),
                },
                _ => Ok((w, Seq::empty())),
            },
        },
        _ => Err(reply(transfer::RES_INVALID_REQ, "No refs specified"@)),
    }
}

/// A fetch needs read access. It ends in a bundle to send, in an empty answer
/// where there is nothing to send, or in a refusal.
pub open spec fn fetch_act(
    cfg: Cfg,
    peer: Option<Vec<u8>>,
    data: Msg,
    facts: Option<Facts>,
    bundle: Seq<char>,
    done: Seq<gitutil::Outcome>,
) -> Act {
    match gate(cfg, peer, data, facts) {
        Gate::Closed(a) => a,
        Gate::Open(p, group, f) => if !may(cfg, p, group, f, Perm::Read) {
            Act::Answer(reply_not_found())
        } else {
            match fetch_plan(data) {
                Err(e) => Act::Answer(e),
                Ok((refs, haves)) => match gitutil::fetch_refs(
                    refs,
                    haves,
                    gitutil::bundle_create(bundle),
                    false,
                    done,
                ) {
                    gitutil::Next::Run(a) => Act::Git(a),
                    gitutil::Next::Done(Ok(None)) => Act::Answer(seq![0u8]),
                    gitutil::Next::Done(Ok(Some(_))) => Act::SendBundle,
                    gitutil::Next::Done(Err(_)) => Act::Answer(
                        reply(transfer::RES_REMOTE_FAIL, "Could not fetch refs"@),
                    ),
                },
            }
        },
    }
}

/// One operation of a push: the ref, the object and whether to force, or the
/// answer where it is not accepted.
pub open spec fn operation(m: Msg) -> Result<(Seq<char>, Seq<char>, bool), Seq<u8>> {
    match m {
        Msg::Pairs(p) => {
            let action = match msgpack::text_at(p, "action"@) {
                Some(a) => a,
                None => Seq::empty(),
            };
            if action != "update_ref"@ {
                Err(reply(transfer::RES_INVALID_REQ, "Unknown operation: "@ + action))
            } else {
                match (msgpack::text_at(p, "ref"@), msgpack::text_at(p, "sha"@)) {
                    (None, _) => Err(reply_invalid()),
                    (Some(name), sha) => if !gitutil::changeable(name) {
                        Err(reply_invalid())
                    } else {
                        match sha {
                            Some(s) => if gitutil::sha_ok(s) {
                                Ok((name, s, msgpack::flag_at(p, "force"@)))
                            } else {
                                Err(reply_bad_sha())
                            },
                            None => Err(reply_bad_sha()),
                        }
                    },
                }
            }
        },
        _ => Err(reply(transfer::RES_INVALID_REQ, "Invalid data for operations"@)),
    }
}

/// The operations of a push, one after the other. Those before one that is not
/// accepted stay done.
pub open spec fn operations_act(ops: Seq<Msg>, done: Seq<gitutil::Outcome>) -> Act
    decreases ops.len(),
{
    if ops.len() == 0 {
        Act::Answer(seq![0u8])
    } else {
        match operation(ops[0]) {
            Err(e) => Act::Answer(e),
            Ok((name, sha, force)) => match gitutil::update_step(name, sha, force, done) {
                gitutil::Next::Run(a) => Act::Git(a),
                gitutil::Next::Done(Ok(_)) => operations_act(ops.skip(1), done.skip(3)),
                gitutil::Next::Done(Err(_)) => Act::Answer(
                    reply(transfer::RES_REMOTE_FAIL, "Could not update refs"@),
                ),
            },
        }
    }
}

/// The file for the bundle of a push.
#[derive(Clone, Copy, PartialEq, Eq, Structural, Debug)]
pub enum BundleFile {
    /// It is not written yet.
    Missing,
    /// It holds the bundle.
    Stored,
    /// It could not be written.
    Failed,
}

/// The part of a push after access was checked: a bundle is stored and applied,
/// or operations are carried out.
pub open spec fn push_work(
    data: Msg,
    bundle: Seq<char>,
    stored: BundleFile,
    done: Seq<gitutil::Outcome>,
) -> Act {
    let p = entries(data);
    let content = match msgpack::lookup(p, "bundle"@) {
        Some(m) => msgpack::bytes_of(m),
        None => None,
    };
    match content {
        Some(b) => match (msgpack::text_at(p, "local_ref"@), msgpack::text_at(p, "remote_ref"@)) {
            (Some(local), Some(remote)) => if !gitutil::ref_ok(local) || !gitutil::ref_ok(remote) {
                Act::Answer(reply_invalid())
            } else {
                match stored {
                    BundleFile::Missing => Act::WriteBundle(b),
                    BundleFile::Failed => Act::Answer(
                        reply(transfer::RES_REMOTE_FAIL, "Could not verify bundle"@),
                    ),
                    BundleFile::Stored => match gitutil::apply_step(
                        bundle,
                        local,
                        remote,
                        msgpack::flag_at(p, "force"@),
                        done,
                    ) {
                        gitutil::Next::Run(a) => Act::Git(a),
                        gitutil::Next::Done(Ok(_)) => Act::Answer(seq![0u8]),
                        gitutil::Next::Done(Err(_)) => Act::Answer(
                            reply(transfer::RES_REMOTE_FAIL, "Could not verify bundle"@),
                        ),
                    },
                }
            },
            _ => Act::Answer(reply(transfer::RES_INVALID_REQ, "Missing ref specification"@)),
        },
        None => match msgpack::lookup(p, "operations"@) {
            Some(Msg::Array(ops)) => operations_act(ops, done),
            _ => Act::Answer(reply_no_push()),
        },
    }
}

/// A push needs write access.
pub open spec fn push_act(
    cfg: Cfg,
    peer: Option<Vec<u8>>,
    data: Msg,
    facts: Option<Facts>,
    bundle: Seq<char>,
    stored: BundleFile,
    done: Seq<gitutil::Outcome>,
) -> Act {
    match gate(cfg, peer, data, facts) {
        Gate::Closed(a) => a,
        Gate::Open(p, group, f) => if !may(cfg, p, group, f, Perm::Write) {
            Act::Answer(refusal(may(cfg, p, group, f, Perm::Read), transfer::RES_DISALLOWED))
        } else {
            push_work(data, bundle, stored, done)
        },
    }
}

/// Deleting a ref needs write access.
pub open spec fn delete_act(
    cfg: Cfg,
    peer: Option<Vec<u8>>,
    data: Msg,
    facts: Option<Facts>,
    done: Seq<gitutil::Outcome>,
) -> Act {
    match gate(cfg, peer, data, facts) {
        Gate::Closed(a) => a,
        Gate::Open(p, group, f) => if !may(cfg, p, group, f, Perm::Write) {
            Act::Answer(refusal(may(cfg, p, group, f, Perm::Read), transfer::RES_DISALLOWED))
        } else {
            match msgpack::text_at(entries(data), "ref"@) {
                Some(name) => if !gitutil::changeable(name) {
                    Act::Answer(reply_invalid())
                } else {
                    match gitutil::delete_step(name, done) {
                        gitutil::Next::Run(a) => Act::Git(a),
                        gitutil::Next::Done(Ok(_)) => Act::Answer(seq![0u8]),
                        gitutil::Next::Done(Err(_)) => Act::Answer(
                            reply(transfer::RES_REMOTE_FAIL, "Could not delete ref"@),
                        ),
                    }
                },
                None => Act::Answer(reply_invalid()),
            }
        },
    }
}

/// The part of a creation after access was checked.
pub open spec fn create_work(peer: Seq<u8>, f: Facts, done: Seq<Option<String>>) -> Act {
    let failed = reply(transfer::RES_REMOTE_FAIL, "Could not initialize repository"@);
    match gitutil::create_next(f.repo_path@, digits::hex_text(peer), false, done) {
        gitutil::Create::MakeDirectory => Act::MakeDirectory(f.repo_path@),
        gitutil::Create::Initialize(a) => Act::Initialize(a),
        gitutil::Create::WriteFile(p, c) => Act::WriteFile(p, c),
        gitutil::Create::Discard(_) => Act::Discard(f.repo_path@, failed),
        gitutil::Create::Done(Ok(_)) => Act::Answer(seq![0u8]),
        gitutil::Create::Done(Err(_)) => Act::Answer(failed),
    }
}

/// Creating a repository needs that access in its group. One that exists is
/// reported as such only to a peer that may read it.
pub open spec fn create_act(
    cfg: Cfg,
    peer: Option<Vec<u8>>,
    data: Msg,
    facts: Option<Facts>,
    done: Seq<Option<String>>,
) -> Act {
    match (peer, repository_in(data)) {
        (None, _) => Act::Answer(reply_not_identified()),
        (Some(_), None) => Act::Answer(reply_invalid()),
        (Some(p), Some(path)) => match gitutil::repository_path(path) {
            None => Act::Answer(reply_invalid()),
            Some((group, repo)) => if !cfg.repositories@.contains_key(group) {
                Act::Answer(reply_not_found())
            } else {
                match facts {
                    None => Act::Inspect(cfg.repositories@[group]@, repo),
                    Some(f) => if !may_in_group(cfg, p@, group, f, Perm::Create) {
                        Act::Answer(
                            refusal(
                                may_in_group(cfg, p@, group, f, Perm::Read),
                                transfer::RES_DISALLOWED,
                            ),
                        )
                    } else if f.repo_exists {
                        if may(cfg, p@, group, f, Perm::Read) {
                            Act::Answer(
                                reply(transfer::RES_DISALLOWED, "Repository already exists"@),
                            )
                        } else {
                            Act::Answer(reply_not_found())
                        }
                    } else {
                        create_work(p@, f, done)
                    },
                }
            },
        },
    }
}

// ---------------------------------------------------------------------------
// Answers
// ---------------------------------------------------------------------------

/// An answer of a code and a message.
pub fn error_response(code: u8, msg: &str) -> (r: Vec<u8>)
    ensures
        r@ == reply(code, msg@),
{
    let mut r: Vec<u8> = Vec::new();
    r.push(code);
    assert(r@ =~= seq![code]);
    bytes::append(&mut r, msg.as_bytes());
    r
}

/// The answer to a peer that is not identified.
pub fn not_identified() -> (r: Vec<u8>)
    ensures
        r@ == reply_not_identified(),
{
    error_response(transfer::RES_DISALLOWED, "Not identified")
}

/// The answer to a request that cannot be understood.
pub fn invalid_request() -> (r: Vec<u8>)
    ensures
        r@ == reply_invalid(),
{
    error_response(transfer::RES_INVALID_REQ, "Invalid request")
}

fn not_found() -> (r: Vec<u8>)
    ensures
        r@ == reply_not_found(),
{
    error_response(transfer::RES_NOT_FOUND, "Not found")
}

fn refused(read: bool, code: u8) -> (r: ServerStep)
    ensures
        r@ == Act::Answer(refusal(read, code)),
{
    if read {
        ServerStep::Answer(error_response(code, "Not allowed"))
    } else {
        ServerStep::Answer(not_found())
    }
}

fn empty_answer() -> (r: ServerStep)
    ensures
        r@ == Act::Answer(seq![0u8]),
{
    let mut b: Vec<u8> = Vec::new();
    b.push(0u8);
    assert(b@ =~= seq![0u8]);
    ServerStep::Answer(b)
}

/// The repository that a request names.
pub fn repo_repository(data: &MsgValue) -> (r: Option<String>)
    ensures
        match r {
            Some(s) => repository_in(data@) == Some(s@),
            None => repository_in(data@) is None,
        },
{
    match data.as_map() {
        Some(m) => match msgpack::get_int(m, transfer::IDX_REPOSITORY) {
            Some(v) => match v.as_str() {
                Some(s) => Some(s.to_owned()),
                None => None,
            },
            None => None,
        },
        None => None,
    }
}

/// What the start of a request leads to: a step, or the peer, the group and the
/// facts.
enum Entry<'a> {
    Closed(ServerStep),
    Open(&'a Vec<u8>, String, &'a Facts),
}

impl<'a> Entry<'a> {
    spec fn model(self) -> Gate {
        match self {
            Entry::Closed(s) => Gate::Closed(s@),
            Entry::Open(p, g, f) => Gate::Open(p@, g@, *f),
        }
    }
}

impl Rngit {
    /// A service with a configuration.
    pub fn new(cfg: Cfg) -> (r: Self)
        ensures
            r.cfg == cfg,
    {
        Rngit { cfg }
    }

    fn is_blocked(&self, peer: &[u8]) -> (r: bool)
        ensures
            r == blocked(self.cfg, peer@),
    {
        let hex = digits::hex_encode(peer);
        let mut i: usize = 0;
        while i < self.cfg.blocked_identities.len()
            invariant
                i <= self.cfg.blocked_identities@.len(),
                hex@ == digits::hex_text(peer@),
                forall|j: int|
                    0 <= j < i ==> !text::alike(
                        (#[trigger] self.cfg.blocked_identities@[j])@,
                        digits::hex_text(peer@),
                    ),
            decreases self.cfg.blocked_identities@.len() - i,
        {
            if text::same_ignoring_case(self.cfg.blocked_identities[i].as_str(), hex.as_str()) {
                assert(text::alike(
                    self.cfg.blocked_identities@[i as int]@,
                    digits::hex_text(peer@),
                ));
                return true;
            }
            i = i + 1;
        }
        false
    }

    /// The access lists of a group.
    pub fn group_access(&self, group: &str, facts: &Facts) -> (r: AccessLists)
        ensures
            r@ == group_lists(self.cfg, group@, *facts),
            vstd::utf8::is_ascii_chars(group_text(self.cfg, group@, *facts)) ==> r@
                == perms::plainly_granted(
                text::rows(group_text(self.cfg, group@, *facts)),
                self.cfg.aliases@,
            ),
    {
        let mut input = String::new();
        if let Some(c) = &facts.group_allowed {
            input.append(c.as_str());
            input.append("\n");
            assert(input@ =~= c@ + "\n"@);
        }
        if let Some(list) = self.cfg.access.get(group) {
            let ghost file = input@;
            let ghost all = text::views(list@);
            let mut i: usize = 0;
            assert(all.take(0) =~= Seq::<Seq<char>>::empty());
            while i < list.len()
                invariant
                    i <= list@.len(),
                    all == text::views(list@),
                    input@ =~= file + gitutil::terminated(all.take(i as int)),
                decreases list@.len() - i,
            {
                proof {
                    reveal_strlit("\n");
                    assert("\n"@ =~= seq!['\n']);
                }
                assert(all.take(i + 1).drop_last() =~= all.take(i as int));
                assert(all.take(i + 1).last() == list@[i as int]@);
                input.append(list[i].as_str());
                input.append("\n");
                i = i + 1;
            }
            assert(all.take(all.len() as int) =~= all);
        }
        perms::permissions_from_allowed_input(input.as_str(), &self.cfg.aliases)
    }

    /// The access lists of a repository. The creator of a repository is its only
    /// administrator at first.
    pub fn repo_access(&self, facts: &Facts) -> (r: AccessLists)
        ensures
            r@ == repo_lists(self.cfg, *facts),
            facts.repo_allowed matches Some(c) ==> vstd::utf8::is_ascii_chars(c@) ==> r@
                == perms::plainly_granted(text::rows(c@), self.cfg.aliases@),
            forall|h: Seq<char>| #[trigger]
                made_for(self.cfg, *facts, h) ==> r@.admin == seq![
                    perms::Who::Identity(digits::hex_bytes(h)->0),
                ],
    {
        proof {
            assert forall|h: Seq<char>| #[trigger] made_for(self.cfg, *facts, h) implies
                vstd::utf8::is_ascii_chars(facts.repo_allowed->0@) && perms::plainly_granted(
                text::rows(facts.repo_allowed->0@),
                self.cfg.aliases@,
            ).admin == seq![perms::Who::Identity(digits::hex_bytes(h)->0)] by {
                perms::law_creator_has_access(
                    h,
                    self.cfg.aliases@,
                    perms::Access::none(),
                    Perm::Admin,
                );
            }
        }
        match &facts.repo_allowed {
            Some(c) => perms::permissions_from_allowed_input(c.as_str(), &self.cfg.aliases),
            None => AccessLists::default(),
        }
    }

    /// Whether a peer has a kind of access to a repository. The creator of a
    /// repository has every access to it, unless it is blocked.
    pub fn resolve_perm(&self, peer: &[u8], group: &str, facts: &Facts, perm: Perm) -> (r: bool)
        ensures
            r == may(self.cfg, peer@, group@, *facts, perm),
            plain_facts(self.cfg, group@, *facts) ==> r == plainly_may(
                self.cfg,
                peer@,
                group@,
                *facts,
                perm,
            ),
            forall|h: Seq<char>| #[trigger]
                made_for(self.cfg, *facts, h) && digits::hex_bytes(h) == Some(peer@) && !blocked(
                    self.cfg,
                    peer@,
                ) && facts.group_is_dir && facts.repo_is_dir ==> r,
    {
        if self.is_blocked(peer) || !facts.group_is_dir || !facts.repo_is_dir {
            return false;
        }
        let group_lists = self.group_access(group, facts);
        let repo_lists = self.repo_access(facts);
        proof {
            assert forall|h: Seq<char>| #[trigger]
                made_for(self.cfg, *facts, h) && digits::hex_bytes(h) == Some(
                    peer@,
                ) implies perms::grants(repo_lists@, group_lists@, peer@, perm) by {
                perms::law_creator_has_access(h, self.cfg.aliases@, group_lists@, perm);
            }
        }
        perms::resolve_permission(&repo_lists, &group_lists, peer, perm)
    }

    /// Whether a peer has a kind of access to a group.
    pub fn resolve_group_perm(&self, peer: &[u8], group: &str, facts: &Facts, perm: Perm) -> (r:
        bool)
        ensures
            r == may_in_group(self.cfg, peer@, group@, *facts, perm),
    {
        if self.is_blocked(peer) || !facts.group_is_dir {
            return false;
        }
        let group_lists = self.group_access(group, facts);
        perms::resolve_group_permission(&group_lists, peer, perm)
    }

    fn enter<'a>(
        &self,
        peer: &'a Option<Vec<u8>>,
        data: &MsgValue,
        facts: &'a Option<Facts>,
    ) -> (r: Entry<'a>)
        ensures
            r.model() == gate(self.cfg, *peer, data@, *facts),
    {
        let p = match peer {
            Some(p) => p,
            None => {
                return Entry::Closed(ServerStep::Answer(not_identified()));
            },
        };
        let path = match repo_repository(data) {
            Some(s) => s,
            None => {
                return Entry::Closed(ServerStep::Answer(invalid_request()));
            },
        };
        let (group, repo) = match gitutil::parse_request_repository_path(path.as_str()) {
            Some(x) => x,
            None => {
                return Entry::Closed(ServerStep::Answer(not_found()));
            },
        };
        match self.cfg.repositories.get(group) {
            None => Entry::Closed(ServerStep::Answer(not_found())),
            Some(dir) => match facts {
                None => Entry::Closed(ServerStep::Inspect(dir.clone(), repo.to_owned())),
                Some(f) => Entry::Open(p, group.to_owned(), f),
            },
        }
    }

    /// Answers a request for the refs.
    pub fn handle_list(
        &self,
        peer: &Option<Vec<u8>>,
        data: &MsgValue,
        facts: &Option<Facts>,
        done: &[GitOutcome],
    ) -> (r: ServerStep)
        ensures
            r@ == list_act(self.cfg, *peer, data@, *facts, gitutil::outcomes(done@)),
    {
        let (p, group, f) = match self.enter(peer, data, facts) {
            Entry::Closed(s) => {
                return s;
            },
            Entry::Open(p, g, f) => (p, g, f),
        };
        let for_push = match data.as_map() {
            Some(m) => msgpack::get_flag(m, "for_push"),
            None => false,
        };
        let read = self.resolve_perm(p.as_slice(), group.as_str(), f, Perm::Read);
        let write = self.resolve_perm(p.as_slice(), group.as_str(), f, Perm::Write);
        let access = if for_push {
            write
        } else {
            read
        };
        if !access {
            return refused(read, transfer::RES_NOT_FOUND);
        }
        match gitutil::list_refs(&f.head, done) {
            Step::Run(a) => ServerStep::Git(a),
            Step::Done(Ok(refs)) => {
                let mut b: Vec<u8> = Vec::new();
                b.push(0u8);
                bytes::append(&mut b, refs.as_slice());
                assert(b@ =~= seq![0u8] + refs@);
                ServerStep::Answer(b)
            },
            Step::Done(Err(_)) => ServerStep::Answer(
                error_response(transfer::RES_REMOTE_FAIL, "Could not list refs"),
            ),
        }
    }

    /// Answers a request to delete a ref.
    pub fn handle_delete(
        &self,
        peer: &Option<Vec<u8>>,
        data: &MsgValue,
        facts: &Option<Facts>,
        done: &[GitOutcome],
    ) -> (r: ServerStep)
        ensures
            r@ == delete_act(self.cfg, *peer, data@, *facts, gitutil::outcomes(done@)),
    {
        let (p, group, f) = match self.enter(peer, data, facts) {
            Entry::Closed(s) => {
                return s;
            },
            Entry::Open(p, g, f) => (p, g, f),
        };
        let read = self.resolve_perm(p.as_slice(), group.as_str(), f, Perm::Read);
        let write = self.resolve_perm(p.as_slice(), group.as_str(), f, Perm::Write);
        if !write {
            return refused(read, transfer::RES_DISALLOWED);
        }
        let name = match data.as_map() {
            Some(m) => msgpack::get_text(m, "ref"),
            None => None,
        };
        match name {
            None => ServerStep::Answer(invalid_request()),
            Some(name) => {
                if gitutil::san_ref(name).is_none() || !text::starts_with(name, "refs/") {
                    return ServerStep::Answer(invalid_request());
                }
                match gitutil::delete_ref(name, done) {
                    Step::Run(a) => ServerStep::Git(a),
                    Step::Done(Ok(())) => empty_answer(),
                    Step::Done(Err(_)) => ServerStep::Answer(
                        error_response(transfer::RES_REMOTE_FAIL, "Could not delete ref"),
                    ),
                }
            },
        }
    }

    /// Answers a request to create a repository. `done` holds how the steps so
    /// far went.
    pub fn handle_create(
        &self,
        peer: &Option<Vec<u8>>,
        data: &MsgValue,
        facts: &Option<Facts>,
        done: &[Option<String>],
    ) -> (r: ServerStep)
        ensures
            r@ == create_act(self.cfg, *peer, data@, *facts, done@),
    {
        let p = match peer {
            Some(p) => p,
            None => {
                return ServerStep::Answer(not_identified());
            },
        };
        let path = match repo_repository(data) {
            Some(s) => s,
            None => {
                return ServerStep::Answer(invalid_request());
            },
        };
        let (group, repo) = match gitutil::parse_request_repository_path(path.as_str()) {
            Some(x) => x,
            None => {
                return ServerStep::Answer(invalid_request());
            },
        };
        let dir = match self.cfg.repositories.get(group) {
            None => {
                return ServerStep::Answer(not_found());
            },
            Some(dir) => dir,
        };
        let f = match facts {
            None => {
                return ServerStep::Inspect(dir.clone(), repo.to_owned());
            },
            Some(f) => f,
        };
        let read = self.resolve_group_perm(p.as_slice(), group, f, Perm::Read);
        let create = self.resolve_group_perm(p.as_slice(), group, f, Perm::Create);
        if !create {
            return refused(read, transfer::RES_DISALLOWED);
        }
        if f.repo_exists {
            return if self.resolve_perm(p.as_slice(), group, f, Perm::Read) {
                ServerStep::Answer(
                    error_response(transfer::RES_DISALLOWED, "Repository already exists"),
                )
            } else {
                ServerStep::Answer(not_found())
            };
        }
        let creator = digits::hex_encode(p.as_slice());
        match gitutil::create_repository(f.repo_path.as_str(), creator.as_str(), false, done) {
            CreateStep::MakeDirectory => ServerStep::MakeDirectory(f.repo_path.clone()),
            CreateStep::Initialize(a) => ServerStep::Initialize(a),
            CreateStep::WriteFile(p, c) => ServerStep::WriteFile(p, c),
            CreateStep::Discard(_) => ServerStep::Discard(
                f.repo_path.clone(),
                error_response(transfer::RES_REMOTE_FAIL, "Could not initialize repository"),
            ),
            CreateStep::Done(Ok(())) => empty_answer(),
            CreateStep::Done(Err(_)) => ServerStep::Answer(
                error_response(transfer::RES_REMOTE_FAIL, "Could not initialize repository"),
            ),
        }
    }
}

// ---------------------------------------------------------------------------
// Fetching
// ---------------------------------------------------------------------------

/// A wish for a ref, over sequences.
pub open spec fn wish(w: (String, Option<String>)) -> (Seq<char>, Option<Seq<char>>) {
    (
        w.0@,
        match w.1 {
            Some(s) => Some(s@),
            None => None,
        },
    )
}

fn parse_wish(m: &MsgValue) -> (r: Result<(String, Option<String>), Vec<u8>>)
    ensures
        match r {
            Ok(w) => wanted_ref(m@) == Ok::<_, Seq<u8>>(wish(w)),
            Err(e) => wanted_ref(m@) == Err::<(Seq<char>, Option<Seq<char>>), _>(e@),
        },
{
    let p = match m.as_map() {
        Some(p) => p,
        None => {
            return Err(invalid_request());
        },
    };
    let name = match msgpack::get_text(p, "ref") {
        Some(n) => n,
        None => {
            return Err(invalid_request());
        },
    };
    if gitutil::san_ref(name).is_none() {
        return Err(invalid_request());
    }
    match msgpack::get_text(p, "have") {
        Some(h) => if gitutil::san_sha(h).is_some() {
            Ok((name.to_owned(), Some(h.to_owned())))
        } else {
            Err(error_response(transfer::RES_INVALID_REQ, "Invalid SHA"))
        },
        None => Ok((name.to_owned(), None)),
    }
}

/// A list of wishes that stopped at an error stays at it.
proof fn lemma_wanted_err(refs: Seq<Msg>, i: int)
    requires
        0 <= i <= refs.len(),
        wanted_refs(refs.take(i)) is Err,
    ensures
        wanted_refs(refs) == wanted_refs(refs.take(i)),
    decreases refs.len() - i,
{
    if i < refs.len() {
        assert(refs.take(i + 1).drop_last() =~= refs.take(i));
        lemma_wanted_err(refs, i + 1);
    } else {
        assert(refs.take(i) =~= refs);
    }
}

/// A list of objects that stopped at an error stays at it.
proof fn lemma_had_err(haves: Seq<Msg>, i: int)
    requires
        0 <= i <= haves.len(),
        had_shas(haves.take(i)) is Err,
    ensures
        had_shas(haves) == had_shas(haves.take(i)),
    decreases haves.len() - i,
{
    if i < haves.len() {
        assert(haves.take(i + 1).drop_last() =~= haves.take(i));
        lemma_had_err(haves, i + 1);
    } else {
        assert(haves.take(i) =~= haves);
    }
}

fn parse_wishes(refs: &Vec<MsgValue>) -> (r: Result<Vec<(String, Option<String>)>, Vec<u8>>)
    ensures
        match r {
            Ok(w) => wanted_refs(msgpack::models(refs@)) == Ok::<_, Seq<u8>>(gitutil::wanted(w@)),
            Err(e) => wanted_refs(msgpack::models(refs@)) == Err::<
                Seq<(Seq<char>, Option<Seq<char>>)>,
                _,
            >(e@),
        },
{
    let ghost all = msgpack::models(refs@);
    let mut out: Vec<(String, Option<String>)> = Vec::new();
    let mut i: usize = 0;
    assert(all.take(0) =~= Seq::<Msg>::empty());
    assert(gitutil::wanted(out@) =~= Seq::empty());
    while i < refs.len()
        invariant
            i <= refs@.len(),
            all == msgpack::models(refs@),
            wanted_refs(all.take(i as int)) == Ok::<_, Seq<u8>>(gitutil::wanted(out@)),
        decreases refs@.len() - i,
    {
        assert(all.take(i + 1).drop_last() =~= all.take(i as int));
        assert(all.take(i + 1).last() == refs@[i as int]@);
        match parse_wish(&refs[i]) {
            Ok(w) => {
                let ghost before = gitutil::wanted(out@);
                out.push(w);
                assert(gitutil::wanted(out@) =~= before.push(wish(w)));
            },
            Err(e) => {
                proof {
                    lemma_wanted_err(all, i + 1);
                }
                return Err(e);
            },
        }
        i = i + 1;
    }
    assert(all.take(all.len() as int) =~= all);
    Ok(out)
}

fn parse_haves(haves: &Vec<MsgValue>) -> (r: Result<Vec<String>, Vec<u8>>)
    ensures
        match r {
            Ok(w) => had_shas(msgpack::models(haves@)) == Ok::<_, Seq<u8>>(text::views(w@)),
            Err(e) => had_shas(msgpack::models(haves@)) == Err::<Seq<Seq<char>>, _>(e@),
        },
{
    let ghost all = msgpack::models(haves@);
    let mut out: Vec<String> = Vec::new();
    let mut i: usize = 0;
    assert(all.take(0) =~= Seq::<Msg>::empty());
    assert(text::views(out@) =~= Seq::empty());
    while i < haves.len()
        invariant
            i <= haves@.len(),
            all == msgpack::models(haves@),
            had_shas(all.take(i as int)) == Ok::<_, Seq<u8>>(text::views(out@)),
        decreases haves@.len() - i,
    {
        assert(all.take(i + 1).drop_last() =~= all.take(i as int));
        assert(all.take(i + 1).last() == haves@[i as int]@);
        let ghost before = text::views(out@);
        let good = match haves[i].as_str() {
            Some(s) => if gitutil::san_sha(s).is_some() {
                Some(s.to_owned())
            } else {
                None
            },
            None => None,
        };
        match good {
            Some(s) => {
                out.push(s);
                assert(text::views(out@) =~= before.push(s@));
            },
            None => {
                proof {
                    lemma_had_err(all, i + 1);
                }
                return Err(error_response(transfer::RES_INVALID_REQ, "Invalid SHA"));
            },
        }
        i = i + 1;
    }
    assert(all.take(all.len() as int) =~= all);
    Ok(out)
}

/// What a fetch request asks for, or the answer where it is not accepted.
pub fn parse_fetch(data: &MsgValue) -> (r: Result<
    (Vec<(String, Option<String>)>, Vec<String>),
    Vec<u8>,
>)
    ensures
        match r {
            Ok((w, h)) => fetch_plan(data@) == Ok::<_, Seq<u8>>(
                (gitutil::wanted(w@), text::views(h@)),
            ),
            Err(e) => fetch_plan(data@) == Err::<
                (Seq<(Seq<char>, Option<Seq<char>>)>, Seq<Seq<char>>),
                _,
            >(e@),
        },
{
    let m = match data.as_map() {
        Some(m) => m,
        None => {
            return Err(error_response(transfer::RES_INVALID_REQ, "No refs specified"));
        },
    };
    let refs = match msgpack::get(m, "refs") {
        Some(v) => v.as_array(),
        None => None,
    };
    match refs {
        None => Err(error_response(transfer::RES_INVALID_REQ, "No refs specified")),
        Some(a) => match parse_wishes(a) {
            Err(e) => Err(e),
            Ok(w) => {
                let haves = match msgpack::get(m, "have") {
                    Some(v) => v.as_array(),
                    None => None,
                };
                match haves {
                    None => {
                        let none: Vec<String> = Vec::new();
                        assert(text::views(none@) =~= Seq::empty());
                        Ok((w, none))
                    },
                    Some(b) => match parse_haves(b) {
                        Err(e) => Err(e),
                        Ok(h) => Ok((w, h)),
                    },
                }
            },
        },
    }
}

/// The data of the resource that answers a fetch: metadata that says that all is
/// well, and the bundle. Where the bundle could not be read, an answer.
pub open spec fn fetched(bundle: Option<Seq<u8>>) -> Result<
    Result<Seq<u8>, Seq<u8>>,
    Seq<char>,
> {
    match bundle {
        None => Ok(Err(reply(transfer::RES_REMOTE_FAIL, "Could not fetch refs"@))),
        Some(b) => match transfer::metadata_prefix(result_metadata()) {
            Ok(p) => Ok(Ok(p + b)),
            Err(e) => Err(e),
        },
    }
}

/// Metadata that says that all is well.
pub open spec fn result_metadata() -> Msg {
    Msg::Pairs(
        seq![
            (
                Msg::Integer(transfer::IDX_RESULT_CODE as int),
                Msg::Integer(transfer::RES_OK as int),
            ),
        ],
    )
}

/// The data of the resource that answers a fetch, or an answer without a
/// resource.
pub fn fetch_response(bundle: &Option<Vec<u8>>) -> (r: Result<Result<Vec<u8>, Vec<u8>>, String>)
    ensures
        match r {
            Ok(Ok(b)) => fetched(gitutil::bytes_view(*bundle)) == Ok::<_, Seq<char>>(
                Ok::<_, Seq<u8>>(b@),
            ),
            Ok(Err(b)) => fetched(gitutil::bytes_view(*bundle)) == Ok::<_, Seq<char>>(
                Err::<Seq<u8>, _>(b@),
            ),
            Err(e) => fetched(gitutil::bytes_view(*bundle)) == Err::<
                Result<Seq<u8>, Seq<u8>>,
                _,
            >(e@),
        },
{
    match bundle {
        None => Ok(Err(error_response(transfer::RES_REMOTE_FAIL, "Could not fetch refs"))),
        Some(b) => {
            let mut pairs: Vec<(MsgValue, MsgValue)> = Vec::new();
            pairs.push((msgpack::uint(1), msgpack::uint(0)));
            let metadata = msgpack::map(pairs);
            proof {
                assert(metadata@->Pairs_0 =~= result_metadata()->Pairs_0);
                reveal_with_fuel(msgpack::encodable, 2);
            }
            match transfer::pack_metadata(&metadata) {
                Err(e) => Err(e),
                Ok(p) => {
                    let mut out = p;
                    bytes::append(&mut out, b.as_slice());
                    Ok(Ok(out))
                },
            }
        },
    }
}

// ---------------------------------------------------------------------------
// Pushing
// ---------------------------------------------------------------------------

fn parse_operation(m: &MsgValue) -> (r: Result<(String, String, bool), Vec<u8>>)
    ensures
        match r {
            Ok((n, s, f)) => operation(m@) == Ok::<_, Seq<u8>>((n@, s@, f)),
            Err(e) => operation(m@) == Err::<(Seq<char>, Seq<char>, bool), _>(e@),
        },
{
    let p = match m.as_map() {
        Some(p) => p,
        None => {
            return Err(error_response(transfer::RES_INVALID_REQ, "Invalid data for operations"));
        },
    };
    let action = match msgpack::get_text(p, "action") {
        Some(a) => a.to_owned(),
        None => String::new(),
    };
    if !text::same(action.as_str(), "update_ref") {
        let message = text::cat("Unknown operation: ", action.as_str());
        return Err(error_response(transfer::RES_INVALID_REQ, message.as_str()));
    }
    let name = match msgpack::get_text(p, "ref") {
        Some(n) => n,
        None => {
            return Err(invalid_request());
        },
    };
    if gitutil::san_ref(name).is_none() || !text::starts_with(name, "refs/") {
        return Err(invalid_request());
    }
    match msgpack::get_text(p, "sha") {
        Some(s) => if gitutil::san_sha(s).is_some() {
            Ok((name.to_owned(), s.to_owned(), msgpack::get_flag(p, "force")))
        } else {
            Err(error_response(transfer::RES_INVALID_REQ, "Invalid SHA"))
        },
        None => Err(error_response(transfer::RES_INVALID_REQ, "Invalid SHA")),
    }
}

fn run_operations(ops: &Vec<MsgValue>, done: &[GitOutcome]) -> (r: ServerStep)
    ensures
        r@ == operations_act(msgpack::models(ops@), gitutil::outcomes(done@)),
{
    let ghost all = msgpack::models(ops@);
    let ghost outs = gitutil::outcomes(done@);
    let mut i: usize = 0;
    let mut k: usize = 0;
    assert(all.skip(0) =~= all);
    assert(outs.skip(0) =~= outs);
    while i < ops.len()
        invariant
            i <= ops@.len(),
            k <= done@.len(),
            all == msgpack::models(ops@),
            outs == gitutil::outcomes(done@),
            operations_act(all.skip(i as int), outs.skip(k as int)) == operations_act(all, outs),
        decreases ops@.len() - i,
    {
        assert(all.skip(i as int)[0] == ops@[i as int]@);
        assert(all.skip(i as int).skip(1) =~= all.skip(i + 1));
        let (name, sha, force) = match parse_operation(&ops[i]) {
            Ok(x) => x,
            Err(e) => {
                return ServerStep::Answer(e);
            },
        };
        let rest = vstd::slice::slice_subrange(done, k, done.len());
        assert(gitutil::outcomes(rest@) =~= outs.skip(k as int));
        match gitutil::update_ref(name.as_str(), sha.as_str(), force, rest) {
            Step::Run(a) => {
                return ServerStep::Git(a);
            },
            Step::Done(Err(_)) => {
                return ServerStep::Answer(
                    error_response(transfer::RES_REMOTE_FAIL, "Could not update refs"),
                );
            },
            Step::Done(Ok(())) => {
                assert(rest@.len() >= 3);
                assert(outs.skip(k as int).skip(3) =~= outs.skip(k + 3));
                k = k + 3;
            },
        }
        i = i + 1;
    }
    assert(all.skip(i as int) =~= Seq::empty());
    empty_answer()
}

impl Rngit {
    /// Answers a request to fetch. The bundle is to be made at `bundle_path`.
    pub fn handle_fetch(
        &self,
        peer: &Option<Vec<u8>>,
        data: &MsgValue,
        facts: &Option<Facts>,
        bundle_path: &str,
        done: &[GitOutcome],
    ) -> (r: ServerStep)
        ensures
            r@ == fetch_act(
                self.cfg,
                *peer,
                data@,
                *facts,
                bundle_path@,
                gitutil::outcomes(done@),
            ),
    {
        let (p, group, f) = match self.enter(peer, data, facts) {
            Entry::Closed(s) => {
                return s;
            },
            Entry::Open(p, g, f) => (p, g, f),
        };
        if !self.resolve_perm(p.as_slice(), group.as_str(), f, Perm::Read) {
            return ServerStep::Answer(not_found());
        }
        let (refs, haves) = match parse_fetch(data) {
            Ok(x) => x,
            Err(e) => {
                return ServerStep::Answer(e);
            },
        };
        match gitutil::create_fetch_bundle(bundle_path, refs.as_slice(), haves.as_slice(), done) {
            Step::Run(a) => ServerStep::Git(a),
            Step::Done(Ok(None)) => empty_answer(),
            Step::Done(Ok(Some(()))) => ServerStep::SendBundle,
            Step::Done(Err(_)) => ServerStep::Answer(
                error_response(transfer::RES_REMOTE_FAIL, "Could not fetch refs"),
            ),
        }
    }

    /// Answers a request to push. `stored` says what came of writing the bundle of
    /// the push to `bundle_path`.
    pub fn handle_push(
        &self,
        peer: &Option<Vec<u8>>,
        data: &MsgValue,
        facts: &Option<Facts>,
        bundle_path: &str,
        stored: BundleFile,
        done: &[GitOutcome],
    ) -> (r: ServerStep)
        ensures
            r@ == push_act(
                self.cfg,
                *peer,
                data@,
                *facts,
                bundle_path@,
                stored,
                gitutil::outcomes(done@),
            ),
    {
        let (p, group, f) = match self.enter(peer, data, facts) {
            Entry::Closed(s) => {
                return s;
            },
            Entry::Open(p, g, f) => (p, g, f),
        };
        let read = self.resolve_perm(p.as_slice(), group.as_str(), f, Perm::Read);
        let write = self.resolve_perm(p.as_slice(), group.as_str(), f, Perm::Write);
        if !write {
            return refused(read, transfer::RES_DISALLOWED);
        }
        let m = match data.as_map() {
            Some(m) => m,
            None => {
                return ServerStep::Answer(
                    error_response(transfer::RES_INVALID_REQ, "Invalid request data"),
                );
            },
        };
        let content = match msgpack::get(m, "bundle") {
            Some(v) => v.as_slice(),
            None => None,
        };
        if let Some(b) = content {
            let (local, remote) = match (
                msgpack::get_text(m, "local_ref"),
                msgpack::get_text(m, "remote_ref"),
            ) {
                (Some(l), Some(r)) => (l, r),
                _ => {
                    return ServerStep::Answer(
                        error_response(transfer::RES_INVALID_REQ, "Missing ref specification"),
                    );
                },
            };
            if gitutil::san_ref(local).is_none() || gitutil::san_ref(remote).is_none() {
                return ServerStep::Answer(invalid_request());
            }
            match stored {
                BundleFile::Missing => {
                    return ServerStep::WriteBundle(b);
                },
                BundleFile::Failed => {
                    return ServerStep::Answer(
                        error_response(transfer::RES_REMOTE_FAIL, "Could not verify bundle"),
                    );
                },
                BundleFile::Stored => {},
            }
            let force = msgpack::get_flag(m, "force");
            return match gitutil::apply_push_bundle(bundle_path, local, remote, force, done) {
                Step::Run(a) => ServerStep::Git(a),
                Step::Done(Ok(())) => empty_answer(),
                Step::Done(Err(_)) => ServerStep::Answer(
                    error_response(transfer::RES_REMOTE_FAIL, "Could not verify bundle"),
                ),
            };
        }
        let ops = match msgpack::get(m, "operations") {
            Some(v) => v.as_array(),
            None => None,
        };
        match ops {
            Some(a) => run_operations(a, done),
            None => ServerStep::Answer(
                error_response(transfer::RES_INVALID_REQ, "Invalid request data"),
            ),
        }
    }
}

// ---------------------------------------------------------------------------
// Routing
// ---------------------------------------------------------------------------

/// The requests that the service answers.
#[derive(Clone, Copy, PartialEq, Eq, Structural, Debug)]
pub enum Route {
    List,
    Fetch,
    Push,
    Delete,
    Create,
}

/// The request that a path hash stands for.
pub open spec fn route_of(h: Seq<u8>) -> Option<Route> {
    if h == transfer::path_key(transfer::PATH_LIST@) {
        Some(Route::List)
    } else if h == transfer::path_key(transfer::PATH_FETCH@) {
        Some(Route::Fetch)
    } else if h == transfer::path_key(transfer::PATH_PUSH@) {
        Some(Route::Push)
    } else if h == transfer::path_key(transfer::PATH_DELETE@) {
        Some(Route::Delete)
    } else if h == transfer::path_key(transfer::PATH_CREATE@) {
        Some(Route::Create)
    } else {
        None
    }
}

fn is_path(h: &[u8], path: &str) -> (r: bool)
    ensures
        r == (h@ == transfer::path_key(path@)),
{
    let p = transfer::path_hash(path);
    bytes::same(h, p.as_slice())
}

/// The request that a path hash stands for.
pub fn route_request(path_hash: &[u8]) -> (r: Result<Route, String>)
    ensures
        match r {
            Ok(x) => route_of(path_hash@) == Some(x),
            Err(e) => route_of(path_hash@) is None && e@ == "unknown request path"@,
        },
{
    if is_path(path_hash, transfer::PATH_LIST) {
        Ok(Route::List)
    } else if is_path(path_hash, transfer::PATH_FETCH) {
        Ok(Route::Fetch)
    } else if is_path(path_hash, transfer::PATH_PUSH) {
        Ok(Route::Push)
    } else if is_path(path_hash, transfer::PATH_DELETE) {
        Ok(Route::Delete)
    } else if is_path(path_hash, transfer::PATH_CREATE) {
        Ok(Route::Create)
    } else {
        Err("unknown request path".to_owned())
    }
}

// ---------------------------------------------------------------------------
// Links and their resources
// ---------------------------------------------------------------------------

/// What the service keeps of a link: who is on the other side, how often each
/// resource that it sends was advertised again, and the request that each
/// resource that it receives belongs to.
pub struct LinkState {
    pub peer: Option<Vec<u8>>,
    pub outbound: ByteMap<u8>,
    pub inbound: ByteMap<Vec<u8>>,
}

/// A packet that belongs to a resource. An advertisement has its flags.
pub enum PacketKind {
    Advertisement(u8),
    PartRequest,
    HashUpdate,
    Part,
    Proof,
    Other,
}

/// What is to be done about a packet.
#[derive(Debug)]
pub enum PacketAction {
    Ignore,
    /// Receive the advertised resource, and ask for its first parts.
    StartInbound,
    /// Send the parts that are asked for of the resource with this hash.
    ServeParts(Vec<u8>),
    /// Take over a segment of hashes for the resource with this hash, and ask for
    /// more parts.
    ApplyHashmap(Vec<u8>, u64, Vec<u8>),
    /// Offer the part to the resources that are being received.
    FeedInbound,
    /// Check the proof for the resource with this hash.
    CheckProof(Vec<u8>),
}

/// What is to be done about a packet, over sequences.
pub enum Doing {
    Ignore,
    StartInbound,
    ServeParts(Seq<u8>),
    ApplyHashmap(Seq<u8>, u64, Seq<u8>),
    FeedInbound,
    CheckProof(Seq<u8>),
}

impl View for PacketAction {
    type V = Doing;

    open spec fn view(&self) -> Doing {
        match self {
            PacketAction::Ignore => Doing::Ignore,
            PacketAction::StartInbound => Doing::StartInbound,
            PacketAction::ServeParts(h) => Doing::ServeParts(h@),
            PacketAction::ApplyHashmap(h, n, m) => Doing::ApplyHashmap(h@, *n, m@),
            PacketAction::FeedInbound => Doing::FeedInbound,
            PacketAction::CheckProof(h) => Doing::CheckProof(h@),
        }
    }
}

/// What is to be done about a packet on a link. An advertisement counts where it
/// is of a request and not of a response; the other packets must belong to a
/// resource of the link.
pub open spec fn packet_doing(state: Option<LinkState>, kind: PacketKind, data: Seq<u8>) -> Result<
    Doing,
    Seq<char>,
> {
    match kind {
        PacketKind::Advertisement(flags) => if (flags & 0x10u8) != 0 {
            Ok(Doing::Ignore)
        } else if (flags & 0x08u8) != 0 {
            Ok(Doing::StartInbound)
        } else {
            Ok(Doing::Ignore)
        },
        PacketKind::PartRequest => match (transfer::requested_hash(data), state) {
            (None, _) => Err("invalid part request"@),
            (Some(_), None) => Err("no link state"@),
            (Some(h), Some(s)) => if s.outbound@.contains_key(h) {
                Ok(Doing::ServeParts(h))
            } else {
                Err("no outbound resource"@)
            },
        },
        PacketKind::HashUpdate => match (transfer::leading_hash(data), state) {
            (None, _) => Err("invalid hashmap update"@),
            (Some(_), None) => Err("no link state"@),
            (Some(h), Some(s)) => if s.inbound@.contains_key(h) {
                match transfer::hashmap_update(data) {
                    Ok((n, m)) => Ok(Doing::ApplyHashmap(h, n, m)),
                    Err(e) => Err(e),
                }
            } else {
                Err("no inbound resource"@)
            },
        },
        PacketKind::Part => match state {
            None => Err("no link state"@),
            Some(_) => Ok(Doing::FeedInbound),
        },
        PacketKind::Proof => match (transfer::leading_hash(data), state) {
            (None, _) => Err("invalid proof"@),
            (Some(_), None) => Err("no link state"@),
            (Some(h), Some(s)) => if s.outbound@.contains_key(h) {
                Ok(Doing::CheckProof(h))
            } else {
                Ok(Doing::Ignore)
            },
        },
        PacketKind::Other => Ok(Doing::Ignore),
    }
}

/// Decides what is to be done about a packet of a resource.
pub fn handle_resource_packet(state: &Option<LinkState>, kind: &PacketKind, data: &[u8]) -> (r:
    Result<PacketAction, String>)
    ensures
        match r {
            Ok(a) => packet_doing(*state, *kind, data@) == Ok::<_, Seq<char>>(a@),
            Err(e) => packet_doing(*state, *kind, data@) == Err::<Doing, _>(e@),
        },
{
    match kind {
        PacketKind::Advertisement(flags) => {
            let f: u8 = *flags;
            if (f & 0x10u8) != 0 {
                Ok(PacketAction::Ignore)
            } else if (f & 0x08u8) != 0 {
                Ok(PacketAction::StartInbound)
            } else {
                Ok(PacketAction::Ignore)
            }
        },
        PacketKind::PartRequest => match transfer::resource_hash_from_request(data) {
            None => Err("invalid part request".to_owned()),
            Some(h) => match state {
                None => Err("no link state".to_owned()),
                Some(s) => if s.outbound.contains_key(h.as_slice()) {
                    Ok(PacketAction::ServeParts(h))
                } else {
                    Err("no outbound resource".to_owned())
                },
            },
        },
        PacketKind::HashUpdate => match transfer::resource_hash_from_hmu(data) {
            None => Err("invalid hashmap update".to_owned()),
            Some(h) => match state {
                None => Err("no link state".to_owned()),
                Some(s) => if s.inbound.contains_key(h.as_slice()) {
                    match transfer::process_hashmap_update(data) {
                        Ok((n, m)) => Ok(PacketAction::ApplyHashmap(h, n, m)),
                        Err(e) => Err(e),
                    }
                } else {
                    Err("no inbound resource".to_owned())
                },
            },
        },
        PacketKind::Part => match state {
            None => Err("no link state".to_owned()),
            Some(_) => Ok(PacketAction::FeedInbound),
        },
        PacketKind::Proof => match transfer::resource_hash_from_proof(data) {
            None => Err("invalid proof".to_owned()),
            Some(h) => match state {
                None => Err("no link state".to_owned()),
                Some(s) => if s.outbound.contains_key(h.as_slice()) {
                    Ok(PacketAction::CheckProof(h))
                } else {
                    Ok(PacketAction::Ignore)
                },
            },
        },
        PacketKind::Other => Ok(PacketAction::Ignore),
    }
}

/// The bytes of an optional identifier; none where there is no identifier.
pub open spec fn or_empty(id: Option<Seq<u8>>) -> Seq<u8> {
    match id {
        Some(b) => b,
        None => Seq::empty(),
    }
}

/// Decides what is to be done about the advertisement of a resource. Returns the
/// identifier of the request that the resource belongs to as well.
pub fn receive_advertisement(state: &Option<LinkState>, data: &[u8]) -> (r: Result<
    (PacketAction, Vec<u8>),
    String,
>)
    ensures
        match transfer::advertised(data@) {
            None => r is Err && r->Err_0@ == "invalid resource advertisement: "@ + "packet error"@,
            Some((flags, id)) => r is Ok && packet_doing(
                *state,
                PacketKind::Advertisement(flags),
                data@,
            ) == Ok::<_, Seq<char>>(r->Ok_0.0@) && r->Ok_0.1@ == or_empty(id),
        },
{
    match transfer::read_advertisement(data) {
        Ok((flags, id)) => match handle_resource_packet(
            state,
            &PacketKind::Advertisement(flags),
            data,
        ) {
            Ok(a) => Ok((a, bytes_or_empty(id))),
            Err(e) => Err(e),
        },
        Err(e) => Err(text::cat("invalid resource advertisement: ", e.as_str())),
    }
}

/// The bytes of an optional identifier; none where there is no identifier.
pub fn bytes_or_empty(id: Option<Vec<u8>>) -> (r: Vec<u8>)
    ensures
        r@ == or_empty(gitutil::bytes_view(id)),
{
    match id {
        Some(b) => b,
        None => Vec::new(),
    }
}

/// What the tick of the clock means for a resource that is being sent.
#[derive(Clone, Copy, PartialEq, Eq, Structural, Debug)]
pub enum TickAction {
    Keep,
    Advertise,
    GiveUp,
}

/// How often a resource was advertised again after a tick of the clock, if it is
/// still kept: one of which no part was sent is advertised again a few times,
/// and then given up.
pub open spec fn after_tick(retries: u8, sent_parts: nat) -> Option<u8> {
    if sent_parts > 0 {
        Some(retries)
    } else if retries < MAX_ADV_RETRIES {
        Some((retries + 1) as u8)
    } else {
        None
    }
}

/// How often a resource of which no part was sent was advertised again after `n`
/// ticks, if it is still kept.
pub open spec fn after_ticks(retries: u8, n: nat) -> Option<u8>
    decreases n,
{
    if n == 0 {
        Some(retries)
    } else {
        match after_ticks(retries, (n - 1) as nat) {
            Some(r) => after_tick(r, 0),
            None => None,
        }
    }
}

/// A resource of which no part is ever sent is advertised again as often as is
/// allowed, and is gone with the next tick.
pub proof fn law_unsent_resource_is_given_up(n: nat)
    ensures
        after_ticks(0, n) == if n <= MAX_ADV_RETRIES {
            Some(n as u8)
        } else {
            None
        },
    decreases n,
{
    if n > 0 {
        law_unsent_resource_is_given_up((n - 1) as nat);
    }
}

impl LinkState {
    /// The state of a new link.
    pub fn new() -> (r: Self)
        ensures
            r.peer is None,
            r.outbound@ == Map::<Seq<u8>, u8>::empty(),
            r.inbound@ == Map::<Seq<u8>, Vec<u8>>::empty(),
    {
        LinkState { peer: None, outbound: ByteMap::new(), inbound: ByteMap::new() }
    }

    /// The peer identified itself.
    pub fn identified(&mut self, hash: &[u8])
        ensures
            final(self).peer is Some,
            final(self).peer->0@ == hash@,
            final(self).outbound == old(self).outbound,
            final(self).inbound == old(self).inbound,
    {
        self.peer = Some(bytes::copy(hash));
    }

    /// A resource is being sent.
    pub fn sending(&mut self, hash: Vec<u8>)
        ensures
            final(self).outbound@ == old(self).outbound@.insert(hash@, 0u8),
            final(self).inbound == old(self).inbound,
            final(self).peer == old(self).peer,
    {
        self.outbound.insert(hash, 0u8);
    }

    /// A resource of a request is being received.
    pub fn receiving(&mut self, hash: Vec<u8>, request_id: Vec<u8>)
        ensures
            final(self).inbound@ == old(self).inbound@.insert(hash@, request_id),
            final(self).outbound == old(self).outbound,
            final(self).peer == old(self).peer,
    {
        self.inbound.insert(hash, request_id);
    }

    /// A resource was received whole. Returns the request that it belongs to.
    pub fn received(&mut self, hash: &[u8]) -> (r: Option<Vec<u8>>)
        ensures
            final(self).inbound@ == old(self).inbound@.remove(hash@),
            final(self).outbound == old(self).outbound,
            final(self).peer == old(self).peer,
            match r {
                Some(id) => old(self).inbound@.contains_key(hash@) && old(self).inbound@[hash@] == id,
                None => !old(self).inbound@.contains_key(hash@),
            },
    {
        self.inbound.remove(hash)
    }

    /// A part was offered to a resource that is being received. Where the resource
    /// took it and has all parts by now, it was received whole, and the request that
    /// it belongs to is returned.
    pub fn fed(&mut self, hash: &[u8], accepted: bool, all_received: bool) -> (r: Option<Vec<u8>>)
        ensures
            final(self).inbound@ == if accepted && all_received {
                old(self).inbound@.remove(hash@)
            } else {
                old(self).inbound@
            },
            final(self).outbound == old(self).outbound,
            final(self).peer == old(self).peer,
            r == if accepted && all_received && old(self).inbound@.contains_key(hash@) {
                Some(old(self).inbound@[hash@])
            } else {
                None
            },
    {
        if accepted && all_received {
            self.received(hash)
        } else {
            None
        }
    }

    /// A proof for a resource arrived. A valid one ends the sending.
    pub fn proved(&mut self, hash: &[u8], valid: bool)
        ensures
            final(self).outbound@ == if valid {
                old(self).outbound@.remove(hash@)
            } else {
                old(self).outbound@
            },
            final(self).inbound == old(self).inbound,
            final(self).peer == old(self).peer,
    {
        if valid {
            let _ = self.outbound.remove(hash);
        }
    }

    /// The clock ticked for a resource that is being sent.
    pub fn tick(&mut self, hash: &[u8], sent_parts: usize) -> (r: TickAction)
        ensures
            final(self).inbound == old(self).inbound,
            final(self).peer == old(self).peer,
            !old(self).outbound@.contains_key(hash@) ==> r == TickAction::Keep && final(self).outbound@ == old(self).outbound@,
            old(self).outbound@.contains_key(hash@) ==> match after_tick(
                old(self).outbound@[hash@],
                sent_parts as nat,
            ) {
                Some(n) => r == (if sent_parts == 0 {
                    TickAction::Advertise
                } else {
                    TickAction::Keep
                }) && final(self).outbound@ == old(self).outbound@.insert(hash@, n),
                None => r == TickAction::GiveUp && final(self).outbound@ == old(self).outbound@.remove(hash@),
            },
    {
        let retries: u8 = match self.outbound.get(hash) {
            Some(n) => *n,
            None => {
                return TickAction::Keep;
            },
        };
        if sent_parts > 0 {
            assert(self.outbound@ =~= self.outbound@.insert(hash@, retries));
            TickAction::Keep
        } else if retries < MAX_ADV_RETRIES {
            self.outbound.insert(bytes::copy(hash), retries + 1);
            TickAction::Advertise
        } else {
            let _ = self.outbound.remove(hash);
            TickAction::GiveUp
        }
    }
}

/// What happens to a link.
pub enum LinkNotice {
    Activated,
    /// The peer showed that it holds the identity with this hash.
    Identified(Vec<u8>),
    Closed,
    Request,
    Resource,
    Other,
}

/// What a notice asks for.
#[derive(Debug, Clone, Copy, PartialEq, Eq, Structural)]
pub enum NoticeAction {
    Nothing,
    HandleRequest,
    HandleResource,
}

/// Who is on the other side of a link.
pub open spec fn peer_on(links: Map<Seq<u8>, LinkState>, id: Seq<u8>) -> Option<Seq<u8>> {
    if links.contains_key(id) {
        gitutil::bytes_view(links[id].peer)
    } else {
        None
    }
}

/// Keeps the states of the links up to date, and says what a notice asks for.
/// `found` says that the link still exists: nothing is begun for one that does
/// not.
pub fn handle_event(
    links: &mut ByteMap<LinkState>,
    id: &[u8],
    notice: &LinkNotice,
    found: bool,
) -> (r: NoticeAction)
    ensures
        forall|other: Seq<u8>|
            other != id@ ==> final(links)@.contains_key(other) == old(links)@.contains_key(other)
                && #[trigger] final(links)@[other] == old(links)@[other],
        match notice {
            LinkNotice::Activated => r == NoticeAction::Nothing && if found {
                &&& final(links)@.contains_key(id@)
                &&& final(links)@[id@].peer is None
                &&& final(links)@[id@].outbound@ == Map::<Seq<u8>, u8>::empty()
                &&& final(links)@[id@].inbound@ == Map::<Seq<u8>, Vec<u8>>::empty()
            } else {
                final(links)@ == old(links)@
            },
            LinkNotice::Identified(h) => r == NoticeAction::Nothing
                && final(links)@.contains_key(id@) == old(links)@.contains_key(id@) && (old(
                links,
            )@.contains_key(id@) ==> {
                &&& peer_on(final(links)@, id@) == Some(h@)
                &&& final(links)@[id@].outbound == old(links)@[id@].outbound
                &&& final(links)@[id@].inbound == old(links)@[id@].inbound
            }),
            LinkNotice::Closed => r == NoticeAction::Nothing && final(links)@ == old(
                links,
            )@.remove(id@),
            LinkNotice::Request => r == (if found {
                NoticeAction::HandleRequest
            } else {
                NoticeAction::Nothing
            }) && final(links)@ == old(links)@,
            LinkNotice::Resource => r == (if found {
                NoticeAction::HandleResource
            } else {
                NoticeAction::Nothing
            }) && final(links)@ == old(links)@,
            LinkNotice::Other => r == NoticeAction::Nothing && final(links)@ == old(links)@,
        },
{
    match notice {
        LinkNotice::Activated => {
            if found {
                links.insert(bytes::copy(id), LinkState::new());
            }
            NoticeAction::Nothing
        },
        LinkNotice::Identified(h) => {
            if let Some(mut state) = links.remove(id) {
                state.identified(h.as_slice());
                links.insert(bytes::copy(id), state);
            }
            NoticeAction::Nothing
        },
        LinkNotice::Closed => {
            let _ = links.remove(id);
            NoticeAction::Nothing
        },
        LinkNotice::Request => if found {
            NoticeAction::HandleRequest
        } else {
            NoticeAction::Nothing
        },
        LinkNotice::Resource => if found {
            NoticeAction::HandleResource
        } else {
            NoticeAction::Nothing
        },
        LinkNotice::Other => NoticeAction::Nothing,
    }
}

// ---------------------------------------------------------------------------
// Laws
// ---------------------------------------------------------------------------

/// A peer that is not identified is told so, whatever it asks for, and nothing
/// is done for it.
pub proof fn law_unidentified_peer_is_refused(
    cfg: Cfg,
    data: Msg,
    facts: Option<Facts>,
    bundle: Seq<char>,
    stored: BundleFile,
    done: Seq<gitutil::Outcome>,
    made: Seq<Option<String>>,
)
    ensures
        list_act(cfg, None, data, facts, done) == Act::Answer(reply_not_identified()),
        fetch_act(cfg, None, data, facts, bundle, done) == Act::Answer(reply_not_identified()),
        push_act(cfg, None, data, facts, bundle, stored, done) == Act::Answer(
            reply_not_identified(),
        ),
        delete_act(cfg, None, data, facts, done) == Act::Answer(reply_not_identified()),
        create_act(cfg, None, data, facts, made) == Act::Answer(reply_not_identified()),
{
}

/// The step touches nothing: it answers, or it looks at what is on disk.
pub open spec fn harmless(a: Act) -> bool {
    a is Answer || a is Inspect
}

/// For a blocked identity nothing is ever done.
pub proof fn law_blocked_identity_is_refused(
    cfg: Cfg,
    peer: Vec<u8>,
    data: Msg,
    facts: Option<Facts>,
    bundle: Seq<char>,
    stored: BundleFile,
    done: Seq<gitutil::Outcome>,
    made: Seq<Option<String>>,
)
    requires
        blocked(cfg, peer@),
    ensures
        harmless(list_act(cfg, Some(peer), data, facts, done)),
        harmless(fetch_act(cfg, Some(peer), data, facts, bundle, done)),
        harmless(push_act(cfg, Some(peer), data, facts, bundle, stored, done)),
        harmless(delete_act(cfg, Some(peer), data, facts, done)),
        harmless(create_act(cfg, Some(peer), data, facts, made)),
{
}

/// Nothing is changed for a peer without write access.
pub proof fn law_changes_need_write_access(
    cfg: Cfg,
    peer: Vec<u8>,
    data: Msg,
    facts: Facts,
    bundle: Seq<char>,
    stored: BundleFile,
    done: Seq<gitutil::Outcome>,
)
    ensures
        gate(cfg, Some(peer), data, Some(facts)) matches Gate::Open(p, group, f) ==> !may(
            cfg,
            p,
            group,
            f,
            Perm::Write,
        ) ==> harmless(push_act(cfg, Some(peer), data, Some(facts), bundle, stored, done))
            && harmless(delete_act(cfg, Some(peer), data, Some(facts), done)),
{
}

/// To a peer that may not read it, a repository looks as one that does not
/// exist: a fetch, a listing and a push are answered the same.
pub proof fn law_unreadable_repository_is_not_found(
    cfg: Cfg,
    peer: Vec<u8>,
    data: Msg,
    facts: Facts,
    bundle: Seq<char>,
    stored: BundleFile,
    done: Seq<gitutil::Outcome>,
)
    ensures
        gate(cfg, Some(peer), data, Some(facts)) matches Gate::Open(p, group, f) ==> !may(
            cfg,
            p,
            group,
            f,
            Perm::Read,
        ) && !may(cfg, p, group, f, Perm::Write) ==> {
            &&& list_act(cfg, Some(peer), data, Some(facts), done) == Act::Answer(
                reply_not_found(),
            )
            &&& fetch_act(cfg, Some(peer), data, Some(facts), bundle, done) == Act::Answer(
                reply_not_found(),
            )
            &&& push_act(cfg, Some(peer), data, Some(facts), bundle, stored, done) == Act::Answer(
                reply_not_found(),
            )
            &&& delete_act(cfg, Some(peer), data, Some(facts), done) == Act::Answer(
                reply_not_found(),
            )
        },
{
}

} // verus!
