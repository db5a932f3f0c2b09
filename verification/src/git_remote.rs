//! The git remote helper: the line protocol between git and a repository on the
//! mesh.

use vstd::prelude::*;
use vstd::slice::slice_subrange;

use crate::bytes;
use crate::client;
use crate::client::ClientResponse;
use crate::digits;
use crate::git_cli;
use crate::gitutil;
use crate::gitutil::GitOutcome;
use crate::text;

verus! {

// ---------------------------------------------------------------------------
// Addresses
// ---------------------------------------------------------------------------

/// The address without the scheme of git's address-only form.
pub open spec fn helper_url(raw: Seq<char>) -> Seq<char> {
    match text::after(raw, "rns::"@) {
        Some(r) => r,
        None => raw,
    }
}

/// Parses the address of a remote: `rns://<hash>/<group>/<repo>`,
/// `rns::<hash>/<group>/<repo>` or `<hash>/<group>/<repo>`.
pub fn parse_url(raw: &str) -> (r: Result<(Vec<u8>, String), String>)
    ensures
        match r {
            Ok((h, p)) => client::rns_url(helper_url(raw@)) == Ok::<_, Seq<char>>((h@, p@))
                && h@.len() == 16,
            Err(e) => client::rns_url(helper_url(raw@)) == Err::<(Seq<u8>, Seq<char>), _>(e@),
        },
{
    match text::strip_prefix(raw, "rns::") {
        Some(rest) => client::parse_rns_url(rest.as_str()),
        None => client::parse_rns_url(raw),
    }
}

// ---------------------------------------------------------------------------
// Bundles
// ---------------------------------------------------------------------------

/// Position `i` holds the line feed of an empty line.
pub open spec fn empty_line_at(b: Seq<u8>, i: int) -> bool {
    0 <= i < b.len() && b[i] == 10 && (i == 0 || b[i - 1] == 10)
}

/// Position `i` holds the line feed of the first empty line.
pub open spec fn first_empty_line(b: Seq<u8>, i: int) -> bool {
    empty_line_at(b, i) && forall|j: int| 0 <= j < i ==> !(#[trigger] empty_line_at(b, j))
}

/// The pack of a bundle: what follows its first empty line.
pub open spec fn pack_of(b: Seq<u8>) -> Option<Seq<u8>> {
    if exists|i: int| first_empty_line(b, i) {
        Some(b.skip((choose|i: int| first_empty_line(b, i)) + 1))
    } else {
        None
    }
}

/// There is one first empty line.
proof fn lemma_pack_at(b: Seq<u8>, i: int)
    requires
        first_empty_line(b, i),
    ensures
        pack_of(b) == Some(b.skip(i + 1)),
{
    let k = choose|k: int| first_empty_line(b, k);
    if k < i {
        assert(empty_line_at(b, k));
    }
    if i < k {
        assert(empty_line_at(b, i));
    }
}

/// The pack of a bundle.
pub fn split_bundle(bundle: &[u8]) -> (r: Option<&[u8]>)
    ensures
        match r {
            Some(p) => pack_of(bundle@) == Some(p@),
            None => pack_of(bundle@) is None,
        },
{
    let n: usize = bundle.len();
    let mut i: usize = 0;
    while i < n
        invariant
            i <= n == bundle@.len(),
            forall|j: int| 0 <= j < i ==> !(#[trigger] empty_line_at(bundle@, j)),
        decreases n - i,
    {
        if bundle[i] == 10 && (i == 0 || bundle[i - 1] == 10) {
            let p = slice_subrange(bundle, i + 1, n);
            assert(p@ =~= bundle@.skip(i + 1));
            proof {
                assert(first_empty_line(bundle@, i as int));
                lemma_pack_at(bundle@, i as int);
            }
            return Some(p);
        }
        i = i + 1;
    }
    None
}

/// After a header without empty lines, which ends in a line feed, and an empty
/// line, the pack is found again.
pub proof fn law_pack_follows_header(header: Seq<u8>, pack: Seq<u8>)
    requires
        header.len() > 0,
        header.last() == 10,
        forall|j: int| !(#[trigger] empty_line_at(header, j)),
    ensures
        pack_of(header + seq![10u8] + pack) == Some(pack),
{
    let all = header + seq![10u8] + pack;
    let n = header.len() as int;
    assert(all[n] == 10 && all[n - 1] == header.last());
    assert(empty_line_at(all, n));
    assert forall|j: int| 0 <= j < n implies !(#[trigger] empty_line_at(all, j)) by {
        assert(all[j] == header[j]);
        if j > 0 {
            assert(all[j - 1] == header[j - 1]);
        }
        assert(!empty_line_at(header, j));
    }
    assert(first_empty_line(all, n));
    lemma_pack_at(all, n);
    assert(all.skip(n + 1) =~= pack);
}

/// What the outcome of indexing a pack means.
pub open spec fn index_result(o: gitutil::Outcome) -> Result<(), Seq<char>> {
    match o {
        gitutil::Outcome::NotRun(e) => Err(e),
        gitutil::Outcome::Exited { success, stdout, stderr } => if success {
            Ok(())
        } else {
            Err("git index-pack failed: "@ + text::trimmed(text::lossy(stderr)))
        },
    }
}

/// What the outcome of indexing a pack means.
pub fn index_bundle_into(out: &GitOutcome) -> (r: Result<(), String>)
    ensures
        gitutil::result_view(r) == index_result(out@),
{
    match out {
        GitOutcome::NotRun(e) => Err(e.clone()),
        GitOutcome::Exited { success, stderr, .. } => {
            if *success {
                return Ok(());
            }
            let s = text::from_utf8_lossy(stderr.as_slice());
            let t = text::trim(s.as_str());
            Err(text::cat("git index-pack failed: ", t.as_str()))
        },
    }
}

// ---------------------------------------------------------------------------
// Refs
// ---------------------------------------------------------------------------

/// The object and the ref on a line of a listing: an object name of 40 bytes and
/// a name under `refs/`. A line that starts with `@` names none.
pub open spec fn server_line(line: Seq<char>) -> Option<(Seq<char>, Seq<char>)> {
    let t = text::trimmed(line);
    if text::begins(t, "@"@) {
        None
    } else {
        match text::halves(t, ' ') {
            Some((sha, name)) => if vstd::utf8::encode_utf8(sha).len() == 40 && text::begins(
                name,
                "refs/"@,
            ) {
                Some((sha, name))
            } else {
                None
            },
            None => None,
        }
    }
}

/// The refs on the lines of a listing.
pub open spec fn server_pairs(lines: Seq<Seq<char>>) -> Seq<(Seq<char>, Seq<char>)>
    decreases lines.len(),
{
    if lines.len() == 0 {
        Seq::empty()
    } else {
        let before = server_pairs(lines.drop_last());
        match server_line(lines.last()) {
            Some(p) => before.push(p),
            None => before,
        }
    }
}

/// Parses the body of a listing into pairs of object name and ref name.
pub fn parse_server_refs(body: &[u8]) -> (r: Vec<(String, String)>)
    ensures
        text::pair_views(r@) == server_pairs(text::rows(text::lossy(body@))),
        forall|t: Seq<char>|
            body@ == #[trigger] vstd::utf8::encode_utf8(t) ==> text::pair_views(r@) == server_pairs(
                text::rows(t),
            ),
{
    let s = text::from_utf8_lossy(body);
    proof {
        assert forall|t: Seq<char>|
            body@ == #[trigger] vstd::utf8::encode_utf8(t) implies text::lossy(body@) == t by {
            vstd::utf8::encode_utf8_valid_utf8(t);
            vstd::utf8::encode_utf8_decode_utf8(t);
        }
    }
    let lines = text::lines(s.as_str());
    let ghost all = text::rows(text::lossy(body@));
    let mut refs: Vec<(String, String)> = Vec::new();
    let mut i: usize = 0;
    assert(all.take(0) =~= Seq::<Seq<char>>::empty());
    assert(text::pair_views(refs@) =~= Seq::empty());
    while i < lines.len()
        invariant
            i <= lines@.len(),
            all == text::views(lines@),
            text::pair_views(refs@) == server_pairs(all.take(i as int)),
        decreases lines@.len() - i,
    {
        assert(all.take(i + 1).drop_last() =~= all.take(i as int));
        assert(all.take(i + 1).last() == lines@[i as int]@);
        let line = text::trim(lines[i].as_str());
        if !text::starts_with(line.as_str(), "@") {
            if let Some((sha, name)) = text::split_once(line.as_str(), ' ') {
                let raw = text::utf8(sha.as_str());
                if raw.len() == 40 && text::starts_with(name.as_str(), "refs/") {
                    let ghost before = text::pair_views(refs@);
                    refs.push((sha, name));
                    assert(text::pair_views(refs@) =~= before.push((sha@, name@)));
                }
            }
        }
        i = i + 1;
    }
    assert(all.take(all.len() as int) =~= all);
    refs
}

proof fn lemma_server_pairs(lines: Seq<Seq<char>>)
    requires
        git_cli::ref_lines(lines),
        forall|i: int|
            0 <= i < lines.len() ==> vstd::utf8::encode_utf8(
                (text::halves(#[trigger] lines[i], ' ')->0).0,
            ).len() == 40 && text::begins((text::halves(lines[i], ' ')->0).1, "refs/"@),
    ensures
        server_pairs(lines) == Seq::new(lines.len(), |i: int| text::halves(lines[i], ' ')->0),
    decreases lines.len(),
{
    let want = Seq::new(lines.len(), |i: int| text::halves(lines[i], ' ')->0);
    if lines.len() == 0 {
        assert(want =~= Seq::empty());
    } else {
        let fewer = lines.drop_last();
        let l = lines[lines.len() - 1];
        assert forall|i: int| 0 <= i < fewer.len() implies #[trigger] fewer[i] == lines[i] by {}
        assert(git_cli::ref_lines(fewer));
        lemma_server_pairs(fewer);
        text::lemma_trimmed_already(l);
        reveal_strlit("@");
        assert(l.take(1)[0] != "@"@[0]);
        assert(!text::begins(l, "@"@));
        assert(want =~= Seq::new(fewer.len(), |i: int| text::halves(fewer[i], ' ')->0).push(
            text::halves(l, ' ')->0,
        ));
    }
}

/// The helper finds in the listing of a server the refs that the server put there,
/// in their order, and nothing for `HEAD`.
pub proof fn law_helper_reads_the_listing(lines: Seq<Seq<char>>, head: Seq<char>)
    requires
        git_cli::ref_lines(lines),
        !head.contains('\n'),
        forall|i: int|
            0 <= i < lines.len() ==> vstd::utf8::encode_utf8(
                (text::halves(#[trigger] lines[i], ' ')->0).0,
            ).len() == 40 && text::begins((text::halves(lines[i], ' ')->0).1, "refs/"@),
    ensures
        server_pairs(text::rows(gitutil::terminated(lines) + "@"@ + head + " HEAD\n"@)) == Seq::new(
            lines.len(),
            |i: int| text::halves(lines[i], ' ')->0,
        ),
{
    git_cli::lemma_whole_listing(lines, head);
    lemma_server_pairs(lines);
    reveal_strlit("@");
    reveal_strlit(" HEAD");
    let last = "@"@ + head + " HEAD"@;
    let all = lines + seq![last];
    assert(all.drop_last() =~= lines);
    assert(all[all.len() - 1] == last);
    assert(last.last() == 'D' && last[0] == '@');
    text::lemma_trimmed_already(last);
    assert(last.take(1) =~= "@"@);
}

/// The lines that are not empty, each without the white space around it.
pub open spec fn full_lines(lines: Seq<Seq<char>>) -> Seq<Seq<char>>
    decreases lines.len(),
{
    if lines.len() == 0 {
        Seq::empty()
    } else {
        let before = full_lines(lines.drop_last());
        let t = text::trimmed(lines.last());
        if t.len() == 0 {
            before
        } else {
            before.push(t)
        }
    }
}

/// The lines of some output that are not empty, without the white space around
/// them.
pub fn output_lines(out: &[u8]) -> (r: Vec<String>)
    ensures
        text::views(r@) == full_lines(text::rows(text::lossy(out@))),
{
    let s = text::from_utf8_lossy(out);
    let lines = text::lines(s.as_str());
    let ghost all = text::rows(text::lossy(out@));
    let mut kept: Vec<String> = Vec::new();
    let mut i: usize = 0;
    assert(all.take(0) =~= Seq::<Seq<char>>::empty());
    assert(text::views(kept@) =~= Seq::empty());
    while i < lines.len()
        invariant
            i <= lines@.len(),
            all == text::views(lines@),
            text::views(kept@) == full_lines(all.take(i as int)),
        decreases lines@.len() - i,
    {
        assert(all.take(i + 1).drop_last() =~= all.take(i as int));
        assert(all.take(i + 1).last() == lines@[i as int]@);
        let line = text::trim(lines[i].as_str());
        if !line.as_str().is_empty() {
            let ghost before = text::views(kept@);
            kept.push(line);
            assert(text::views(kept@) =~= before.push(line@));
        }
        i = i + 1;
    }
    assert(all.take(all.len() as int) =~= all);
    kept
}

/// The objects of the local refs, by what git listed.
pub open spec fn have_result(git_dir: bool, o: gitutil::Outcome) -> Result<
    Seq<Seq<char>>,
    Seq<char>,
> {
    if !git_dir {
        Err("GIT_DIR is not set"@)
    } else {
        match o {
            gitutil::Outcome::NotRun(e) => Err("could not run git: "@ + e),
            gitutil::Outcome::Exited { success, stdout, stderr } => if success {
                Ok(full_lines(text::rows(text::lossy(stdout))))
            } else {
                Err(text::trimmed(text::lossy(stderr)))
            },
        }
    }
}

/// The objects of the local refs, by what git listed. `git_dir` says whether git
/// named its directory.
pub fn local_have_shas(git_dir: bool, out: &GitOutcome) -> (r: Result<Vec<String>, String>)
    ensures
        match r {
            Ok(v) => have_result(git_dir, out@) == Ok::<_, Seq<char>>(text::views(v@)),
            Err(e) => have_result(git_dir, out@) == Err::<Seq<Seq<char>>, _>(e@),
        },
{
    if !git_dir {
        return Err("GIT_DIR is not set".to_owned());
    }
    match out {
        GitOutcome::NotRun(e) => Err(text::cat("could not run git: ", e.as_str())),
        GitOutcome::Exited { success, stdout, stderr } => {
            if *success {
                Ok(output_lines(stdout.as_slice()))
            } else {
                let s = text::from_utf8_lossy(stderr.as_slice());
                Err(text::trim(s.as_str()))
            }
        },
    }
}

/// The parts of a push specification: whether it is forced, the source and the
/// destination.
pub open spec fn push_spec(s: Seq<char>) -> Result<(bool, Seq<char>, Seq<char>), Seq<char>> {
    let (force, rest) = match text::after(s, "+"@) {
        Some(r) => (true, r),
        None => (false, s),
    };
    match text::halves(rest, ':') {
        Some((src, dst)) => Ok((force, src, dst)),
        None => Err("invalid push spec: "@ + rest),
    }
}

/// Parses a push specification.
pub fn parse_push_spec(s: &str) -> (r: Result<(bool, String, String), String>)
    ensures
        match r {
            Ok((f, a, b)) => push_spec(s@) == Ok::<_, Seq<char>>((f, a@, b@)),
            Err(e) => push_spec(s@) == Err::<(bool, Seq<char>, Seq<char>), _>(e@),
        },
{
    let (force, rest) = match text::strip_prefix(s, "+") {
        Some(r) => (true, r),
        None => (false, s.to_owned()),
    };
    match text::split_once(rest.as_str(), ':') {
        Some((src, dst)) => Ok((force, src, dst)),
        None => Err(text::cat("invalid push spec: ", rest.as_str())),
    }
}

/// A specification that is put together from its parts is read back, if the
/// source holds no colon and does not look forced.
pub proof fn law_push_spec_round_trip(force: bool, src: Seq<char>, dst: Seq<char>)
    requires
        !src.contains(':'),
        !text::begins(src + ":"@ + dst, "+"@),
    ensures
        push_spec((if force { "+"@ } else { Seq::empty() }) + (src + ":"@ + dst)) == Ok::<
            _,
            Seq<char>,
        >((force, src, dst)),
{
    reveal_strlit(":");
    reveal_strlit("+");
    let rest = src + ":"@ + dst;
    let n = src.len() as int;
    assert(rest[n] == ':');
    assert forall|j: int| 0 <= j < n implies rest[j] != ':' by {
        assert(rest[j] == src[j]);
        assert(src.contains(src[j]));
    }
    text::lemma_first_is(rest, ':', n);
    assert(rest.take(n) =~= src);
    assert(rest.skip(n + 1) =~= dst);
    if force {
        let all = "+"@ + rest;
        assert(all.take(1) =~= "+"@);
        assert(all.skip(1) =~= rest);
    } else {
        assert(Seq::<char>::empty() + rest =~= rest);
    }
}

/// The object and the ref of a line that asks to fetch.
pub open spec fn fetch_line(rest: Seq<char>) -> Result<(Seq<char>, Seq<char>), Seq<char>> {
    match text::halves(rest, ' ') {
        Some(p) => Ok(p),
        None => Err("invalid fetch line"@),
    }
}

/// Parses a line that asks to fetch.
pub fn parse_fetch_line(rest: &str) -> (r: Result<(String, String), String>)
    ensures
        match r {
            Ok(p) => fetch_line(rest@) == Ok::<_, Seq<char>>(text::pair_view(p)),
            Err(e) => fetch_line(rest@) == Err::<(Seq<char>, Seq<char>), _>(e@),
        },
{
    match text::split_once(rest, ' ') {
        Some(p) => Ok(p),
        None => Err("invalid fetch line".to_owned()),
    }
}

// ---------------------------------------------------------------------------
// The helper
// ---------------------------------------------------------------------------

/// What the helper is reading.
#[derive(Debug)]
pub enum Mode {
    Commands,
    FetchBatch(Vec<(String, String)>),
    PushBatch(Vec<String>),
}

/// What the helper is reading, over sequences.
pub enum Reading {
    Commands,
    FetchBatch(Seq<(Seq<char>, Seq<char>)>),
    PushBatch(Seq<Seq<char>>),
}

impl View for Mode {
    type V = Reading;

    open spec fn view(&self) -> Reading {
        match self {
            Mode::Commands => Reading::Commands,
            Mode::FetchBatch(b) => Reading::FetchBatch(text::pair_views(b@)),
            Mode::PushBatch(b) => Reading::PushBatch(text::views(b@)),
        }
    }
}

/// The state of the helper.
#[derive(Debug)]
pub struct Helper {
    pub repo: String,
    /// A push is said to succeed without being sent.
    pub dry_run: bool,
    pub verbosity: u8,
    /// The refs that the server listed last.
    pub server_refs: Vec<(String, String)>,
    pub mode: Mode,
}

/// What the helper wants done.
#[derive(Debug)]
pub enum HelperAction {
    /// Read the next line.
    Continue,
    /// Write this.
    Write(String),
    /// Ask the server for its refs, for a push or not.
    List(bool),
    /// Fetch these.
    Fetch(Vec<(String, String)>),
    /// Push these specifications.
    Push(Vec<String>),
    Stop,
}

/// What the helper wants done, over sequences.
pub enum Wish {
    Continue,
    Write(Seq<char>),
    List(bool),
    Fetch(Seq<(Seq<char>, Seq<char>)>),
    Push(Seq<Seq<char>>),
    Stop,
}

impl View for HelperAction {
    type V = Wish;

    open spec fn view(&self) -> Wish {
        match self {
            HelperAction::Continue => Wish::Continue,
            HelperAction::Write(s) => Wish::Write(s@),
            HelperAction::List(b) => Wish::List(*b),
            HelperAction::Fetch(b) => Wish::Fetch(text::pair_views(b@)),
            HelperAction::Push(b) => Wish::Push(text::views(b@)),
            HelperAction::Stop => Wish::Stop,
        }
    }
}

/// What an option line sets: the verbosity and whether pushes are dry, and
/// whether the option is supported.
pub open spec fn option_effect(rest: Seq<char>, verbosity: u8, dry_run: bool) -> (u8, bool, bool) {
    let (name, value) = match text::halves(rest, ' ') {
        Some(p) => p,
        None => (rest, Seq::empty()),
    };
    if name == "verbosity"@ {
        (
            match digits::unsigned(value, 255) {
                Some(n) => n as u8,
                None => 1,
            },
            dry_run,
            true,
        )
    } else if name == "dry-run"@ {
        (verbosity, value == "true"@, true)
    } else {
        (
            verbosity,
            dry_run,
            name == "progress"@ || name == "followtags"@ || name == "cloning"@ || name
                == "update-shallow"@ || name == "refetch"@ || name == "force"@ || name
                == "atomic"@ || name == "push-cert"@ || name == "push-option"@,
        )
    }
}

/// What the helper does about a line, or the end of the input, while it reads
/// commands, and what it reads next. The options are left aside.
pub open spec fn command_effect(line: Option<Seq<char>>) -> Result<(Wish, Reading), Seq<char>> {
    match line {
        None => Ok((Wish::Stop, Reading::Commands)),
        Some(l) => if l.len() == 0 {
            Ok((Wish::Stop, Reading::Commands))
        } else if l == "capabilities"@ {
            Ok((Wish::Write("fetch\npush\noption\n\n"@), Reading::Commands))
        } else if l == "list"@ {
            Ok((Wish::List(false), Reading::Commands))
        } else if l == "list for-push"@ {
            Ok((Wish::List(true), Reading::Commands))
        } else {
            match (text::after(l, "fetch "@), text::after(l, "push "@)) {
                (Some(rest), _) => match fetch_line(rest) {
                    Ok(p) => Ok((Wish::Continue, Reading::FetchBatch(seq![p]))),
                    Err(e) => Err(e),
                },
                (None, Some(rest)) => Ok((Wish::Continue, Reading::PushBatch(seq![rest]))),
                (None, None) => Err("unknown command: "@ + l),
            }
        },
    }
}

/// What the helper does about a line in a batch of fetches.
pub open spec fn fetch_effect(batch: Seq<(Seq<char>, Seq<char>)>, line: Option<Seq<char>>) -> Result<
    (Wish, Reading),
    Seq<char>,
> {
    match line {
        None => Err("unexpected EOF in fetch batch"@),
        Some(l) => if l.len() == 0 {
            Ok((Wish::Fetch(batch), Reading::Commands))
        } else {
            match text::after(l, "fetch "@) {
                Some(rest) => match fetch_line(rest) {
                    Ok(p) => Ok((Wish::Continue, Reading::FetchBatch(batch.push(p)))),
                    Err(e) => Err(e),
                },
                None => Err("unexpected line in fetch batch: "@ + l),
            }
        },
    }
}

/// What the helper does about a line in a batch of pushes. Options in it are
/// passed over.
pub open spec fn push_effect(batch: Seq<Seq<char>>, line: Option<Seq<char>>) -> Result<
    (Wish, Reading),
    Seq<char>,
> {
    match line {
        None => Err("unexpected EOF in push batch"@),
        Some(l) => if l.len() == 0 {
            Ok((Wish::Push(batch), Reading::Commands))
        } else {
            match text::after(l, "push "@) {
                Some(rest) => Ok((Wish::Continue, Reading::PushBatch(batch.push(rest)))),
                None => if text::begins(l, "option "@) {
                    Ok((Wish::Continue, Reading::PushBatch(batch)))
                } else {
                    Err("unexpected line in push batch: "@ + l)
                },
            }
        },
    }
}

/// A line that sets an option while commands are read.
pub open spec fn is_option(mode: Reading, line: Option<Seq<char>>) -> bool {
    mode is Commands && line is Some && text::begins(line->0, "option "@)
}

/// What the helper does about a line, and what it reads next.
pub open spec fn line_effect(mode: Reading, line: Option<Seq<char>>) -> Result<
    (Wish, Reading),
    Seq<char>,
> {
    match mode {
        Reading::Commands => command_effect(line),
        Reading::FetchBatch(b) => fetch_effect(b, line),
        Reading::PushBatch(b) => push_effect(b, line),
    }
}

impl Helper {
    /// A helper for a repository.
    pub fn new(repo: String) -> (r: Self)
        ensures
            r.repo == repo,
            !r.dry_run,
            r.verbosity == 1,
            r.server_refs@.len() == 0,
            r.mode@ == Reading::Commands,
    {
        Helper {
            repo,
            dry_run: false,
            verbosity: 1,
            server_refs: Vec::new(),
            mode: Mode::Commands,
        }
    }

    /// Takes an option line, without the word `option`. Returns the answer.
    pub fn handle_option(&mut self, rest: &str) -> (r: String)
        ensures
            ({
                let (v, d, ok) = option_effect(rest@, old(self).verbosity, old(self).dry_run);
                &&& final(self).verbosity == v
                &&& final(self).dry_run == d
                &&& r@ == if ok {
                    "ok\n"@
                } else {
                    "unsupported\n"@
                }
            }),
            final(self).repo == old(self).repo,
            final(self).server_refs == old(self).server_refs,
            final(self).mode == old(self).mode,
    {
        let (name, value) = match text::split_once(rest, ' ') {
            Some(p) => p,
            None => (rest.to_owned(), String::new()),
        };
        let n = name.as_str();
        let supported = if text::same(n, "verbosity") {
            self.verbosity = match digits::parse_unsigned(value.as_str(), 255) {
                Some(x) => x as u8,
                None => 1,
            };
            true
        } else if text::same(n, "dry-run") {
            self.dry_run = text::same(value.as_str(), "true");
            true
        } else {
            text::same(n, "progress") || text::same(n, "followtags") || text::same(n, "cloning")
                || text::same(n, "update-shallow") || text::same(n, "refetch") || text::same(
                n,
                "force",
            ) || text::same(n, "atomic") || text::same(n, "push-cert") || text::same(
                n,
                "push-option",
            )
        };
        if supported {
            "ok\n".to_owned()
        } else {
            "unsupported\n".to_owned()
        }
    }

    /// Takes a line of the input, or its end. An error leaves the helper as it
    /// was.
    pub fn run(&mut self, line: Option<&str>) -> (r: Result<HelperAction, String>)
        ensures
            final(self).repo == old(self).repo,
            final(self).server_refs == old(self).server_refs,
            is_option(old(self).mode@, gitutil::option_view(line)) ==> {
                let rest = line->0@.skip("option "@.len() as int);
                let (v, d, ok) = option_effect(rest, old(self).verbosity, old(self).dry_run);
                &&& final(self).verbosity == v
                &&& final(self).dry_run == d
                &&& final(self).mode@ == Reading::Commands
                &&& r is Ok
                &&& r->Ok_0@ == Wish::Write(
                    if ok {
                        "ok\n"@
                    } else {
                        "unsupported\n"@
                    },
                )
            },
            !is_option(old(self).mode@, gitutil::option_view(line)) ==> {
                &&& final(self).verbosity == old(self).verbosity
                &&& final(self).dry_run == old(self).dry_run
                &&& match line_effect(old(self).mode@, gitutil::option_view(line)) {
                    Ok((w, m)) => r is Ok && r->Ok_0@ == w && final(self).mode@ == m,
                    Err(e) => r is Err && r->Err_0@ == e && final(self).mode@ == old(self).mode@,
                }
            },
    {
        let mut mode = Mode::Commands;
        std::mem::swap(&mut mode, &mut self.mode);
        match mode {
            Mode::Commands => self.command_line(line),
            Mode::FetchBatch(batch) => {
                let ghost before = text::pair_views(batch@);
                let l = match line {
                    Some(l) => l,
                    None => {
                        self.mode = Mode::FetchBatch(batch);
                        return Err("unexpected EOF in fetch batch".to_owned());
                    },
                };
                if l.is_empty() {
                    return Ok(HelperAction::Fetch(batch));
                }
                match text::strip_prefix(l, "fetch ") {
                    Some(rest) => match parse_fetch_line(rest.as_str()) {
                        Ok(p) => {
                            let mut batch = batch;
                            batch.push(p);
                            assert(text::pair_views(batch@) =~= before.push(text::pair_view(p)));
                            self.mode = Mode::FetchBatch(batch);
                            Ok(HelperAction::Continue)
                        },
                        Err(e) => {
                            self.mode = Mode::FetchBatch(batch);
                            Err(e)
                        },
                    },
                    None => {
                        self.mode = Mode::FetchBatch(batch);
                        Err(text::cat("unexpected line in fetch batch: ", l))
                    },
                }
            },
            Mode::PushBatch(batch) => {
                let ghost before = text::views(batch@);
                let l = match line {
                    Some(l) => l,
                    None => {
                        self.mode = Mode::PushBatch(batch);
                        return Err("unexpected EOF in push batch".to_owned());
                    },
                };
                if l.is_empty() {
                    return Ok(HelperAction::Push(batch));
                }
                match text::strip_prefix(l, "push ") {
                    Some(rest) => {
                        let mut batch = batch;
                        batch.push(rest);
                        assert(text::views(batch@) =~= before.push(rest@));
                        self.mode = Mode::PushBatch(batch);
                        Ok(HelperAction::Continue)
                    },
                    None => {
                        self.mode = Mode::PushBatch(batch);
                        if text::starts_with(l, "option ") {
                            Ok(HelperAction::Continue)
                        } else {
                            Err(text::cat("unexpected line in push batch: ", l))
                        }
                    },
                }
            },
        }
    }

    fn command_line(&mut self, line: Option<&str>) -> (r: Result<HelperAction, String>)
        requires
            old(self).mode@ == Reading::Commands,
        ensures
            final(self).repo == old(self).repo,
            final(self).server_refs == old(self).server_refs,
            is_option(Reading::Commands, gitutil::option_view(line)) ==> {
                let rest = line->0@.skip("option "@.len() as int);
                let (v, d, ok) = option_effect(rest, old(self).verbosity, old(self).dry_run);
                &&& final(self).verbosity == v
                &&& final(self).dry_run == d
                &&& final(self).mode@ == Reading::Commands
                &&& r is Ok
                &&& r->Ok_0@ == Wish::Write(
                    if ok {
                        "ok\n"@
                    } else {
                        "unsupported\n"@
                    },
                )
            },
            !is_option(Reading::Commands, gitutil::option_view(line)) ==> {
                &&& final(self).verbosity == old(self).verbosity
                &&& final(self).dry_run == old(self).dry_run
                &&& match command_effect(gitutil::option_view(line)) {
                    Ok((w, m)) => r is Ok && r->Ok_0@ == w && final(self).mode@ == m,
                    Err(e) => r is Err && r->Err_0@ == e && final(self).mode@ == Reading::Commands,
                }
            },
    {
        let l = match line {
            Some(l) => l,
            None => {
                return Ok(HelperAction::Stop);
            },
        };
        proof {
            reveal_strlit("option ");
            reveal_strlit("capabilities");
            reveal_strlit("list");
            reveal_strlit("list for-push");
            assert("capabilities"@[0] == 'c' && "list"@[0] == 'l' && "list for-push"@[0] == 'l');
            if text::begins(l@, "option "@) {
                assert(l@.take(7)[0] == 'o');
                assert(l@[0] == 'o');
            }
        }
        if l.is_empty() {
            return Ok(HelperAction::Stop);
        }
        if text::same(l, "capabilities") {
            return Ok(HelperAction::Write("fetch\npush\noption\n\n".to_owned()));
        }
        if text::same(l, "list") {
            return Ok(HelperAction::List(false));
        }
        if text::same(l, "list for-push") {
            return Ok(HelperAction::List(true));
        }
        if let Some(rest) = text::strip_prefix(l, "option ") {
            let answer = self.handle_option(rest.as_str());
            return Ok(HelperAction::Write(answer));
        }
        if let Some(rest) = text::strip_prefix(l, "fetch ") {
            return match parse_fetch_line(rest.as_str()) {
                Ok(p) => {
                    let mut batch: Vec<(String, String)> = Vec::new();
                    batch.push(p);
                    assert(text::pair_views(batch@) =~= seq![text::pair_view(p)]);
                    self.mode = Mode::FetchBatch(batch);
                    Ok(HelperAction::Continue)
                },
                Err(e) => Err(e),
            };
        }
        if let Some(rest) = text::strip_prefix(l, "push ") {
            let mut batch: Vec<String> = Vec::new();
            batch.push(rest);
            assert(text::views(batch@) =~= seq![rest@]);
            self.mode = Mode::PushBatch(batch);
            return Ok(HelperAction::Continue);
        }
        Err(text::cat("unknown command: ", l))
    }
}

// ---------------------------------------------------------------------------
// Carrying commands out
// ---------------------------------------------------------------------------

/// What git is told of the refs of the server, and which refs are kept: each
/// line of the listing that is not empty, and an empty line.
pub open spec fn list_result(r: client::Reply) -> Result<
    (Seq<char>, Seq<(Seq<char>, Seq<char>)>),
    Seq<char>,
> {
    match r {
        client::Reply::Resource(_) => Err("unexpected resource response"@),
        client::Reply::Bytes(b) => if !client::succeeds(b) {
            Err(client::server_error(b))
        } else {
            let lines = text::rows(text::lossy(b.skip(1)));
            Ok((gitutil::terminated(full_lines(lines)) + seq!['\n'], server_pairs(lines)))
        },
    }
}

impl Helper {
    /// Takes the response to a request for the refs. Returns what git is told. The
    /// refs are kept where they were asked for with a push in mind.
    pub fn do_list(&mut self, resp: &ClientResponse, for_push: bool) -> (r: Result<
        String,
        String,
    >)
        ensures
            final(self).repo == old(self).repo,
            final(self).dry_run == old(self).dry_run,
            final(self).verbosity == old(self).verbosity,
            final(self).mode == old(self).mode,
            match list_result(resp@) {
                Ok((t, refs)) => r is Ok && r->Ok_0@ == t && if for_push {
                    text::pair_views(final(self).server_refs@) == refs
                } else {
                    final(self).server_refs == old(self).server_refs
                },
                Err(e) => r is Err && r->Err_0@ == e && final(self).server_refs == old(
                    self).server_refs,
            },
    {
        let b = match resp {
            ClientResponse::Bytes(b) => b,
            ClientResponse::Resource(_) => {
                return Err("unexpected resource response".to_owned());
            },
        };
        if !client::is_success(b.as_slice()) {
            return Err(client::server_error_text(b.as_slice()));
        }
        let body = bytes::cut(b.as_slice(), 1, b.len());
        assert(body@ =~= b@.skip(1));
        if for_push {
            self.server_refs = parse_server_refs(body.as_slice());
        }
        let lines = output_lines(body.as_slice());
        let ghost all = text::views(lines@);
        let mut out = String::new();
        let mut i: usize = 0;
        assert(all.take(0) =~= Seq::<Seq<char>>::empty());
        while i < lines.len()
            invariant
                i <= lines@.len(),
                all == text::views(lines@),
                out@ =~= gitutil::terminated(all.take(i as int)),
            decreases lines@.len() - i,
        {
            assert(all.take(i + 1).drop_last() =~= all.take(i as int));
            assert(all.take(i + 1).last() == lines@[i as int]@);
            out.append(lines[i].as_str());
            out.push('\n');
            i = i + 1;
        }
        assert(all.take(all.len() as int) =~= all);
        out.push('\n');
        assert(out@ =~= gitutil::terminated(all) + seq!['\n']);
        Ok(out)
    }

    /// Takes the response to a fetch. Returns the pack to be indexed, if there is
    /// one.
    pub fn do_fetch(resp: &ClientResponse) -> (r: Result<Option<Vec<u8>>, String>)
        ensures
            match client::bundle_result(resp@) {
                Err(e) => r is Err && r->Err_0@ == e,
                Ok(None) => r is Ok && r->Ok_0 is None,
                Ok(Some(b)) => match pack_of(b) {
                    Some(p) => r is Ok && r->Ok_0 is Some && (r->Ok_0->0)@ == p,
                    None => r is Err && r->Err_0@ == "invalid bundle: missing pack section"@,
                },
            },
    {
        match client::fetched_bundle(resp) {
            Err(e) => Err(e),
            Ok(None) => Ok(None),
            Ok(Some(b)) => match split_bundle(b.as_slice()) {
                Some(p) => Ok(Some(bytes::copy(p))),
                None => Err("invalid bundle: missing pack section".to_owned()),
            },
        }
    }
}

/// How a push is carried out.
#[derive(Clone, Copy, PartialEq, Eq, Structural, Debug)]
pub enum PushPlan {
    /// Nothing is sent.
    Pretend,
    /// The destination is deleted.
    Delete,
    /// A bundle of the source is sent.
    SendBundle,
}

/// Decides how a push is carried out: without a source, the destination is
/// deleted.
pub fn push_plan(git_dir: bool, dry_run: bool, src: &str) -> (r: Result<PushPlan, String>)
    ensures
        match r {
            Err(e) => !git_dir && e@ == "GIT_DIR is not set"@,
            Ok(p) => git_dir && p == if dry_run {
                PushPlan::Pretend
            } else if src@.len() == 0 {
                PushPlan::Delete
            } else {
                PushPlan::SendBundle
            },
        },
{
    if !git_dir {
        return Err("GIT_DIR is not set".to_owned());
    }
    if dry_run {
        Ok(PushPlan::Pretend)
    } else if src.is_empty() {
        Ok(PushPlan::Delete)
    } else {
        Ok(PushPlan::SendBundle)
    }
}

/// What git is told of a push.
pub fn push_report(dst: &str, result: &Result<(), String>) -> (r: String)
    ensures
        r@ == match *result {
            Ok(_) => "ok "@ + dst@ + "\n"@,
            Err(e) => "error "@ + dst@ + " "@ + e@ + "\n"@,
        },
{
    match result {
        Ok(()) => text::cat3("ok ", dst, "\n"),
        Err(e) => {
            let mut r = text::cat3("error ", dst, " ");
            r.append(e.as_str());
            r.append("\n");
            r
        },
    }
}

} // verus!
