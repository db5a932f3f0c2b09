//! Git on the server and in a working repository.
//!
//! Names are checked here, and the git commands are chosen here. Running git is
//! left to the caller: a function that needs git takes the outcomes of the
//! commands that it asked for so far, and returns either the next command or
//! its result.

use vstd::prelude::*;

use crate::digits;
use crate::text;

verus! {

// ---------------------------------------------------------------------------
// Names
// ---------------------------------------------------------------------------

/// Characters that no ref name holds.
pub open spec fn bad_ref_char(c: char) -> bool {
    ||| (c as u32) < 40
    ||| c == '\u{7f}'
    ||| c == '\\'
    ||| c == '~'
    ||| c == '^'
    ||| c == ':'
    ||| c == '?'
    ||| c == '*'
    ||| c == '['
    ||| c == '@'
}

/// The ref names that are accepted.
pub open spec fn ref_ok(s: Seq<char>) -> bool {
    &&& s.contains('/')
    &&& s[0] != '-' && s[0] != '/'
    &&& s.last() != '/' && s.last() != '.'
    &&& !text::holds(s, ".."@)
    &&& !text::holds(s, "/."@)
    &&& !text::holds(s, "//"@)
    &&& forall|i: int|
        0 <= i < text::pieces(s, '/').len() ==> !text::ends(
            #[trigger] text::pieces(s, '/')[i],
            ".lock"@,
        )
    &&& forall|i: int| 0 <= i < s.len() ==> !bad_ref_char(#[trigger] s[i])
}

/// The object names that are accepted: 40 hexadecimal digits.
pub open spec fn sha_ok(s: Seq<char>) -> bool {
    &&& s.len() == 40
    &&& forall|i: int| 0 <= i < s.len() ==> digits::is_hex(#[trigger] s[i])
}

/// The group and the repository of a path: two names with a slash between them,
/// each of one to 256 bytes.
pub open spec fn repository_path(s: Seq<char>) -> Option<(Seq<char>, Seq<char>)> {
    match text::halves(s, '/') {
        Some((group, repo)) => if !repo.contains('/') && group.len() > 0 && repo.len() > 0
            && vstd::utf8::encode_utf8(group).len() <= 256 && vstd::utf8::encode_utf8(repo).len()
            <= 256 {
            Some((group, repo))
        } else {
            None
        },
        None => None,
    }
}

fn is_bad_ref_char(c: char) -> (r: bool)
    ensures
        r == bad_ref_char(c),
{
    (c as u32) < 40 || c == '\u{7f}' || c == '\\' || c == '~' || c == '^' || c == ':' || c == '?'
        || c == '*' || c == '[' || c == '@'
}

/// Accepts a ref name.
pub fn san_ref(ref_name: &str) -> (r: Option<&str>)
    ensures
        match r {
            Some(s) => s@ == ref_name@ && ref_ok(ref_name@),
            None => !ref_ok(ref_name@),
        },
{
    if !text::contains_char(ref_name, '/') {
        return None;
    }
    let v = text::chars(ref_name);
    let n: usize = v.len();
    assert(n > 0);
    if v[0] == '-' || v[0] == '/' || v[n - 1] == '/' || v[n - 1] == '.' {
        return None;
    }
    if text::contains(ref_name, "..") || text::contains(ref_name, "/.") || text::contains(
        ref_name,
        "//",
    ) {
        return None;
    }
    let comps = text::split(ref_name, '/');
    let mut i: usize = 0;
    while i < comps.len()
        invariant
            i <= comps@.len(),
            text::views(comps@) == text::pieces(ref_name@, '/'),
            forall|j: int|
                0 <= j < i ==> !text::ends(#[trigger] text::pieces(ref_name@, '/')[j], ".lock"@),
        decreases comps@.len() - i,
    {
        if text::ends_with(comps[i].as_str(), ".lock") {
            assert(text::ends(text::pieces(ref_name@, '/')[i as int], ".lock"@));
            return None;
        }
        i = i + 1;
    }
    let mut i: usize = 0;
    while i < n
        invariant
            i <= n == v@.len(),
            v@ == ref_name@,
            forall|j: int| 0 <= j < i ==> !bad_ref_char(#[trigger] ref_name@[j]),
        decreases n - i,
    {
        if is_bad_ref_char(v[i]) {
            assert(bad_ref_char(ref_name@[i as int]));
            return None;
        }
        i = i + 1;
    }
    Some(ref_name)
}

/// Accepts a git object name.
pub fn san_sha(sha: &str) -> (r: Option<&str>)
    ensures
        match r {
            Some(s) => s@ == sha@ && sha_ok(sha@),
            None => !sha_ok(sha@),
        },
{
    if sha.unicode_len() == 40 && digits::all_hex(sha) {
        Some(sha)
    } else {
        None
    }
}

/// Splits the path of a repository, `group/repo`.
pub fn parse_request_repository_path(path: &str) -> (r: Option<(&str, &str)>)
    ensures
        match r {
            Some((g, p)) => repository_path(path@) == Some((g@, p@)),
            None => repository_path(path@) is None,
        },
{
    let v = text::chars(path);
    let n: usize = v.len();
    assert(v@.skip(0) =~= v@);
    match text::find_from(v.as_slice(), 0, '/') {
        Some(i) => {
            let group = path.substring_char(0, i);
            let repo = path.substring_char(i + 1, n);
            assert(group@ =~= path@.take(i as int));
            assert(repo@ =~= path@.skip(i + 1));
            let slash = text::contains_char(repo, '/');
            let g = group.as_bytes();
            let p = repo.as_bytes();
            if slash || group.is_empty() || repo.is_empty() || g.len() > 256 || p.len() > 256 {
                None
            } else {
                Some((group, repo))
            }
        },
        None => None,
    }
}

// ---------------------------------------------------------------------------
// Commands
// ---------------------------------------------------------------------------

/// How a git command went: it could not be run, or it ended.
#[derive(Debug)]
pub enum GitOutcome {
    NotRun(String),
    Exited { success: bool, stdout: Vec<u8>, stderr: Vec<u8> },
}

/// How a git command went, over sequences.
pub enum Outcome {
    NotRun(Seq<char>),
    Exited { success: bool, stdout: Seq<u8>, stderr: Seq<u8> },
}

impl View for GitOutcome {
    type V = Outcome;

    open spec fn view(&self) -> Outcome {
        match self {
            GitOutcome::NotRun(e) => Outcome::NotRun(e@),
            GitOutcome::Exited { success, stdout, stderr } => Outcome::Exited {
                success: *success,
                stdout: stdout@,
                stderr: stderr@,
            },
        }
    }
}

/// The views of a sequence of outcomes.
pub open spec fn outcomes(v: Seq<GitOutcome>) -> Seq<Outcome> {
    Seq::new(v.len(), |i: int| v[i]@)
}

/// What comes next: a git command to run, by its arguments, or the result.
#[derive(Debug)]
pub enum Step<T> {
    Run(Vec<String>),
    Done(T),
}

/// What comes next, over sequences.
pub enum Next<T> {
    Run(Seq<Seq<char>>),
    Done(T),
}

/// A text as an error, over sequences.
pub open spec fn result_view(r: Result<(), String>) -> Result<(), Seq<char>> {
    match r {
        Ok(()) => Ok(()),
        Err(e) => Err(e@),
    }
}

/// A step that ends in a truth value.
pub open spec fn bool_step(s: Step<bool>) -> Next<bool> {
    match s {
        Step::Run(a) => Next::Run(text::views(a@)),
        Step::Done(b) => Next::Done(b),
    }
}

/// A step that ends in nothing or an error.
pub open spec fn unit_step(s: Step<Result<(), String>>) -> Next<Result<(), Seq<char>>> {
    match s {
        Step::Run(a) => Next::Run(text::views(a@)),
        Step::Done(r) => Next::Done(result_view(r)),
    }
}

/// The command ran and succeeded.
pub open spec fn succeeded(o: Outcome) -> bool {
    o matches Outcome::Exited { success, .. } && success
}

/// The words of a command.
pub fn words(list: &[&str]) -> (r: Vec<String>)
    ensures
        text::views(r@) == Seq::new(list@.len(), |i: int| list@[i]@),
{
    let mut r: Vec<String> = Vec::new();
    let mut i: usize = 0;
    while i < list.len()
        invariant
            i <= list@.len(),
            r@.len() == i,
            forall|j: int| 0 <= j < i ==> (#[trigger] r@[j])@ == list@[j]@,
        decreases list@.len() - i,
    {
        r.push(list[i].to_owned());
        i = i + 1;
    }
    assert(text::views(r@) =~= Seq::new(list@.len(), |i: int| list@[i]@));
    r
}

impl GitOutcome {
    /// Whether the command ran and succeeded.
    pub fn succeeded(&self) -> (r: bool)
        ensures
            r == succeeded(self@),
    {
        match self {
            GitOutcome::NotRun(_) => false,
            GitOutcome::Exited { success, .. } => *success,
        }
    }
}

/// What a command that must succeed leads to: nothing more, or an error that
/// starts with `what` and ends in what git wrote.
pub open spec fn must_succeed(o: Outcome, what: Seq<char>) -> Result<(), Seq<char>> {
    match o {
        Outcome::NotRun(e) => Err("could not run git: "@ + e),
        Outcome::Exited { success, stdout, stderr } => if success {
            Ok(())
        } else {
            Err(what + text::lossy(stderr))
        },
    }
}

pub fn require_success(o: &GitOutcome, what: &str) -> (r: Result<(), String>)
    ensures
        result_view(r) == must_succeed(o@, what@),
{
    match o {
        GitOutcome::NotRun(e) => Err(text::cat("could not run git: ", e.as_str())),
        GitOutcome::Exited { success, stderr, .. } => if *success {
            Ok(())
        } else {
            let s = text::from_utf8_lossy(stderr.as_slice());
            Err(text::cat(what, s.as_str()))
        },
    }
}

/// A single command that must succeed.
pub open spec fn one_command(
    args: Seq<Seq<char>>,
    what: Seq<char>,
    done: Seq<Outcome>,
) -> Next<Result<(), Seq<char>>> {
    if done.len() == 0 {
        Next::Run(args)
    } else {
        Next::Done(must_succeed(done[0], what))
    }
}

fn run_one(args: Vec<String>, what: &str, done: &[GitOutcome]) -> (r: Step<Result<(), String>>)
    ensures
        unit_step(r) == one_command(text::views(args@), what@, outcomes(done@)),
{
    if done.len() == 0 {
        Step::Run(args)
    } else {
        Step::Done(require_success(&done[0], what))
    }
}

/// A single command whose success is the answer.
pub open spec fn one_test(args: Seq<Seq<char>>, done: Seq<Outcome>) -> Next<bool> {
    if done.len() == 0 {
        Next::Run(args)
    } else {
        Next::Done(succeeded(done[0]))
    }
}

fn run_test(args: Vec<String>, done: &[GitOutcome]) -> (r: Step<bool>)
    ensures
        bool_step(r) == one_test(text::views(args@), outcomes(done@)),
{
    if done.len() == 0 {
        Step::Run(args)
    } else {
        Step::Done(done[0].succeeded())
    }
}

/// The command that tests for an object.
pub open spec fn object_test(sha: Seq<char>) -> Seq<Seq<char>> {
    seq!["cat-file"@, "-t"@, sha]
}

/// The command that tests for a ref.
pub open spec fn ref_test(name: Seq<char>) -> Seq<Seq<char>> {
    seq!["rev-parse"@, "--verify"@, "--quiet"@, name]
}

/// Whether an object exists in the repository.
pub fn object_exists(sha: &str, done: &[GitOutcome]) -> (r: Step<bool>)
    ensures
        bool_step(r) == one_test(object_test(sha@), outcomes(done@)),
{
    let args = words(&["cat-file", "-t", sha]);
    assert(text::views(args@) =~= object_test(sha@));
    run_test(args, done)
}

/// Whether a ref resolves to an object in the repository.
pub fn ref_exists(ref_name: &str, done: &[GitOutcome]) -> (r: Step<bool>)
    ensures
        bool_step(r) == one_test(ref_test(ref_name@), outcomes(done@)),
{
    let args = words(&["rev-parse", "--verify", "--quiet", ref_name]);
    assert(text::views(args@) =~= ref_test(ref_name@));
    run_test(args, done)
}

/// Whether `old` is an ancestor of `new`.
pub fn is_ancestor(old_sha: &str, new_sha: &str, done: &[GitOutcome]) -> (r: Step<bool>)
    ensures
        bool_step(r) == one_test(
            seq!["merge-base"@, "--is-ancestor"@, old_sha@, new_sha@],
            outcomes(done@),
        ),
{
    let args = words(&["merge-base", "--is-ancestor", old_sha, new_sha]);
    assert(text::views(args@) =~= seq!["merge-base"@, "--is-ancestor"@, old_sha@, new_sha@]);
    run_test(args, done)
}

/// Sets a configuration key.
pub fn config_set(key: &str, value: &str, done: &[GitOutcome]) -> (r: Step<Result<(), String>>)
    ensures
        unit_step(r) == one_command(
            seq!["config"@, key@, value@],
            "git config failed: "@,
            outcomes(done@),
        ),
{
    let args = words(&["config", key, value]);
    assert(text::views(args@) =~= seq!["config"@, key@, value@]);
    run_one(args, "git config failed: ", done)
}

/// Adds a remote.
pub fn remote_add(name: &str, url: &str, done: &[GitOutcome]) -> (r: Step<Result<(), String>>)
    ensures
        unit_step(r) == one_command(
            seq!["remote"@, "add"@, name@, url@],
            "git remote add failed: "@,
            outcomes(done@),
        ),
{
    let args = words(&["remote", "add", name, url]);
    assert(text::views(args@) =~= seq!["remote"@, "add"@, name@, url@]);
    run_one(args, "git remote add failed: ", done)
}

/// The command that verifies a bundle.
pub open spec fn bundle_verify(path: Seq<char>) -> Seq<Seq<char>> {
    seq!["bundle"@, "verify"@, path]
}

/// Verifies a bundle against the objects in a repository.
pub fn verify_bundle(bundle_path: &str, done: &[GitOutcome]) -> (r: Step<Result<(), String>>)
    ensures
        unit_step(r) == one_command(
            bundle_verify(bundle_path@),
            "bundle verification failed: "@,
            outcomes(done@),
        ),
{
    let args = words(&["bundle", "verify", bundle_path]);
    assert(text::views(args@) =~= bundle_verify(bundle_path@));
    run_one(args, "bundle verification failed: ", done)
}

/// Appends copies of the texts to `args`.
pub fn extend(args: &mut Vec<String>, more: &[String])
    ensures
        text::views(final(args)@) == text::views(old(args)@) + text::views(more@),
{
    let ghost before = text::views(args@);
    let mut i: usize = 0;
    while i < more.len()
        invariant
            i <= more@.len(),
            text::views(args@) == before + text::views(more@).take(i as int),
        decreases more@.len() - i,
    {
        let ghost prior = text::views(args@);
        args.push(more[i].clone());
        assert(text::views(args@) =~= prior.push(more@[i as int]@));
        i = i + 1;
        assert(text::views(more@).take(i as int) =~= text::views(more@).take(i - 1).push(
            more@[i - 1]@,
        ));
    }
    assert(text::views(more@).take(more@.len() as int) =~= text::views(more@));
}

/// Fetching a bundle with refspecs, of which there must be at least one.
pub open spec fn fetch_step(
    path: Seq<char>,
    refspecs: Seq<Seq<char>>,
    done: Seq<Outcome>,
) -> Next<Result<(), Seq<char>>> {
    if refspecs.len() == 0 {
        Next::Done(Err("no refspecs"@))
    } else {
        one_command(seq!["fetch"@, path] + refspecs, "bundle fetch failed: "@, done)
    }
}

/// Fetches a bundle into a repository with the given refspecs.
pub fn fetch_bundle(bundle_path: &str, refspecs: &[String], done: &[GitOutcome]) -> (r: Step<
    Result<(), String>,
>)
    ensures
        unit_step(r) == fetch_step(bundle_path@, text::views(refspecs@), outcomes(done@)),
{
    if refspecs.len() == 0 {
        return Step::Done(Err("no refspecs".to_owned()));
    }
    let mut args = words(&["fetch", bundle_path]);
    assert(text::views(args@) =~= seq!["fetch"@, bundle_path@]);
    extend(&mut args, refspecs);
    run_one(args, "bundle fetch failed: ", done)
}

/// The command that makes a repository with a working tree. A branch that is
/// named and not empty becomes the first one.
pub open spec fn init_args(dir: Seq<char>, branch: Option<Seq<char>>) -> Seq<Seq<char>> {
    match branch {
        Some(b) => if b.len() > 0 {
            seq!["init"@, "-b"@, b, dir]
        } else {
            seq!["init"@, dir]
        },
        None => seq!["init"@, dir],
    }
}

/// The text inside an option, over sequences.
pub open spec fn option_view(o: Option<&str>) -> Option<Seq<char>> {
    match o {
        Some(s) => Some(s@),
        None => None,
    }
}

/// Makes a repository with a working tree in `dir`.
pub fn init_repository(dir: &str, default_branch: Option<&str>, done: &[GitOutcome]) -> (r: Step<
    Result<(), String>,
>)
    ensures
        unit_step(r) == one_command(
            init_args(dir@, option_view(default_branch)),
            "git init failed: "@,
            outcomes(done@),
        ),
{
    let args = match default_branch {
        Some(b) => if !b.is_empty() {
            words(&["init", "-b", b, dir])
        } else {
            words(&["init", dir])
        },
        None => words(&["init", dir]),
    };
    assert(text::views(args@) =~= init_args(dir@, option_view(default_branch)));
    run_one(args, "git init failed: ", done)
}

// ---------------------------------------------------------------------------
// Refs
// ---------------------------------------------------------------------------

/// The lines of a ref listing that name a ref which no earlier line names, each
/// without the white space around it.
pub open spec fn distinct_lines(lines: Seq<Seq<char>>) -> Seq<Seq<char>>
    decreases lines.len(),
{
    if lines.len() == 0 {
        Seq::empty()
    } else {
        let before = distinct_lines(lines.drop_last());
        let t = text::trimmed(lines.last());
        match text::halves(t, ' ') {
            Some((_, name)) => if line_names(before).contains(name) {
                before
            } else {
                before.push(t)
            },
            None => before,
        }
    }
}

/// What follows the first space of each line.
pub open spec fn line_names(lines: Seq<Seq<char>>) -> Seq<Seq<char>> {
    Seq::new(lines.len(), |i: int| (text::halves(lines[i], ' ')->0).1)
}

/// Each line with a line feed after it.
pub open spec fn terminated(lines: Seq<Seq<char>>) -> Seq<char>
    decreases lines.len(),
{
    if lines.len() == 0 {
        Seq::empty()
    } else {
        terminated(lines.drop_last()) + lines.last() + seq!['\n']
    }
}

/// The ref that `HEAD` points to, by the contents of that file: `master` where
/// they name none.
pub open spec fn head_name(content: Option<Seq<u8>>) -> Seq<char> {
    match content {
        Some(b) => {
            let p = seq![0x72u8, 0x65, 0x66, 0x3a, 0x20];
            let name = text::trimmed(text::lossy(b.skip(5)));
            if b.len() >= 5 && b.take(5) == p && name.len() > 0 {
                name
            } else {
                "master"@
            }
        },
        None => "master"@,
    }
}

/// The text that answers a request for the refs: what git listed, each ref once,
/// and the ref that `HEAD` points to.
pub open spec fn listing(stdout: Seq<u8>, head: Option<Seq<u8>>) -> Seq<char> {
    terminated(distinct_lines(text::rows(text::lossy(stdout)))) + "@"@ + head_name(head)
        + " HEAD\n"@
}

/// The bytes inside an option, over sequences.
pub open spec fn bytes_view(o: Option<Vec<u8>>) -> Option<Seq<u8>> {
    match o {
        Some(b) => Some(b@),
        None => None,
    }
}

/// The ref that `HEAD` points to, by the contents of that file.
pub fn head_ref(content: &Option<Vec<u8>>) -> (r: String)
    ensures
        r@ == head_name(bytes_view(*content)),
{
    if let Some(b) = content {
        let p: [u8; 5] = [0x72, 0x65, 0x66, 0x3a, 0x20];
        assert(p@ =~= seq![0x72u8, 0x65, 0x66, 0x3a, 0x20]);
        if crate::bytes::starts_with(b.as_slice(), &p) {
            let rest = crate::bytes::cut(b.as_slice(), 5, b.len());
            assert(rest@ =~= b@.skip(5));
            let s = text::from_utf8_lossy(rest.as_slice());
            let name = text::trim(s.as_str());
            if !name.as_str().is_empty() {
                return name;
            }
        }
    }
    "master".to_owned()
}

fn find_name(lines: &Vec<String>, names: &Vec<String>, name: &str) -> (r: bool)
    requires
        text::views(names@) == line_names(text::views(lines@)),
    ensures
        r == line_names(text::views(lines@)).contains(name@),
{
    let ghost all = line_names(text::views(lines@));
    let mut i: usize = 0;
    while i < names.len()
        invariant
            i <= names@.len(),
            all == text::views(names@),
            all == line_names(text::views(lines@)),
            forall|j: int| 0 <= j < i ==> all[j] != name@,
        decreases names@.len() - i,
    {
        if text::same(names[i].as_str(), name) {
            assert(all[i as int] == name@);
            return true;
        }
        i = i + 1;
    }
    false
}

/// The text that answers a request for the refs.
pub fn ref_listing(stdout: &[u8], head: &Option<Vec<u8>>) -> (r: String)
    ensures
        r@ == listing(stdout@, bytes_view(*head)),
{
    let s = text::from_utf8_lossy(stdout);
    let lines = text::lines(s.as_str());
    let ghost all = text::rows(text::lossy(stdout@));
    let mut kept: Vec<String> = Vec::new();
    let mut names: Vec<String> = Vec::new();
    let mut out = String::new();
    let mut i: usize = 0;
    assert(all.take(0) =~= Seq::<Seq<char>>::empty());
    assert(text::views(kept@) =~= Seq::<Seq<char>>::empty());
    assert(text::views(names@) =~= line_names(text::views(kept@)));
    while i < lines.len()
        invariant
            i <= lines@.len(),
            all == text::views(lines@),
            text::views(kept@) == distinct_lines(all.take(i as int)),
            text::views(names@) == line_names(text::views(kept@)),
            out@ == terminated(text::views(kept@)),
        decreases lines@.len() - i,
    {
        assert(all.take(i + 1).drop_last() =~= all.take(i as int));
        assert(all.take(i + 1).last() == lines@[i as int]@);
        let line = text::trim(lines[i].as_str());
        if let Some((_, name)) = text::split_once(line.as_str(), ' ') {
            if !find_name(&kept, &names, name.as_str()) {
                let ghost before = text::views(kept@);
                let ghost before_names = text::views(names@);
                out.append(line.as_str());
                out.push('\n');
                assert(out@ =~= terminated(before) + line@ + seq!['\n']);
                kept.push(line);
                names.push(name);
                assert(text::views(kept@) =~= before.push(line@));
                assert(before.push(line@).drop_last() =~= before);
                assert(text::views(names@) =~= before_names.push(name@));
                assert(line_names(before.push(line@)) =~= line_names(before).push(name@));
            }
        }
        i = i + 1;
    }
    assert(all.take(all.len() as int) =~= all);
    let name = head_ref(head);
    out.append("@");
    out.append(name.as_str());
    out.append(" HEAD\n");
    out
}

/// A listing, or an error, over sequences.
pub open spec fn listing_step(s: Step<Result<Vec<u8>, String>>) -> Next<Result<Seq<u8>, Seq<char>>> {
    match s {
        Step::Run(a) => Next::Run(text::views(a@)),
        Step::Done(Ok(b)) => Next::Done(Ok(b@)),
        Step::Done(Err(e)) => Next::Done(Err(e@)),
    }
}

/// The answer to a request for the refs: git lists them, and `HEAD` follows.
pub open spec fn list_refs_step(head: Option<Seq<u8>>, done: Seq<Outcome>) -> Next<
    Result<Seq<u8>, Seq<char>>,
> {
    if done.len() == 0 {
        Next::Run(seq!["for-each-ref"@, "--format"@, "%(objectname) %(refname)"@])
    } else {
        match (must_succeed(done[0], "git for-each-ref failed: "@), done[0]) {
            (Ok(_), Outcome::Exited { stdout, .. }) => Next::Done(
                Ok(vstd::utf8::encode_utf8(listing(stdout, head))),
            ),
            (Err(e), _) => Next::Done(Err(e)),
            _ => Next::Done(Err(Seq::empty())),
        }
    }
}

/// Lists the refs of a repository whose `HEAD` file is `head`.
pub fn list_refs(head: &Option<Vec<u8>>, done: &[GitOutcome]) -> (r: Step<Result<Vec<u8>, String>>)
    ensures
        listing_step(r) == list_refs_step(bytes_view(*head), outcomes(done@)),
{
    if done.len() == 0 {
        let args = words(&["for-each-ref", "--format", "%(objectname) %(refname)"]);
        assert(text::views(args@) =~= seq![
            "for-each-ref"@,
            "--format"@,
            "%(objectname) %(refname)"@,
        ]);
        return Step::Run(args);
    }
    assert(outcomes(done@)[0] == done@[0]@);
    match require_success(&done[0], "git for-each-ref failed: ") {
        Err(e) => Step::Done(Err(e)),
        Ok(()) => match &done[0] {
            GitOutcome::Exited { stdout, .. } => {
                let s = ref_listing(stdout.as_slice(), head);
                Step::Done(Ok(text::utf8(s.as_str())))
            },
            GitOutcome::NotRun(e) => Step::Done(Err(e.clone())),
        },
    }
}

proof fn lemma_line_feed()
    ensures
        vstd::utf8::encode_utf8(seq!['\n']) == seq![10u8],
{
    assert(vstd::utf8::is_ascii_chars(seq!['\n']));
    vstd::utf8::is_ascii_chars_encode_utf8(seq!['\n']);
    assert(vstd::utf8::encode_utf8(seq!['\n']) =~= seq![10u8]);
}

/// The object name and ref name on a line, where the line holds both.
pub open spec fn ref_line(line: Seq<char>) -> Option<(Seq<char>, Seq<char>)> {
    match text::halves(text::trimmed(line), ' ') {
        Some((sha, name)) => if sha_ok(sha) && name.len() > 0 {
            Some((sha, name))
        } else {
            None
        },
        None => None,
    }
}

/// The pairs of object name and ref name on the lines.
pub open spec fn ref_pairs(lines: Seq<Seq<char>>) -> Seq<(Seq<char>, Seq<char>)>
    decreases lines.len(),
{
    if lines.len() == 0 {
        Seq::empty()
    } else {
        let before = ref_pairs(lines.drop_last());
        match ref_line(lines.last()) {
            Some(p) => before.push(p),
            None => before,
        }
    }
}

proof fn lemma_ref_pairs_joined(a: Seq<Seq<char>>, b: Seq<Seq<char>>)
    ensures
        ref_pairs(a + b) == ref_pairs(a) + ref_pairs(b),
    decreases b.len(),
{
    if b.len() == 0 {
        assert(a + b =~= a);
        assert(ref_pairs(a) + ref_pairs(b) =~= ref_pairs(a));
    } else {
        lemma_ref_pairs_joined(a, b.drop_last());
        assert((a + b).drop_last() =~= a + b.drop_last());
        assert((a + b).last() == b.last());
        assert(ref_pairs(a + b) =~= ref_pairs(a) + ref_pairs(b));
    }
}

/// The refs of two texts with a line feed between them are the refs of the one and
/// then those of the other.
pub proof fn law_joined_lines_join_refs(s: Seq<char>, t: Seq<char>)
    ensures
        ref_pairs(text::rows(s + seq!['\n'] + t)) == ref_pairs(text::rows(s)) + ref_pairs(
            text::rows(t),
        ),
    decreases s.len(),
{
    let all = s + seq!['\n'] + t;
    text::lemma_first_of(s, '\n');
    match text::first_of(s, '\n') {
        Some(i) => {
            let line = text::without_return(s.take(i));
            let rest = s.skip(i + 1);
            assert forall|j: int| 0 <= j <= i implies all[j] == s[j] by {}
            text::lemma_first_is(all, '\n', i);
            assert(all.take(i) =~= s.take(i));
            assert(all.skip(i + 1) =~= rest + seq!['\n'] + t);
            law_joined_lines_join_refs(rest, t);
            lemma_ref_pairs_joined(seq![line], text::rows(rest + seq!['\n'] + t));
            lemma_ref_pairs_joined(seq![line], text::rows(rest));
            assert(ref_pairs(seq![line]) + (ref_pairs(text::rows(rest)) + ref_pairs(text::rows(t)))
                =~= (ref_pairs(seq![line]) + ref_pairs(text::rows(rest))) + ref_pairs(
                text::rows(t),
            ));
        },
        None => {
            let line = text::without_return(s);
            assert forall|j: int| 0 <= j < s.len() implies all[j] != '\n' by {
                assert(all[j] == s[j]);
            }
            assert(all[s.len() as int] == '\n');
            text::lemma_first_is(all, '\n', s.len() as int);
            assert(all.take(s.len() as int) =~= s);
            assert(all.skip(s.len() as int + 1) =~= t);
            lemma_ref_pairs_joined(seq![line], text::rows(t));
            if s.len() > 0 && s.last() == '\r' {
                text::lemma_trimmed_tail(s);
            }
            assert(text::trimmed(line) == text::trimmed(s));
            assert(ref_line(line) == ref_line(s));
            assert(seq![line].drop_last() =~= Seq::empty());
            assert(seq![s].drop_last() =~= Seq::empty());
            reveal_with_fuel(ref_pairs, 2);
            assert(ref_pairs(seq![line]) =~= ref_pairs(text::rows(s)));
        },
    }
}

/// Every ref that is read has an object name that is valid and a name that is not
/// empty.
pub proof fn law_read_refs_are_valid(lines: Seq<Seq<char>>, i: int)
    requires
        0 <= i < ref_pairs(lines).len(),
    ensures
        sha_ok(ref_pairs(lines)[i].0),
        ref_pairs(lines)[i].1.len() > 0,
    decreases lines.len(),
{
    if i < ref_pairs(lines.drop_last()).len() {
        law_read_refs_are_valid(lines.drop_last(), i);
    }
}

/// A line adds no ref where it is blank, where it has no space, and where its first
/// word is no object name.
pub proof fn law_other_lines_add_no_ref(lines: Seq<Seq<char>>, line: Seq<char>)
    requires
        match text::halves(text::trimmed(line), ' ') {
            Some((sha, _)) => !sha_ok(sha),
            None => true,
        },
    ensures
        ref_pairs(lines.push(line)) == ref_pairs(lines),
{
    assert(lines.push(line).drop_last() =~= lines);
}

/// Parses lines of an object name and a ref name.
pub fn parse_ref_lines(bytes: &[u8]) -> (r: Result<Vec<(String, String)>, String>)
    ensures
        r is Ok,
        text::pair_views(r->Ok_0@) == ref_pairs(text::rows(text::lossy(bytes@))),
        forall|s: Seq<char>|
            bytes@ == #[trigger] vstd::utf8::encode_utf8(s) ==> text::pair_views(r->Ok_0@)
                == ref_pairs(text::rows(s)),
        forall|s: Seq<char>, t: Seq<char>|
            bytes@ == #[trigger] vstd::utf8::encode_utf8(s) + seq![10u8]
                + #[trigger] vstd::utf8::encode_utf8(t) ==> text::pair_views(r->Ok_0@)
                == ref_pairs(text::rows(s)) + ref_pairs(text::rows(t)),
        forall|a: Seq<u8>, b: Seq<u8>|
            bytes@ == a + seq![10u8] + b ==> text::pair_views(r->Ok_0@) == ref_pairs(
                text::rows(#[trigger] text::lossy(a)),
            ) + ref_pairs(text::rows(#[trigger] text::lossy(b))),
{
    let s = text::from_utf8_lossy(bytes);
    proof {
        assert forall|a: Seq<u8>, b: Seq<u8>| bytes@ == a + seq![10u8] + b implies ref_pairs(
            text::rows(text::lossy(bytes@)),
        ) == ref_pairs(text::rows(#[trigger] text::lossy(a))) + ref_pairs(
            text::rows(#[trigger] text::lossy(b)),
        ) by {
            law_joined_lines_join_refs(text::lossy(a), text::lossy(b));
        }
        assert forall|s: Seq<char>| bytes@ == #[trigger] vstd::utf8::encode_utf8(s) implies
            text::lossy(bytes@) == s by {
            vstd::utf8::encode_utf8_valid_utf8(s);
            vstd::utf8::encode_utf8_decode_utf8(s);
        }
        assert forall|s: Seq<char>, t: Seq<char>|
            bytes@ == #[trigger] vstd::utf8::encode_utf8(s) + seq![10u8]
                + #[trigger] vstd::utf8::encode_utf8(t) implies ref_pairs(
            text::rows(text::lossy(bytes@)),
        ) == ref_pairs(text::rows(s)) + ref_pairs(text::rows(t)) by {
            let all = s + seq!['\n'] + t;
            text::lemma_utf8_joined(s + seq!['\n'], t);
            text::lemma_utf8_joined(s, seq!['\n']);
            lemma_line_feed();
            assert(bytes@ == vstd::utf8::encode_utf8(all));
            law_joined_lines_join_refs(s, t);
        }
    }
    let lines = text::lines(s.as_str());
    let ghost all = text::rows(text::lossy(bytes@));
    let mut refs: Vec<(String, String)> = Vec::new();
    let mut i: usize = 0;
    assert(all.take(0) =~= Seq::<Seq<char>>::empty());
    assert(text::pair_views(refs@) =~= Seq::empty());
    while i < lines.len()
        invariant
            i <= lines@.len(),
            all == text::views(lines@),
            text::pair_views(refs@) == ref_pairs(all.take(i as int)),
        decreases lines@.len() - i,
    {
        assert(all.take(i + 1).drop_last() =~= all.take(i as int));
        assert(all.take(i + 1).last() == lines@[i as int]@);
        let line = text::trim(lines[i].as_str());
        if let Some((sha, name)) = text::split_once(line.as_str(), ' ') {
            if san_sha(sha.as_str()).is_some() && !name.as_str().is_empty() {
                let ghost before = text::pair_views(refs@);
                refs.push((sha, name));
                assert(text::pair_views(refs@) =~= before.push((sha@, name@)));
            }
        }
        i = i + 1;
    }
    assert(all.take(all.len() as int) =~= all);
    Ok(refs)
}

/// A list of refs, or an error, over sequences.
pub open spec fn refs_step(s: Step<Result<Vec<(String, String)>, String>>) -> Next<
    Result<Seq<(Seq<char>, Seq<char>)>, Seq<char>>,
> {
    match s {
        Step::Run(a) => Next::Run(text::views(a@)),
        Step::Done(Ok(v)) => Next::Done(Ok(text::pair_views(v@))),
        Step::Done(Err(e)) => Next::Done(Err(e@)),
    }
}

/// The branches and tags of a working repository.
pub open spec fn local_refs_step(done: Seq<Outcome>) -> Next<
    Result<Seq<(Seq<char>, Seq<char>)>, Seq<char>>,
> {
    if done.len() == 0 {
        Next::Run(
            seq![
                "for-each-ref"@,
                "--format"@,
                "%(objectname) %(refname)"@,
                "refs/heads"@,
                "refs/tags"@,
            ],
        )
    } else {
        match (must_succeed(done[0], "git for-each-ref failed: "@), done[0]) {
            (Ok(_), Outcome::Exited { stdout, .. }) => Next::Done(
                Ok(ref_pairs(text::rows(text::lossy(stdout)))),
            ),
            (Err(e), _) => Next::Done(Err(e)),
            _ => Next::Done(Err(Seq::empty())),
        }
    }
}

/// Lists the branches and tags of a working repository.
pub fn local_refs(done: &[GitOutcome]) -> (r: Step<Result<Vec<(String, String)>, String>>)
    ensures
        refs_step(r) == local_refs_step(outcomes(done@)),
{
    if done.len() == 0 {
        let args = words(
            &["for-each-ref", "--format", "%(objectname) %(refname)", "refs/heads", "refs/tags"],
        );
        assert(text::views(args@) =~= seq![
            "for-each-ref"@,
            "--format"@,
            "%(objectname) %(refname)"@,
            "refs/heads"@,
            "refs/tags"@,
        ]);
        return Step::Run(args);
    }
    assert(outcomes(done@)[0] == done@[0]@);
    match require_success(&done[0], "git for-each-ref failed: ") {
        Err(e) => Step::Done(Err(e)),
        Ok(()) => match &done[0] {
            GitOutcome::Exited { stdout, .. } => Step::Done(parse_ref_lines(stdout.as_slice())),
            GitOutcome::NotRun(e) => Step::Done(Err(e.clone())),
        },
    }
}

// ---------------------------------------------------------------------------
// Bundles
// ---------------------------------------------------------------------------

/// The refs of a fetch, each with an object that the client has, over sequences.
pub open spec fn wanted(v: Seq<(String, Option<String>)>) -> Seq<(Seq<char>, Option<Seq<char>>)> {
    Seq::new(
        v.len(),
        |i: int|
            (
                v[i].0@,
                match v[i].1 {
                    Some(s) => Some(s@),
                    None => None::<Seq<char>>,
                },
            ),
    )
}

/// The argument that leaves out what an object name reaches.
pub open spec fn without(sha: Seq<char>) -> Seq<char> {
    "^"@ + sha
}

/// The command that makes a bundle, without the refs.
pub open spec fn bundle_create(path: Seq<char>) -> Seq<Seq<char>> {
    seq!["bundle"@, "create"@, "--no-progress"@, path]
}

/// The last part of making a bundle for a fetch, when the arguments are known:
/// without any ref there is nothing to send, and git reporting an empty bundle
/// is no error.
pub open spec fn fetch_end(args: Seq<Seq<char>>, added: bool, done: Seq<Outcome>) -> Next<
    Result<Option<()>, Seq<char>>,
> {
    if !added {
        Next::Done(Ok(None))
    } else if done.len() == 0 {
        Next::Run(args)
    } else {
        match done[0] {
            Outcome::NotRun(e) => Next::Done(Err("could not run git: "@ + e)),
            Outcome::Exited { success, stdout, stderr } => {
                let message = text::lowercase(text::lossy(stderr));
                if success {
                    Next::Done(Ok(Some(())))
                } else if text::holds(message, "empty bundle"@) {
                    Next::Done(Ok(None))
                } else {
                    Next::Done(Err("could not create bundle: "@ + message))
                }
            },
        }
    }
}

/// The part that leaves out the objects that the client has, as far as they
/// exist here.
pub open spec fn fetch_haves(
    haves: Seq<Seq<char>>,
    args: Seq<Seq<char>>,
    added: bool,
    done: Seq<Outcome>,
) -> Next<Result<Option<()>, Seq<char>>>
    decreases haves.len(),
{
    if haves.len() == 0 {
        fetch_end(args, added, done)
    } else if !sha_ok(haves[0]) {
        Next::Done(Err("invalid SHA"@))
    } else if done.len() == 0 {
        Next::Run(object_test(haves[0]))
    } else {
        fetch_haves(
            haves.skip(1),
            if succeeded(done[0]) {
                args.push(without(haves[0]))
            } else {
                args
            },
            added,
            done.skip(1),
        )
    }
}

/// Making a bundle for a fetch: each ref that exists joins the arguments, with
/// the object that the client has of it left out as far as it exists here; a ref
/// that does not exist is passed over.
pub open spec fn fetch_refs(
    refs: Seq<(Seq<char>, Option<Seq<char>>)>,
    haves: Seq<Seq<char>>,
    args: Seq<Seq<char>>,
    added: bool,
    done: Seq<Outcome>,
) -> Next<Result<Option<()>, Seq<char>>>
    decreases refs.len(),
{
    if refs.len() == 0 {
        fetch_haves(haves, args, added, done)
    } else if !ref_ok(refs[0].0) {
        Next::Done(Err("invalid ref"@))
    } else if done.len() == 0 {
        Next::Run(ref_test(refs[0].0))
    } else if !succeeded(done[0]) {
        fetch_refs(refs.skip(1), haves, args, added, done.skip(1))
    } else {
        match refs[0].1 {
            None => fetch_refs(refs.skip(1), haves, args.push(refs[0].0), true, done.skip(1)),
            Some(sha) => if !sha_ok(sha) {
                Next::Done(Err("invalid SHA"@))
            } else if done.len() == 1 {
                Next::Run(object_test(sha))
            } else {
                fetch_refs(
                    refs.skip(1),
                    haves,
                    if succeeded(done[1]) {
                        args.push(refs[0].0).push(without(sha))
                    } else {
                        args.push(refs[0].0)
                    },
                    true,
                    done.skip(2),
                )
            },
        }
    }
}

/// A bundle made, or nothing to send, or an error, over sequences.
pub open spec fn bundle_step(s: Step<Result<Option<()>, String>>) -> Next<
    Result<Option<()>, Seq<char>>,
> {
    match s {
        Step::Run(a) => Next::Run(text::views(a@)),
        Step::Done(Ok(o)) => Next::Done(Ok(o)),
        Step::Done(Err(e)) => Next::Done(Err(e@)),
    }
}

fn object_test_args(sha: &str) -> (r: Vec<String>)
    ensures
        text::views(r@) == object_test(sha@),
{
    let args = words(&["cat-file", "-t", sha]);
    assert(text::views(args@) =~= object_test(sha@));
    args
}

fn push_text(args: &mut Vec<String>, s: String)
    ensures
        text::views(final(args)@) == text::views(old(args)@).push(s@),
{
    let ghost before = text::views(args@);
    args.push(s);
    assert(text::views(args@) =~= before.push(s@));
}

fn finish_fetch(args: Vec<String>, added: bool, done: &[GitOutcome], k: usize) -> (r: Step<
    Result<Option<()>, String>,
>)
    requires
        k <= done@.len(),
    ensures
        bundle_step(r) == fetch_end(text::views(args@), added, outcomes(done@).skip(k as int)),
{
    if !added {
        return Step::Done(Ok(None));
    }
    if k == done.len() {
        return Step::Run(args);
    }
    assert(outcomes(done@).skip(k as int)[0] == done@[k as int]@);
    match &done[k] {
        GitOutcome::NotRun(e) => Step::Done(Err(text::cat("could not run git: ", e.as_str()))),
        GitOutcome::Exited { success, stderr, .. } => {
            if *success {
                return Step::Done(Ok(Some(())));
            }
            let plain = text::from_utf8_lossy(stderr.as_slice());
            let message = text::to_lowercase(plain.as_str());
            if text::contains(message.as_str(), "empty bundle") {
                Step::Done(Ok(None))
            } else {
                Step::Done(Err(text::cat("could not create bundle: ", message.as_str())))
            }
        },
    }
}

/// Makes a bundle of the requested refs for a client that has some objects.
/// Ends in `None` where there is nothing to send.
pub fn create_fetch_bundle(
    bundle_path: &str,
    refs: &[(String, Option<String>)],
    have_shas: &[String],
    done: &[GitOutcome],
) -> (r: Step<Result<Option<()>, String>>)
    ensures
        bundle_step(r) == fetch_refs(
            wanted(refs@),
            text::views(have_shas@),
            bundle_create(bundle_path@),
            false,
            outcomes(done@),
        ),
{
    let ghost all = wanted(refs@);
    let ghost haves = text::views(have_shas@);
    let ghost outs = outcomes(done@);
    let ghost goal = fetch_refs(all, haves, bundle_create(bundle_path@), false, outs);
    let mut args = words(&["bundle", "create", "--no-progress", bundle_path]);
    assert(text::views(args@) =~= bundle_create(bundle_path@));
    let mut added = false;
    let mut k: usize = 0;
    let mut i: usize = 0;
    assert(all.skip(0) =~= all);
    assert(outs.skip(0) =~= outs);
    while i < refs.len()
        invariant
            i <= refs@.len(),
            k <= done@.len(),
            all == wanted(refs@),
            outs == outcomes(done@),
            haves == text::views(have_shas@),
            fetch_refs(all.skip(i as int), haves, text::views(args@), added, outs.skip(k as int))
                == goal,
            goal == fetch_refs(all, haves, bundle_create(bundle_path@), false, outs),
        decreases refs@.len() - i,
    {
        let ghost rest = all.skip(i as int);
        let ghost left = outs.skip(k as int);
        assert(rest[0] == all[i as int]);
        assert(rest.skip(1) =~= all.skip(i + 1));
        let name = refs[i].0.as_str();
        if san_ref(name).is_none() {
            return Step::Done(Err("invalid ref".to_owned()));
        }
        if k == done.len() {
            let a = words(&["rev-parse", "--verify", "--quiet", name]);
            assert(text::views(a@) =~= ref_test(name@));
            return Step::Run(a);
        }
        assert(left[0] == done@[k as int]@);
        assert(left.skip(1) =~= outs.skip(k + 1));
        if done[k].succeeded() {
            match &refs[i].1 {
                None => {
                    push_text(&mut args, name.to_owned());
                    k = k + 1;
                },
                Some(sha) => {
                    if san_sha(sha.as_str()).is_none() {
                        return Step::Done(Err("invalid SHA".to_owned()));
                    }
                    if k + 1 == done.len() {
                        return Step::Run(object_test_args(sha.as_str()));
                    }
                    assert(left[1] == done@[k + 1]@);
                    assert(left.skip(2) =~= outs.skip(k + 2));
                    push_text(&mut args, name.to_owned());
                    if done[k + 1].succeeded() {
                        push_text(&mut args, text::cat("^", sha.as_str()));
                    }
                    k = k + 2;
                },
            }
            added = true;
        } else {
            k = k + 1;
        }
        i = i + 1;
    }
    assert(all.skip(i as int) =~= Seq::empty());
    let mut j: usize = 0;
    assert(haves.skip(0) =~= haves);
    while j < have_shas.len()
        invariant
            j <= have_shas@.len(),
            k <= done@.len(),
            outs == outcomes(done@),
            haves == text::views(have_shas@),
            fetch_haves(haves.skip(j as int), text::views(args@), added, outs.skip(k as int))
                == goal,
            goal == fetch_refs(all, haves, bundle_create(bundle_path@), false, outs),
            all == wanted(refs@),
        decreases have_shas@.len() - j,
    {
        let ghost rest = haves.skip(j as int);
        let ghost left = outs.skip(k as int);
        assert(rest[0] == haves[j as int]);
        assert(rest.skip(1) =~= haves.skip(j + 1));
        let sha = have_shas[j].as_str();
        if san_sha(sha).is_none() {
            return Step::Done(Err("invalid SHA".to_owned()));
        }
        if k == done.len() {
            return Step::Run(object_test_args(sha));
        }
        assert(left[0] == done@[k as int]@);
        assert(left.skip(1) =~= outs.skip(k + 1));
        if done[k].succeeded() {
            push_text(&mut args, text::cat("^", sha));
        }
        k = k + 1;
        j = j + 1;
    }
    assert(haves.skip(j as int) =~= Seq::empty());
    finish_fetch(args, added, done, k)
}

/// The arguments of a bundle for a push: the refs, and what the receiver has,
/// left out. The first name that is not accepted is an error; refs come before
/// prerequisites.
pub open spec fn push_args(
    path: Seq<char>,
    refs: Seq<Seq<char>>,
    prerequisites: Seq<Seq<char>>,
) -> Result<Seq<Seq<char>>, Seq<char>> {
    if refs.len() == 0 {
        Err("no refs to push"@)
    } else if exists|i: int| 0 <= i < refs.len() && !ref_ok(#[trigger] refs[i]) {
        Err("invalid ref"@)
    } else if exists|i: int| 0 <= i < prerequisites.len() && !sha_ok(#[trigger] prerequisites[i]) {
        Err("invalid prerequisite SHA"@)
    } else {
        Ok(
            bundle_create(path) + refs + Seq::new(
                prerequisites.len(),
                |i: int| without(prerequisites[i]),
            ),
        )
    }
}

/// Makes a bundle of the given refs without the objects that the receiver has.
pub fn create_push_bundle(
    bundle_path: &str,
    refs: &[String],
    prerequisites: &[String],
    done: &[GitOutcome],
) -> (r: Step<Result<(), String>>)
    ensures
        unit_step(r) == match push_args(
            bundle_path@,
            text::views(refs@),
            text::views(prerequisites@),
        ) {
            Err(e) => Next::Done(Err(e)),
            Ok(args) => one_command(args, "could not create bundle: "@, outcomes(done@)),
        },
{
    if refs.len() == 0 {
        return Step::Done(Err("no refs to push".to_owned()));
    }
    let ghost names = text::views(refs@);
    let ghost shas = text::views(prerequisites@);
    let ghost head = bundle_create(bundle_path@);
    let mut args = words(&["bundle", "create", "--no-progress", bundle_path]);
    assert(text::views(args@) =~= head);
    let mut i: usize = 0;
    while i < refs.len()
        invariant
            i <= refs@.len(),
            names == text::views(refs@),
            text::views(args@) =~= head + names.take(i as int),
            forall|j: int| 0 <= j < i ==> ref_ok(#[trigger] names[j]),
        decreases refs@.len() - i,
    {
        assert(names[i as int] == refs@[i as int]@);
        if san_ref(refs[i].as_str()).is_none() {
            return Step::Done(Err("invalid ref".to_owned()));
        }
        push_text(&mut args, refs[i].clone());
        i = i + 1;
        assert(names.take(i as int) =~= names.take(i - 1).push(names[i - 1]));
    }
    assert(names.take(names.len() as int) =~= names);
    let ghost out = Seq::new(shas.len(), |i: int| without(shas[i]));
    let mut j: usize = 0;
    while j < prerequisites.len()
        invariant
            j <= prerequisites@.len(),
            shas == text::views(prerequisites@),
            names == text::views(refs@),
            names.len() > 0,
            forall|x: int| 0 <= x < names.len() ==> ref_ok(#[trigger] names[x]),
            out == Seq::new(shas.len(), |i: int| without(shas[i])),
            text::views(args@) =~= head + names + out.take(j as int),
            forall|x: int| 0 <= x < j ==> sha_ok(#[trigger] shas[x]),
        decreases prerequisites@.len() - j,
    {
        assert(shas[j as int] == prerequisites@[j as int]@);
        if san_sha(prerequisites[j].as_str()).is_none() {
            return Step::Done(Err("invalid prerequisite SHA".to_owned()));
        }
        push_text(&mut args, text::cat("^", prerequisites[j].as_str()));
        j = j + 1;
        assert(out.take(j as int) =~= out.take(j - 1).push(out[j - 1]));
    }
    assert(out.take(out.len() as int) =~= out);
    run_one(args, "could not create bundle: ", done)
}

/// The fetch of a bundle that was pushed.
pub open spec fn apply_args(
    path: Seq<char>,
    local: Seq<char>,
    remote: Seq<char>,
    force: bool,
) -> Seq<Seq<char>> {
    let head = seq!["fetch"@, path, local + ":"@ + remote];
    if force {
        head.push("--force"@)
    } else {
        head
    }
}

/// Applying a bundle that was pushed: it is verified, the refs are checked, and
/// it is fetched.
pub open spec fn apply_step(
    path: Seq<char>,
    local: Seq<char>,
    remote: Seq<char>,
    force: bool,
    done: Seq<Outcome>,
) -> Next<Result<(), Seq<char>>> {
    if done.len() == 0 {
        Next::Run(bundle_verify(path))
    } else {
        match must_succeed(done[0], "bundle verification failed: "@) {
            Err(e) => Next::Done(Err(e)),
            Ok(_) => if !ref_ok(local) {
                Next::Done(Err("invalid local ref"@))
            } else if !ref_ok(remote) {
                Next::Done(Err("invalid remote ref"@))
            } else {
                one_command(
                    apply_args(path, local, remote, force),
                    "bundle fetch failed: "@,
                    done.skip(1),
                )
            },
        }
    }
}

/// Verifies and applies a bundle that was pushed, when it stands at
/// `bundle_path`.
pub fn apply_push_bundle(
    bundle_path: &str,
    local_ref: &str,
    remote_ref: &str,
    force: bool,
    done: &[GitOutcome],
) -> (r: Step<Result<(), String>>)
    ensures
        unit_step(r) == apply_step(
            bundle_path@,
            local_ref@,
            remote_ref@,
            force,
            outcomes(done@),
        ),
{
    if done.len() == 0 {
        let args = words(&["bundle", "verify", bundle_path]);
        assert(text::views(args@) =~= bundle_verify(bundle_path@));
        return Step::Run(args);
    }
    assert(outcomes(done@)[0] == done@[0]@);
    if let Err(e) = require_success(&done[0], "bundle verification failed: ") {
        return Step::Done(Err(e));
    }
    if san_ref(local_ref).is_none() {
        return Step::Done(Err("invalid local ref".to_owned()));
    }
    if san_ref(remote_ref).is_none() {
        return Step::Done(Err("invalid remote ref".to_owned()));
    }
    let spec_text = text::cat3(local_ref, ":", remote_ref);
    let args = if force {
        words(&["fetch", bundle_path, spec_text.as_str(), "--force"])
    } else {
        words(&["fetch", bundle_path, spec_text.as_str()])
    };
    assert(text::views(args@) =~= apply_args(bundle_path@, local_ref@, remote_ref@, force));
    let rest = vstd::slice::slice_subrange(done, 1, done.len());
    assert(outcomes(rest@) =~= outcomes(done@).skip(1));
    run_one(args, "bundle fetch failed: ", rest)
}

// ---------------------------------------------------------------------------
// Changing refs
// ---------------------------------------------------------------------------

/// A ref name that may be changed: accepted, and under `refs/`.
pub open spec fn changeable(name: Seq<char>) -> bool {
    ref_ok(name) && text::begins(name, "refs/"@)
}

/// Pointing a ref to an object: the object must exist, and a ref that points
/// elsewhere needs force.
pub open spec fn update_step(
    name: Seq<char>,
    sha: Seq<char>,
    force: bool,
    done: Seq<Outcome>,
) -> Next<Result<(), Seq<char>>> {
    if !changeable(name) {
        Next::Done(Err("invalid ref"@))
    } else if !sha_ok(sha) {
        Next::Done(Err("invalid SHA"@))
    } else if done.len() == 0 {
        Next::Run(object_test(sha))
    } else if !succeeded(done[0]) {
        Next::Done(Err("object "@ + sha + " does not exist in repository"@))
    } else if done.len() == 1 {
        Next::Run(seq!["rev-parse"@, name])
    } else {
        match done[1] {
            Outcome::NotRun(e) => Next::Done(Err("could not run git: "@ + e)),
            Outcome::Exited { success, stdout, stderr } => {
                let existing = text::trimmed(text::lossy(stdout));
                if success && existing.len() > 0 && existing != sha && !force {
                    Next::Done(
                        Err(
                            "ref "@ + name
                                + " already exists at different SHA (force required)"@,
                        ),
                    )
                } else {
                    one_command(
                        seq!["update-ref"@, name, sha],
                        "could not update ref: "@,
                        done.skip(2),
                    )
                }
            },
        }
    }
}

/// Points a ref to an object.
pub fn update_ref(ref_name: &str, sha: &str, force: bool, done: &[GitOutcome]) -> (r: Step<
    Result<(), String>,
>)
    ensures
        unit_step(r) == update_step(ref_name@, sha@, force, outcomes(done@)),
{
    if san_ref(ref_name).is_none() || !text::starts_with(ref_name, "refs/") {
        return Step::Done(Err("invalid ref".to_owned()));
    }
    if san_sha(sha).is_none() {
        return Step::Done(Err("invalid SHA".to_owned()));
    }
    if done.len() == 0 {
        return Step::Run(object_test_args(sha));
    }
    assert(outcomes(done@)[0] == done@[0]@);
    if !done[0].succeeded() {
        return Step::Done(Err(text::cat3("object ", sha, " does not exist in repository")));
    }
    if done.len() == 1 {
        let args = words(&["rev-parse", ref_name]);
        assert(text::views(args@) =~= seq!["rev-parse"@, ref_name@]);
        return Step::Run(args);
    }
    assert(outcomes(done@)[1] == done@[1]@);
    match &done[1] {
        GitOutcome::NotRun(e) => {
            return Step::Done(Err(text::cat("could not run git: ", e.as_str())));
        },
        GitOutcome::Exited { success, stdout, .. } => {
            let s = text::from_utf8_lossy(stdout.as_slice());
            let existing = text::trim(s.as_str());
            if *success && !existing.as_str().is_empty() && !text::same(existing.as_str(), sha)
                && !force {
                return Step::Done(
                    Err(
                        text::cat3(
                            "ref ",
                            ref_name,
                            " already exists at different SHA (force required)",
                        ),
                    ),
                );
            }
        },
    }
    let args = words(&["update-ref", ref_name, sha]);
    assert(text::views(args@) =~= seq!["update-ref"@, ref_name@, sha@]);
    let rest = vstd::slice::slice_subrange(done, 2, done.len());
    assert(outcomes(rest@) =~= outcomes(done@).skip(2));
    run_one(args, "could not update ref: ", rest)
}

/// Deleting a ref, which must exist.
pub open spec fn delete_step(name: Seq<char>, done: Seq<Outcome>) -> Next<Result<(), Seq<char>>> {
    if !changeable(name) {
        Next::Done(Err("invalid ref"@))
    } else if done.len() == 0 {
        Next::Run(ref_test(name))
    } else if !succeeded(done[0]) {
        Next::Done(Err("ref "@ + name + " does not exist"@))
    } else {
        one_command(
            seq!["update-ref"@, "-d"@, name],
            "could not delete ref: "@,
            done.skip(1),
        )
    }
}

/// How git answers whether a ref exists, in a repository with these refs.
pub open spec fn tells(refs: Set<Seq<char>>, name: Seq<char>, answer: Outcome) -> bool {
    succeeded(answer) == refs.contains(name)
}

/// What git leaves of the refs of a repository when it is told to delete one: all
/// but that one if it succeeds, and else all.
pub open spec fn refs_after(refs: Set<Seq<char>>, name: Seq<char>, deletion: Outcome) -> Set<
    Seq<char>,
> {
    if succeeded(deletion) {
        refs.remove(name)
    } else {
        refs
    }
}

/// A ref that was deleted does not exist, and deleting it once more is refused.
pub proof fn law_deleted_ref_is_gone(
    refs: Set<Seq<char>>,
    name: Seq<char>,
    test: Outcome,
    deletion: Outcome,
    again: Outcome,
)
    requires
        tells(refs, name, test),
        delete_step(name, seq![test, deletion]) == Next::Done(Ok::<(), Seq<char>>(())),
        tells(refs_after(refs, name, deletion), name, again),
    ensures
        refs.contains(name),
        one_test(ref_test(name), seq![again]) == Next::Done(false),
        delete_step(name, seq![again]) == Next::Done(
            Err::<(), _>("ref "@ + name + " does not exist"@),
        ),
{
    assert(seq![test, deletion].skip(1)[0] == deletion);
}

/// Deletes a ref.
pub fn delete_ref(ref_name: &str, done: &[GitOutcome]) -> (r: Step<Result<(), String>>)
    ensures
        unit_step(r) == delete_step(ref_name@, outcomes(done@)),
{
    if san_ref(ref_name).is_none() || !text::starts_with(ref_name, "refs/") {
        return Step::Done(Err("invalid ref".to_owned()));
    }
    if done.len() == 0 {
        let args = words(&["rev-parse", "--verify", "--quiet", ref_name]);
        assert(text::views(args@) =~= ref_test(ref_name@));
        return Step::Run(args);
    }
    assert(outcomes(done@)[0] == done@[0]@);
    if !done[0].succeeded() {
        return Step::Done(Err(text::cat3("ref ", ref_name, " does not exist")));
    }
    let args = words(&["update-ref", "-d", ref_name]);
    assert(text::views(args@) =~= seq!["update-ref"@, "-d"@, ref_name@]);
    let rest = vstd::slice::slice_subrange(done, 1, done.len());
    assert(outcomes(rest@) =~= outcomes(done@).skip(1));
    run_one(args, "could not delete ref: ", rest)
}

/// The name of a branch without `refs/heads/` before it.
pub open spec fn short_name(branch: Seq<char>) -> Seq<char> {
    match text::after(branch, "refs/heads/"@) {
        Some(s) => s,
        None => branch,
    }
}

/// A checkout that must succeed.
pub open spec fn checkout_end(args: Seq<Seq<char>>, done: Seq<Outcome>) -> Next<
    Result<bool, Seq<char>>,
> {
    match one_command(args, "git checkout failed: "@, done) {
        Next::Run(a) => Next::Run(a),
        Next::Done(Ok(_)) => Next::Done(Ok(true)),
        Next::Done(Err(e)) => Next::Done(Err(e)),
    }
}

/// Checking out a branch: the local one where it exists, else a new one from the
/// remote's where that exists, else none.
pub open spec fn checkout_step(branch: Seq<char>, done: Seq<Outcome>) -> Next<
    Result<bool, Seq<char>>,
> {
    let short = short_name(branch);
    let local = "refs/heads/"@ + short;
    let remote = "refs/remotes/origin/"@ + short;
    if done.len() == 0 {
        Next::Run(ref_test(local))
    } else if succeeded(done[0]) {
        checkout_end(seq!["checkout"@, short], done.skip(1))
    } else if done.len() == 1 {
        Next::Run(ref_test(remote))
    } else if succeeded(done[1]) {
        checkout_end(seq!["checkout"@, "-b"@, short, remote], done.skip(2))
    } else {
        Next::Done(Ok(false))
    }
}

/// Whether a checkout was made, or an error, over sequences.
pub open spec fn checked_step(s: Step<Result<bool, String>>) -> Next<Result<bool, Seq<char>>> {
    match s {
        Step::Run(a) => Next::Run(text::views(a@)),
        Step::Done(Ok(b)) => Next::Done(Ok(b)),
        Step::Done(Err(e)) => Next::Done(Err(e@)),
    }
}

fn finish_checkout(args: Vec<String>, done: &[GitOutcome]) -> (r: Step<Result<bool, String>>)
    ensures
        checked_step(r) == checkout_end(text::views(args@), outcomes(done@)),
{
    match run_one(args, "git checkout failed: ", done) {
        Step::Run(a) => Step::Run(a),
        Step::Done(Ok(())) => Step::Done(Ok(true)),
        Step::Done(Err(e)) => Step::Done(Err(e)),
    }
}

/// Checks out a branch, making it from the remote's if needed. Ends in `true`
/// when a checkout was made.
pub fn checkout_branch(branch: &str, done: &[GitOutcome]) -> (r: Step<Result<bool, String>>)
    ensures
        checked_step(r) == checkout_step(branch@, outcomes(done@)),
{
    let short = match text::strip_prefix(branch, "refs/heads/") {
        Some(s) => s,
        None => branch.to_owned(),
    };
    let local = text::cat("refs/heads/", short.as_str());
    if done.len() == 0 {
        let args = words(&["rev-parse", "--verify", "--quiet", local.as_str()]);
        assert(text::views(args@) =~= ref_test(local@));
        return Step::Run(args);
    }
    assert(outcomes(done@)[0] == done@[0]@);
    if done[0].succeeded() {
        let args = words(&["checkout", short.as_str()]);
        assert(text::views(args@) =~= seq!["checkout"@, short@]);
        let rest = vstd::slice::slice_subrange(done, 1, done.len());
        assert(outcomes(rest@) =~= outcomes(done@).skip(1));
        return finish_checkout(args, rest);
    }
    let remote = text::cat("refs/remotes/origin/", short.as_str());
    if done.len() == 1 {
        let args = words(&["rev-parse", "--verify", "--quiet", remote.as_str()]);
        assert(text::views(args@) =~= ref_test(remote@));
        return Step::Run(args);
    }
    assert(outcomes(done@)[1] == done@[1]@);
    if done[1].succeeded() {
        let args = words(&["checkout", "-b", short.as_str(), remote.as_str()]);
        assert(text::views(args@) =~= seq!["checkout"@, "-b"@, short@, remote@]);
        let rest = vstd::slice::slice_subrange(done, 2, done.len());
        assert(outcomes(rest@) =~= outcomes(done@).skip(2));
        return finish_checkout(args, rest);
    }
    Step::Done(Ok(false))
}

// ---------------------------------------------------------------------------
// Repositories
// ---------------------------------------------------------------------------

/// The file that holds the access entries of a repository or a group.
pub open spec fn access_file(path: Seq<char>) -> Seq<char> {
    path + ".allowed"@
}

/// The entry that makes an identity an administrator.
pub open spec fn admin_entry(hash: Seq<char>) -> Seq<char> {
    "adm:"@ + hash + "\n"@
}

/// What comes next in making a repository.
#[derive(Debug)]
pub enum CreateStep {
    MakeDirectory,
    Initialize(Vec<String>),
    WriteFile(String, String),
    /// Remove the directory, and end in this error.
    Discard(String),
    Done(Result<(), String>),
}

/// What comes next in making a repository, over sequences.
pub enum Create {
    MakeDirectory,
    Initialize(Seq<Seq<char>>),
    WriteFile(Seq<char>, Seq<char>),
    Discard(Seq<char>),
    Done(Result<(), Seq<char>>),
}

impl View for CreateStep {
    type V = Create;

    open spec fn view(&self) -> Create {
        match self {
            CreateStep::MakeDirectory => Create::MakeDirectory,
            CreateStep::Initialize(a) => Create::Initialize(text::views(a@)),
            CreateStep::WriteFile(p, c) => Create::WriteFile(p@, c@),
            CreateStep::Discard(e) => Create::Discard(e@),
            CreateStep::Done(r) => Create::Done(result_view(*r)),
        }
    }
}

/// Making a repository at `path`: its directory, git's files in it, and an
/// access file that makes the creator an administrator. `done` holds how each
/// step went, an error being a text. What was begun and then fails is removed.
pub open spec fn create_next(
    path: Seq<char>,
    creator: Seq<char>,
    exists_before: bool,
    done: Seq<Option<String>>,
) -> Create {
    if exists_before {
        Create::Done(Err("repository already exists"@))
    } else if done.len() == 0 {
        Create::MakeDirectory
    } else if done[0] is Some {
        Create::Done(Err("could not create dir: "@ + done[0]->0@))
    } else if done.len() == 1 {
        Create::Initialize(seq!["init"@, "--bare"@])
    } else if done[1] is Some {
        Create::Discard("could not initialize repository"@)
    } else if done.len() == 2 {
        Create::WriteFile(access_file(path), admin_entry(creator))
    } else if done[2] is Some {
        Create::Discard("could not set repository permissions"@)
    } else {
        Create::Done(Ok(()))
    }
}

/// A repository is made only with an access file that holds nothing but the entry
/// of its creator.
pub proof fn law_made_repository_has_its_access_file(
    path: Seq<char>,
    creator: Seq<char>,
    exists_before: bool,
    done: Seq<Option<String>>,
)
    requires
        create_next(path, creator, exists_before, done) == Create::Done(Ok(())),
    ensures
        done.len() > 2 && done[2] is None,
        create_next(path, creator, exists_before, done.take(2)) == Create::WriteFile(
            path + ".allowed"@,
            "adm:"@ + creator + "\n"@,
        ),
{
}

/// The path of the access file of a repository or a group.
pub fn allowed_path(path: &str) -> (r: String)
    ensures
        r@ == access_file(path@),
{
    text::cat(path, ".allowed")
}

/// Makes a bare repository and grants its creator administration.
pub fn create_repository(
    repo_path: &str,
    creator_hash: &str,
    exists_before: bool,
    done: &[Option<String>],
) -> (r: CreateStep)
    ensures
        r@ == create_next(repo_path@, creator_hash@, exists_before, done@),
{
    if exists_before {
        return CreateStep::Done(Err("repository already exists".to_owned()));
    }
    if done.len() == 0 {
        return CreateStep::MakeDirectory;
    }
    if let Some(e) = &done[0] {
        return CreateStep::Done(Err(text::cat("could not create dir: ", e.as_str())));
    }
    if done.len() == 1 {
        let args = words(&["init", "--bare"]);
        assert(text::views(args@) =~= seq!["init"@, "--bare"@]);
        return CreateStep::Initialize(args);
    }
    if done[1].is_some() {
        return CreateStep::Discard("could not initialize repository".to_owned());
    }
    if done.len() == 2 {
        return CreateStep::WriteFile(
            allowed_path(repo_path),
            text::cat3("adm:", creator_hash, "\n"),
        );
    }
    if done[2].is_some() {
        return CreateStep::Discard("could not set repository permissions".to_owned());
    }
    CreateStep::Done(Ok(()))
}

/// A directory for temporary files.
pub struct TempDir {
    path: String,
}

impl TempDir {
    /// The path of the directory.
    pub closed spec fn view(&self) -> Seq<char> {
        self.path@
    }

    /// A directory in `base` whose name tells processes, moments and draws apart.
    pub fn new(base: &str, prefix: &str, process: u32, nanos: u128, draw: u32) -> (r: Self)
        ensures
            r@ == base@ + "/"@ + prefix@ + "-"@ + digits::dec(process as nat) + "-"@ + digits::dec(
                nanos as nat,
            ) + "-"@ + digits::dec(draw as nat),
    {
        let mut path = text::cat3(base, "/", prefix);
        let p = digits::decimal(process as u64);
        let n = digits::decimal_wide(nanos);
        let d = digits::decimal(draw as u64);
        path.append("-");
        path.append(p.as_str());
        path.append("-");
        path.append(n.as_str());
        path.append("-");
        path.append(d.as_str());
        TempDir { path }
    }

    /// The path of the directory.
    pub fn path(&self) -> (r: &str)
        ensures
            r@ == self@,
    {
        self.path.as_str()
    }
}

} // verus!
