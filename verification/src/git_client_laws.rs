//! What the git client and the remote helper come to: what git is told of a server,
//! what is asked of a server on git's behalf, and what is run for a clone and a push.

use vstd::prelude::*;

use crate::client::Reply;
use crate::digits;
use crate::git_cli;
use crate::git_cli::{Command, Pushing, Remote, ServerArgs};
use crate::git_remote;
use crate::git_remote::{Reading, Wish};
use crate::gitutil;
use crate::gitutil::{Next, Outcome};
use crate::text;

verus! {

// ---------------------------------------------------------------------------
// The helper's protocol
// ---------------------------------------------------------------------------

proof fn lemma_command_words()
    ensures
        "capabilities"@.len() == 12 && "capabilities"@[0] == 'c',
        "list"@.len() == 4 && "list"@[0] == 'l',
        "list for-push"@.len() == 13 && "list for-push"@[0] == 'l',
        "fetch "@.len() == 6 && "fetch "@[0] == 'f',
        "push "@.len() == 5 && "push "@[0] == 'p',
        "option "@.len() == 7 && "option "@[0] == 'o',
{
    reveal_strlit("capabilities");
    reveal_strlit("list");
    reveal_strlit("list for-push");
    reveal_strlit("fetch ");
    reveal_strlit("push ");
    reveal_strlit("option ");
}

/// The helper names its capabilities, asks the server for its refs, and stops, as git
/// tells it.
pub proof fn law_helper_obeys_commands()
    ensures
        git_remote::line_effect(Reading::Commands, Some("capabilities"@)) == Ok::<_, Seq<char>>(
            (Wish::Write("fetch\npush\noption\n\n"@), Reading::Commands),
        ),
        git_remote::line_effect(Reading::Commands, Some("list"@)) == Ok::<_, Seq<char>>(
            (Wish::List(false), Reading::Commands),
        ),
        git_remote::line_effect(Reading::Commands, Some("list for-push"@)) == Ok::<_, Seq<char>>(
            (Wish::List(true), Reading::Commands),
        ),
        git_remote::line_effect(Reading::Commands, Some(Seq::empty())) == Ok::<_, Seq<char>>(
            (Wish::Stop, Reading::Commands),
        ),
        git_remote::line_effect(Reading::Commands, None) == Ok::<_, Seq<char>>(
            (Wish::Stop, Reading::Commands),
        ),
{
    lemma_command_words();
}

/// The lines of a batch of fetches are gathered, object and name, in their order, and
/// fetched together at the empty line.
pub proof fn law_fetches_are_gathered(
    batch: Seq<(Seq<char>, Seq<char>)>,
    sha: Seq<char>,
    name: Seq<char>,
)
    requires
        !sha.contains(' '),
    ensures
        git_remote::line_effect(Reading::Commands, Some("fetch "@ + (sha + " "@ + name))) == Ok::<
            _,
            Seq<char>,
        >((Wish::Continue, Reading::FetchBatch(seq![(sha, name)]))),
        git_remote::line_effect(
            Reading::FetchBatch(batch),
            Some("fetch "@ + (sha + " "@ + name)),
        ) == Ok::<_, Seq<char>>((Wish::Continue, Reading::FetchBatch(batch.push((sha, name))))),
        git_remote::line_effect(Reading::FetchBatch(batch), Some(Seq::empty())) == Ok::<
            _,
            Seq<char>,
        >((Wish::Fetch(batch), Reading::Commands)),
        git_remote::line_effect(Reading::FetchBatch(batch), None) is Err,
{
    lemma_command_words();
    reveal_strlit(" ");
    let rest = sha + " "@ + name;
    let l = "fetch "@ + rest;
    assert(l[0] == 'f');
    assert(l.take(6) =~= "fetch "@);
    assert(l.skip(6) =~= rest);
    assert(rest[sha.len() as int] == ' ');
    assert forall|j: int| 0 <= j < sha.len() implies rest[j] != ' ' by {
        assert(rest[j] == sha[j]);
        assert(sha.contains(sha[j]));
    }
    text::lemma_first_is(rest, ' ', sha.len() as int);
    assert(rest.take(sha.len() as int) =~= sha);
    assert(rest.skip(sha.len() as int + 1) =~= name);
}

/// The lines of a batch of pushes are gathered in their order, options among them passed
/// over, and pushed together at the empty line.
pub proof fn law_pushes_are_gathered(batch: Seq<Seq<char>>, spec_text: Seq<char>)
    ensures
        git_remote::line_effect(Reading::Commands, Some("push "@ + spec_text)) == Ok::<
            _,
            Seq<char>,
        >((Wish::Continue, Reading::PushBatch(seq![spec_text]))),
        git_remote::line_effect(Reading::PushBatch(batch), Some("push "@ + spec_text)) == Ok::<
            _,
            Seq<char>,
        >((Wish::Continue, Reading::PushBatch(batch.push(spec_text)))),
        git_remote::line_effect(Reading::PushBatch(batch), Some("option "@ + spec_text)) == Ok::<
            _,
            Seq<char>,
        >((Wish::Continue, Reading::PushBatch(batch))),
        git_remote::line_effect(Reading::PushBatch(batch), Some(Seq::empty())) == Ok::<
            _,
            Seq<char>,
        >((Wish::Push(batch), Reading::Commands)),
        git_remote::line_effect(Reading::PushBatch(batch), None) is Err,
{
    lemma_command_words();
    let l = "push "@ + spec_text;
    assert(l[0] == 'p');
    assert(l.take(5) =~= "push "@);
    assert(l.skip(5) =~= spec_text);
    if l.len() >= 6 {
        assert(l.take(6)[0] != "fetch "@[0]);
    }
    let o = "option "@ + spec_text;
    assert(o[0] == 'o');
    assert(o.take(7) =~= "option "@);
    assert(o.take(5)[0] != "push "@[0]);
}

/// The verbosity and the dry run are set as git says, and other options are known or not
/// and change nothing.
pub proof fn law_options_are_set(value: Seq<char>, n: u8, verbosity: u8, dry_run: bool)
    ensures
        git_remote::option_effect("verbosity "@ + digits::dec(n as nat), verbosity, dry_run) == (
            n,
            dry_run,
            true,
        ),
        git_remote::option_effect("dry-run true"@, verbosity, dry_run) == (verbosity, true, true),
        git_remote::option_effect("dry-run false"@, verbosity, dry_run) == (
            verbosity,
            false,
            true,
        ),
{
    reveal_strlit("verbosity ");
    reveal_strlit("verbosity");
    reveal_strlit("dry-run true");
    reveal_strlit("dry-run false");
    reveal_strlit("dry-run");
    reveal_strlit("true");
    reveal_strlit("false");
    let d = digits::dec(n as nat);
    let v = "verbosity "@ + d;
    assert(v[9] == ' ');
    assert forall|j: int| 0 <= j < 9 implies v[j] != ' ' by {
        assert(v[j] == "verbosity "@[j]);
    }
    text::lemma_first_is(v, ' ', 9);
    assert(v.take(9) =~= "verbosity"@);
    assert(v.skip(10) =~= d);
    digits::law_decimal_round_trip(n as nat, 255);
    text::lemma_first_is("dry-run true"@, ' ', 7);
    assert("dry-run true"@.take(7) =~= "dry-run"@);
    assert("dry-run true"@.skip(8) =~= "true"@);
    text::lemma_first_is("dry-run false"@, ' ', 7);
    assert("dry-run false"@.take(7) =~= "dry-run"@);
    assert("dry-run false"@.skip(8) =~= "false"@);
    assert("dry-run"@.len() != "verbosity"@.len());
    assert("true"@.len() != "false"@.len());
}

// ---------------------------------------------------------------------------
// Refs of a server
// ---------------------------------------------------------------------------

/// Lines that are not blank are told to git, without the white space around them, in
/// their order; blank ones are not.
pub proof fn law_full_lines_are_kept(lines: Seq<Seq<char>>, line: Seq<char>)
    ensures
        text::trimmed(line).len() > 0 ==> git_remote::full_lines(lines.push(line))
            == git_remote::full_lines(lines).push(text::trimmed(line)),
        text::trimmed(line).len() == 0 ==> git_remote::full_lines(lines.push(line))
            == git_remote::full_lines(lines),
        git_remote::full_lines(Seq::empty()).len() == 0,
{
    assert(lines.push(line).drop_last() =~= lines);
}

/// Git is told every line of a listing that is not blank, and an empty line at the end,
/// where the server answers with the mark of success; else the listing fails.
pub proof fn law_listing_is_told(b: Seq<u8>)
    ensures
        b.len() > 0 && b[0] == 0 ==> git_remote::list_result(Reply::Bytes(b)) is Ok && (
        git_remote::list_result(Reply::Bytes(b))->Ok_0).0 == gitutil::terminated(
            git_remote::full_lines(text::rows(text::lossy(b.skip(1)))),
        ) + "\n"@,
        b.len() == 0 || b[0] != 0 ==> git_remote::list_result(Reply::Bytes(b)) is Err,
        git_remote::list_result(Reply::Resource(b)) is Err,
{
    reveal_strlit("\n");
    assert("\n"@ =~= seq!['\n']);
}

/// A line of an object name of forty digits and a name under `refs/` is a ref of the
/// server; a line that begins with `@` is none.
pub proof fn law_server_refs_are_read(
    lines: Seq<Seq<char>>,
    line: Seq<char>,
    sha: Seq<char>,
    name: Seq<char>,
)
    requires
        text::trimmed(line) == sha + " "@ + ("refs/"@ + name),
        gitutil::sha_ok(sha),
    ensures
        git_remote::server_pairs(lines.push(line)) == git_remote::server_pairs(lines).push(
            (sha, "refs/"@ + name),
        ),
{
    reveal_strlit(" ");
    reveal_strlit("@");
    reveal_strlit("refs/");
    let full = "refs/"@ + name;
    let t = sha + " "@ + full;
    assert(lines.push(line).drop_last() =~= lines);
    assert(t[40] == ' ');
    assert forall|j: int| 0 <= j < 40 implies t[j] != ' ' by {
        assert(t[j] == sha[j]);
        assert(digits::is_hex(sha[j]));
    }
    text::lemma_first_is(t, ' ', 40);
    assert(t.take(40) =~= sha);
    assert(t.skip(41) =~= full);
    assert(full.take(5) =~= "refs/"@);
    assert(t.take(1)[0] == sha[0]);
    assert(digits::is_hex(sha[0]));
    assert(vstd::utf8::is_ascii_chars(sha)) by {
        assert forall|k: int| 0 <= k < sha.len() implies '\0' <= #[trigger] sha[k] <= '\u{7f}' by {
            assert(digits::is_hex(sha[k]));
        }
    }
    vstd::utf8::is_ascii_chars_encode_utf8(sha);
    assert(git_remote::server_line(line) == Some((sha, full)));
}

/// A response to a request for the refs is read where it begins with the mark of success,
/// and is an error with its code and text otherwise.
pub proof fn law_listing_needs_the_mark_of_success(b: Seq<u8>)
    ensures
        git_cli::listed(b) is Ok <==> b.len() > 0 && b[0] == 0,
        b.len() > 0 && b[0] == 0 ==> git_cli::listed(b) == Ok::<_, Seq<char>>(
            git_cli::remote_in(text::rows(text::lossy(b.skip(1)))),
        ),
        b.len() > 0 && b[0] != 0 ==> git_cli::listed(b) == Err::<Remote, _>(
            "server error "@ + digits::dec(b[0] as nat) + ": "@ + text::trimmed(
                text::lossy(b.skip(1)),
            ),
        ),
{
}

/// The refs of a server are shown with their objects, one on a line, in their order, and
/// behind them the object that `HEAD` points to.
pub proof fn law_refs_are_shown(r: Remote, i: int, k: int)
    ensures
        git_cli::shown(r).len() >= r.refs.len(),
        0 <= i < r.refs.len() ==> git_cli::shown(r)[i] == r.refs[i].0 + "\t"@ + r.refs[i].1,
        r.head is None ==> git_cli::shown(r).len() == r.refs.len(),
        (r.head matches Some(h) && 0 <= k < r.refs.len() && r.refs[k].1 == h && (forall|j: int|
            0 <= j < k ==> (#[trigger] r.refs[j]).1 != h)) ==> git_cli::shown(r).len()
            == r.refs.len() + 1 && git_cli::shown(r).last() == r.refs[k].0 + "\tHEAD"@,
{
    if r.head is Some && 0 <= k < r.refs.len() && r.refs[k].1 == r.head->0 && (forall|j: int|
        0 <= j < k ==> (#[trigger] r.refs[j]).1 != r.head->0) {
        lemma_sha_of(r.refs, r.head->0, k);
    }
}

proof fn lemma_sha_of(refs: Seq<(Seq<char>, Seq<char>)>, name: Seq<char>, k: int)
    requires
        0 <= k < refs.len(),
        refs[k].1 == name,
        forall|j: int| 0 <= j < k ==> (#[trigger] refs[j]).1 != name,
    ensures
        git_cli::sha_of(refs, name) == Some(refs[k].0),
    decreases k,
{
    if k > 0 {
        assert(refs[0].1 != name);
        lemma_sha_of(refs.skip(1), name, k - 1);
    }
}

/// The objects that the client has are the lines that git lists, where git runs and
/// succeeds.
pub proof fn law_held_objects_are_listed_by_git(o: Outcome)
    ensures
        o matches Outcome::Exited { success, stdout, .. } ==> success ==> git_remote::have_result(
            true,
            o,
        ) == Ok::<_, Seq<char>>(git_remote::full_lines(text::rows(text::lossy(stdout)))),
        !(o matches Outcome::Exited { success, .. } && success) ==> git_remote::have_result(
            true,
            o,
        ) is Err,
        git_remote::have_result(false, o) is Err,
        git_remote::index_result(o) is Ok <==> (o matches Outcome::Exited { success, .. }
            && success),
{
}

// ---------------------------------------------------------------------------
// Cloning
// ---------------------------------------------------------------------------

/// Commands that must all succeed end well only once every one of them was run, in its
/// turn, and succeeded.
pub proof fn law_all_commands_were_run(
    cmds: Seq<(Seq<Seq<char>>, Seq<char>)>,
    done: Seq<Outcome>,
    i: int,
)
    requires
        git_cli::all_commands(cmds, done) == Next::Done(Ok::<(), Seq<char>>(())),
        0 <= i < cmds.len(),
    ensures
        i < done.len(),
        done[i] matches Outcome::Exited { success, .. } && success,
        git_cli::all_commands(cmds, done.take(i)) == Next::<Result<(), Seq<char>>>::Run(cmds[i].0),
    decreases cmds.len(),
{
    if i > 0 {
        law_all_commands_were_run(cmds.skip(1), done.skip(1), i - 1);
        assert(done.take(i)[0] == done[0]);
        assert(done.take(i).skip(1) =~= done.skip(1).take(i - 1));
    }
}

/// Commands that all succeed end well, and the next is run when those before it did.
pub proof fn law_commands_follow_each_other(
    cmds: Seq<(Seq<Seq<char>>, Seq<char>)>,
    done: Seq<Outcome>,
)
    requires
        forall|j: int|
            0 <= j < done.len() && j < cmds.len() ==> (#[trigger] done[j] matches Outcome::Exited {
                success,
                ..
            } && success),
    ensures
        done.len() >= cmds.len() ==> git_cli::all_commands(cmds, done) == Next::Done(
            Ok::<(), Seq<char>>(()),
        ),
        done.len() < cmds.len() ==> git_cli::all_commands(cmds, done) == Next::<
            Result<(), Seq<char>>,
        >::Run(cmds[done.len() as int].0),
    decreases cmds.len(),
{
    if cmds.len() > 0 && done.len() > 0 {
        assert(done[0] matches Outcome::Exited { success, .. } && success);
        assert forall|j: int| 0 <= j < done.skip(1).len() && j < cmds.skip(1).len() implies (
        #[trigger] done.skip(1)[j] matches Outcome::Exited { success, .. } && success) by {
            assert(done.skip(1)[j] == done[j + 1]);
        }
        law_commands_follow_each_other(cmds.skip(1), done.skip(1));
    }
}

/// A clone makes a repository, verifies the bundle, fetches all branches and tags from it,
/// and names its origin; without a bundle there is nothing to fetch.
pub proof fn law_clone_has_its_commands(
    dir: Seq<char>,
    branch: Option<Seq<char>>,
    path: Seq<char>,
    url: Seq<char>,
)
    ensures
        ({
            let cmds = git_cli::clone_commands(dir, branch, Some(path), url);
            &&& cmds.len() == 5
            &&& cmds[0].0 == match branch {
                Some(b) => if b.len() > 0 {
                    seq!["init"@, "-b"@, b, dir]
                } else {
                    seq!["init"@, dir]
                },
                None => seq!["init"@, dir],
            }
            &&& cmds[1].0 == seq!["bundle"@, "verify"@, path]
            &&& cmds[2].0 == seq![
                "fetch"@,
                path,
                "+refs/heads/*:refs/remotes/origin/*"@,
                "+refs/tags/*:refs/tags/*"@,
            ]
            &&& cmds[3].0 == seq!["remote"@, "add"@, "origin"@, url]
            &&& cmds[4].0 == seq![
                "config"@,
                "remote.origin.fetch"@,
                "+refs/heads/*:refs/remotes/origin/*"@,
            ]
        }),
        ({
            let cmds = git_cli::clone_commands(dir, branch, None, url);
            &&& cmds.len() == 3
            &&& cmds[0] == git_cli::clone_commands(dir, branch, Some(path), url)[0]
            &&& cmds[1] == git_cli::clone_commands(dir, branch, Some(path), url)[3]
            &&& cmds[2] == git_cli::clone_commands(dir, branch, Some(path), url)[4]
        }),
{
}

/// A clone ends well only once all its commands were run and succeeded: with a bundle,
/// git has fetched all branches and tags from it.
pub proof fn law_cloned_means_fetched(
    dir: Seq<char>,
    branch: Option<Seq<char>>,
    path: Seq<char>,
    url: Seq<char>,
    done: Seq<Outcome>,
)
    requires
        git_cli::clone_step(dir, branch, Some(path), url, done) == Next::Done(
            Ok::<(), Seq<char>>(()),
        ),
    ensures
        done.len() >= 5,
        forall|i: int|
            0 <= i < 5 ==> (#[trigger] done[i] matches Outcome::Exited { success, .. } && success),
        git_cli::clone_step(dir, branch, Some(path), url, done.take(1)) == Next::<
            Result<(), Seq<char>>,
        >::Run(seq!["bundle"@, "verify"@, path]),
        git_cli::clone_step(dir, branch, Some(path), url, done.take(2)) == Next::<
            Result<(), Seq<char>>,
        >::Run(
            seq![
                "fetch"@,
                path,
                "+refs/heads/*:refs/remotes/origin/*"@,
                "+refs/tags/*:refs/tags/*"@,
            ],
        ),
        git_cli::clone_step(dir, branch, Some(path), url, done.take(3)) == Next::<
            Result<(), Seq<char>>,
        >::Run(seq!["remote"@, "add"@, "origin"@, url]),
{
    let cmds = git_cli::clone_commands(dir, branch, Some(path), url);
    law_clone_has_its_commands(dir, branch, path, url);
    assert(git_cli::all_commands(cmds, done) is Done);
    assert(git_cli::all_commands(cmds, done)->Done_0 is Ok);
    assert(git_cli::all_commands(cmds, done)->Done_0->Ok_0 == ());
    law_all_commands_were_run(cmds, done, 0);
    law_all_commands_were_run(cmds, done, 1);
    law_all_commands_were_run(cmds, done, 2);
    law_all_commands_were_run(cmds, done, 3);
    law_all_commands_were_run(cmds, done, 4);
}

/// A clone whose commands succeed has the branch that the server's `HEAD` points to looked
/// for, to be checked out; without one it is done.
pub proof fn law_clone_checks_out_its_branch(
    dir: Seq<char>,
    branch: Option<Seq<char>>,
    bundle: Option<Seq<char>>,
    url: Seq<char>,
    done: Seq<Outcome>,
)
    requires
        done.len() == if bundle is Some {
            5int
        } else {
            3
        },
        forall|j: int|
            0 <= j < done.len() ==> (#[trigger] done[j] matches Outcome::Exited { success, .. }
                && success),
    ensures
        branch matches Some(b) ==> git_cli::clone_step(dir, branch, bundle, url, done) == Next::<
            Result<(), Seq<char>>,
        >::Run(seq!["rev-parse"@, "--verify"@, "--quiet"@, "refs/heads/"@ + b]),
        branch is None ==> git_cli::clone_step(dir, branch, bundle, url, done) == Next::Done(
            Ok::<(), Seq<char>>(()),
        ),
{
    let cmds = git_cli::clone_commands(dir, branch, bundle, url);
    law_commands_follow_each_other(cmds, done);
    assert(done.skip(cmds.len() as int) =~= Seq::empty());
    if branch is Some {
        let b = branch->0;
        let full = "refs/heads/"@ + b;
        assert(full.take("refs/heads/"@.len() as int) =~= "refs/heads/"@);
        assert(full.skip("refs/heads/"@.len() as int) =~= b);
    }
}

/// A branch that was checked out is tied to the same branch of the origin.
pub proof fn law_branch_tracks_its_origin(branch: Seq<char>)
    ensures
        git_cli::tracking_commands(branch).len() == 2,
        git_cli::tracking_commands(branch)[0].0 == seq![
            "config"@,
            "branch."@ + branch + ".remote"@,
            "origin"@,
        ],
        git_cli::tracking_commands(branch)[1].0 == seq![
            "config"@,
            "branch."@ + branch + ".merge"@,
            "refs/heads/"@ + branch,
        ],
{
}

/// The branch of a `HEAD` is what stands behind `refs/heads/`, and a clone goes into a
/// directory with the name of the repository.
pub proof fn law_clone_has_its_names(name: Seq<char>, group: Seq<char>)
    requires
        !name.contains('/'),
    ensures
        git_cli::branch_of(Some("refs/heads/"@ + name)) == Some(name),
        git_cli::branch_of(None) is None,
        git_cli::clone_name(group + "/"@ + name) == name,
{
    let full = "refs/heads/"@ + name;
    assert(full.take("refs/heads/"@.len() as int) =~= "refs/heads/"@);
    assert(full.skip("refs/heads/"@.len() as int) =~= name);
    reveal_strlit("/");
    let path = group + "/"@ + name;
    text::lemma_last_of(path, '/');
    assert(path[group.len() as int] == '/');
    let i = text::last_of(path, '/')->0;
    if i > group.len() {
        assert(name.contains(name[i - group.len() - 1]));
    }
    assert(path.skip(group.len() as int + 1) =~= name);
}

// ---------------------------------------------------------------------------
// Pushing
// ---------------------------------------------------------------------------

proof fn lemma_chosen_stay(
    local: Seq<(Seq<char>, Seq<char>)>,
    known: Map<Seq<char>, Seq<char>>,
    force: bool,
    chosen: Seq<Seq<char>>,
    done: Seq<Outcome>,
    name: Seq<char>,
)
    requires
        git_cli::choose_refs(local, known, force, chosen, done) is Done,
        git_cli::choose_refs(local, known, force, chosen, done)->Done_0 is Ok,
        chosen.contains(name),
    ensures
        git_cli::choose_refs(local, known, force, chosen, done)->Done_0->Ok_0.contains(name),
    decreases local.len(),
{
    if local.len() > 0 {
        let n = local[0].1;
        let j = choose|j: int| 0 <= j < chosen.len() && chosen[j] == name;
        assert(chosen.push(n)[j] == name);
        let (sha, _) = local[0];
        if !known.contains_key(n) || (known[n] != sha && force) {
            lemma_chosen_stay(local.skip(1), known, force, chosen.push(n), done, name);
        } else if known[n] == sha {
            lemma_chosen_stay(local.skip(1), known, force, chosen, done, name);
        } else {
            lemma_chosen_stay(local.skip(1), known, force, chosen.push(n), done.skip(1), name);
        }
    }
}

/// Every local ref that is not known is pushed, and every one that is known with another
/// object: where the choice ends well, it names them all.
pub proof fn law_changed_refs_are_pushed(
    local: Seq<(Seq<char>, Seq<char>)>,
    known: Map<Seq<char>, Seq<char>>,
    force: bool,
    chosen: Seq<Seq<char>>,
    done: Seq<Outcome>,
    i: int,
)
    requires
        git_cli::choose_refs(local, known, force, chosen, done) is Done,
        git_cli::choose_refs(local, known, force, chosen, done)->Done_0 is Ok,
        0 <= i < local.len(),
        !known.contains_key(local[i].1) || known[local[i].1] != local[i].0,
    ensures
        git_cli::choose_refs(local, known, force, chosen, done)->Done_0->Ok_0.contains(local[i].1),
    decreases local.len(),
{
    let (sha, n) = local[0];
    let more = chosen.push(n);
    if i == 0 {
        assert(more[chosen.len() as int] == n);
        if !known.contains_key(n) || force {
            lemma_chosen_stay(local.skip(1), known, force, more, done, n);
        } else {
            lemma_chosen_stay(local.skip(1), known, force, more, done.skip(1), n);
        }
    } else {
        let rest = local.skip(1);
        assert(rest[i - 1] == local[i]);
        if !known.contains_key(n) || (known[n] != sha && force) {
            law_changed_refs_are_pushed(rest, known, force, more, done, i - 1);
        } else if known[n] == sha {
            law_changed_refs_are_pushed(rest, known, force, chosen, done, i - 1);
        } else {
            law_changed_refs_are_pushed(rest, known, force, more, done.skip(1), i - 1);
        }
    }
}

/// Only local refs are pushed, and none that is known with the same object.
pub proof fn law_only_changed_refs_are_pushed(
    local: Seq<(Seq<char>, Seq<char>)>,
    known: Map<Seq<char>, Seq<char>>,
    force: bool,
    chosen: Seq<Seq<char>>,
    done: Seq<Outcome>,
    name: Seq<char>,
)
    requires
        git_cli::choose_refs(local, known, force, chosen, done) is Done,
        git_cli::choose_refs(local, known, force, chosen, done)->Done_0 is Ok,
        git_cli::choose_refs(local, known, force, chosen, done)->Done_0->Ok_0.contains(name),
        !chosen.contains(name),
    ensures
        exists|i: int|
            0 <= i < local.len() && (#[trigger] local[i]).1 == name && (!known.contains_key(name)
                || known[name] != local[i].0),
    decreases local.len(),
{
    if local.len() > 0 {
        let (sha, n) = local[0];
        let more = chosen.push(n);
        let rest = local.skip(1);
        if known.contains_key(n) && known[n] == sha {
            law_only_changed_refs_are_pushed(rest, known, force, chosen, done, name);
        } else if n == name {
            assert(local[0].1 == name);
        } else {
            assert(!more.contains(name)) by {
                if more.contains(name) {
                    let j = choose|j: int| 0 <= j < more.len() && more[j] == name;
                    assert(chosen[j] == name);
                }
            }
            if !known.contains_key(n) || force {
                law_only_changed_refs_are_pushed(rest, known, force, more, done, name);
            } else {
                law_only_changed_refs_are_pushed(rest, known, force, more, done.skip(1), name);
            }
        }
        if !(n == name && (!known.contains_key(name) || known[name] != sha)) {
            let i = choose|i: int|
                0 <= i < rest.len() && (#[trigger] rest[i]).1 == name && (!known.contains_key(name)
                    || known[name] != rest[i].0);
            assert(local[i + 1] == rest[i]);
        }
    }
}

/// A ref that is known with another object is pushed without force only where git finds
/// that object among its ancestors; else nothing is pushed.
pub proof fn law_push_is_a_fast_forward(
    sha: Seq<char>,
    name: Seq<char>,
    known: Map<Seq<char>, Seq<char>>,
    rest: Seq<(Seq<char>, Seq<char>)>,
    answer: Outcome,
    more: Seq<Outcome>,
)
    requires
        known.contains_key(name),
        known[name] != sha,
    ensures
        ({
            let local = seq![(sha, name)] + rest;
            &&& git_cli::choose_refs(local, known, false, Seq::empty(), Seq::empty()) == Next::<
                Result<Seq<Seq<char>>, Seq<char>>,
            >::Run(seq!["merge-base"@, "--is-ancestor"@, known[name], sha])
            &&& !(answer matches Outcome::Exited { success, .. } && success) ==> ({
                let end = git_cli::choose_refs(
                    local,
                    known,
                    false,
                    Seq::empty(),
                    seq![answer] + more,
                );
                end is Done && end->Done_0 is Err
            })
            &&& (answer matches Outcome::Exited { success, .. } && success)
                ==> git_cli::choose_refs(
                local,
                known,
                false,
                Seq::empty(),
                seq![answer] + more,
            ) == git_cli::choose_refs(rest, known, false, seq![name], more)
        }),
{
    let local = seq![(sha, name)] + rest;
    assert(local[0] == (sha, name));
    assert(local.skip(1) =~= rest);
    assert((seq![answer] + more)[0] == answer);
    assert((seq![answer] + more).skip(1) =~= more);
    assert(Seq::<Seq<char>>::empty().push(name) =~= seq![name]);
}

/// Where the server knows none of the refs, all of them are pushed at once, in their order.
pub proof fn law_unknown_refs_are_all_pushed(
    local: Seq<(Seq<char>, Seq<char>)>,
    known: Map<Seq<char>, Seq<char>>,
    force: bool,
    chosen: Seq<Seq<char>>,
    done: Seq<Outcome>,
)
    requires
        forall|i: int|
            0 <= i < local.len() ==> !known.contains_key((#[trigger] local[i]).1) || (force
                && known[local[i].1] != local[i].0),
    ensures
        git_cli::choose_refs(local, known, force, chosen, done) == Next::Done(
            Ok::<_, Seq<char>>(chosen + Seq::new(local.len(), |i: int| local[i].1)),
        ),
    decreases local.len(),
{
    if local.len() == 0 {
        assert(chosen + Seq::new(local.len(), |i: int| local[i].1) =~= chosen);
    } else {
        let rest = local.skip(1);
        assert(!known.contains_key(local[0].1) || (force && known[local[0].1] != local[0].0));
        assert forall|i: int| 0 <= i < rest.len() implies !known.contains_key(
            (#[trigger] rest[i]).1,
        ) || (force && known[rest[i].1] != rest[i].0) by {
            assert(rest[i] == local[i + 1]);
        }
        law_unknown_refs_are_all_pushed(rest, known, force, chosen.push(local[0].1), done);
        assert(chosen.push(local[0].1) + Seq::new(rest.len(), |i: int| rest[i].1) =~= chosen
            + Seq::new(local.len(), |i: int| local[i].1));
    }
}

/// The objects of the server's refs are looked for here, each in its turn, and those that
/// are here are left out of what is sent.
pub proof fn law_common_objects_are_found(
    refs: Seq<(Seq<char>, Seq<char>)>,
    found: Seq<Seq<char>>,
    done: Seq<Outcome>,
    i: int,
)
    requires
        0 <= i < refs.len(),
        done.len() >= i,
    ensures
        done.len() == i ==> git_cli::common_objects(refs, found, done) == Next::<
            Seq<Seq<char>>,
        >::Run(seq!["cat-file"@, "-t"@, refs[i].0]),
        done.len() >= refs.len() ==> git_cli::common_objects(refs, found, done) is Done,
        done.len() >= refs.len() && (done[i] matches Outcome::Exited { success, .. } && success)
            ==> git_cli::common_objects(refs, found, done)->Done_0.contains(refs[i].0),
    decreases refs.len(),
{
    if done.len() > 0 {
        let more = if gitutil::succeeded(done[0]) {
            found.push(refs[0].0)
        } else {
            found
        };
        if i > 0 {
            law_common_objects_are_found(refs.skip(1), more, done.skip(1), i - 1);
        } else {
            lemma_found_stay(refs.skip(1), more, done.skip(1), refs[0].0);
            if gitutil::succeeded(done[0]) {
                assert(more[found.len() as int] == refs[0].0);
            }
        }
    }
}

proof fn lemma_found_stay(
    refs: Seq<(Seq<char>, Seq<char>)>,
    found: Seq<Seq<char>>,
    done: Seq<Outcome>,
    sha: Seq<char>,
)
    ensures
        done.len() >= refs.len() ==> git_cli::common_objects(refs, found, done) is Done,
        done.len() >= refs.len() && found.contains(sha) ==> git_cli::common_objects(
            refs,
            found,
            done,
        )->Done_0.contains(sha),
    decreases refs.len(),
{
    if refs.len() > 0 && done.len() > 0 {
        let more = if gitutil::succeeded(done[0]) {
            found.push(refs[0].0)
        } else {
            found
        };
        if found.contains(sha) {
            let j = choose|j: int| 0 <= j < found.len() && found[j] == sha;
            assert(more[j] == sha);
        }
        lemma_found_stay(refs.skip(1), more, done.skip(1), sha);
    }
}

/// Refs are pushed one after the other, and all are pushed only once the server has taken
/// each of them with the mark of success.
pub proof fn law_all_refs_were_taken(count: int, answers: Seq<Reply>, i: int)
    requires
        count > 0,
    ensures
        git_cli::pushing(count, answers) is Finished && 0 <= i < answers.len() ==> (
        answers[i] matches Reply::Bytes(b) && b.len() > 0 && b[0] == 0),
        git_cli::pushing(count, answers) is Finished ==> answers.len() >= count,
        git_cli::pushing(count, Seq::empty()) == Pushing::Send(0),
        git_cli::pushing(0, answers) is UpToDate,
{
    if git_cli::refusal(answers) is None && 0 <= i < answers.len() {
        lemma_no_refusal(answers, i);
    }
}

proof fn lemma_no_refusal(answers: Seq<Reply>, i: int)
    requires
        git_cli::refusal(answers) is None,
        0 <= i < answers.len(),
    ensures
        answers[i] matches Reply::Bytes(b) && b.len() > 0 && b[0] == 0,
    decreases answers.len(),
{
    if i > 0 {
        lemma_no_refusal(answers.skip(1), i - 1);
    }
}

/// After answers that all took their ref, the next ref is sent, until all are pushed.
pub proof fn law_next_ref_is_sent(count: int, answers: Seq<Reply>)
    requires
        count > 0,
        forall|j: int|
            0 <= j < answers.len() ==> (#[trigger] answers[j] matches Reply::Bytes(b) && b.len() > 0
                && b[0] == 0),
    ensures
        git_cli::pushing(count, answers) == if answers.len() < count {
            Pushing::Send(answers.len() as int)
        } else {
            Pushing::Finished
        },
{
    lemma_all_taken(answers);
}

proof fn lemma_all_taken(answers: Seq<Reply>)
    requires
        forall|j: int|
            0 <= j < answers.len() ==> (#[trigger] answers[j] matches Reply::Bytes(b) && b.len() > 0
                && b[0] == 0),
    ensures
        git_cli::refusal(answers) is None,
    decreases answers.len(),
{
    if answers.len() > 0 {
        assert(answers[0] matches Reply::Bytes(b) && b.len() > 0 && b[0] == 0);
        assert forall|j: int| 0 <= j < answers.skip(1).len() implies (
        #[trigger] answers.skip(1)[j] matches Reply::Bytes(b) && b.len() > 0 && b[0] == 0) by {
            assert(answers.skip(1)[j] == answers[j + 1]);
        }
        lemma_all_taken(answers.skip(1));
    }
}

// ---------------------------------------------------------------------------
// Command lines
// ---------------------------------------------------------------------------

/// The first argument names the command, and the service runs where it names none.
pub proof fn law_words_name_commands(word: Seq<char>)
    ensures
        git_cli::command_named(Some("ls-remote"@)) == Command::LsRemote,
        git_cli::command_named(Some("clone"@)) == Command::Clone,
        git_cli::command_named(Some("push"@)) == Command::Push,
        git_cli::command_named(Some("delete"@)) == Command::Delete,
        git_cli::command_named(Some("help"@)) == Command::Help,
        git_cli::command_named(Some("-h"@)) == Command::Help,
        git_cli::command_named(Some("--help"@)) == Command::Help,
        git_cli::command_named(None) == Command::Serve,
        word != "ls-remote"@ && word != "clone"@ && word != "push"@ && word != "delete"@ && word
            != "help"@ && word != "-h"@ && word != "--help"@ ==> git_cli::command_named(Some(word))
            == Command::Serve,
{
    reveal_strlit("ls-remote");
    reveal_strlit("clone");
    reveal_strlit("push");
    reveal_strlit("delete");
    reveal_strlit("help");
    reveal_strlit("-h");
    reveal_strlit("--help");
    assert("ls-remote"@.len() == 9 && "clone"@.len() == 5 && "push"@.len() == 4);
    assert("delete"@.len() == 6 && "help"@.len() == 4 && "-h"@.len() == 2 && "--help"@.len() == 6);
    assert("push"@[0] != "help"@[0]);
    assert("delete"@[0] != "--help"@[0]);
}

/// The interval of the service is the last one that is given; an argument that is not
/// known, and an interval that is missing or no number, is an error.
pub proof fn law_service_reads_its_interval(n: u64, rest: Seq<Seq<char>>, before: Option<u64>)
    ensures
        git_cli::server_args(Seq::empty(), before) == Ok::<_, Seq<char>>(ServerArgs::Run(before)),
        git_cli::server_args(seq!["-b"@, digits::dec(n as nat)] + rest, before)
            == git_cli::server_args(rest, Some(n)),
        git_cli::server_args(seq!["--announce"@, digits::dec(n as nat)] + rest, before)
            == git_cli::server_args(rest, Some(n)),
        git_cli::server_args(seq!["-b"@], before) is Err,
        git_cli::server_args(seq!["-h"@] + rest, before) == Ok::<_, Seq<char>>(ServerArgs::Help),
{
    digits::law_decimal_round_trip(n as nat, u64::MAX as nat);
    let a = seq!["-b"@, digits::dec(n as nat)] + rest;
    let b = seq!["--announce"@, digits::dec(n as nat)] + rest;
    assert(a.skip(2) =~= rest);
    assert(b.skip(2) =~= rest);
    reveal_strlit("-b");
    reveal_strlit("-h");
    reveal_strlit("--announce");
    assert("-b"@[1] != "-h"@[1]);
    assert("-h"@.len() == 2 && "--announce"@.len() == 10);
}

/// A push takes its directory and its address in this order, and is forced where any
/// argument says so.
pub proof fn law_push_reads_its_arguments(dir: Seq<char>, url: Seq<char>)
    requires
        dir != "-f"@ && dir != "--force"@ && url != "-f"@ && url != "--force"@,
    ensures
        git_cli::push_arguments(seq![dir, url]) == Ok::<_, Seq<char>>((false, dir, url)),
        git_cli::push_arguments(seq!["-f"@, dir, url]) == Ok::<_, Seq<char>>((true, dir, url)),
        git_cli::push_arguments(seq!["--force"@, dir, url]) == Ok::<_, Seq<char>>((true, dir, url)),
        git_cli::push_arguments(seq![dir, url, "--force"@]) == Ok::<_, Seq<char>>((true, dir, url)),
        git_cli::push_arguments(seq![dir]) is Err,
{
    reveal_with_fuel(git_cli::positional, 4);
    let plain = seq![dir, url];
    assert(plain.drop_last() =~= seq![dir]);
    assert(seq![dir].drop_last() =~= Seq::empty());
    assert(git_cli::positional(plain) =~= plain);
    let short = seq!["-f"@, dir, url];
    assert(short.drop_last() =~= seq!["-f"@, dir]);
    assert(seq!["-f"@, dir].drop_last() =~= seq!["-f"@]);
    assert(seq!["-f"@].drop_last() =~= Seq::empty());
    assert(git_cli::positional(short) =~= plain);
    assert(git_cli::forces(short[0]));
    let long = seq!["--force"@, dir, url];
    assert(long.drop_last() =~= seq!["--force"@, dir]);
    assert(seq!["--force"@, dir].drop_last() =~= seq!["--force"@]);
    assert(seq!["--force"@].drop_last() =~= Seq::empty());
    assert(git_cli::positional(long) =~= plain);
    assert(git_cli::forces(long[0]));
    let last = seq![dir, url, "--force"@];
    assert(last.drop_last() =~= plain);
    assert(git_cli::positional(last) =~= plain);
    assert(git_cli::forces(last[2]));
}

/// An address that git hands over with the scheme of the helper alone is the address
/// behind it.
pub proof fn law_helper_scheme_is_taken_off(rest: Seq<char>)
    ensures
        git_remote::helper_url("rns::"@ + rest) == rest,
        !text::begins(rest, "rns::"@) ==> git_remote::helper_url(rest) == rest,
{
    assert(("rns::"@ + rest).take("rns::"@.len() as int) =~= "rns::"@);
    assert(("rns::"@ + rest).skip("rns::"@.len() as int) =~= rest);
}

/// The options that git may set, with or without a value, are known, change neither the
/// verbosity nor the dry run, and any other is not known.
pub proof fn law_other_options_are_known_or_not(
    name: Seq<char>,
    value: Seq<char>,
    verbosity: u8,
    dry_run: bool,
)
    requires
        !name.contains(' '),
        name != "verbosity"@,
        name != "dry-run"@,
    ensures
        git_remote::option_effect(name, verbosity, dry_run) == git_remote::option_effect(
            name + " "@ + value,
            verbosity,
            dry_run,
        ),
        git_remote::option_effect(name, verbosity, dry_run).0 == verbosity,
        git_remote::option_effect(name, verbosity, dry_run).1 == dry_run,
        name == "progress"@ ==> git_remote::option_effect(name, verbosity, dry_run).2,
        name == "followtags"@ ==> git_remote::option_effect(name, verbosity, dry_run).2,
        name == "cloning"@ ==> git_remote::option_effect(name, verbosity, dry_run).2,
        name == "update-shallow"@ ==> git_remote::option_effect(name, verbosity, dry_run).2,
        name == "refetch"@ ==> git_remote::option_effect(name, verbosity, dry_run).2,
        name == "force"@ ==> git_remote::option_effect(name, verbosity, dry_run).2,
        name == "atomic"@ ==> git_remote::option_effect(name, verbosity, dry_run).2,
        name == "push-cert"@ ==> git_remote::option_effect(name, verbosity, dry_run).2,
        name == "push-option"@ ==> git_remote::option_effect(name, verbosity, dry_run).2,
        name != "progress"@ && name != "followtags"@ && name != "cloning"@ && name
            != "update-shallow"@ && name != "refetch"@ && name != "force"@ && name != "atomic"@
            && name != "push-cert"@ && name != "push-option"@ ==> !git_remote::option_effect(
            name,
            verbosity,
            dry_run,
        ).2,
{
    reveal_strlit(" ");
    let rest = name + " "@ + value;
    let n = name.len() as int;
    assert(rest[n] == ' ');
    assert forall|j: int| 0 <= j < n implies rest[j] != ' ' by {
        assert(rest[j] == name[j]);
    }
    text::lemma_first_is(rest, ' ', n);
    assert(rest.take(n) =~= name);
    text::lemma_first_of(name, ' ');
}

/// Each line of a listing tells one ref, or where `HEAD` points to; the refs keep their
/// order, and the last `HEAD` counts.
pub proof fn law_listing_is_read_by_lines(
    lines: Seq<Seq<char>>,
    sha: Seq<char>,
    name: Seq<char>,
    head: Seq<char>,
)
    requires
        sha.len() > 0,
        !sha.contains(' '),
        sha[0] != '@',
        !text::white(sha[0]),
        name.len() > 0,
        !text::white(name.last()),
    ensures
        git_cli::remote_in(lines.push(sha + " "@ + name)) == (git_cli::Remote {
            refs: git_cli::remote_in(lines).refs.push((sha, name)),
            head: git_cli::remote_in(lines).head,
        }),
        git_cli::remote_in(lines.push("@"@ + head + " HEAD"@)) == (git_cli::Remote {
            refs: git_cli::remote_in(lines).refs,
            head: Some(head),
        }),
        git_cli::remote_in(Seq::<Seq<char>>::empty()) == (git_cli::Remote {
            refs: Seq::empty(),
            head: None,
        }),
{
    reveal_strlit(" ");
    reveal_strlit("@");
    reveal_strlit(" HEAD");
    let line = sha + " "@ + name;
    assert(lines.push(line).drop_last() =~= lines);
    assert(line[0] == sha[0]);
    assert(line.last() == name.last());
    assert(text::trimmed(line) == line);
    assert(line.take(1)[0] == sha[0]);
    assert("@"@[0] == '@');
    assert(text::after(line, "@"@) is None);
    let n = sha.len() as int;
    assert forall|j: int| 0 <= j < n implies line[j] != ' ' by {
        assert(line[j] == sha[j]);
    }
    text::lemma_first_is(line, ' ', n);
    assert(line.take(n) =~= sha);
    assert(line.skip(n + 1) =~= name);
    let told = "@"@ + head + " HEAD"@;
    assert(lines.push(told).drop_last() =~= lines);
    assert(" HEAD"@.len() == 5 && " HEAD"@[4] == 'D');
    assert(told.last() == 'D');
    assert(told[0] == '@');
    assert(!text::white('@') && !text::white('D'));
    assert(text::trimmed(told) == told);
    assert(told.take(1) =~= "@"@);
    let rest = told.skip(1);
    assert(rest =~= head + " HEAD"@);
    assert(rest.skip(rest.len() - 5) =~= " HEAD"@);
    assert(rest.take(rest.len() - 5) =~= head);
}

} // verus!
