//! What the operations on repositories come to: which git commands are run before
//! an operation ends well, and what they are told.

use vstd::prelude::*;

use crate::gitutil;
use crate::gitutil::{Create, Next, Outcome};
use crate::text;

verus! {

// ---------------------------------------------------------------------------
// Pushing
// ---------------------------------------------------------------------------

/// A push ends well only once git has verified the bundle and then fetched the
/// pushed ref from it into the ref of the repository, forced exactly where that is
/// asked for.
pub proof fn law_applied_push_was_fetched(
    path: Seq<char>,
    local: Seq<char>,
    remote: Seq<char>,
    force: bool,
    done: Seq<Outcome>,
)
    requires
        gitutil::apply_step(path, local, remote, force, done) == Next::Done(
            Ok::<(), Seq<char>>(()),
        ),
    ensures
        done.len() >= 2,
        done[0] matches Outcome::Exited { success, .. } && success,
        done[1] matches Outcome::Exited { success, .. } && success,
        gitutil::apply_step(path, local, remote, force, done.take(0)) == Next::<
            Result<(), Seq<char>>,
        >::Run(seq!["bundle"@, "verify"@, path]),
        gitutil::apply_step(path, local, remote, force, done.take(1)) == Next::<
            Result<(), Seq<char>>,
        >::Run(
            if force {
                seq!["fetch"@, path, local + ":"@ + remote, "--force"@]
            } else {
                seq!["fetch"@, path, local + ":"@ + remote]
            },
        ),
{
    assert(done.skip(1)[0] == done[1]);
    assert(seq!["fetch"@, path, local + ":"@ + remote].push("--force"@) =~= seq![
        "fetch"@,
        path,
        local + ":"@ + remote,
        "--force"@,
    ]);
    assert(done.take(1).skip(1) =~= Seq::empty());
}

/// A push between two refs that are accepted ends well when git verifies the bundle
/// and fetches from it, and in an error when git does not.
pub proof fn law_push_ends_as_git_does(
    path: Seq<char>,
    local: Seq<char>,
    remote: Seq<char>,
    force: bool,
    verified: Outcome,
    fetched: Outcome,
)
    requires
        gitutil::ref_ok(local),
        gitutil::ref_ok(remote),
    ensures
        ({
            let good = (verified matches Outcome::Exited { success, .. } && success)
                && (fetched matches Outcome::Exited { success, .. } && success);
            let end = gitutil::apply_step(path, local, remote, force, seq![verified, fetched]);
            if good {
                end == Next::Done(Ok::<(), Seq<char>>(()))
            } else {
                end is Done && end->Done_0 is Err
            }
        }),
{
    assert(seq![verified, fetched].skip(1)[0] == fetched);
}

/// Nothing is fetched from a bundle that git did not verify, nor for refs that are
/// not accepted.
pub proof fn law_unverified_bundle_is_not_fetched(
    path: Seq<char>,
    local: Seq<char>,
    remote: Seq<char>,
    force: bool,
    verified: Outcome,
)
    requires
        (!gitutil::ref_ok(local) || !gitutil::ref_ok(remote) || !(
        verified matches Outcome::Exited { success, .. } && success)),
    ensures
        ({
            let end = gitutil::apply_step(path, local, remote, force, seq![verified]);
            end is Done && end->Done_0 is Err
        }),
{
}

/// A bundle for a push holds every ref that is named, in their order, and leaves out
/// what every prerequisite reaches.
pub proof fn law_pushed_bundle_holds_the_refs(
    path: Seq<char>,
    refs: Seq<Seq<char>>,
    prerequisites: Seq<Seq<char>>,
)
    requires
        refs.len() > 0,
        forall|i: int| 0 <= i < refs.len() ==> gitutil::ref_ok(#[trigger] refs[i]),
        forall|i: int| 0 <= i < prerequisites.len() ==> gitutil::sha_ok(#[trigger] prerequisites[i]),
    ensures
        gitutil::push_args(path, refs, prerequisites) is Ok,
        ({
            let args = gitutil::push_args(path, refs, prerequisites)->Ok_0;
            &&& args.len() == 4 + refs.len() + prerequisites.len()
            &&& args.take(4) == seq!["bundle"@, "create"@, "--no-progress"@, path]
            &&& forall|i: int| 0 <= i < refs.len() ==> #[trigger] args[4 + i] == refs[i]
            &&& forall|i: int|
                0 <= i < prerequisites.len() ==> #[trigger] args[4 + refs.len() + i] == "^"@
                    + prerequisites[i]
        }),
{
    let args = gitutil::push_args(path, refs, prerequisites)->Ok_0;
    assert(args.take(4) =~= seq!["bundle"@, "create"@, "--no-progress"@, path]);
}

/// No bundle is made for a push without refs, or with a name that is not accepted.
pub proof fn law_unfit_push_is_refused(
    path: Seq<char>,
    refs: Seq<Seq<char>>,
    prerequisites: Seq<Seq<char>>,
)
    requires
        refs.len() == 0 || (exists|i: int|
            0 <= i < refs.len() && !gitutil::ref_ok(#[trigger] refs[i])) || (exists|i: int|
            0 <= i < prerequisites.len() && !gitutil::sha_ok(#[trigger] prerequisites[i])),
    ensures
        gitutil::push_args(path, refs, prerequisites) is Err,
{
}

// ---------------------------------------------------------------------------
// Fetching
// ---------------------------------------------------------------------------

/// The command ran and succeeded.
pub open spec fn well(o: Outcome) -> bool {
    o matches Outcome::Exited { success, .. } && success
}

/// The question to git whether a ref is there.
pub open spec fn ref_question(name: Seq<char>) -> Seq<Seq<char>> {
    seq!["rev-parse"@, "--verify"@, "--quiet"@, name]
}

/// The question to git whether an object is there.
pub open spec fn object_question(sha: Seq<char>) -> Seq<Seq<char>> {
    seq!["cat-file"@, "-t"@, sha]
}

/// The command makes a bundle.
pub open spec fn bundles(command: Seq<Seq<char>>) -> bool {
    command.len() > 0 && command[0] == "bundle"@
}

proof fn lemma_commands_differ(name: Seq<char>)
    ensures
        !bundles(ref_question(name)),
        !bundles(object_question(name)),
        forall|sha: Seq<char>| ref_question(name) != #[trigger] object_question(sha),
{
    reveal_strlit("bundle");
    reveal_strlit("rev-parse");
    reveal_strlit("cat-file");
    assert("bundle"@[0] == 'b' && "rev-parse"@[0] == 'r' && "cat-file"@[0] == 'c');
    assert forall|sha: Seq<char>| ref_question(name) != #[trigger] object_question(sha) by {
        assert(ref_question(name)[0] != object_question(sha)[0]);
    }
}

proof fn lemma_within(a: Seq<Seq<char>>, b: Seq<Seq<char>>, x: Seq<char>)
    requires
        4 <= a.len() <= b.len(),
        b.take(a.len() as int) == a,
        a.skip(4).contains(x),
    ensures
        b.skip(4).contains(x),
{
    let j = choose|j: int| 0 <= j < a.skip(4).len() && a.skip(4)[j] == x;
    assert(a[j + 4] == x);
    assert(b.take(a.len() as int)[j + 4] == x);
    assert(b.skip(4)[j] == x);
}

/// What is known of a bundle command once it is reached.
spec fn reached(args: Seq<Seq<char>>, out: Seq<Seq<char>>) -> bool {
    args.len() >= 4 && bundles(args) && bundles(out)
}

proof fn lemma_haves_grow(
    haves: Seq<Seq<char>>,
    args: Seq<Seq<char>>,
    added: bool,
    done: Seq<Outcome>,
    out: Seq<Seq<char>>,
)
    requires
        reached(args, out),
        gitutil::fetch_haves(haves, args, added, done) == Next::<
            Result<Option<()>, Seq<char>>,
        >::Run(out),
    ensures
        added,
        done.len() == haves.len(),
        args.len() <= out.len(),
        out.take(args.len() as int) == args,
    decreases haves.len(),
{
    if haves.len() == 0 {
        assert(out.take(args.len() as int) =~= args);
    } else {
        lemma_commands_differ(haves[0]);
        assert(gitutil::object_test(haves[0]) =~= object_question(haves[0]));
        let more = if gitutil::succeeded(done[0]) {
            args.push(gitutil::without(haves[0]))
        } else {
            args
        };
        lemma_haves_grow(haves.skip(1), more, added, done.skip(1), out);
        assert(out.take(more.len() as int).take(args.len() as int) =~= out.take(args.len() as int));
        assert(more.take(args.len() as int) =~= args);
    }
}

proof fn lemma_haves_at(
    haves: Seq<Seq<char>>,
    args: Seq<Seq<char>>,
    added: bool,
    done: Seq<Outcome>,
    out: Seq<Seq<char>>,
    k: int,
)
    requires
        reached(args, out),
        gitutil::fetch_haves(haves, args, added, done) == Next::<
            Result<Option<()>, Seq<char>>,
        >::Run(out),
        0 <= k < done.len(),
    ensures
        k < haves.len(),
        gitutil::fetch_haves(haves, args, added, done.take(k)) == Next::<
            Result<Option<()>, Seq<char>>,
        >::Run(object_question(haves[k])),
        well(done[k]) ==> out.skip(4).contains("^"@ + haves[k]),
    decreases haves.len(),
{
    lemma_haves_grow(haves, args, added, done, out);
    lemma_commands_differ(haves[0]);
    assert(gitutil::object_test(haves[0]) =~= object_question(haves[0]));
    let more = if gitutil::succeeded(done[0]) {
        args.push(gitutil::without(haves[0]))
    } else {
        args
    };
    if k == 0 {
        lemma_haves_grow(haves.skip(1), more, added, done.skip(1), out);
        if well(done[0]) {
            assert(more.skip(4)[args.len() - 4] == "^"@ + haves[0]);
            lemma_within(more, out, "^"@ + haves[0]);
        }
    } else {
        lemma_haves_at(haves.skip(1), more, added, done.skip(1), out, k - 1);
        assert(done.take(k)[0] == done[0]);
        assert(done.take(k).skip(1) =~= done.skip(1).take(k - 1));
    }
}

proof fn lemma_haves_from(
    haves: Seq<Seq<char>>,
    args: Seq<Seq<char>>,
    added: bool,
    done: Seq<Outcome>,
    out: Seq<Seq<char>>,
    j: int,
) -> (k: int)
    requires
        reached(args, out),
        gitutil::fetch_haves(haves, args, added, done) == Next::<
            Result<Option<()>, Seq<char>>,
        >::Run(out),
        args.len() <= j < out.len(),
    ensures
        0 <= k < done.len(),
        k < haves.len(),
        well(done[k]),
        out[j] == "^"@ + haves[k],
        gitutil::fetch_haves(haves, args, added, done.take(k)) == Next::<
            Result<Option<()>, Seq<char>>,
        >::Run(object_question(haves[k])),
    decreases haves.len(),
{
    lemma_haves_grow(haves, args, added, done, out);
    lemma_commands_differ(haves[0]);
    assert(gitutil::object_test(haves[0]) =~= object_question(haves[0]));
    let more = if gitutil::succeeded(done[0]) {
        args.push(gitutil::without(haves[0]))
    } else {
        args
    };
    if haves.len() == 0 {
        assert(false);
        0
    } else if j < more.len() {
        lemma_haves_grow(haves.skip(1), more, added, done.skip(1), out);
        assert(out.take(more.len() as int)[j] == more[j]);
        lemma_haves_at(haves, args, added, done, out, 0);
        0
    } else {
        let k = lemma_haves_from(haves.skip(1), more, added, done.skip(1), out, j);
        lemma_haves_at(haves, args, added, done, out, k + 1);
        k + 1
    }
}

/// What a ref that is looked at adds to the command, and how many questions it takes.
spec fn taken(
    wanted: (Seq<char>, Option<Seq<char>>),
    args: Seq<Seq<char>>,
    done: Seq<Outcome>,
) -> (int, Seq<Seq<char>>) {
    if !well(done[0]) {
        (1, args)
    } else {
        match wanted.1 {
            None => (1, args.push(wanted.0)),
            Some(sha) => (
                2,
                if well(done[1]) {
                    args.push(wanted.0).push("^"@ + sha)
                } else {
                    args.push(wanted.0)
                },
            ),
        }
    }
}

proof fn lemma_one_ref(
    refs: Seq<(Seq<char>, Option<Seq<char>>)>,
    haves: Seq<Seq<char>>,
    args: Seq<Seq<char>>,
    added: bool,
    done: Seq<Outcome>,
    out: Seq<Seq<char>>,
    k: int,
)
    requires
        refs.len() > 0,
        reached(args, out),
        gitutil::fetch_refs(refs, haves, args, added, done) == Next::<Result<Option<()>, Seq<char>>>::Run(out),
        0 <= k <= done.len(),
    ensures
        taken(refs[0], args, done).0 <= done.len(),
        reached(taken(refs[0], args, done).1, out),
        ({
            let (n, more) = taken(refs[0], args, done);
            let before = gitutil::fetch_refs(refs, haves, args, added, done.take(k));
            &&& k == 0 ==> before == Next::<Result<Option<()>, Seq<char>>>::Run(ref_question(refs[0].0))
            &&& 0 < k < n ==> refs[0].1 is Some && before == Next::<Result<Option<()>, Seq<char>>>::Run(object_question(refs[0].1->0))
            &&& k >= n ==> before == gitutil::fetch_refs(
                refs.skip(1),
                haves,
                more,
                added || well(done[0]),
                done.skip(n).take(k - n),
            )
        }),
        gitutil::fetch_refs(
            refs.skip(1),
            haves,
            taken(refs[0], args, done).1,
            added || well(done[0]),
            done.skip(taken(refs[0], args, done).0),
        ) == Next::<Result<Option<()>, Seq<char>>>::Run(out),
{
    lemma_commands_differ(refs[0].0);
    assert(gitutil::ref_test(refs[0].0) =~= ref_question(refs[0].0));
    assert(done.len() > 0);
    if well(done[0]) && refs[0].1 is Some {
        let sha = refs[0].1->0;
        lemma_commands_differ(sha);
        assert(gitutil::object_test(sha) =~= object_question(sha));
        assert(done.len() > 1);
    }
    let (n, more) = taken(refs[0], args, done);
    assert(more[0] == args[0]);
    assert(gitutil::without(refs[0].1->0) == "^"@ + refs[0].1->0);
    if k > 0 {
        assert(done.take(k)[0] == done[0]);
    }
    if k > 1 {
        assert(done.take(k)[1] == done[1]);
    }
    if k >= n {
        assert(done.take(k).skip(n) =~= done.skip(n).take(k - n));
    }
}

proof fn lemma_refs_grow(
    refs: Seq<(Seq<char>, Option<Seq<char>>)>,
    haves: Seq<Seq<char>>,
    args: Seq<Seq<char>>,
    added: bool,
    done: Seq<Outcome>,
    out: Seq<Seq<char>>,
)
    requires
        reached(args, out),
        gitutil::fetch_refs(refs, haves, args, added, done) == Next::<Result<Option<()>, Seq<char>>>::Run(out),
    ensures
        args.len() <= out.len(),
        out.take(args.len() as int) == args,
    decreases refs.len(),
{
    if refs.len() == 0 {
        lemma_haves_grow(haves, args, added, done, out);
    } else {
        lemma_one_ref(refs, haves, args, added, done, out, 0);
        let (n, more) = taken(refs[0], args, done);
        lemma_refs_grow(refs.skip(1), haves, more, added || well(done[0]), done.skip(n), out);
        assert(out.take(more.len() as int).take(args.len() as int) =~= out.take(args.len() as int));
        assert(more.take(args.len() as int) =~= args);
    }
}

proof fn lemma_refs_at(
    refs: Seq<(Seq<char>, Option<Seq<char>>)>,
    haves: Seq<Seq<char>>,
    args: Seq<Seq<char>>,
    added: bool,
    done: Seq<Outcome>,
    out: Seq<Seq<char>>,
    k: int,
    name: Seq<char>,
)
    requires
        reached(args, out),
        gitutil::fetch_refs(refs, haves, args, added, done) == Next::<Result<Option<()>, Seq<char>>>::Run(out),
        0 <= k < done.len(),
    ensures
        ({
            let before = gitutil::fetch_refs(refs, haves, args, added, done.take(k));
            &&& before is Run && !bundles(before->Run_0)
            &&& before == Next::<Result<Option<()>, Seq<char>>>::Run(ref_question(name)) && well(done[k]) ==> out.skip(4).contains(name)
            &&& before == Next::<Result<Option<()>, Seq<char>>>::Run(object_question(name)) && well(done[k]) ==> out.skip(4).contains(
                "^"@ + name,
            )
        }),
    decreases refs.len(),
{
    lemma_commands_differ(name);
    if refs.len() == 0 {
        lemma_haves_at(haves, args, added, done, out, k);
        lemma_commands_differ(haves[k]);
        if object_question(haves[k]) == object_question(name) {
            assert(object_question(name)[2] == haves[k]);
        }
    } else {
        lemma_one_ref(refs, haves, args, added, done, out, k);
        let (n, more) = taken(refs[0], args, done);
        let next = added || well(done[0]);
        lemma_refs_grow(refs.skip(1), haves, more, next, done.skip(n), out);
        lemma_commands_differ(refs[0].0);
        if k == 0 {
            if ref_question(refs[0].0) == ref_question(name) {
                assert(ref_question(name)[3] == refs[0].0);
                if well(done[0]) {
                    assert(more.skip(4)[args.len() - 4] == name);
                    lemma_within(more, out, name);
                }
            }
        } else if k < n {
            let sha = refs[0].1->0;
            lemma_commands_differ(sha);
            if object_question(sha) == object_question(name) {
                assert(object_question(name)[2] == sha);
                if well(done[1]) {
                    assert(more.skip(4)[args.len() - 3] == "^"@ + name);
                    lemma_within(more, out, "^"@ + name);
                }
            }
        } else {
            lemma_refs_at(refs.skip(1), haves, more, next, done.skip(n), out, k - n, name);
            assert(done.skip(n)[k - n] == done[k]);
        }
    }
}

proof fn lemma_refs_asked(
    refs: Seq<(Seq<char>, Option<Seq<char>>)>,
    haves: Seq<Seq<char>>,
    args: Seq<Seq<char>>,
    added: bool,
    done: Seq<Outcome>,
    out: Seq<Seq<char>>,
    i: int,
) -> (k: int)
    requires
        reached(args, out),
        gitutil::fetch_refs(refs, haves, args, added, done) == Next::<Result<Option<()>, Seq<char>>>::Run(out),
        0 <= i < refs.len() + haves.len(),
    ensures
        0 <= k < done.len(),
        gitutil::fetch_refs(refs, haves, args, added, done.take(k)) == Next::<Result<Option<()>, Seq<char>>>::Run(
            if i < refs.len() {
                ref_question(refs[i].0)
            } else {
                object_question(haves[i - refs.len()])
            },
        ),
        i < refs.len() && refs[i].1 is Some && well(done[k]) ==> k + 1 < done.len()
            && gitutil::fetch_refs(refs, haves, args, added, done.take(k + 1)) == Next::<Result<Option<()>, Seq<char>>>::Run(
            object_question(refs[i].1->0),
        ),
    decreases refs.len(),
{
    if refs.len() == 0 {
        lemma_haves_grow(haves, args, added, done, out);
        lemma_haves_at(haves, args, added, done, out, i);
        i
    } else {
        lemma_one_ref(refs, haves, args, added, done, out, 0);
        let (n, more) = taken(refs[0], args, done);
        if i == 0 {
            lemma_one_ref(refs, haves, args, added, done, out, 1);
            0
        } else {
            let next = added || well(done[0]);
            let k = lemma_refs_asked(refs.skip(1), haves, more, next, done.skip(n), out, i - 1);
            lemma_one_ref(refs, haves, args, added, done, out, k + n);
            lemma_one_ref(refs, haves, args, added, done, out, k + n + 1);
            assert(done.skip(n)[k] == done[k + n]);
            k + n
        }
    }
}

proof fn lemma_refs_from(
    refs: Seq<(Seq<char>, Option<Seq<char>>)>,
    haves: Seq<Seq<char>>,
    args: Seq<Seq<char>>,
    added: bool,
    done: Seq<Outcome>,
    out: Seq<Seq<char>>,
    j: int,
) -> (k: int)
    requires
        reached(args, out),
        gitutil::fetch_refs(refs, haves, args, added, done) == Next::<Result<Option<()>, Seq<char>>>::Run(out),
        args.len() <= j < out.len(),
    ensures
        0 <= k < done.len(),
        well(done[k]),
        ({
            let before = gitutil::fetch_refs(refs, haves, args, added, done.take(k));
            before == Next::<Result<Option<()>, Seq<char>>>::Run(ref_question(out[j])) || (before is Run && before->Run_0.len() == 3
                && before == Next::<Result<Option<()>, Seq<char>>>::Run(object_question(before->Run_0[2])) && out[j] == "^"@
                + before->Run_0[2])
        }),
    decreases refs.len(),
{
    if refs.len() == 0 {
        lemma_haves_from(haves, args, added, done, out, j)
    } else {
        lemma_one_ref(refs, haves, args, added, done, out, 0);
        let (n, more) = taken(refs[0], args, done);
        let next = added || well(done[0]);
        lemma_refs_grow(refs.skip(1), haves, more, next, done.skip(n), out);
        if j < more.len() {
            assert(out.take(more.len() as int)[j] == more[j]);
            if j == args.len() {
                0
            } else {
                lemma_one_ref(refs, haves, args, added, done, out, 1);
                1
            }
        } else {
            let k = lemma_refs_from(refs.skip(1), haves, more, next, done.skip(n), out, j);
            lemma_one_ref(refs, haves, args, added, done, out, k + n);
            assert(done.skip(n)[k] == done[k + n]);
            k + n
        }
    }
}

proof fn lemma_head(path: Seq<char>)
    ensures
        gitutil::bundle_create(path) == seq!["bundle"@, "create"@, "--no-progress"@, path],
{
}

/// Every ref that git finds when a client asks for it joins the bundle, and so does
/// every object that git finds, as one to leave out: wherever on the way to the
/// bundle git is asked for a ref or an object and finds it, the command that makes
/// the bundle names it.
pub proof fn law_found_refs_join_the_bundle(
    path: Seq<char>,
    refs: Seq<(Seq<char>, Option<Seq<char>>)>,
    haves: Seq<Seq<char>>,
    done: Seq<Outcome>,
    command: Seq<Seq<char>>,
    k: int,
    name: Seq<char>,
)
    requires
        gitutil::fetch_refs(refs, haves, gitutil::bundle_create(path), false, done) == Next::<Result<Option<()>, Seq<char>>>::Run(command),
        command.len() > 0 && command[0] == "bundle"@,
        0 <= k < done.len(),
        done[k] matches Outcome::Exited { success, .. } && success,
    ensures
        command.take(4) == seq!["bundle"@, "create"@, "--no-progress"@, path],
        gitutil::fetch_refs(refs, haves, gitutil::bundle_create(path), false, done.take(k)) == Next::<Result<Option<()>, Seq<char>>>::Run(seq!["rev-parse"@, "--verify"@, "--quiet"@, name])
            ==> command.skip(4).contains(name),
        gitutil::fetch_refs(refs, haves, gitutil::bundle_create(path), false, done.take(k)) == Next::<Result<Option<()>, Seq<char>>>::Run(seq!["cat-file"@, "-t"@, name]) ==> command.skip(4).contains(
            "^"@ + name,
        ),
{
    let head = gitutil::bundle_create(path);
    lemma_head(path);
    lemma_refs_grow(refs, haves, head, false, done, command);
    lemma_refs_at(refs, haves, head, false, done, command, k, name);
}

/// Every ref that a client asks for is looked for before the bundle is made, whatever
/// the number of refs, and so is every object that the client has. A ref that is
/// there is in the bundle.
pub proof fn law_every_wanted_ref_is_looked_for(
    path: Seq<char>,
    refs: Seq<(Seq<char>, Option<Seq<char>>)>,
    haves: Seq<Seq<char>>,
    done: Seq<Outcome>,
    command: Seq<Seq<char>>,
    i: int,
) -> (k: int)
    requires
        gitutil::fetch_refs(refs, haves, gitutil::bundle_create(path), false, done) == Next::<Result<Option<()>, Seq<char>>>::Run(command),
        command.len() > 0 && command[0] == "bundle"@,
        0 <= i < refs.len(),
    ensures
        0 <= k < done.len(),
        gitutil::fetch_refs(refs, haves, gitutil::bundle_create(path), false, done.take(k)) == Next::<Result<Option<()>, Seq<char>>>::Run(seq!["rev-parse"@, "--verify"@, "--quiet"@, refs[i].0]),
        (done[k] matches Outcome::Exited { success, .. } && success) ==> command.skip(4).contains(
            refs[i].0,
        ),
        (done[k] matches Outcome::Exited { success, .. } && success) && refs[i].1 is Some ==> k + 1
            < done.len() && gitutil::fetch_refs(refs, haves, gitutil::bundle_create(path), false, done.take(k + 1)) == Next::<Result<Option<()>, Seq<char>>>::Run(seq!["cat-file"@, "-t"@, refs[i].1->0]),
{
    let head = gitutil::bundle_create(path);
    lemma_head(path);
    let k = lemma_refs_asked(refs, haves, head, false, done, command, i);
    lemma_refs_at(refs, haves, head, false, done, command, k, refs[i].0);
    k
}

/// Every object that a client has is looked for before the bundle is made, and left
/// out of it where it is there.
pub proof fn law_every_held_object_is_looked_for(
    path: Seq<char>,
    refs: Seq<(Seq<char>, Option<Seq<char>>)>,
    haves: Seq<Seq<char>>,
    done: Seq<Outcome>,
    command: Seq<Seq<char>>,
    i: int,
) -> (k: int)
    requires
        gitutil::fetch_refs(refs, haves, gitutil::bundle_create(path), false, done) == Next::<Result<Option<()>, Seq<char>>>::Run(command),
        command.len() > 0 && command[0] == "bundle"@,
        0 <= i < haves.len(),
    ensures
        0 <= k < done.len(),
        gitutil::fetch_refs(refs, haves, gitutil::bundle_create(path), false, done.take(k)) == Next::<Result<Option<()>, Seq<char>>>::Run(seq!["cat-file"@, "-t"@, haves[i]]),
        (done[k] matches Outcome::Exited { success, .. } && success) ==> command.skip(4).contains(
            "^"@ + haves[i],
        ),
{
    let head = gitutil::bundle_create(path);
    lemma_head(path);
    let k = lemma_refs_asked(refs, haves, head, false, done, command, i + refs.len());
    lemma_refs_at(refs, haves, head, false, done, command, k, haves[i]);
    k
}

/// A bundle holds nothing that git was not asked for and found.
pub proof fn law_bundle_holds_nothing_else(
    path: Seq<char>,
    refs: Seq<(Seq<char>, Option<Seq<char>>)>,
    haves: Seq<Seq<char>>,
    done: Seq<Outcome>,
    command: Seq<Seq<char>>,
    j: int,
) -> (k: int)
    requires
        gitutil::fetch_refs(refs, haves, gitutil::bundle_create(path), false, done) == Next::<Result<Option<()>, Seq<char>>>::Run(command),
        command.len() > 0 && command[0] == "bundle"@,
        4 <= j < command.len(),
    ensures
        0 <= k < done.len(),
        done[k] matches Outcome::Exited { success, .. } && success,
        gitutil::fetch_refs(refs, haves, gitutil::bundle_create(path), false, done.take(k)) == Next::<Result<Option<()>, Seq<char>>>::Run(seq!["rev-parse"@, "--verify"@, "--quiet"@, command[j]]) || (
        exists|sha: Seq<char>|
            command[j] == "^"@ + sha && gitutil::fetch_refs(refs, haves, gitutil::bundle_create(path), false, done.take(k)) == Next::<Result<Option<()>, Seq<char>>>::Run(
                #[trigger] seq!["cat-file"@, "-t"@, sha],
            )),
{
    let head = gitutil::bundle_create(path);
    lemma_head(path);
    let k = lemma_refs_from(refs, haves, head, false, done, command, j);
    let before = gitutil::fetch_refs(refs, haves, gitutil::bundle_create(path), false, done.take(k));
    if before != Next::<Result<Option<()>, Seq<char>>>::Run(ref_question(command[j])) {
        let sha = before->Run_0[2];
        assert(before == Next::<Result<Option<()>, Seq<char>>>::Run(seq!["cat-file"@, "-t"@, sha]));
    }
    k
}

proof fn lemma_next_ref(
    refs: Seq<(Seq<char>, Option<Seq<char>>)>,
    args: Seq<Seq<char>>,
    added: bool,
    done: Seq<Outcome>,
    name: Seq<char>,
    found: Outcome,
    command: Seq<Seq<char>>,
)
    requires
        reached(args, command),
        gitutil::ref_ok(name),
        gitutil::fetch_refs(refs, Seq::empty(), args, added, done) == Next::<Result<Option<()>, Seq<char>>>::Run(command),
    ensures
        gitutil::fetch_refs(
            refs.push((name, None)),
            Seq::empty(),
            args,
            added,
            done.push(found),
        ) == Next::<Result<Option<()>, Seq<char>>>::Run(
            if well(found) {
                command.push(name)
            } else {
                command
            },
        ),
    decreases refs.len(),
{
    let more_refs = refs.push((name, None::<Seq<char>>));
    let more_done = done.push(found);
    if refs.len() == 0 {
        assert(done.len() == 0 && command == args && added);
        assert(more_done[0] == found);
        assert(more_refs[0].0 == name);
        assert(more_refs.skip(1) =~= Seq::empty());
        assert(more_done.skip(1) =~= Seq::empty());
        reveal_with_fuel(gitutil::fetch_refs, 2);
    } else {
        lemma_one_ref(refs, Seq::empty(), args, added, done, command, 0);
        let (n, more) = taken(refs[0], args, done);
        lemma_next_ref(
            refs.skip(1),
            more,
            added || well(done[0]),
            done.skip(n),
            name,
            found,
            command,
        );
        assert(more_refs.skip(1) =~= refs.skip(1).push((name, None)));
        assert(more_done.skip(n) =~= done.skip(n).push(found));
        assert(more_refs[0] == refs[0]);
        assert(more_done[0] == done[0]);
        if n == 2 {
            assert(more_done[1] == done[1]);
        }
        assert(gitutil::without(refs[0].1->0) == "^"@ + refs[0].1->0);
    }
}

/// The refs stand in the bundle in the order in which they are asked for: one more
/// ref comes last where git finds it, and changes nothing where git does not.
pub proof fn law_one_more_ref_comes_last(
    path: Seq<char>,
    refs: Seq<(Seq<char>, Option<Seq<char>>)>,
    done: Seq<Outcome>,
    name: Seq<char>,
    found: Outcome,
    command: Seq<Seq<char>>,
)
    requires
        gitutil::ref_ok(name),
        gitutil::fetch_refs(refs, Seq::empty(), gitutil::bundle_create(path), false, done) == Next::<Result<Option<()>, Seq<char>>>::Run(
            command,
        ),
        command.len() > 0 && command[0] == "bundle"@,
    ensures
        gitutil::fetch_refs(
            refs.push((name, None)),
            Seq::empty(),
            gitutil::bundle_create(path),
            false,
            done.push(found),
        ) == Next::<Result<Option<()>, Seq<char>>>::Run(
            if found matches Outcome::Exited { success, .. } && success {
                command.push(name)
            } else {
                command
            },
        ),
{
    lemma_head(path);
    lemma_next_ref(refs, gitutil::bundle_create(path), false, done, name, found, command);
}

/// A single ref that git finds is a bundle of that ref alone; one that git does not
/// find leaves nothing to send.
pub proof fn law_single_ref_is_a_bundle(path: Seq<char>, name: Seq<char>, found: Outcome)
    requires
        gitutil::ref_ok(name),
    ensures
        gitutil::fetch_refs(
            seq![(name, None)],
            Seq::empty(),
            gitutil::bundle_create(path),
            false,
            seq![found],
        ) == if found matches Outcome::Exited { success, .. } && success {
            Next::<Result<Option<()>, Seq<char>>>::Run(seq!["bundle"@, "create"@, "--no-progress"@, path, name])
        } else {
            Next::Done(Ok::<_, Seq<char>>(None::<()>))
        },
{
    let refs = seq![(name, None::<Seq<char>>)];
    assert(refs.skip(1) =~= Seq::empty());
    assert(seq![found].skip(1) =~= Seq::empty());
    reveal_with_fuel(gitutil::fetch_refs, 2);
    assert(gitutil::bundle_create(path).push(name) =~= seq![
        "bundle"@,
        "create"@,
        "--no-progress"@,
        path,
        name,
    ]);
}

proof fn lemma_haves_made(
    haves: Seq<Seq<char>>,
    args: Seq<Seq<char>>,
    added: bool,
    done: Seq<Outcome>,
) -> (k: int)
    requires
        bundles(args),
        gitutil::fetch_haves(haves, args, added, done) == Next::Done(
            Ok::<Option<()>, Seq<char>>(Some(())),
        ),
    ensures
        0 <= k < done.len(),
        well(done[k]),
        gitutil::fetch_haves(haves, args, added, done.take(k)) is Run,
        bundles(gitutil::fetch_haves(haves, args, added, done.take(k))->Run_0),
    decreases haves.len(),
{
    if haves.len() == 0 {
        0
    } else {
        let more = if gitutil::succeeded(done[0]) {
            args.push(gitutil::without(haves[0]))
        } else {
            args
        };
        assert(more[0] == args[0]);
        let k = lemma_haves_made(haves.skip(1), more, added, done.skip(1));
        assert(done.take(k + 1)[0] == done[0]);
        assert(done.take(k + 1).skip(1) =~= done.skip(1).take(k));
        k + 1
    }
}

proof fn lemma_refs_made(
    refs: Seq<(Seq<char>, Option<Seq<char>>)>,
    haves: Seq<Seq<char>>,
    args: Seq<Seq<char>>,
    added: bool,
    done: Seq<Outcome>,
) -> (k: int)
    requires
        bundles(args),
        gitutil::fetch_refs(refs, haves, args, added, done) == Next::Done(
            Ok::<Option<()>, Seq<char>>(Some(())),
        ),
    ensures
        0 <= k < done.len(),
        well(done[k]),
        gitutil::fetch_refs(refs, haves, args, added, done.take(k)) is Run,
        bundles(gitutil::fetch_refs(refs, haves, args, added, done.take(k))->Run_0),
    decreases refs.len(),
{
    if refs.len() == 0 {
        lemma_haves_made(haves, args, added, done)
    } else {
        let (n, more) = taken(refs[0], args, done);
        assert(more[0] == args[0]);
        assert(gitutil::without(refs[0].1->0) == "^"@ + refs[0].1->0);
        let k = lemma_refs_made(refs.skip(1), haves, more, added || well(done[0]), done.skip(n));
        assert(done.take(k + n)[0] == done[0]);
        if n == 2 {
            assert(done.take(k + n)[1] == done[1]);
        }
        assert(done.take(k + n).skip(n) =~= done.skip(n).take(k));
        k + n
    }
}

/// There is a bundle to send only once git has made one.
pub proof fn law_sent_bundle_was_made(
    path: Seq<char>,
    refs: Seq<(Seq<char>, Option<Seq<char>>)>,
    haves: Seq<Seq<char>>,
    done: Seq<Outcome>,
) -> (k: int)
    requires
        gitutil::fetch_refs(refs, haves, gitutil::bundle_create(path), false, done) == Next::Done(Ok::<Option<()>, Seq<char>>(Some(()))),
    ensures
        0 <= k < done.len(),
        done[k] matches Outcome::Exited { success, .. } && success,
        gitutil::fetch_refs(refs, haves, gitutil::bundle_create(path), false, done.take(k)) is Run,
        gitutil::fetch_refs(refs, haves, gitutil::bundle_create(path), false, done.take(k))->Run_0.len() > 0 && gitutil::fetch_refs(refs, haves, gitutil::bundle_create(path), false, done.take(k))->Run_0[0] == "bundle"@,
{
    lemma_head(path);
    lemma_refs_made(refs, haves, gitutil::bundle_create(path), false, done)
}

proof fn lemma_haves_end(
    haves: Seq<Seq<char>>,
    args: Seq<Seq<char>>,
    done: Seq<Outcome>,
    made: Outcome,
    command: Seq<Seq<char>>,
)
    requires
        bundles(args),
        bundles(command),
        gitutil::fetch_haves(haves, args, true, done) == Next::<Result<Option<()>, Seq<char>>>::Run(command),
        well(made),
    ensures
        gitutil::fetch_haves(haves, args, true, done.push(made)) == Next::Done(
            Ok::<Option<()>, Seq<char>>(Some(())),
        ),
    decreases haves.len(),
{
    if haves.len() == 0 {
        assert(done.push(made)[0] == made);
    } else {
        lemma_commands_differ(haves[0]);
        assert(gitutil::object_test(haves[0]) =~= object_question(haves[0]));
        let more = if gitutil::succeeded(done[0]) {
            args.push(gitutil::without(haves[0]))
        } else {
            args
        };
        assert(more[0] == args[0]);
        lemma_haves_end(haves.skip(1), more, done.skip(1), made, command);
        assert(done.push(made)[0] == done[0]);
        assert(done.push(made).skip(1) =~= done.skip(1).push(made));
    }
}

proof fn lemma_refs_end(
    refs: Seq<(Seq<char>, Option<Seq<char>>)>,
    haves: Seq<Seq<char>>,
    args: Seq<Seq<char>>,
    added: bool,
    done: Seq<Outcome>,
    made: Outcome,
    command: Seq<Seq<char>>,
)
    requires
        reached(args, command),
        gitutil::fetch_refs(refs, haves, args, added, done) == Next::<Result<Option<()>, Seq<char>>>::Run(command),
        well(made),
    ensures
        gitutil::fetch_refs(refs, haves, args, added, done.push(made)) == Next::Done(
            Ok::<Option<()>, Seq<char>>(Some(())),
        ),
    decreases refs.len(),
{
    if refs.len() == 0 {
        lemma_haves_grow(haves, args, added, done, command);
        lemma_haves_end(haves, args, done, made, command);
    } else {
        lemma_one_ref(refs, haves, args, added, done, command, 0);
        let (n, more) = taken(refs[0], args, done);
        lemma_refs_end(
            refs.skip(1),
            haves,
            more,
            added || well(done[0]),
            done.skip(n),
            made,
            command,
        );
        assert(done.push(made)[0] == done[0]);
        if n == 2 {
            assert(done.push(made)[1] == done[1]);
        }
        assert(done.push(made).skip(n) =~= done.skip(n).push(made));
        assert(gitutil::without(refs[0].1->0) == "^"@ + refs[0].1->0);
    }
}

/// A bundle that git has made is sent.
pub proof fn law_made_bundle_is_sent(
    path: Seq<char>,
    refs: Seq<(Seq<char>, Option<Seq<char>>)>,
    haves: Seq<Seq<char>>,
    done: Seq<Outcome>,
    command: Seq<Seq<char>>,
    made: Outcome,
)
    requires
        gitutil::fetch_refs(refs, haves, gitutil::bundle_create(path), false, done) == Next::<Result<Option<()>, Seq<char>>>::Run(command),
        command.len() > 0 && command[0] == "bundle"@,
        made matches Outcome::Exited { success, .. } && success,
    ensures
        gitutil::fetch_refs(refs, haves, gitutil::bundle_create(path), false, done.push(made)) == Next::Done(Ok::<Option<()>, Seq<char>>(Some(()))),
{
    lemma_head(path);
    lemma_refs_end(refs, haves, gitutil::bundle_create(path), false, done, made, command);
}

proof fn lemma_next_held(
    refs: Seq<(Seq<char>, Option<Seq<char>>)>,
    args: Seq<Seq<char>>,
    added: bool,
    done: Seq<Outcome>,
    name: Seq<char>,
    sha: Seq<char>,
    found: Outcome,
    held: Outcome,
    command: Seq<Seq<char>>,
)
    requires
        reached(args, command),
        gitutil::ref_ok(name),
        gitutil::sha_ok(sha),
        well(found),
        gitutil::fetch_refs(refs, Seq::empty(), args, added, done) == Next::<Result<Option<()>, Seq<char>>>::Run(command),
    ensures
        gitutil::fetch_refs(
            refs.push((name, Some(sha))),
            Seq::empty(),
            args,
            added,
            done.push(found).push(held),
        ) == Next::<Result<Option<()>, Seq<char>>>::Run(
            if well(held) {
                command.push(name).push("^"@ + sha)
            } else {
                command.push(name)
            },
        ),
    decreases refs.len(),
{
    let more_refs = refs.push((name, Some(sha)));
    let more_done = done.push(found).push(held);
    if refs.len() == 0 {
        assert(done.len() == 0 && command == args && added);
        assert(more_done[0] == found && more_done[1] == held);
        assert(more_refs[0] == (name, Some(sha)));
        assert(more_refs.skip(1) =~= Seq::empty());
        assert(more_done.skip(2) =~= Seq::empty());
        assert(gitutil::without(sha) == "^"@ + sha);
        reveal_with_fuel(gitutil::fetch_refs, 2);
    } else {
        lemma_one_ref(refs, Seq::empty(), args, added, done, command, 0);
        let (n, more) = taken(refs[0], args, done);
        lemma_next_held(
            refs.skip(1),
            more,
            added || well(done[0]),
            done.skip(n),
            name,
            sha,
            found,
            held,
            command,
        );
        assert(more_refs.skip(1) =~= refs.skip(1).push((name, Some(sha))));
        assert(more_done.skip(n) =~= done.skip(n).push(found).push(held));
        assert(more_refs[0] == refs[0]);
        assert(more_done[0] == done[0]);
        if n == 2 {
            assert(more_done[1] == done[1]);
        }
        assert(gitutil::without(refs[0].1->0) == "^"@ + refs[0].1->0);
    }
}

/// One more ref of which the client has an object comes last, and that object is left
/// out where git has it.
pub proof fn law_one_more_held_ref_comes_last(
    path: Seq<char>,
    refs: Seq<(Seq<char>, Option<Seq<char>>)>,
    done: Seq<Outcome>,
    name: Seq<char>,
    sha: Seq<char>,
    found: Outcome,
    held: Outcome,
    command: Seq<Seq<char>>,
)
    requires
        gitutil::ref_ok(name),
        gitutil::sha_ok(sha),
        found matches Outcome::Exited { success, .. } && success,
        gitutil::fetch_refs(refs, Seq::empty(), gitutil::bundle_create(path), false, done) == Next::<Result<Option<()>, Seq<char>>>::Run(
            command,
        ),
        command.len() > 0 && command[0] == "bundle"@,
    ensures
        gitutil::fetch_refs(
            refs.push((name, Some(sha))),
            Seq::empty(),
            gitutil::bundle_create(path),
            false,
            done.push(found).push(held),
        ) == Next::<Result<Option<()>, Seq<char>>>::Run(
            if held matches Outcome::Exited { success, .. } && success {
                command.push(name).push("^"@ + sha)
            } else {
                command.push(name)
            },
        ),
{
    lemma_head(path);
    lemma_next_held(
        refs,
        gitutil::bundle_create(path),
        false,
        done,
        name,
        sha,
        found,
        held,
        command,
    );
}

proof fn lemma_next_have(
    haves: Seq<Seq<char>>,
    args: Seq<Seq<char>>,
    done: Seq<Outcome>,
    sha: Seq<char>,
    held: Outcome,
    command: Seq<Seq<char>>,
)
    requires
        reached(args, command),
        gitutil::sha_ok(sha),
        gitutil::fetch_haves(haves, args, true, done) == Next::<Result<Option<()>, Seq<char>>>::Run(command),
    ensures
        gitutil::fetch_haves(haves.push(sha), args, true, done.push(held)) == Next::<Result<Option<()>, Seq<char>>>::Run(
            if well(held) {
                command.push("^"@ + sha)
            } else {
                command
            },
        ),
    decreases haves.len(),
{
    let more_haves = haves.push(sha);
    let more_done = done.push(held);
    lemma_haves_grow(haves, args, true, done, command);
    if haves.len() == 0 {
        assert(more_haves[0] == sha && more_done[0] == held);
        assert(more_haves.skip(1) =~= Seq::empty());
        assert(more_done.skip(1) =~= Seq::empty());
        assert(gitutil::without(sha) == "^"@ + sha);
        reveal_with_fuel(gitutil::fetch_haves, 2);
    } else {
        lemma_commands_differ(haves[0]);
        assert(gitutil::object_test(haves[0]) =~= object_question(haves[0]));
        let more = if gitutil::succeeded(done[0]) {
            args.push(gitutil::without(haves[0]))
        } else {
            args
        };
        assert(more[0] == args[0]);
        lemma_next_have(haves.skip(1), more, done.skip(1), sha, held, command);
        assert(more_haves[0] == haves[0] && more_done[0] == done[0]);
        assert(more_haves.skip(1) =~= haves.skip(1).push(sha));
        assert(more_done.skip(1) =~= done.skip(1).push(held));
    }
}

proof fn lemma_next_have_of_refs(
    refs: Seq<(Seq<char>, Option<Seq<char>>)>,
    haves: Seq<Seq<char>>,
    args: Seq<Seq<char>>,
    added: bool,
    done: Seq<Outcome>,
    sha: Seq<char>,
    held: Outcome,
    command: Seq<Seq<char>>,
)
    requires
        reached(args, command),
        gitutil::sha_ok(sha),
        gitutil::fetch_refs(refs, haves, args, added, done) == Next::<Result<Option<()>, Seq<char>>>::Run(command),
    ensures
        gitutil::fetch_refs(refs, haves.push(sha), args, added, done.push(held)) == Next::<Result<Option<()>, Seq<char>>>::Run(
            if well(held) {
                command.push("^"@ + sha)
            } else {
                command
            },
        ),
    decreases refs.len(),
{
    if refs.len() == 0 {
        lemma_haves_grow(haves, args, added, done, command);
        lemma_next_have(haves, args, done, sha, held, command);
    } else {
        lemma_one_ref(refs, haves, args, added, done, command, 0);
        let (n, more) = taken(refs[0], args, done);
        lemma_next_have_of_refs(
            refs.skip(1),
            haves,
            more,
            added || well(done[0]),
            done.skip(n),
            sha,
            held,
            command,
        );
        assert(done.push(held)[0] == done[0]);
        if n == 2 {
            assert(done.push(held)[1] == done[1]);
        }
        assert(done.push(held).skip(n) =~= done.skip(n).push(held));
        assert(gitutil::without(refs[0].1->0) == "^"@ + refs[0].1->0);
    }
}

/// One more object that the client has is left out where git has it, and changes
/// nothing where git does not.
pub proof fn law_one_more_object_is_left_out(
    path: Seq<char>,
    refs: Seq<(Seq<char>, Option<Seq<char>>)>,
    haves: Seq<Seq<char>>,
    done: Seq<Outcome>,
    sha: Seq<char>,
    held: Outcome,
    command: Seq<Seq<char>>,
)
    requires
        gitutil::sha_ok(sha),
        gitutil::fetch_refs(refs, haves, gitutil::bundle_create(path), false, done) == Next::<Result<Option<()>, Seq<char>>>::Run(command),
        command.len() > 0 && command[0] == "bundle"@,
    ensures
        gitutil::fetch_refs(
            refs,
            haves.push(sha),
            gitutil::bundle_create(path),
            false,
            done.push(held),
        ) == Next::<Result<Option<()>, Seq<char>>>::Run(
            if held matches Outcome::Exited { success, .. } && success {
                command.push("^"@ + sha)
            } else {
                command
            },
        ),
{
    lemma_head(path);
    lemma_next_have_of_refs(
        refs,
        haves,
        gitutil::bundle_create(path),
        false,
        done,
        sha,
        held,
        command,
    );
}

/// A ref that git finds after any number that it does not find is in the bundle
/// alone.
pub proof fn law_missing_refs_are_passed_over(
    path: Seq<char>,
    refs: Seq<(Seq<char>, Option<Seq<char>>)>,
    done: Seq<Outcome>,
    name: Seq<char>,
    found: Outcome,
)
    requires
        done.len() == refs.len(),
        forall|i: int| 0 <= i < refs.len() ==> gitutil::ref_ok((#[trigger] refs[i]).0),
        forall|i: int|
            0 <= i < done.len() ==> !(#[trigger] done[i] matches Outcome::Exited { success, .. }
                && success),
        gitutil::ref_ok(name),
        found matches Outcome::Exited { success, .. } && success,
    ensures
        gitutil::fetch_refs(
            refs.push((name, None)),
            Seq::empty(),
            gitutil::bundle_create(path),
            false,
            done.push(found),
        ) == Next::<Result<Option<()>, Seq<char>>>::Run(seq!["bundle"@, "create"@, "--no-progress"@, path, name]),
    decreases refs.len(),
{
    if refs.len() == 0 {
        law_single_ref_is_a_bundle(path, name, found);
        assert(refs.push((name, None)) =~= seq![(name, None::<Seq<char>>)]);
        assert(done.push(found) =~= seq![found]);
    } else {
        law_missing_refs_are_passed_over(path, refs.skip(1), done.skip(1), name, found);
        assert(refs.push((name, None))[0] == refs[0]);
        assert(done.push(found)[0] == done[0]);
        assert(refs.push((name, None)).skip(1) =~= refs.skip(1).push((name, None)));
        assert(done.push(found).skip(1) =~= done.skip(1).push(found));
    }
}

// ---------------------------------------------------------------------------
// Changing refs
// ---------------------------------------------------------------------------

/// A ref points to an object only once git was asked for that object, for what the
/// ref points to, and then told to point the ref to the object. Without force the
/// ref did not point elsewhere before.
pub proof fn law_updated_ref_points_to_the_object(
    name: Seq<char>,
    sha: Seq<char>,
    force: bool,
    done: Seq<Outcome>,
)
    requires
        gitutil::update_step(name, sha, force, done) == Next::Done(Ok::<(), Seq<char>>(())),
    ensures
        done.len() >= 3,
        done[0] matches Outcome::Exited { success, .. } && success,
        done[2] matches Outcome::Exited { success, .. } && success,
        gitutil::update_step(name, sha, force, done.take(0)) == Next::<Result<(), Seq<char>>>::Run(
            seq!["cat-file"@, "-t"@, sha],
        ),
        gitutil::update_step(name, sha, force, done.take(1)) == Next::<Result<(), Seq<char>>>::Run(seq!["rev-parse"@, name]),
        gitutil::update_step(name, sha, force, done.take(2)) == Next::<Result<(), Seq<char>>>::Run(
            seq!["update-ref"@, name, sha],
        ),
        !force && (done[1] matches Outcome::Exited { success, .. } && success) ==> (
        text::trimmed(text::lossy(done[1]->stdout)) == sha || text::trimmed(
            text::lossy(done[1]->stdout),
        ).len() == 0),
{
    assert(done.skip(2)[0] == done[2]);
    assert(done.take(2).skip(2) =~= Seq::empty());
    assert(done.take(1)[0] == done[0]);
    assert(done.take(2)[0] == done[0] && done.take(2)[1] == done[1]);
}

/// A ref that may be changed is pointed to an object that is there, where the ref is
/// new, is at the object already, or force is used, if git does so.
pub proof fn law_ref_can_be_updated(
    name: Seq<char>,
    sha: Seq<char>,
    force: bool,
    object: Outcome,
    old_value: Outcome,
    update: Outcome,
)
    requires
        gitutil::changeable(name),
        gitutil::sha_ok(sha),
        object matches Outcome::Exited { success, .. } && success,
        old_value matches Outcome::Exited { success, stdout, .. } && (force || !success
            || text::trimmed(text::lossy(stdout)).len() == 0 || text::trimmed(text::lossy(stdout))
            == sha),
    ensures
        gitutil::update_step(name, sha, force, seq![object, old_value]) == Next::<Result<(), Seq<char>>>::Run(
            seq!["update-ref"@, name, sha],
        ),
        (update matches Outcome::Exited { success, .. } && success) ==> gitutil::update_step(
            name,
            sha,
            force,
            seq![object, old_value, update],
        ) == Next::Done(Ok::<(), Seq<char>>(())),
{
    assert(seq![object, old_value, update].skip(2)[0] == update);
    assert(seq![object, old_value].skip(2) =~= Seq::empty());
}

/// A ref that points to another object is not moved without force, and none is
/// pointed to an object that is not there.
pub proof fn law_ref_is_not_moved_without_force(
    name: Seq<char>,
    sha: Seq<char>,
    object: Outcome,
    old_value: Outcome,
)
    ensures
        ({
            let end = gitutil::update_step(name, sha, false, seq![object, old_value]);
            (old_value matches Outcome::Exited { success, stdout, .. } && success && text::trimmed(
                text::lossy(stdout),
            ).len() > 0 && text::trimmed(text::lossy(stdout)) != sha) ==> end is Done
                && end->Done_0 is Err
        }),
        ({
            let end = gitutil::update_step(name, sha, true, seq![object]);
            !(object matches Outcome::Exited { success, .. } && success) ==> end is Done
                && end->Done_0 is Err
        }),
{
}

/// A ref is deleted only once git has found it and was then told to delete that very
/// ref.
pub proof fn law_deletion_was_made(name: Seq<char>, done: Seq<Outcome>)
    requires
        gitutil::delete_step(name, done) == Next::Done(Ok::<(), Seq<char>>(())),
    ensures
        done.len() >= 2,
        done[0] matches Outcome::Exited { success, .. } && success,
        done[1] matches Outcome::Exited { success, .. } && success,
        gitutil::delete_step(name, done.take(0)) == Next::<Result<(), Seq<char>>>::Run(
            seq!["rev-parse"@, "--verify"@, "--quiet"@, name],
        ),
        gitutil::delete_step(name, done.take(1)) == Next::<Result<(), Seq<char>>>::Run(seq!["update-ref"@, "-d"@, name]),
{
    assert(done.skip(1)[0] == done[1]);
    assert(done.take(1).skip(1) =~= Seq::empty());
}

/// A ref that may be changed and is there is deleted when git does so.
pub proof fn law_ref_can_be_deleted(name: Seq<char>, test: Outcome, deletion: Outcome)
    requires
        gitutil::changeable(name),
    ensures
        ({
            let good = (test matches Outcome::Exited { success, .. } && success) && (
            deletion matches Outcome::Exited { success, .. } && success);
            let end = gitutil::delete_step(name, seq![test, deletion]);
            if good {
                end == Next::Done(Ok::<(), Seq<char>>(()))
            } else {
                end is Done && end->Done_0 is Err
            }
        }),
{
    assert(seq![test, deletion].skip(1)[0] == deletion);
}

/// Only refs under `refs/` are changed.
pub proof fn law_other_names_are_not_changed(
    name: Seq<char>,
    sha: Seq<char>,
    force: bool,
    done: Seq<Outcome>,
)
    requires
        name.len() < 5 || name.take(5) != "refs/"@,
    ensures
        gitutil::delete_step(name, done) == Next::Done(Err::<(), _>("invalid ref"@)),
        gitutil::update_step(name, sha, force, done) == Next::Done(Err::<(), _>("invalid ref"@)),
{
    reveal_strlit("refs/");
}

// ---------------------------------------------------------------------------
// Working repositories
// ---------------------------------------------------------------------------

/// A checkout is made only where git finds the branch here or at the origin, of that
/// branch, and it ends well only if git's checkout does.
pub proof fn law_checked_out_branch_is_there(name: Seq<char>, done: Seq<Outcome>)
    requires
        gitutil::checkout_step("refs/heads/"@ + name, done) == Next::Done(Ok::<_, Seq<char>>(true)),
    ensures
        gitutil::checkout_step("refs/heads/"@ + name, done.take(0)) == Next::<
            Result<bool, Seq<char>>,
        >::Run(seq!["rev-parse"@, "--verify"@, "--quiet"@, "refs/heads/"@ + name]),
        ({
            ||| (done.len() >= 2 && well(done[0]) && well(done[1]) && gitutil::checkout_step(
                "refs/heads/"@ + name,
                done.take(1),
            ) == Next::<Result<bool, Seq<char>>>::Run(seq!["checkout"@, name]))
            ||| (done.len() >= 3 && !well(done[0]) && well(done[1]) && well(done[2])
                && gitutil::checkout_step("refs/heads/"@ + name, done.take(1)) == Next::<
                Result<bool, Seq<char>>,
            >::Run(seq!["rev-parse"@, "--verify"@, "--quiet"@, "refs/remotes/origin/"@ + name])
                && gitutil::checkout_step("refs/heads/"@ + name, done.take(2)) == Next::<
                Result<bool, Seq<char>>,
            >::Run(seq!["checkout"@, "-b"@, name, "refs/remotes/origin/"@ + name]))
        }),
{
    let branch = "refs/heads/"@ + name;
    assert(branch.take("refs/heads/"@.len() as int) =~= "refs/heads/"@);
    assert(branch.skip("refs/heads/"@.len() as int) =~= name);
    if well(done[0]) {
        assert(done.skip(1)[0] == done[1]);
        assert(done.take(1)[0] == done[0]);
        assert(done.take(1).skip(1) =~= Seq::empty());
    } else {
        assert(done.skip(2)[0] == done[2]);
        assert(done.take(1)[0] == done[0]);
        assert(done.take(2)[0] == done[0] && done.take(2)[1] == done[1]);
        assert(done.take(2).skip(2) =~= Seq::empty());
    }
}

/// Fetching a bundle hands git all the refspecs, in their order.
pub proof fn law_fetched_bundle_gives_the_refs(
    path: Seq<char>,
    refspecs: Seq<Seq<char>>,
    fetched: Outcome,
)
    requires
        refspecs.len() > 0,
    ensures
        ({
            let first = gitutil::fetch_step(path, refspecs, Seq::empty());
            &&& first is Run
            &&& first->Run_0.len() == 2 + refspecs.len()
            &&& first->Run_0[0] == "fetch"@ && first->Run_0[1] == path
            &&& forall|i: int| 0 <= i < refspecs.len() ==> #[trigger] first->Run_0[2 + i]
                == refspecs[i]
        }),
        (fetched matches Outcome::Exited { success, .. } && success) ==> gitutil::fetch_step(
            path,
            refspecs,
            seq![fetched],
        ) == Next::Done(Ok::<(), Seq<char>>(())),
        !(fetched matches Outcome::Exited { success, .. } && success) ==> ({
            let end = gitutil::fetch_step(path, refspecs, seq![fetched]);
            end is Done && end->Done_0 is Err
        }),
{
}

/// What git answers to a question about an ancestor, an object or a ref is the
/// answer.
pub proof fn law_tests_answer_as_git_does(args: Seq<Seq<char>>, answer: Outcome)
    ensures
        gitutil::one_test(args, Seq::empty()) == Next::<bool>::Run(args),
        gitutil::one_test(args, seq![answer]) == Next::Done(
            answer matches Outcome::Exited { success, .. } && success,
        ),
        forall|name: Seq<char>|
            #[trigger] gitutil::ref_test(name) == seq![
                "rev-parse"@,
                "--verify"@,
                "--quiet"@,
                name,
            ],
        forall|sha: Seq<char>|
            #[trigger] gitutil::object_test(sha) == seq!["cat-file"@, "-t"@, sha],
{
}

/// A command that must succeed ends well exactly if git does.
pub proof fn law_commands_end_as_git_does(
    args: Seq<Seq<char>>,
    what: Seq<char>,
    answer: Outcome,
)
    ensures
        gitutil::one_command(args, what, Seq::empty()) == Next::<Result<(), Seq<char>>>::Run(args),
        ({
            let end = gitutil::one_command(args, what, seq![answer]);
            &&& end is Done
            &&& end->Done_0 is Ok <==> (answer matches Outcome::Exited { success, .. } && success)
        }),
{
}

// ---------------------------------------------------------------------------
// Repositories
// ---------------------------------------------------------------------------

/// A repository is made in a directory that was not there, which git initialises.
pub proof fn law_made_repository_is_initialised(
    path: Seq<char>,
    creator: Seq<char>,
    exists_before: bool,
    done: Seq<Option<String>>,
)
    requires
        gitutil::create_next(path, creator, exists_before, done) == Create::Done(Ok(())),
    ensures
        !exists_before,
        done.len() > 2 && done[0] is None && done[1] is None && done[2] is None,
        gitutil::create_next(path, creator, exists_before, done.take(0)) == Create::MakeDirectory,
        gitutil::create_next(path, creator, exists_before, done.take(1)) == Create::Initialize(
            seq!["init"@, "--bare"@],
        ),
{
}

/// A repository is made where none was there and every step goes well.
pub proof fn law_repository_can_be_made(
    path: Seq<char>,
    creator: Seq<char>,
    done: Seq<Option<String>>,
)
    requires
        done.len() == 3,
        done[0] is None && done[1] is None && done[2] is None,
    ensures
        gitutil::create_next(path, creator, false, done) == Create::Done(Ok(())),
{
}

/// What git began and did not finish is removed.
pub proof fn law_failed_repository_is_removed(
    path: Seq<char>,
    creator: Seq<char>,
    done: Seq<Option<String>>,
)
    requires
        done.len() >= 2,
        done[0] is None,
        done[1] is Some || (done.len() > 2 && done[2] is Some),
    ensures
        gitutil::create_next(path, creator, false, done) is Discard,
{
}

// ---------------------------------------------------------------------------
// Names
// ---------------------------------------------------------------------------

proof fn lemma_pieces_hold_characters(s: Seq<char>, c: char, i: int, j: int)
    requires
        0 <= i < text::pieces(s, c).len(),
        0 <= j < text::pieces(s, c)[i].len(),
    ensures
        s.contains(text::pieces(s, c)[i][j]),
    decreases s.len(),
{
    text::lemma_first_of(s, c);
    match text::first_of(s, c) {
        Some(k) => {
            if i == 0 {
                assert(text::pieces(s, c)[0] == s.take(k));
                assert(s[j] == text::pieces(s, c)[0][j]);
            } else {
                let rest = s.skip(k + 1);
                assert(text::pieces(s, c)[i] == text::pieces(rest, c)[i - 1]);
                lemma_pieces_hold_characters(rest, c, i - 1, j);
                let x = text::pieces(s, c)[i][j];
                let m = choose|m: int| 0 <= m < rest.len() && rest[m] == x;
                assert(s[m + k + 1] == x);
            }
        },
        None => {
            assert(s[j] == text::pieces(s, c)[i][j]);
        },
    }
}

/// A letter, a digit, an underscore or a hyphen.
pub open spec fn plain_name_char(c: char) -> bool {
    'a' <= c <= 'z' || 'A' <= c <= 'Z' || '0' <= c <= '9' || c == '_' || c == '-'
}

/// Branches and tags with plain names are accepted, and may be changed.
pub proof fn law_plain_names_are_accepted(name: Seq<char>, tag: bool)
    requires
        name.len() > 0,
        forall|i: int| 0 <= i < name.len() ==> plain_name_char(#[trigger] name[i]),
    ensures
        ({
            let r = if tag {
                "refs/tags/"@ + name
            } else {
                "refs/heads/"@ + name
            };
            gitutil::ref_ok(r) && gitutil::changeable(r)
        }),
{
    reveal_strlit("refs/tags/");
    reveal_strlit("refs/heads/");
    reveal_strlit("refs/");
    reveal_strlit("..");
    reveal_strlit("/.");
    reveal_strlit("//");
    reveal_strlit(".lock");
    let head = if tag {
        "refs/tags/"@
    } else {
        "refs/heads/"@
    };
    let r = head + name;
    assert(r[4] == '/');
    assert(r[0] == 'r');
    assert(r.last() == name.last());
    assert forall|i: int| 0 <= i < r.len() implies plain_name_char(#[trigger] r[i]) || (r[i] == '/'
        && i < head.len()) by {
        if i >= head.len() {
            assert(r[i] == name[i - head.len()]);
        } else {
            assert(r[i] == head[i]);
        }
    }
    assert forall|i: int|
        #![trigger text::begins(r.skip(i), ".."@)]
        #![trigger text::begins(r.skip(i), "/."@)]
        #![trigger text::begins(r.skip(i), "//"@)]
        0 <= i <= r.len() implies !text::begins(r.skip(i), ".."@) && !text::begins(r.skip(i), "/."@)
        && !text::begins(r.skip(i), "//"@) by {
        if r.len() - i >= 2 {
            let t = r.skip(i).take(2);
            assert(t[0] == r[i] && t[1] == r[i + 1]);
            if r[i] == '/' {
                if i + 1 < head.len() {
                    assert(r[i + 1] == head[i + 1]);
                } else {
                    assert(r[i + 1] == name[0]);
                }
            }
            assert(".."@[0] == '.' && "/."@[1] == '.' && "//"@[1] == '/' && "//"@[0] == '/');
        }
    }
    assert forall|i: int| 0 <= i < text::pieces(r, '/').len() implies !text::ends(
        #[trigger] text::pieces(r, '/')[i],
        ".lock"@,
    ) by {
        let p = text::pieces(r, '/')[i];
        if p.len() >= 5 {
            lemma_pieces_hold_characters(r, '/', i, p.len() - 5);
            let m = choose|m: int| 0 <= m < r.len() && r[m] == p[p.len() - 5];
            assert(p.skip(p.len() - 5)[0] == r[m]);
            assert(".lock"@[0] == '.');
        }
    }
    assert(!text::holds(r, ".."@));
    assert(!text::holds(r, "/."@));
    assert(!text::holds(r, "//"@));
    assert(r.contains('/'));
    assert forall|i: int| 0 <= i < r.len() implies !gitutil::bad_ref_char(#[trigger] r[i]) by {}
    assert(r.last() != '/' && r.last() != '.') by {
        assert(plain_name_char(name[name.len() - 1]));
    }
    assert(gitutil::ref_ok(r));
    assert(r.take(5) =~= "refs/"@);
}

proof fn lemma_low_characters(c: char)
    ensures
        c <= '\u{20}' ==> gitutil::bad_ref_char(c),
{
}

/// Names are refused that are empty, have no slash, begin with a hyphen or a slash, end
/// in a slash or a point, hold two points, two slashes or a slash and a point in a row,
/// or a character that git or a shell gives another meaning.
pub proof fn law_unfit_names_are_refused(s: Seq<char>, i: int)
    ensures
        s.len() == 0 ==> !gitutil::ref_ok(s),
        !s.contains('/') ==> !gitutil::ref_ok(s),
        s.len() > 0 && (s[0] == '-' || s[0] == '/' || s.last() == '/' || s.last() == '.')
            ==> !gitutil::ref_ok(s),
        0 <= i < s.len() - 1 && ((s[i] == '.' && s[i + 1] == '.') || (s[i] == '/' && s[i + 1]
            == '.') || (s[i] == '/' && s[i + 1] == '/')) ==> !gitutil::ref_ok(s),
        0 <= i < s.len() && (s[i] <= '\u{20}' || s[i] == '\u{7f}' || s[i] == '~' || s[i] == '^'
            || s[i] == ':' || s[i] == '?' || s[i] == '*' || s[i] == '[' || s[i] == '\\' || s[i]
            == '@') ==> !gitutil::ref_ok(s),
{
    reveal_strlit("..");
    reveal_strlit("/.");
    reveal_strlit("//");
    if 0 <= i < s.len() - 1 {
        let t = s.skip(i).take(2);
        assert(t[0] == s[i] && t[1] == s[i + 1]);
        if s[i] == '.' && s[i + 1] == '.' {
            assert(t =~= ".."@);
            assert(text::begins(s.skip(i), ".."@));
        }
        if s[i] == '/' && s[i + 1] == '.' {
            assert(t =~= "/."@);
            assert(text::begins(s.skip(i), "/."@));
        }
        if s[i] == '/' && s[i + 1] == '/' {
            assert(t =~= "//"@);
            assert(text::begins(s.skip(i), "//"@));
        }
    }
    if gitutil::ref_ok(s) && 0 <= i < s.len() {
        assert(!gitutil::bad_ref_char(s[i]));
        lemma_low_characters(s[i]);
    }
}

/// The object names that are accepted are those of forty hexadecimal digits, of either
/// case.
pub proof fn law_object_names_are_forty_digits(s: Seq<char>)
    ensures
        gitutil::sha_ok(s) <==> s.len() == 40 && (forall|i: int|
            0 <= i < s.len() ==> '0' <= #[trigger] s[i] <= '9' || 'a' <= s[i] <= 'f' || 'A' <= s[i]
                <= 'F'),
{
    if gitutil::sha_ok(s) {
        assert forall|i: int| 0 <= i < s.len() implies '0' <= #[trigger] s[i] <= '9' || 'a' <= s[i]
            <= 'f' || 'A' <= s[i] <= 'F' by {
            assert(crate::digits::is_hex(s[i]));
        }
    }
}

// ---------------------------------------------------------------------------
// Listing
// ---------------------------------------------------------------------------

/// Every ref that git lists is in the listing, and a ref that git lists for the first
/// time stands there on its line as git wrote it.
pub proof fn law_every_ref_is_listed(
    lines: Seq<Seq<char>>,
    line: Seq<char>,
    sha: Seq<char>,
    name: Seq<char>,
)
    requires
        text::halves(text::trimmed(line), ' ') == Some((sha, name)),
    ensures
        gitutil::line_names(gitutil::distinct_lines(lines.push(line))).contains(name),
        !gitutil::line_names(gitutil::distinct_lines(lines)).contains(name)
            ==> gitutil::distinct_lines(lines.push(line)) == gitutil::distinct_lines(lines).push(
            text::trimmed(line),
        ),
        gitutil::line_names(gitutil::distinct_lines(lines)).contains(name)
            ==> gitutil::distinct_lines(lines.push(line)) == gitutil::distinct_lines(lines),
{
    assert(lines.push(line).drop_last() =~= lines);
    let before = gitutil::distinct_lines(lines);
    let t = text::trimmed(line);
    if !gitutil::line_names(before).contains(name) {
        let now = before.push(t);
        assert(gitutil::line_names(now)[before.len() as int] == name);
    }
}

/// A ref that is listed stays listed, where it is, when more lines follow.
pub proof fn law_more_lines_keep_the_listing(lines: Seq<Seq<char>>, line: Seq<char>)
    ensures
        gitutil::distinct_lines(lines.push(line)).len() >= gitutil::distinct_lines(lines).len(),
        gitutil::distinct_lines(lines.push(line)).take(
            gitutil::distinct_lines(lines).len() as int,
        ) == gitutil::distinct_lines(lines),
        gitutil::distinct_lines(Seq::empty()).len() == 0,
{
    assert(lines.push(line).drop_last() =~= lines);
    let before = gitutil::distinct_lines(lines);
    assert(gitutil::distinct_lines(lines.push(line)).take(before.len() as int) =~= before);
}

/// The listing holds the lines of the refs, each with a line feed behind it, and behind
/// them a line for what `HEAD` points to.
pub proof fn law_listing_ends_in_head(stdout: Seq<u8>, head: Option<Seq<u8>>, line: Seq<char>)
    ensures
        gitutil::listing(stdout, head) == gitutil::terminated(
            gitutil::distinct_lines(text::rows(text::lossy(stdout))),
        ) + "@"@ + gitutil::head_name(head) + " HEAD\n"@,
        gitutil::terminated(Seq::empty()).len() == 0,
        forall|lines: Seq<Seq<char>>|
            gitutil::terminated(#[trigger] lines.push(line)) == gitutil::terminated(lines) + line
                + "\n"@,
{
    reveal_strlit("\n");
    assert("\n"@ =~= seq!['\n']);
    assert forall|lines: Seq<Seq<char>>|
        gitutil::terminated(#[trigger] lines.push(line)) == gitutil::terminated(lines) + line
            + "\n"@ by {
        assert(lines.push(line).drop_last() =~= lines);
    }
}

/// What `HEAD` points to is what its file names behind `ref: `, without the white space
/// around it; where the file names nothing, or is not there, it is `master`.
pub proof fn law_head_is_read_from_its_file(name: Seq<u8>, other: Seq<u8>)
    ensures
        ({
            let b = seq![0x72u8, 0x65, 0x66, 0x3a, 0x20] + name;
            let t = text::trimmed(text::lossy(name));
            gitutil::head_name(Some(b)) == if t.len() > 0 {
                t
            } else {
                "master"@
            }
        }),
        other.len() < 5 || other.take(5) != seq![0x72u8, 0x65, 0x66, 0x3a, 0x20]
            ==> gitutil::head_name(Some(other)) == "master"@,
        gitutil::head_name(None) == "master"@,
{
    let p = seq![0x72u8, 0x65, 0x66, 0x3a, 0x20];
    let b = p + name;
    assert(b.take(5) =~= p);
    assert(b.skip(5) =~= name);
}

/// A line of an object name, a space and a ref name adds that ref to those that are
/// read, behind those before it.
pub proof fn law_ref_lines_are_read(
    lines: Seq<Seq<char>>,
    line: Seq<char>,
    sha: Seq<char>,
    name: Seq<char>,
)
    requires
        text::trimmed(line) == sha + " "@ + name,
        gitutil::sha_ok(sha),
        name.len() > 0,
    ensures
        gitutil::ref_pairs(lines.push(line)) == gitutil::ref_pairs(lines).push((sha, name)),
{
    reveal_strlit(" ");
    let t = sha + " "@ + name;
    assert(lines.push(line).drop_last() =~= lines);
    assert(t[40] == ' ');
    assert forall|j: int| 0 <= j < 40 implies t[j] != ' ' by {
        assert(t[j] == sha[j]);
        assert(crate::digits::is_hex(sha[j]));
    }
    text::lemma_first_is(t, ' ', 40);
    assert(t.take(40) =~= sha);
    assert(t.skip(41) =~= name);
}

/// The refs of a working repository are those that git lists of its branches and tags.
pub proof fn law_local_refs_are_listed_by_git(listed: Outcome)
    ensures
        gitutil::local_refs_step(Seq::empty()) == Next::<
            Result<Seq<(Seq<char>, Seq<char>)>, Seq<char>>,
        >::Run(
            seq![
                "for-each-ref"@,
                "--format"@,
                "%(objectname) %(refname)"@,
                "refs/heads"@,
                "refs/tags"@,
            ],
        ),
        listed matches Outcome::Exited { success, stdout, .. } ==> success
            ==> gitutil::local_refs_step(seq![listed]) == Next::Done(
            Ok::<_, Seq<char>>(gitutil::ref_pairs(text::rows(text::lossy(stdout)))),
        ),
        !(listed matches Outcome::Exited { success, .. } && success) ==> ({
            let end = gitutil::local_refs_step(seq![listed]);
            end is Done && end->Done_0 is Err
        }),
{
}

/// A new working repository has the branch that is asked for as its first one.
pub proof fn law_new_repository_has_its_branch(dir: Seq<char>, branch: Seq<char>)
    ensures
        branch.len() > 0 ==> gitutil::init_args(dir, Some(branch)) == seq![
            "init"@,
            "-b"@,
            branch,
            dir,
        ],
        gitutil::init_args(dir, Some(Seq::empty())) == seq!["init"@, dir],
        gitutil::init_args(dir, None) == seq!["init"@, dir],
        gitutil::bundle_verify(dir) == seq!["bundle"@, "verify"@, dir],
        gitutil::access_file(dir) == dir + ".allowed"@,
        gitutil::admin_entry(branch) == "adm:"@ + branch + "\n"@,
{
}

/// The refs that are told to a client are listed by git, all of them, with their objects;
/// where git fails, so does the listing.
pub proof fn law_told_refs_are_listed_by_git(head: Option<Seq<u8>>, listed: Outcome)
    ensures
        gitutil::list_refs_step(head, Seq::empty()) == Next::<Result<Seq<u8>, Seq<char>>>::Run(
            seq!["for-each-ref"@, "--format"@, "%(objectname) %(refname)"@],
        ),
        listed matches Outcome::Exited { success, stdout, .. } ==> success
            ==> gitutil::list_refs_step(head, seq![listed]) == Next::Done(
            Ok::<_, Seq<char>>(vstd::utf8::encode_utf8(gitutil::listing(stdout, head))),
        ),
        !(listed matches Outcome::Exited { success, .. } && success) ==> ({
            let end = gitutil::list_refs_step(head, seq![listed]);
            end is Done && end->Done_0 is Err
        }),
{
}

/// The characters up to the apostrophe are not for names, and those from the parenthesis
/// on are, but for the ones with a meaning of their own.
pub proof fn law_names_start_above_the_apostrophe(c: char)
    ensures
        c <= '\'' ==> gitutil::bad_ref_char(c),
        '(' <= c < '\u{7f}' && c != '\\' && c != '~' && c != '^' && c != ':' && c != '?' && c != '*'
            && c != '[' && c != '@' ==> !gitutil::bad_ref_char(c),
        c > '\u{7f}' ==> !gitutil::bad_ref_char(c),
{
}

} // verus!
