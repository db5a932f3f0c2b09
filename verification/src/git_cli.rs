//! The commands of the git client: listing, cloning, pushing, deleting.

use vstd::prelude::*;

use crate::bytes;
use crate::client;
use crate::client::{ClientResponse, Reply};
use crate::digits;
use crate::gitutil;
use crate::gitutil::{GitOutcome, Step};
use crate::msgpack;
use crate::msgpack::{Msg, MsgValue};
use crate::server;
use crate::server::BundleFile;
use crate::text;
use crate::text_map::TextMap;
use crate::transfer;

verus! {

// ---------------------------------------------------------------------------
// Requests
// ---------------------------------------------------------------------------

/// The entry that names the repository of a request.
pub open spec fn repository_entry(repo: Seq<char>) -> (Msg, Msg) {
    (Msg::Integer(0), Msg::Text(repo))
}

/// The data of a request for the refs.
pub open spec fn list_data(repo: Seq<char>, for_push: bool) -> Msg {
    Msg::Pairs(seq![repository_entry(repo), (Msg::Text("for_push"@), Msg::Boolean(for_push))])
}

/// A ref in a request to fetch.
pub open spec fn ref_item(name: Seq<char>) -> Msg {
    Msg::Pairs(seq![(Msg::Text("ref"@), Msg::Text(name))])
}

/// The data of a request to fetch refs, for a client that has some objects.
pub open spec fn fetch_data(repo: Seq<char>, names: Seq<Seq<char>>, haves: Seq<Seq<char>>) -> Msg {
    Msg::Pairs(
        seq![
            repository_entry(repo),
            (Msg::Text("refs"@), Msg::Array(Seq::new(names.len(), |i: int| ref_item(names[i])))),
            (Msg::Text("have"@), Msg::Array(Seq::new(haves.len(), |i: int| Msg::Text(haves[i])))),
        ],
    )
}

/// The data of a request to push a bundle.
pub open spec fn push_data(
    repo: Seq<char>,
    local: Seq<char>,
    remote: Seq<char>,
    force: bool,
    bundle: Seq<u8>,
) -> Msg {
    Msg::Pairs(
        seq![
            repository_entry(repo),
            (Msg::Text("local_ref"@), Msg::Text(local)),
            (Msg::Text("remote_ref"@), Msg::Text(remote)),
            (Msg::Text("force"@), Msg::Boolean(force)),
            (Msg::Text("bundle"@), Msg::Binary(bundle)),
        ],
    )
}

/// The data of a request to delete a ref.
pub open spec fn delete_data(repo: Seq<char>, name: Seq<char>) -> Msg {
    Msg::Pairs(seq![repository_entry(repo), (Msg::Text("ref"@), Msg::Text(name))])
}

/// Builds a request for the refs.
pub fn list_request(repo: &str, for_push: bool) -> (r: MsgValue)
    ensures
        r@ == list_data(repo@, for_push),
        msgpack::encodable(r@),
{
    let mut p: Vec<(MsgValue, MsgValue)> = Vec::new();
    p.push((msgpack::uint(0), msgpack::string(repo)));
    p.push((msgpack::string("for_push"), msgpack::boolean(for_push)));
    let r = msgpack::map(p);
    proof {
        assert(r@->Pairs_0 =~= list_data(repo@, for_push)->Pairs_0);
        reveal_with_fuel(msgpack::encodable, 2);
    }
    r
}

/// Builds a request to fetch.
pub fn fetch_request(repo: &str, names: &[String], haves: &[String]) -> (r: MsgValue)
    ensures
        r@ == fetch_data(repo@, text::views(names@), text::views(haves@)),
        msgpack::encodable(r@),
{
    let mut refs: Vec<MsgValue> = Vec::new();
    let mut i: usize = 0;
    while i < names.len()
        invariant
            i <= names@.len(),
            refs@.len() == i,
            forall|j: int| 0 <= j < i ==> (#[trigger] refs@[j])@ == ref_item(names@[j]@),
        decreases names@.len() - i,
    {
        let mut p: Vec<(MsgValue, MsgValue)> = Vec::new();
        p.push((msgpack::string("ref"), msgpack::string(names[i].as_str())));
        let item = msgpack::map(p);
        assert(item@->Pairs_0 =~= ref_item(names@[i as int]@)->Pairs_0);
        refs.push(item);
        i = i + 1;
    }
    let mut have: Vec<MsgValue> = Vec::new();
    let mut i: usize = 0;
    while i < haves.len()
        invariant
            i <= haves@.len(),
            have@.len() == i,
            forall|j: int| 0 <= j < i ==> (#[trigger] have@[j])@ == Msg::Text(haves@[j]@),
        decreases haves@.len() - i,
    {
        have.push(msgpack::string(haves[i].as_str()));
        i = i + 1;
    }
    let ghost want = fetch_data(repo@, text::views(names@), text::views(haves@));
    assert(msgpack::models(refs@) =~= want->Pairs_0[1].1->Array_0);
    assert(msgpack::models(have@) =~= want->Pairs_0[2].1->Array_0);
    let mut p: Vec<(MsgValue, MsgValue)> = Vec::new();
    p.push((msgpack::uint(0), msgpack::string(repo)));
    p.push((msgpack::string("refs"), msgpack::array(refs)));
    p.push((msgpack::string("have"), msgpack::array(have)));
    let r = msgpack::map(p);
    proof {
        assert(r@->Pairs_0 =~= want->Pairs_0);
        reveal_with_fuel(msgpack::encodable, 5);
        assert forall|i: int| 0 <= i < want->Pairs_0[1].1->Array_0.len() implies msgpack::encodable(
            #[trigger] want->Pairs_0[1].1->Array_0[i],
        ) by {
            assert(want->Pairs_0[1].1->Array_0[i] == ref_item(names@[i]@));
        }
        assert(msgpack::encodable(want->Pairs_0[1].1));
        assert(msgpack::encodable(want->Pairs_0[2].1));
    }
    r
}

/// Builds a request to push a bundle.
pub fn push_request(
    repo: &str,
    local_ref: &str,
    remote_ref: &str,
    force: bool,
    bundle: &[u8],
) -> (r: MsgValue)
    ensures
        r@ == push_data(repo@, local_ref@, remote_ref@, force, bundle@),
        msgpack::encodable(r@),
{
    let mut p: Vec<(MsgValue, MsgValue)> = Vec::new();
    p.push((msgpack::uint(0), msgpack::string(repo)));
    p.push((msgpack::string("local_ref"), msgpack::string(local_ref)));
    p.push((msgpack::string("remote_ref"), msgpack::string(remote_ref)));
    p.push((msgpack::string("force"), msgpack::boolean(force)));
    p.push((msgpack::string("bundle"), msgpack::binary(bundle)));
    let r = msgpack::map(p);
    proof {
        assert(r@->Pairs_0 =~= push_data(
            repo@,
            local_ref@,
            remote_ref@,
            force,
            bundle@,
        )->Pairs_0);
        reveal_with_fuel(msgpack::encodable, 2);
    }
    r
}

/// Builds a request to delete a ref.
pub fn delete_request(repo: &str, name: &str) -> (r: MsgValue)
    ensures
        r@ == delete_data(repo@, name@),
        msgpack::encodable(r@),
{
    let mut p: Vec<(MsgValue, MsgValue)> = Vec::new();
    p.push((msgpack::uint(0), msgpack::string(repo)));
    p.push((msgpack::string("ref"), msgpack::string(name)));
    let r = msgpack::map(p);
    proof {
        assert(r@->Pairs_0 =~= delete_data(repo@, name@)->Pairs_0);
        reveal_with_fuel(msgpack::encodable, 2);
    }
    r
}

// ---------------------------------------------------------------------------
// The refs of the server
// ---------------------------------------------------------------------------

/// The refs that a server has, and the one that its `HEAD` points to.
#[derive(Debug)]
pub struct RemoteRefs {
    pub refs: Vec<(String, String)>,
    pub head: Option<String>,
}

/// The refs that a server has, over sequences.
pub struct Remote {
    pub refs: Seq<(Seq<char>, Seq<char>)>,
    pub head: Option<Seq<char>>,
}

impl View for RemoteRefs {
    type V = Remote;

    open spec fn view(&self) -> Remote {
        Remote {
            refs: text::pair_views(self.refs@),
            head: match self.head {
                Some(h) => Some(h@),
                None => None,
            },
        }
    }
}

/// The refs on the lines of a listing. A line that starts with `@` and ends in
/// ` HEAD` says where `HEAD` points to; the last such line counts.
pub open spec fn remote_in(lines: Seq<Seq<char>>) -> Remote
    decreases lines.len(),
{
    if lines.len() == 0 {
        Remote { refs: Seq::empty(), head: None }
    } else {
        let before = remote_in(lines.drop_last());
        let t = text::trimmed(lines.last());
        match text::after(t, "@"@) {
            Some(rest) => if text::ends(rest, " HEAD"@) {
                Remote { head: Some(rest.take(rest.len() - 5)), ..before }
            } else {
                before
            },
            None => match text::halves(t, ' ') {
                Some(p) => Remote { refs: before.refs.push(p), ..before },
                None => before,
            },
        }
    }
}

/// What a response to a request for the refs says.
pub open spec fn listed(b: Seq<u8>) -> Result<Remote, Seq<char>> {
    if !client::succeeds(b) {
        Err(client::server_error(b))
    } else {
        Ok(remote_in(text::rows(text::lossy(b.skip(1)))))
    }
}

/// Parses a response to a request for the refs.
pub fn parse_list_response(b: &[u8]) -> (r: Result<RemoteRefs, String>)
    ensures
        match r {
            Ok(x) => listed(b@) == Ok::<_, Seq<char>>(x@),
            Err(e) => listed(b@) == Err::<Remote, _>(e@),
        },
        forall|t: Seq<char>|
            b@ == seq![0u8] + #[trigger] vstd::utf8::encode_utf8(t) ==> r is Ok && (r->Ok_0)@
                == remote_in(text::rows(t)),
{
    if !client::is_success(b) {
        return Err(client::server_error_text(b));
    }
    let body = bytes::cut(b, 1, b.len());
    assert(body@ =~= b@.skip(1));
    let s = text::from_utf8_lossy(body.as_slice());
    let lines = text::lines(s.as_str());
    proof {
        assert forall|t: Seq<char>|
            b@ == seq![0u8] + #[trigger] vstd::utf8::encode_utf8(t) implies text::lossy(b@.skip(1))
            == t by {
            assert(b@.skip(1) =~= vstd::utf8::encode_utf8(t));
            vstd::utf8::encode_utf8_valid_utf8(t);
            vstd::utf8::encode_utf8_decode_utf8(t);
        }
    }
    let ghost all = text::rows(text::lossy(b@.skip(1)));
    let mut out = RemoteRefs { refs: Vec::new(), head: None };
    let mut i: usize = 0;
    assert(all.take(0) =~= Seq::<Seq<char>>::empty());
    assert(out@.refs =~= Seq::empty());
    proof {
        reveal_strlit(" HEAD");
    }
    while i < lines.len()
        invariant
            i <= lines@.len(),
            all == text::views(lines@),
            out@ == remote_in(all.take(i as int)),
            " HEAD"@.len() == 5,
        decreases lines@.len() - i,
    {
        assert(all.take(i + 1).drop_last() =~= all.take(i as int));
        assert(all.take(i + 1).last() == lines@[i as int]@);
        let line = text::trim(lines[i].as_str());
        match text::strip_prefix(line.as_str(), "@") {
            Some(rest) => {
                if text::ends_with(rest.as_str(), " HEAD") {
                    let v = text::chars(rest.as_str());
                    let n: usize = v.len();
                    let name = text::string(v.as_slice(), 0, n - 5);
                    assert(name@ =~= rest@.take(rest@.len() - 5));
                    out.head = Some(name);
                }
            },
            None => {
                if let Some((sha, name)) = text::split_once(line.as_str(), ' ') {
                    let ghost before = out@.refs;
                    out.refs.push((sha, name));
                    assert(out@.refs =~= before.push((sha@, name@)));
                }
            },
        }
        i = i + 1;
    }
    assert(all.take(all.len() as int) =~= all);
    Ok(out)
}

/// The object name of the first ref with a name.
pub open spec fn sha_of(refs: Seq<(Seq<char>, Seq<char>)>, name: Seq<char>) -> Option<Seq<char>>
    decreases refs.len(),
{
    if refs.len() == 0 {
        None
    } else if refs[0].1 == name {
        Some(refs[0].0)
    } else {
        sha_of(refs.skip(1), name)
    }
}

/// The lines that show the refs of a server: object name and ref name, and at
/// the end the object that `HEAD` points to, where it is known.
pub open spec fn shown(r: Remote) -> Seq<Seq<char>> {
    let lines = Seq::new(r.refs.len(), |i: int| r.refs[i].0 + "\t"@ + r.refs[i].1);
    match r.head {
        Some(h) => match sha_of(r.refs, h) {
            Some(sha) => lines.push(sha + "\tHEAD"@),
            None => lines,
        },
        None => lines,
    }
}

/// The lines that show the refs of a server.
pub fn ls_remote_lines(remote: &RemoteRefs) -> (r: Vec<String>)
    ensures
        text::views(r@) == shown(remote@),
{
    let ghost refs = text::pair_views(remote.refs@);
    let ghost all = Seq::new(refs.len(), |i: int| refs[i].0 + "\t"@ + refs[i].1);
    let mut out: Vec<String> = Vec::new();
    let mut i: usize = 0;
    while i < remote.refs.len()
        invariant
            i <= remote.refs@.len(),
            refs == text::pair_views(remote.refs@),
            all == Seq::new(refs.len(), |i: int| refs[i].0 + "\t"@ + refs[i].1),
            out@.len() == i,
            forall|j: int| 0 <= j < i ==> (#[trigger] out@[j])@ == all[j],
        decreases remote.refs@.len() - i,
    {
        let line = text::cat3(remote.refs[i].0.as_str(), "\t", remote.refs[i].1.as_str());
        assert(line@ == all[i as int]);
        out.push(line);
        i = i + 1;
    }
    assert(text::views(out@) =~= all);
    if let Some(head) = &remote.head {
        let mut j: usize = 0;
        assert(refs.skip(0) =~= refs);
        while j < remote.refs.len()
            invariant
                j <= remote.refs@.len(),
                refs == text::pair_views(remote.refs@),
                sha_of(refs.skip(j as int), head@) == sha_of(refs, head@),
                text::views(out@) == all,
                remote@.head == Some(head@),
                remote@.refs == refs,
                all == Seq::new(refs.len(), |i: int| refs[i].0 + "\t"@ + refs[i].1),
            decreases remote.refs@.len() - j,
        {
            assert(refs.skip(j as int)[0] == refs[j as int]);
            if text::same(remote.refs[j].1.as_str(), head.as_str()) {
                out.push(text::cat(remote.refs[j].0.as_str(), "\tHEAD"));
                assert(text::views(out@) =~= all.push(refs[j as int].0 + "\tHEAD"@));
                return out;
            }
            assert(refs.skip(j as int).skip(1) =~= refs.skip(j + 1));
            j = j + 1;
        }
    }
    out
}

// ---------------------------------------------------------------------------
// Cloning
// ---------------------------------------------------------------------------

/// The directory that a repository is cloned into where none is given: its own
/// name.
pub open spec fn clone_name(repo: Seq<char>) -> Seq<char> {
    match text::last_of(repo, '/') {
        Some(i) => repo.skip(i + 1),
        None => "repo"@,
    }
}

/// The directory that a repository is cloned into.
pub fn clone_dir(repo: &str, given: &Option<String>) -> (r: String)
    ensures
        r@ == match *given {
            Some(d) => d@,
            None => clone_name(repo@),
        },
{
    match given {
        Some(d) => d.clone(),
        None => match text::rsplit_once(repo, '/') {
            Some((_, name)) => name,
            None => "repo".to_owned(),
        },
    }
}

/// Checks that nothing is in the way of a clone.
pub fn check_clone_dir(dir: &str, exists: bool) -> (r: Result<(), String>)
    ensures
        gitutil::result_view(r) == (if exists {
            Err::<(), _>("destination "@ + dir@ + " already exists"@)
        } else {
            Ok::<(), Seq<char>>(())
        }),
{
    if exists {
        return Err(text::cat3("destination ", dir, " already exists"));
    }
    Ok(())
}

/// Checks that there is a directory to push from.
pub fn check_push_dir(dir: &str, is_dir: bool) -> (r: Result<(), String>)
    ensures
        gitutil::result_view(r) == (if is_dir {
            Ok::<(), Seq<char>>(())
        } else {
            Err::<(), _>(dir@ + " is not a directory"@)
        }),
{
    if !is_dir {
        return Err(text::cat(dir, " is not a directory"));
    }
    Ok(())
}

/// The branch that `HEAD` points to.
pub open spec fn branch_of(head: Option<Seq<char>>) -> Option<Seq<char>> {
    match head {
        Some(h) => text::after(h, "refs/heads/"@),
        None => None,
    }
}

/// The branch that `HEAD` points to.
pub fn head_branch(head: &Option<String>) -> (r: Option<String>)
    ensures
        match r {
            Some(b) => branch_of(
                match *head {
                    Some(h) => Some(h@),
                    None => None,
                },
            ) == Some(b@),
            None => branch_of(
                match *head {
                    Some(h) => Some(h@),
                    None => None,
                },
            ) is None,
        },
{
    match head {
        Some(h) => text::strip_prefix(h.as_str(), "refs/heads/"),
        None => None,
    }
}

/// Commands that must all succeed, each with the start of its error text.
pub open spec fn all_commands(
    cmds: Seq<(Seq<Seq<char>>, Seq<char>)>,
    done: Seq<gitutil::Outcome>,
) -> gitutil::Next<Result<(), Seq<char>>>
    decreases cmds.len(),
{
    if cmds.len() == 0 {
        gitutil::Next::Done(Ok(()))
    } else {
        match gitutil::one_command(cmds[0].0, cmds[0].1, done) {
            gitutil::Next::Run(a) => gitutil::Next::Run(a),
            gitutil::Next::Done(Err(e)) => gitutil::Next::Done(Err(e)),
            gitutil::Next::Done(Ok(_)) => all_commands(cmds.skip(1), done.skip(1)),
        }
    }
}

/// The refspec of the branches of a clone.
pub const BRANCHES: &'static str = "+refs/heads/*:refs/remotes/origin/*";

/// The refspec of the tags of a clone.
pub const TAGS: &'static str = "+refs/tags/*:refs/tags/*";

/// The commands of a clone before a branch is checked out.
pub open spec fn clone_commands(
    dir: Seq<char>,
    branch: Option<Seq<char>>,
    bundle: Option<Seq<char>>,
    url: Seq<char>,
) -> Seq<(Seq<Seq<char>>, Seq<char>)> {
    let first = seq![(gitutil::init_args(dir, branch), "git init failed: "@)];
    let middle = match bundle {
        Some(path) => seq![
            (gitutil::bundle_verify(path), "bundle verification failed: "@),
            (seq!["fetch"@, path, BRANCHES@, TAGS@], "bundle fetch failed: "@),
        ],
        None => Seq::empty(),
    };
    let last = seq![
        (seq!["remote"@, "add"@, "origin"@, url], "git remote add failed: "@),
        (seq!["config"@, "remote.origin.fetch"@, BRANCHES@], "git config failed: "@),
    ];
    first + middle + last
}

/// The commands that tie a branch to the remote.
pub open spec fn tracking_commands(branch: Seq<char>) -> Seq<(Seq<Seq<char>>, Seq<char>)> {
    seq![
        (
            seq!["config"@, "branch."@ + branch + ".remote"@, "origin"@],
            "git config failed: "@,
        ),
        (
            seq!["config"@, "branch."@ + branch + ".merge"@, "refs/heads/"@ + branch],
            "git config failed: "@,
        ),
    ]
}

/// How many commands a checkout ran: a test and a checkout, or two tests and
/// perhaps a checkout.
pub open spec fn checkout_length(done: Seq<gitutil::Outcome>) -> int {
    if done.len() > 1 && !gitutil::succeeded(done[0]) && gitutil::succeeded(done[1]) {
        3
    } else {
        2
    }
}

/// Making a clone: the repository, the objects, the remote, and the branch that
/// the server's `HEAD` points to, checked out and tied to the remote.
pub open spec fn clone_step(
    dir: Seq<char>,
    branch: Option<Seq<char>>,
    bundle: Option<Seq<char>>,
    url: Seq<char>,
    done: Seq<gitutil::Outcome>,
) -> gitutil::Next<Result<(), Seq<char>>> {
    let cmds = clone_commands(dir, branch, bundle, url);
    match all_commands(cmds, done) {
        gitutil::Next::Run(a) => gitutil::Next::Run(a),
        gitutil::Next::Done(Err(e)) => gitutil::Next::Done(Err(e)),
        gitutil::Next::Done(Ok(_)) => match branch {
            None => gitutil::Next::Done(Ok(())),
            Some(b) => {
                let rest = done.skip(cmds.len() as int);
                match gitutil::checkout_step("refs/heads/"@ + b, rest) {
                    gitutil::Next::Run(a) => gitutil::Next::Run(a),
                    gitutil::Next::Done(Err(e)) => gitutil::Next::Done(Err(e)),
                    gitutil::Next::Done(Ok(made)) => if made {
                        all_commands(tracking_commands(b), rest.skip(checkout_length(rest)))
                    } else {
                        gitutil::Next::Done(Ok(()))
                    },
                }
            },
        },
    }
}

/// Commands with the start of their error texts, over sequences.
pub open spec fn command_views(v: Seq<(Vec<String>, String)>) -> Seq<(Seq<Seq<char>>, Seq<char>)> {
    Seq::new(v.len(), |i: int| (text::views(v[i].0@), v[i].1@))
}

fn run_all(cmds: &Vec<(Vec<String>, String)>, done: &[GitOutcome]) -> (r: Step<Result<(), String>>)
    ensures
        gitutil::unit_step(r) == all_commands(command_views(cmds@), gitutil::outcomes(done@)),
        gitutil::unit_step(r) == gitutil::Next::Done(Ok::<(), Seq<char>>(())) ==> done@.len()
            >= cmds@.len(),
{
    let ghost all = command_views(cmds@);
    let ghost outs = gitutil::outcomes(done@);
    let mut i: usize = 0;
    assert(all.skip(0) =~= all);
    assert(outs.skip(0) =~= outs);
    while i < cmds.len()
        invariant
            i <= cmds@.len(),
            i <= done@.len(),
            all == command_views(cmds@),
            outs == gitutil::outcomes(done@),
            all_commands(all.skip(i as int), outs.skip(i as int)) == all_commands(all, outs),
        decreases cmds@.len() - i,
    {
        assert(all.skip(i as int)[0] == all[i as int]);
        assert(all.skip(i as int).skip(1) =~= all.skip(i + 1));
        if i == done.len() {
            let mut args: Vec<String> = Vec::new();
            gitutil::extend(&mut args, cmds[i].0.as_slice());
            assert(text::views(args@) =~= all[i as int].0);
            return Step::Run(args);
        }
        assert(outs.skip(i as int)[0] == done@[i as int]@);
        assert(outs.skip(i as int).skip(1) =~= outs.skip(i + 1));
        match gitutil::require_success(&done[i], cmds[i].1.as_str()) {
            Err(e) => {
                return Step::Done(Err(e));
            },
            Ok(()) => {},
        }
        i = i + 1;
    }
    assert(all.skip(i as int) =~= Seq::empty());
    Step::Done(Ok(()))
}

fn add_command(cmds: &mut Vec<(Vec<String>, String)>, args: Vec<String>, what: &str)
    ensures
        command_views(final(cmds)@) == command_views(old(cmds)@).push((text::views(args@), what@)),
{
    let ghost before = command_views(cmds@);
    cmds.push((args, what.to_owned()));
    assert(command_views(cmds@) =~= before.push((text::views(args@), what@)));
}

/// Makes a clone in `dir`.
pub fn clone_repository(
    dir: &str,
    branch: &Option<String>,
    bundle_path: &Option<String>,
    url: &str,
    done: &[GitOutcome],
) -> (r: Step<Result<(), String>>)
    ensures
        gitutil::unit_step(r) == clone_step(
            dir@,
            string_option(*branch),
            string_option(*bundle_path),
            url@,
            gitutil::outcomes(done@),
        ),
{
    let ghost b = string_option(*branch);
    let ghost p = string_option(*bundle_path);
    let mut cmds: Vec<(Vec<String>, String)> = Vec::new();
    assert(command_views(cmds@) =~= Seq::empty());
    let init = match branch {
        Some(x) => if !x.as_str().is_empty() {
            gitutil::words(&["init", "-b", x.as_str(), dir])
        } else {
            gitutil::words(&["init", dir])
        },
        None => gitutil::words(&["init", dir]),
    };
    assert(text::views(init@) =~= gitutil::init_args(dir@, b));
    add_command(&mut cmds, init, "git init failed: ");
    if let Some(path) = bundle_path {
        let verify = gitutil::words(&["bundle", "verify", path.as_str()]);
        assert(text::views(verify@) =~= gitutil::bundle_verify(path@));
        add_command(&mut cmds, verify, "bundle verification failed: ");
        let fetch = gitutil::words(&["fetch", path.as_str(), BRANCHES, TAGS]);
        assert(text::views(fetch@) =~= seq!["fetch"@, path@, BRANCHES@, TAGS@]);
        add_command(&mut cmds, fetch, "bundle fetch failed: ");
    }
    let add = gitutil::words(&["remote", "add", "origin", url]);
    assert(text::views(add@) =~= seq!["remote"@, "add"@, "origin"@, url@]);
    add_command(&mut cmds, add, "git remote add failed: ");
    let config = gitutil::words(&["config", "remote.origin.fetch", BRANCHES]);
    assert(text::views(config@) =~= seq!["config"@, "remote.origin.fetch"@, BRANCHES@]);
    add_command(&mut cmds, config, "git config failed: ");
    assert(command_views(cmds@) =~= clone_commands(dir@, b, p, url@));
    match run_all(&cmds, done) {
        Step::Run(a) => Step::Run(a),
        Step::Done(Err(e)) => Step::Done(Err(e)),
        Step::Done(Ok(())) => match branch {
            None => Step::Done(Ok(())),
            Some(x) => {
                let rest = vstd::slice::slice_subrange(done, cmds.len(), done.len());
                assert(gitutil::outcomes(rest@) =~= gitutil::outcomes(done@).skip(
                    cmds@.len() as int,
                ));
                finish_clone(x.as_str(), rest)
            },
        },
    }
}

/// A text inside an option, over sequences.
pub open spec fn string_option(o: Option<String>) -> Option<Seq<char>> {
    match o {
        Some(s) => Some(s@),
        None => None,
    }
}

fn finish_clone(branch: &str, done: &[GitOutcome]) -> (r: Step<Result<(), String>>)
    ensures
        gitutil::unit_step(r) == match gitutil::checkout_step(
            "refs/heads/"@ + branch@,
            gitutil::outcomes(done@),
        ) {
            gitutil::Next::Run(a) => gitutil::Next::Run(a),
            gitutil::Next::Done(Err(e)) => gitutil::Next::Done(Err(e)),
            gitutil::Next::Done(Ok(made)) => if made {
                all_commands(
                    tracking_commands(branch@),
                    gitutil::outcomes(done@).skip(checkout_length(gitutil::outcomes(done@))),
                )
            } else {
                gitutil::Next::Done(Ok(()))
            },
        },
{
    let full = text::cat("refs/heads/", branch);
    match gitutil::checkout_branch(full.as_str(), done) {
        Step::Run(a) => Step::Run(a),
        Step::Done(Err(e)) => Step::Done(Err(e)),
        Step::Done(Ok(false)) => Step::Done(Ok(())),
        Step::Done(Ok(true)) => {
            let ghost outs = gitutil::outcomes(done@);
            assert(outs.len() >= 2);
            assert(outs[0] == done@[0]@ && outs[1] == done@[1]@);
            let used: usize = if !done[0].succeeded() && done[1].succeeded() {
                3
            } else {
                2
            };
            assert(used == checkout_length(outs) && used <= outs.len());
            let rest = vstd::slice::slice_subrange(done, used, done.len());
            assert(gitutil::outcomes(rest@) =~= outs.skip(used as int));
            let mut cmds: Vec<(Vec<String>, String)> = Vec::new();
            assert(command_views(cmds@) =~= Seq::empty());
            let remote_key = text::cat3("branch.", branch, ".remote");
            let a = gitutil::words(&["config", remote_key.as_str(), "origin"]);
            assert(text::views(a@) =~= seq!["config"@, remote_key@, "origin"@]);
            add_command(&mut cmds, a, "git config failed: ");
            let merge_key = text::cat3("branch.", branch, ".merge");
            let a = gitutil::words(&["config", merge_key.as_str(), full.as_str()]);
            assert(text::views(a@) =~= seq!["config"@, merge_key@, full@]);
            add_command(&mut cmds, a, "git config failed: ");
            assert(command_views(cmds@) =~= tracking_commands(branch@));
            run_all(&cmds, rest)
        },
    }
}

// ---------------------------------------------------------------------------
// Pushing
// ---------------------------------------------------------------------------

/// The second item of each pair by the first; the last pair with a first item
/// counts.
pub open spec fn by_first(pairs: Seq<(Seq<char>, Seq<char>)>) -> Map<Seq<char>, Seq<char>>
    decreases pairs.len(),
{
    if pairs.len() == 0 {
        Map::empty()
    } else {
        by_first(pairs.drop_last()).insert(pairs.last().0, pairs.last().1)
    }
}

/// The values of a map with string values, over sequences.
pub open spec fn text_values(m: Map<Seq<char>, String>) -> Map<Seq<char>, Seq<char>> {
    Map::new(|k: Seq<char>| m.contains_key(k), |k: Seq<char>| m[k]@)
}

/// The refs of a server as a map.
pub fn server_map(refs: &[(String, String)]) -> (r: TextMap<String>)
    ensures
        text_values(r@) == by_first(text::pair_views(refs@)),
{
    let ghost all = text::pair_views(refs@);
    let mut m: TextMap<String> = TextMap::new();
    let mut i: usize = 0;
    assert(all.take(0) =~= Seq::empty());
    assert(text_values(m@) =~= Map::empty());
    while i < refs.len()
        invariant
            i <= refs@.len(),
            all == text::pair_views(refs@),
            text_values(m@) == by_first(all.take(i as int)),
        decreases refs@.len() - i,
    {
        let ghost before = m@;
        assert(all.take(i + 1).drop_last() =~= all.take(i as int));
        assert(all.take(i + 1).last() == all[i as int]);
        m.insert(refs[i].0.clone(), refs[i].1.clone());
        assert(text_values(m@) =~= text_values(before).insert(all[i as int].0, all[i as int].1));
        i = i + 1;
    }
    assert(all.take(all.len() as int) =~= all);
    m
}

/// Choosing the refs to push: one that the server's map lacks, and one that it
/// has otherwise, if that is forced or a fast-forward.
pub open spec fn choose_refs(
    local: Seq<(Seq<char>, Seq<char>)>,
    known: Map<Seq<char>, Seq<char>>,
    force: bool,
    chosen: Seq<Seq<char>>,
    done: Seq<gitutil::Outcome>,
) -> gitutil::Next<Result<Seq<Seq<char>>, Seq<char>>>
    decreases local.len(),
{
    if local.len() == 0 {
        gitutil::Next::Done(Ok(chosen))
    } else {
        let (sha, name) = local[0];
        if !known.contains_key(name) {
            choose_refs(local.skip(1), known, force, chosen.push(name), done)
        } else if known[name] == sha {
            choose_refs(local.skip(1), known, force, chosen, done)
        } else if force {
            choose_refs(local.skip(1), known, force, chosen.push(name), done)
        } else if done.len() == 0 {
            gitutil::Next::Run(seq!["merge-base"@, "--is-ancestor"@, known[name], sha])
        } else if gitutil::succeeded(done[0]) {
            choose_refs(local.skip(1), known, force, chosen.push(name), done.skip(1))
        } else {
            gitutil::Next::Done(
                Err("non-fast-forward update for "@ + name + "; use --force"@),
            )
        }
    }
}

/// A list of names, or an error, over sequences.
pub open spec fn names_step(s: Step<Result<Vec<String>, String>>) -> gitutil::Next<
    Result<Seq<Seq<char>>, Seq<char>>,
> {
    match s {
        Step::Run(a) => gitutil::Next::Run(text::views(a@)),
        Step::Done(Ok(v)) => gitutil::Next::Done(Ok(text::views(v@))),
        Step::Done(Err(e)) => gitutil::Next::Done(Err(e@)),
    }
}

/// Chooses the refs to push.
pub fn refs_to_push(
    local: &[(String, String)],
    known: &TextMap<String>,
    force: bool,
    done: &[GitOutcome],
) -> (r: Step<Result<Vec<String>, String>>)
    ensures
        names_step(r) == choose_refs(
            text::pair_views(local@),
            text_values(known@),
            force,
            Seq::empty(),
            gitutil::outcomes(done@),
        ),
{
    let ghost all = text::pair_views(local@);
    let ghost map = text_values(known@);
    let ghost outs = gitutil::outcomes(done@);
    let mut chosen: Vec<String> = Vec::new();
    let mut i: usize = 0;
    let mut k: usize = 0;
    assert(all.skip(0) =~= all);
    assert(outs.skip(0) =~= outs);
    assert(text::views(chosen@) =~= Seq::empty());
    while i < local.len()
        invariant
            i <= local@.len(),
            k <= done@.len(),
            all == text::pair_views(local@),
            map == text_values(known@),
            outs == gitutil::outcomes(done@),
            choose_refs(all.skip(i as int), map, force, text::views(chosen@), outs.skip(k as int))
                == choose_refs(all, map, force, Seq::empty(), outs),
        decreases local@.len() - i,
    {
        assert(all.skip(i as int)[0] == (local@[i as int].0@, local@[i as int].1@));
        assert(all.skip(i as int).skip(1) =~= all.skip(i + 1));
        let name = local[i].1.as_str();
        let mut take = true;
        if let Some(known_sha) = known.get(name) {
            if text::same(known_sha.as_str(), local[i].0.as_str()) {
                take = false;
            } else if !force {
                if k == done.len() {
                    let args = gitutil::words(
                        &["merge-base", "--is-ancestor", known_sha.as_str(), local[i].0.as_str()],
                    );
                    assert(text::views(args@) =~= seq![
                        "merge-base"@,
                        "--is-ancestor"@,
                        known_sha@,
                        local@[i as int].0@,
                    ]);
                    return Step::Run(args);
                }
                assert(outs.skip(k as int)[0] == done@[k as int]@);
                assert(outs.skip(k as int).skip(1) =~= outs.skip(k + 1));
                if !done[k].succeeded() {
                    return Step::Done(
                        Err(text::cat3("non-fast-forward update for ", name, "; use --force")),
                    );
                }
                k = k + 1;
            }
        }
        if take {
            let ghost before = text::views(chosen@);
            chosen.push(name.to_owned());
            assert(text::views(chosen@) =~= before.push(name@));
        }
        i = i + 1;
    }
    assert(all.skip(i as int) =~= Seq::empty());
    Step::Done(Ok(chosen))
}

/// The objects of the server's refs that exist here.
pub open spec fn common_objects(
    refs: Seq<(Seq<char>, Seq<char>)>,
    found: Seq<Seq<char>>,
    done: Seq<gitutil::Outcome>,
) -> gitutil::Next<Seq<Seq<char>>>
    decreases refs.len(),
{
    if refs.len() == 0 {
        gitutil::Next::Done(found)
    } else if done.len() == 0 {
        gitutil::Next::Run(gitutil::object_test(refs[0].0))
    } else {
        common_objects(
            refs.skip(1),
            if gitutil::succeeded(done[0]) {
                found.push(refs[0].0)
            } else {
                found
            },
            done.skip(1),
        )
    }
}

/// Finds the objects of the server's refs that exist here.
pub fn prerequisites(refs: &[(String, String)], done: &[GitOutcome]) -> (r: Step<Vec<String>>)
    ensures
        match r {
            Step::Run(a) => common_objects(
                text::pair_views(refs@),
                Seq::empty(),
                gitutil::outcomes(done@),
            ) == gitutil::Next::<Seq<Seq<char>>>::Run(text::views(a@)),
            Step::Done(v) => common_objects(
                text::pair_views(refs@),
                Seq::empty(),
                gitutil::outcomes(done@),
            ) == gitutil::Next::Done(text::views(v@)),
        },
{
    let ghost all = text::pair_views(refs@);
    let ghost outs = gitutil::outcomes(done@);
    let mut found: Vec<String> = Vec::new();
    let mut i: usize = 0;
    assert(all.skip(0) =~= all);
    assert(outs.skip(0) =~= outs);
    assert(text::views(found@) =~= Seq::empty());
    while i < refs.len()
        invariant
            i <= refs@.len(),
            i <= done@.len(),
            all == text::pair_views(refs@),
            outs == gitutil::outcomes(done@),
            common_objects(all.skip(i as int), text::views(found@), outs.skip(i as int))
                == common_objects(all, Seq::empty(), outs),
        decreases refs@.len() - i,
    {
        assert(all.skip(i as int)[0] == (refs@[i as int].0@, refs@[i as int].1@));
        assert(all.skip(i as int).skip(1) =~= all.skip(i + 1));
        if i == done.len() {
            let args = gitutil::words(&["cat-file", "-t", refs[i].0.as_str()]);
            assert(text::views(args@) =~= gitutil::object_test(refs@[i as int].0@));
            return Step::Run(args);
        }
        assert(outs.skip(i as int)[0] == done@[i as int]@);
        assert(outs.skip(i as int).skip(1) =~= outs.skip(i + 1));
        if done[i].succeeded() {
            let ghost before = text::views(found@);
            found.push(refs[i].0.clone());
            assert(text::views(found@) =~= before.push(refs@[i as int].0@));
        }
        i = i + 1;
    }
    assert(all.skip(i as int) =~= Seq::empty());
    Step::Done(found)
}

/// Whether the push of a ref is forced: only where the server's map has it.
pub fn push_force(force: bool, known: &TextMap<String>, name: &str) -> (r: bool)
    ensures
        r == (force && known@.contains_key(name@)),
{
    force && known.contains_key(name)
}

/// How the pushing of refs goes on.
#[derive(Debug)]
pub enum PushStep {
    /// There is no ref to push.
    UpToDate,
    /// The request for a ref, by its place, is sent.
    Send(usize),
    /// The server has refused one, so that it ends with this error.
    Failed(String),
    /// All are pushed.
    Finished,
}

/// How the pushing of refs goes on, over sequences.
pub enum Pushing {
    UpToDate,
    Send(int),
    Failed(Seq<char>),
    Finished,
}

impl View for PushStep {
    type V = Pushing;

    open spec fn view(&self) -> Pushing {
        match self {
            PushStep::UpToDate => Pushing::UpToDate,
            PushStep::Send(i) => Pushing::Send(*i as int),
            PushStep::Failed(e) => Pushing::Failed(e@),
            PushStep::Finished => Pushing::Finished,
        }
    }
}

/// Responses over sequences.
pub open spec fn replies(v: Seq<ClientResponse>) -> Seq<Reply> {
    Seq::new(v.len(), |i: int| v[i]@)
}

/// The first refusal among the responses to pushes.
pub open spec fn refusal(answers: Seq<Reply>) -> Option<Seq<char>>
    decreases answers.len(),
{
    if answers.len() == 0 {
        None
    } else {
        match client::change_result(answers[0], "push failed"@) {
            Err(e) => Some(e),
            Ok(_) => refusal(answers.skip(1)),
        }
    }
}

/// How the pushing of a number of refs goes on, after the responses that came.
pub open spec fn pushing(count: int, answers: Seq<Reply>) -> Pushing {
    if count == 0 {
        Pushing::UpToDate
    } else {
        match refusal(answers) {
            Some(e) => Pushing::Failed(e),
            None => if answers.len() < count {
                Pushing::Send(answers.len() as int)
            } else {
                Pushing::Finished
            },
        }
    }
}

/// Once a push was refused, no other ref is sent, whatever else comes.
pub proof fn law_refusal_ends_a_push(count: int, answers: Seq<Reply>, more: Seq<Reply>)
    requires
        pushing(count, answers) is Failed,
    ensures
        pushing(count, answers + more) == pushing(count, answers),
    decreases answers.len(),
{
    assert((answers + more)[0] == answers[0]);
    if client::change_result(answers[0], "push failed"@) is Ok {
        assert((answers + more).skip(1) =~= answers.skip(1) + more);
        law_refusal_ends_a_push(count, answers.skip(1), more);
    }
}

/// Goes on with pushing refs, one after the other. `answers` holds the responses
/// so far.
pub fn push_step(names: &[String], answers: &[ClientResponse]) -> (r: PushStep)
    ensures
        r@ == pushing(names@.len() as int, replies(answers@)),
{
    if names.len() == 0 {
        return PushStep::UpToDate;
    }
    let ghost all = replies(answers@);
    let mut i: usize = 0;
    assert(all.skip(0) =~= all);
    while i < answers.len()
        invariant
            i <= answers@.len(),
            names@.len() > 0,
            all == replies(answers@),
            refusal(all) == refusal(all.skip(i as int)),
        decreases answers@.len() - i,
    {
        assert(all.skip(i as int)[0] == answers@[i as int]@);
        assert(all.skip(i as int).skip(1) =~= all.skip(i + 1));
        match client::check_ok(&answers[i], "push failed") {
            Ok(_) => {},
            Err(e) => {
                return PushStep::Failed(e);
            },
        }
        i = i + 1;
    }
    if answers.len() < names.len() {
        PushStep::Send(answers.len())
    } else {
        PushStep::Finished
    }
}

// ---------------------------------------------------------------------------
// Command lines
// ---------------------------------------------------------------------------

/// The commands of the program.
#[derive(Clone, Copy, PartialEq, Eq, Structural, Debug)]
pub enum Command {
    LsRemote,
    Clone,
    Push,
    Delete,
    Help,
    Serve,
}

/// The command that the first argument names. The service runs where it names
/// none.
pub open spec fn command_named(first: Option<Seq<char>>) -> Command {
    match first {
        Some(w) => if w == "ls-remote"@ {
            Command::LsRemote
        } else if w == "clone"@ {
            Command::Clone
        } else if w == "push"@ {
            Command::Push
        } else if w == "delete"@ {
            Command::Delete
        } else if w == "help"@ || w == "-h"@ || w == "--help"@ {
            Command::Help
        } else {
            Command::Serve
        },
        None => Command::Serve,
    }
}

/// The command that the first argument names.
pub fn command(first: Option<&str>) -> (r: Command)
    ensures
        r == command_named(gitutil::option_view(first)),
{
    match first {
        Some(w) => if text::same(w, "ls-remote") {
            Command::LsRemote
        } else if text::same(w, "clone") {
            Command::Clone
        } else if text::same(w, "push") {
            Command::Push
        } else if text::same(w, "delete") {
            Command::Delete
        } else if text::same(w, "help") || text::same(w, "-h") || text::same(w, "--help") {
            Command::Help
        } else {
            Command::Serve
        },
        None => Command::Serve,
    }
}

/// What the arguments of the service say.
pub enum ServerArgs {
    Help,
    /// Run, with this many seconds between announces if they are given.
    Run(Option<u64>),
}

/// Reading the arguments of the service, with an interval read so far. Help ends
/// the reading.
pub open spec fn server_args(args: Seq<Seq<char>>, interval: Option<u64>) -> Result<
    ServerArgs,
    Seq<char>,
>
    decreases args.len(),
{
    if args.len() == 0 {
        Ok(ServerArgs::Run(interval))
    } else if args[0] == "-b"@ || args[0] == "--announce"@ {
        if args.len() == 1 {
            Err("--announce needs a value"@)
        } else {
            match digits::unsigned(args[1], u64::MAX as nat) {
                Some(n) => server_args(args.skip(2), Some(n as u64)),
                None => Err("bad announce interval"@),
            }
        }
    } else if args[0] == "-h"@ || args[0] == "--help"@ {
        Ok(ServerArgs::Help)
    } else {
        Err("unrecognized argument: "@ + args[0])
    }
}

/// Reads the arguments of the service.
pub fn parse_server_args(args: &[String]) -> (r: Result<ServerArgs, String>)
    ensures
        match r {
            Ok(a) => server_args(text::views(args@), None) == Ok::<_, Seq<char>>(a),
            Err(e) => server_args(text::views(args@), None) == Err::<ServerArgs, _>(e@),
        },
{
    let ghost all = text::views(args@);
    let n: usize = args.len();
    let mut interval: Option<u64> = None;
    let mut i: usize = 0;
    assert(all.skip(0) =~= all);
    while i < n
        invariant
            i <= n == args@.len(),
            all == text::views(args@),
            server_args(all.skip(i as int), interval) == server_args(all, None),
        decreases n - i,
    {
        let ghost rest = all.skip(i as int);
        assert(rest[0] == args@[i as int]@);
        let a = args[i].as_str();
        if text::same(a, "-b") || text::same(a, "--announce") {
            if i + 1 == n {
                return Err("--announce needs a value".to_owned());
            }
            assert(rest[1] == args@[i + 1]@);
            assert(rest.skip(2) =~= all.skip(i + 2));
            match digits::parse_unsigned(args[i + 1].as_str(), u64::MAX) {
                Some(v) => {
                    interval = Some(v);
                },
                None => {
                    return Err("bad announce interval".to_owned());
                },
            }
            i = i + 2;
        } else if text::same(a, "-h") || text::same(a, "--help") {
            return Ok(ServerArgs::Help);
        } else {
            return Err(text::cat("unrecognized argument: ", a));
        }
    }
    assert(all.skip(i as int) =~= Seq::empty());
    Ok(ServerArgs::Run(interval))
}

/// An argument that asks for force.
pub open spec fn forces(a: Seq<char>) -> bool {
    a == "-f"@ || a == "--force"@
}

/// The arguments that do not ask for force.
pub open spec fn positional(args: Seq<Seq<char>>) -> Seq<Seq<char>>
    decreases args.len(),
{
    if args.len() == 0 {
        Seq::empty()
    } else if forces(args.last()) {
        positional(args.drop_last())
    } else {
        positional(args.drop_last()).push(args.last())
    }
}

/// How a push is called.
pub const PUSH_USAGE: &'static str =
    "usage: rngit push [--force] <dir> <rns://hash/group/repo>";

/// The arguments of a push: whether it is forced, the directory and the address.
/// Further ones do not matter.
pub open spec fn push_arguments(args: Seq<Seq<char>>) -> Result<
    (bool, Seq<char>, Seq<char>),
    Seq<char>,
> {
    let p = positional(args);
    if p.len() < 2 {
        Err(PUSH_USAGE@)
    } else {
        Ok((exists|i: int| 0 <= i < args.len() && forces(#[trigger] args[i]), p[0], p[1]))
    }
}

/// Reads the arguments of a push.
pub fn parse_push_args(args: &[String]) -> (r: Result<(bool, String, String), String>)
    ensures
        match r {
            Ok((f, d, u)) => push_arguments(text::views(args@)) == Ok::<_, Seq<char>>(
                (f, d@, u@),
            ),
            Err(e) => push_arguments(text::views(args@)) == Err::<
                (bool, Seq<char>, Seq<char>),
                _,
            >(e@),
        },
{
    let ghost all = text::views(args@);
    let mut force = false;
    let mut rest: Vec<String> = Vec::new();
    let mut i: usize = 0;
    assert(all.take(0) =~= Seq::<Seq<char>>::empty());
    assert(text::views(rest@) =~= Seq::empty());
    while i < args.len()
        invariant
            i <= args@.len(),
            all == text::views(args@),
            text::views(rest@) == positional(all.take(i as int)),
            force == (exists|j: int| 0 <= j < i && forces(#[trigger] all[j])),
        decreases args@.len() - i,
    {
        assert(all.take(i + 1).drop_last() =~= all.take(i as int));
        assert(all.take(i + 1).last() == args@[i as int]@);
        assert(all[i as int] == args@[i as int]@);
        let a = args[i].as_str();
        if text::same(a, "-f") || text::same(a, "--force") {
            assert(forces(all[i as int]));
            force = true;
        } else {
            let ghost before = text::views(rest@);
            rest.push(a.to_owned());
            assert(text::views(rest@) =~= before.push(a@));
        }
        i = i + 1;
    }
    assert(all.take(all.len() as int) =~= all);
    if rest.len() < 2 {
        return Err(PUSH_USAGE.to_owned());
    }
    assert(positional(all)[0] == rest@[0]@ && positional(all)[1] == rest@[1]@);
    Ok((force, rest[0].clone(), rest[1].clone()))
}


// ---------------------------------------------------------------------------
// Laws
// ---------------------------------------------------------------------------

proof fn lemma_two_entries(p: Seq<(Msg, Msg)>)
    requires
        p.len() >= 2,
        p[0].0 is Integer,
    ensures
        forall|key: Seq<char>|
            p[1].0 == Msg::Text(key) ==> #[trigger] msgpack::lookup(p, key) == Some(p[1].1),
        forall|key: Seq<char>|
            p[1].0 is Text && p[1].0 != Msg::Text(key) ==> #[trigger] msgpack::lookup(p, key)
                == msgpack::lookup(p.skip(2), key),
{
    assert(p.skip(1)[0] == p[1]);
    assert(p.skip(1).skip(1) =~= p.skip(2));
    reveal_with_fuel(msgpack::lookup, 3);
}

/// The server understands a request for the refs as the client meant it.
pub proof fn law_server_understands_listing(repo: Seq<char>, for_push: bool)
    ensures
        server::repository_in(list_data(repo, for_push)) == Some(repo),
        msgpack::flag_at(server::entries(list_data(repo, for_push)), "for_push"@) == for_push,
{
    lemma_two_entries(list_data(repo, for_push)->Pairs_0);
}

proof fn lemma_wanted(names: Seq<Seq<char>>)
    requires
        forall|i: int| 0 <= i < names.len() ==> gitutil::ref_ok(#[trigger] names[i]),
    ensures
        server::wanted_refs(Seq::new(names.len(), |i: int| ref_item(names[i]))) == Ok::<_, Seq<u8>>(
            Seq::new(names.len(), |i: int| (names[i], None::<Seq<char>>)),
        ),
    decreases names.len(),
{
    let refs = Seq::new(names.len(), |i: int| ref_item(names[i]));
    let want = Seq::new(names.len(), |i: int| (names[i], None::<Seq<char>>));
    if names.len() == 0 {
        assert(want =~= Seq::empty());
    } else {
        let fewer = names.drop_last();
        lemma_wanted(fewer);
        assert(refs.drop_last() =~= Seq::new(fewer.len(), |i: int| ref_item(fewer[i])));
        assert(want.drop_last() =~= Seq::new(fewer.len(), |i: int| (fewer[i], None::<Seq<char>>)));
        let p = ref_item(names.last())->Pairs_0;
        reveal_strlit("ref");
        reveal_strlit("have");
        assert("ref"@.len() != "have"@.len());
        assert(p.skip(1) =~= Seq::empty());
        reveal_with_fuel(msgpack::lookup, 2);
        assert(server::wanted_ref(refs.last()) == Ok::<_, Seq<u8>>(
            (names.last(), None::<Seq<char>>),
        ));
        assert(want =~= want.drop_last().push((names.last(), None)));
    }
}

proof fn lemma_had(haves: Seq<Seq<char>>)
    requires
        forall|i: int| 0 <= i < haves.len() ==> gitutil::sha_ok(#[trigger] haves[i]),
    ensures
        server::had_shas(Seq::new(haves.len(), |i: int| Msg::Text(haves[i]))) == Ok::<_, Seq<u8>>(
            haves,
        ),
    decreases haves.len(),
{
    let all = Seq::new(haves.len(), |i: int| Msg::Text(haves[i]));
    if haves.len() == 0 {
        assert(haves =~= Seq::empty());
    } else {
        let fewer = haves.drop_last();
        lemma_had(fewer);
        assert(all.drop_last() =~= Seq::new(fewer.len(), |i: int| Msg::Text(fewer[i])));
        assert(haves =~= fewer.push(haves.last()));
    }
}

/// The server understands a request to fetch as the client meant it, where it
/// accepts the names and objects in it.
pub proof fn law_server_understands_fetching(
    repo: Seq<char>,
    names: Seq<Seq<char>>,
    haves: Seq<Seq<char>>,
)
    requires
        forall|i: int| 0 <= i < names.len() ==> gitutil::ref_ok(#[trigger] names[i]),
        forall|i: int| 0 <= i < haves.len() ==> gitutil::sha_ok(#[trigger] haves[i]),
    ensures
        server::repository_in(fetch_data(repo, names, haves)) == Some(repo),
        server::fetch_plan(fetch_data(repo, names, haves)) == Ok::<_, Seq<u8>>(
            (Seq::new(names.len(), |i: int| (names[i], None::<Seq<char>>)), haves),
        ),
{
    let p = fetch_data(repo, names, haves)->Pairs_0;
    reveal_strlit("refs");
    reveal_strlit("have");
    assert("refs"@[0] != "have"@[0]);
    lemma_two_entries(p);
    lemma_wanted(names);
    lemma_had(haves);
    assert(p.skip(2)[0] == p[2]);
    assert(msgpack::lookup(p, "have"@) == Some(p[2].1));
}

/// The server understands a request to push as the client meant it: the bundle is
/// stored, and then applied to the ref, where it accepts the names of the refs.
pub proof fn law_server_understands_pushing(
    repo: Seq<char>,
    local: Seq<char>,
    remote: Seq<char>,
    force: bool,
    bundle: Seq<u8>,
    path: Seq<char>,
    done: Seq<gitutil::Outcome>,
)
    requires
        gitutil::ref_ok(local),
        gitutil::ref_ok(remote),
    ensures
        ({
            let data = push_data(repo, local, remote, force, bundle);
            &&& server::repository_in(data) == Some(repo)
            &&& server::push_work(data, path, BundleFile::Missing, done)
                == server::Act::WriteBundle(bundle)
            &&& match gitutil::apply_step(path, local, remote, force, done) {
                gitutil::Next::Run(a) => server::push_work(data, path, BundleFile::Stored, done)
                    == server::Act::Git(a),
                gitutil::Next::Done(Ok(_)) => server::push_work(
                    data,
                    path,
                    BundleFile::Stored,
                    done,
                ) == server::Act::Answer(seq![0u8]),
                gitutil::Next::Done(Err(_)) => server::push_work(
                    data,
                    path,
                    BundleFile::Stored,
                    done,
                ) == server::Act::Answer(
                    server::reply(transfer::RES_REMOTE_FAIL, "Could not verify bundle"@),
                ),
            }
        }),
{
    let p = push_data(repo, local, remote, force, bundle)->Pairs_0;
    reveal_strlit("local_ref");
    reveal_strlit("remote_ref");
    reveal_strlit("force");
    reveal_strlit("bundle");
    assert("local_ref"@.len() == 9 && "remote_ref"@.len() == 10 && "force"@.len() == 5
        && "bundle"@.len() == 6);
    lemma_two_entries(p);
    let q = p.skip(2);
    let r = q.skip(1);
    let s = r.skip(1);
    assert(q[0] == p[2] && r[0] == p[3] && s[0] == p[4]);
    assert(p[2].0 == Msg::Text("remote_ref"@) && p[3].0 == Msg::Text("force"@) && p[4].0
        == Msg::Text("bundle"@));
    reveal_with_fuel(msgpack::lookup, 4);
    assert(msgpack::lookup(p, "remote_ref"@) == Some(p[2].1));
    assert(msgpack::lookup(q, "force"@) == Some(p[3].1));
    assert(msgpack::lookup(p, "force"@) == Some(p[3].1));
    assert(msgpack::lookup(q, "bundle"@) == Some(p[4].1));
    assert(msgpack::lookup(p, "bundle"@) == Some(p[4].1));
}

/// The server understands a request to delete a ref as the client meant it.
pub proof fn law_server_understands_deleting(repo: Seq<char>, name: Seq<char>)
    ensures
        server::repository_in(delete_data(repo, name)) == Some(repo),
        msgpack::text_at(server::entries(delete_data(repo, name)), "ref"@) == Some(name),
{
    lemma_two_entries(delete_data(repo, name)->Pairs_0);
}

/// Lines as a server lists refs: a name after the first space, no white space
/// around them, and no `@` at their start.
pub open spec fn ref_lines(lines: Seq<Seq<char>>) -> bool {
    forall|i: int|
        0 <= i < lines.len() ==> {
            let l = #[trigger] lines[i];
            &&& l.len() > 0
            &&& !text::white(l[0])
            &&& !text::white(l.last())
            &&& l[0] != '@'
            &&& !l.contains('\n')
            &&& text::halves(l, ' ') is Some
        }
}

proof fn lemma_listed_lines(rows: Seq<Seq<char>>)
    requires
        forall|i: int| 0 <= i < rows.len() ==> !(#[trigger] rows[i]).contains('\n'),
        forall|i: int|
            0 <= i < rows.len() ==> !text::begins(text::trimmed(#[trigger] rows[i]), "@"@),
    ensures
        ref_lines(gitutil::distinct_lines(rows)),
    decreases rows.len(),
{
    if rows.len() > 0 {
        let fewer = rows.drop_last();
        assert forall|i: int| 0 <= i < fewer.len() implies !(#[trigger] fewer[i]).contains('\n')
            && !text::begins(text::trimmed(fewer[i]), "@"@) by {
            assert(fewer[i] == rows[i]);
        }
        lemma_listed_lines(fewer);
        let last = rows[rows.len() - 1];
        let t = text::trimmed(last);
        text::lemma_trimmed(last);
        text::lemma_first_of(t, ' ');
        reveal_strlit("@");
        assert("@"@ =~= seq!['@']);
        if t.len() > 0 && t[0] == '@' {
            assert(t.take(1) =~= "@"@);
            assert(text::begins(t, "@"@));
        }
        if t.contains('\n') {
            let j = choose|j: int| 0 <= j < t.len() && t[j] == '\n';
            let (a, b) = choose|a: int, b: int|
                0 <= a <= b <= last.len() && t == #[trigger] last.subrange(a, b);
            assert(last[a + j] == '\n');
        }
    }
}

/// What a server lists of git's output holds each ref on a line of its own, where
/// no line of the output starts with `@`.
pub proof fn law_server_lists_lines(out: Seq<char>)
    requires
        forall|i: int|
            0 <= i < text::rows(out).len() ==> !text::begins(
                text::trimmed(#[trigger] text::rows(out)[i]),
                "@"@,
            ),
    ensures
        ref_lines(gitutil::distinct_lines(text::rows(out))),
{
    text::lemma_rows_are_lines(out);
    lemma_listed_lines(text::rows(out));
}

/// The lines of a listing are those that went into it.
pub proof fn lemma_listing_rows(lines: Seq<Seq<char>>, rest: Seq<char>)
    requires
        ref_lines(lines),
    ensures
        text::rows(gitutil::terminated(lines) + rest) == lines + text::rows(rest),
    decreases lines.len(),
{
    if lines.len() == 0 {
        assert(gitutil::terminated(lines) + rest =~= rest);
        assert(lines + text::rows(rest) =~= text::rows(rest));
    } else {
        let fewer = lines.drop_last();
        let l = lines[lines.len() - 1];
        assert forall|i: int| 0 <= i < fewer.len() implies #[trigger] fewer[i] == lines[i] by {}
        assert(ref_lines(fewer));
        let more = l + seq!['\n'] + rest;
        lemma_listing_rows(fewer, more);
        assert(gitutil::terminated(lines) + rest =~= gitutil::terminated(fewer) + more);
        assert(!text::white(l.last()));
        text::lemma_first_row(l, rest);
        assert(fewer + (seq![l] + text::rows(rest)) =~= lines + text::rows(rest));
    }
}

proof fn lemma_remote_lines(lines: Seq<Seq<char>>)
    requires
        ref_lines(lines),
    ensures
        remote_in(lines) == (Remote {
            refs: Seq::new(lines.len(), |i: int| text::halves(lines[i], ' ')->0),
            head: None,
        }),
    decreases lines.len(),
{
    let want = Seq::new(lines.len(), |i: int| text::halves(lines[i], ' ')->0);
    if lines.len() == 0 {
        assert(want =~= Seq::empty());
    } else {
        let fewer = lines.drop_last();
        let l = lines[lines.len() - 1];
        assert forall|i: int| 0 <= i < fewer.len() implies #[trigger] fewer[i] == lines[i] by {}
        assert(ref_lines(fewer));
        lemma_remote_lines(fewer);
        text::lemma_trimmed_already(l);
        reveal_strlit("@");
        assert(l.take(1)[0] != "@"@[0]);
        assert(!text::begins(l, "@"@));
        assert(want =~= Seq::new(fewer.len(), |i: int| text::halves(fewer[i], ' ')->0).push(
            text::halves(l, ' ')->0,
        ));
    }
}

/// The lines of a whole listing: those of the refs, and one for `HEAD`.
pub proof fn lemma_whole_listing(lines: Seq<Seq<char>>, head: Seq<char>)
    requires
        ref_lines(lines),
        !head.contains('\n'),
    ensures
        text::rows(gitutil::terminated(lines) + "@"@ + head + " HEAD\n"@) == lines + seq![
            "@"@ + head + " HEAD"@,
        ],
{
    reveal_strlit("@");
    reveal_strlit(" HEAD\n");
    reveal_strlit(" HEAD");
    let last = "@"@ + head + " HEAD"@;
    let rest = last + seq!['\n'] + Seq::<char>::empty();
    let whole = gitutil::terminated(lines) + "@"@ + head + " HEAD\n"@;
    assert(whole =~= gitutil::terminated(lines) + rest);
    lemma_listing_rows(lines, rest);
    assert forall|j: int| 0 <= j < last.len() implies last[j] != '\n' by {
        if 1 <= j < 1 + head.len() {
            assert(last[j] == head[j - 1]);
        }
    }
    assert(last.last() == 'D');
    text::lemma_first_row(last, Seq::empty());
    assert(seq![last] + text::rows(Seq::empty()) =~= seq![last]);
    let all = lines + seq![last];
    assert(text::rows(whole) == all);
}

/// The client reads the listing of a server as the server meant it: the refs in
/// their order, each with its object, and the ref that `HEAD` points to.
pub proof fn law_client_reads_the_listing(lines: Seq<Seq<char>>, head: Seq<char>)
    requires
        ref_lines(lines),
        !head.contains('\n'),
    ensures
        remote_in(text::rows(gitutil::terminated(lines) + "@"@ + head + " HEAD\n"@)) == (Remote {
            refs: Seq::new(lines.len(), |i: int| text::halves(lines[i], ' ')->0),
            head: Some(head),
        }),
{
    lemma_whole_listing(lines, head);
    reveal_strlit("@");
    reveal_strlit(" HEAD");
    let last = "@"@ + head + " HEAD"@;
    let all = lines + seq![last];
    assert(all.drop_last() =~= lines);
    assert(all[all.len() - 1] == last);
    lemma_remote_lines(lines);
    assert(last[0] == '@');
    text::lemma_trimmed_already(last);
    assert(last.take(1) =~= "@"@);
    let tail = last.skip(1);
    assert(tail =~= head + " HEAD"@);
    assert(tail.skip(tail.len() - 5) =~= " HEAD"@);
    assert(tail.take(tail.len() - 5) =~= head);
}

} // verus!
