//! What the git service comes to for a peer: which git commands are run for a
//! request before it is answered as done, and who gets that far.

use vstd::prelude::*;

use crate::client;
use crate::client::Reply;
use crate::digits;
use crate::git_laws;
use crate::gitutil;
use crate::gitutil::Outcome;
use crate::hash;
use crate::msgpack;
use crate::msgpack::Msg;
use crate::perms;
use crate::perms::{Perm, Who};
use crate::rngit_config::Cfg;
use crate::server;
use crate::server::{Act, BundleFile, Doing, Facts, LinkState, PacketKind, Route};
use crate::text;
use crate::transfer;

verus! {

// ---------------------------------------------------------------------------
// Requests
// ---------------------------------------------------------------------------

/// The request data names a repository of a group.
pub open spec fn names(data: Msg, group: Seq<char>, repo: Seq<char>) -> bool {
    &&& data matches Msg::Pairs(p) && msgpack::lookup_int(p, 0) == Some(
        Msg::Text(group + "/"@ + repo),
    )
    &&& group.len() > 0 && !group.contains('/')
    &&& repo.len() > 0 && !repo.contains('/')
    &&& vstd::utf8::encode_utf8(group).len() <= 256
    &&& vstd::utf8::encode_utf8(repo).len() <= 256
}

/// The path of a repository is its group, a slash and its name.
pub proof fn law_repository_path_has_two_names(group: Seq<char>, repo: Seq<char>)
    requires
        group.len() > 0 && !group.contains('/'),
        repo.len() > 0 && !repo.contains('/'),
        vstd::utf8::encode_utf8(group).len() <= 256,
        vstd::utf8::encode_utf8(repo).len() <= 256,
    ensures
        gitutil::repository_path(group + "/"@ + repo) == Some((group, repo)),
{
    let path = group + "/"@ + repo;
    reveal_strlit("/");
    assert(path[group.len() as int] == '/');
    assert forall|j: int| 0 <= j < group.len() implies path[j] != '/' by {
        assert(path[j] == group[j]);
        assert(group.contains(group[j]));
    }
    text::lemma_first_is(path, '/', group.len() as int);
    assert(path.take(group.len() as int) =~= group);
    assert(path.skip(group.len() as int + 1) =~= repo);
}

/// A repository path of one name, or of more than two, is none, and neither is one with
/// an empty name.
pub proof fn law_other_paths_name_no_repository(path: Seq<char>)
    ensures
        !path.contains('/') ==> gitutil::repository_path(path) is None,
        gitutil::repository_path(path) matches Some((group, repo)) ==> path == group + "/"@ + repo
            && group.len() > 0 && repo.len() > 0 && !group.contains('/') && !repo.contains('/'),
{
    text::lemma_first_of(path, '/');
    reveal_strlit("/");
    match text::first_of(path, '/') {
        Some(i) => {
            assert(path.contains(path[i]));
            assert(path =~= path.take(i) + "/"@ + path.skip(i + 1));
            assert forall|j: int| 0 <= j < path.take(i).len() implies path.take(i)[j] != '/' by {
                assert(path.take(i)[j] == path[j]);
            }
        },
        None => {},
    }
}

proof fn lemma_enters(
    cfg: Cfg,
    peer: Vec<u8>,
    data: Msg,
    facts: Option<Facts>,
    group: Seq<char>,
    repo: Seq<char>,
)
    requires
        names(data, group, repo),
        cfg.repositories@.contains_key(group),
    ensures
        server::gate(cfg, Some(peer), data, facts) == match facts {
            None => server::Gate::Closed(Act::Inspect(cfg.repositories@[group]@, repo)),
            Some(f) => server::Gate::Open(peer@, group, f),
        },
        server::repository_in(data) == Some(group + "/"@ + repo),
        gitutil::repository_path(group + "/"@ + repo) == Some((group, repo)),
{
    law_repository_path_has_two_names(group, repo);
}

/// Every request of a peer that is identified, for a repository of a group that is
/// served, has the service look at that repository in the directory of the group.
pub proof fn law_requests_look_at_their_repository(
    cfg: Cfg,
    peer: Vec<u8>,
    data: Msg,
    bundle: Seq<char>,
    stored: BundleFile,
    done: Seq<Outcome>,
    made: Seq<Option<String>>,
    group: Seq<char>,
    repo: Seq<char>,
)
    requires
        names(data, group, repo),
        cfg.repositories@.contains_key(group),
    ensures
        server::list_act(cfg, Some(peer), data, None, done) == Act::Inspect(
            cfg.repositories@[group]@,
            repo,
        ),
        server::fetch_act(cfg, Some(peer), data, None, bundle, done) == Act::Inspect(
            cfg.repositories@[group]@,
            repo,
        ),
        server::push_act(cfg, Some(peer), data, None, bundle, stored, done) == Act::Inspect(
            cfg.repositories@[group]@,
            repo,
        ),
        server::delete_act(cfg, Some(peer), data, None, done) == Act::Inspect(
            cfg.repositories@[group]@,
            repo,
        ),
        server::create_act(cfg, Some(peer), data, None, made) == Act::Inspect(
            cfg.repositories@[group]@,
            repo,
        ),
{
    lemma_enters(cfg, peer, data, None, group, repo);
}

/// A repository of a group that is not served is not found.
pub proof fn law_unknown_group_is_not_found(
    cfg: Cfg,
    peer: Vec<u8>,
    data: Msg,
    facts: Option<Facts>,
    bundle: Seq<char>,
    stored: BundleFile,
    done: Seq<Outcome>,
    made: Seq<Option<String>>,
    group: Seq<char>,
    repo: Seq<char>,
)
    requires
        names(data, group, repo),
        !cfg.repositories@.contains_key(group),
    ensures
        ({
            let none = Act::Answer(seq![0x03u8] + vstd::utf8::encode_utf8("Not found"@));
            &&& server::list_act(cfg, Some(peer), data, facts, done) == none
            &&& server::fetch_act(cfg, Some(peer), data, facts, bundle, done) == none
            &&& server::push_act(cfg, Some(peer), data, facts, bundle, stored, done) == none
            &&& server::delete_act(cfg, Some(peer), data, facts, done) == none
            &&& server::create_act(cfg, Some(peer), data, facts, made) == none
        }),
{
    law_repository_path_has_two_names(group, repo);
}

/// An answer is a code and a text. The codes: zero where all went well, one for what is
/// not allowed, two for a request that makes no sense, three for what is not there, and
/// 255 where the service failed.
pub proof fn law_answers_have_codes(message: Seq<char>, code: u8)
    ensures
        server::reply(code, message) == seq![code] + vstd::utf8::encode_utf8(message),
        server::reply_not_identified()[0] == 1,
        server::reply_invalid()[0] == 2,
        server::reply_bad_sha()[0] == 2,
        server::reply_no_push()[0] == 2,
        server::reply_not_found()[0] == 3,
        transfer::RES_OK == 0,
        transfer::RES_DISALLOWED == 1,
        transfer::RES_INVALID_REQ == 2,
        transfer::RES_NOT_FOUND == 3,
        transfer::RES_REMOTE_FAIL == 255,
{
}

// ---------------------------------------------------------------------------
// Access
// ---------------------------------------------------------------------------

/// An identity is blocked whose hash stands among the blocked ones in hexadecimal
/// digits; where nobody is blocked, no identity is.
pub proof fn law_listed_identities_are_blocked(cfg: Cfg, peer: Seq<u8>, i: int)
    ensures
        0 <= i < cfg.blocked_identities@.len() && cfg.blocked_identities@[i]@ == digits::hex_text(
            peer,
        ) ==> server::blocked(cfg, peer),
        cfg.blocked_identities@.len() == 0 ==> !server::blocked(cfg, peer),
{
    if 0 <= i < cfg.blocked_identities@.len() && cfg.blocked_identities@[i]@ == digits::hex_text(
        peer,
    ) {
        assert(text::alike(cfg.blocked_identities@[i]@, digits::hex_text(peer)));
    }
}

/// The access file of a repository decides who may do what with it, where neither the
/// identity is blocked nor a directory is missing.
pub proof fn law_access_file_decides(
    cfg: Cfg,
    peer: Seq<u8>,
    group: Seq<char>,
    facts: Facts,
    perm: Perm,
    file: Seq<char>,
)
    requires
        facts.repo_allowed matches Some(c) && c@ == file,
    ensures
        ({
            let list = perms::granted(text::rows(file), cfg.aliases@).list(perm);
            let admins = perms::granted(text::rows(file), cfg.aliases@).admin;
            let there = !server::blocked(cfg, peer) && facts.group_is_dir && facts.repo_is_dir;
            &&& there && !list.contains(Who::Nobody) && (list.contains(Who::All) || list.contains(
                Who::Identity(peer),
            ) || admins.contains(Who::Identity(peer))) ==> server::may(cfg, peer, group, facts, perm)
            &&& list.contains(Who::Nobody) ==> !server::may(cfg, peer, group, facts, perm)
            &&& list.len() > 0 && !list.contains(Who::All) && !list.contains(Who::Identity(peer))
                && !admins.contains(Who::Identity(peer)) ==> !server::may(
                cfg,
                peer,
                group,
                facts,
                perm,
            )
            &&& !there ==> !server::may(cfg, peer, group, facts, perm)
        }),
{
}

/// Where a repository has no access file, its group decides: the access file of the
/// group and the entries that are configured for it.
pub proof fn law_group_decides_without_an_access_file(
    cfg: Cfg,
    peer: Seq<u8>,
    group: Seq<char>,
    facts: Facts,
    perm: Perm,
)
    requires
        facts.repo_allowed is None,
    ensures
        ({
            let lists = server::group_lists(cfg, group, facts);
            let list = lists.list(perm);
            let there = !server::blocked(cfg, peer) && facts.group_is_dir && facts.repo_is_dir;
            server::may(cfg, peer, group, facts, perm) <==> there && !list.contains(Who::Nobody) && (
            list.contains(Who::All) || list.contains(Who::Identity(peer)) || lists.admin.contains(
                Who::Identity(peer),
            ))
        }),
{
    perms::law_group_decides_by_default(server::group_lists(cfg, group, facts), peer, perm);
    perms::law_group_grants_what_it_lists(server::group_lists(cfg, group, facts), peer, perm);
}

/// Whether a line of access entries speaks of a target for a kind of access.
pub open spec fn speaks(
    line: Seq<char>,
    aliases: Map<Seq<char>, String>,
    perm: Perm,
    who: Who,
) -> bool {
    &&& text::trimmed(line).len() > 0 && text::trimmed(line)[0] != '#'
    &&& perms::entry(text::trimmed(line), aliases) matches Some((q, w)) && w == who && (q == perm
        || (q == Perm::ReadWrite && (perm == Perm::Read || perm == Perm::Write)) || (perm
        == Perm::ReadWrite && q == Perm::Read))
}

/// A target is in the list of a kind of access exactly if a line of the access entries
/// speaks of it, wherever that line stands.
pub proof fn law_lists_hold_what_the_lines_say(
    lines: Seq<Seq<char>>,
    aliases: Map<Seq<char>, String>,
    perm: Perm,
    who: Who,
)
    ensures
        perms::granted(lines, aliases).list(perm).contains(who) <==> exists|i: int|
            0 <= i < lines.len() && #[trigger] speaks(lines[i], aliases, perm, who),
    decreases lines.len(),
{
    if lines.len() == 0 {
        assert(!Seq::<Who>::empty().contains(who));
    } else {
        let fewer = lines.drop_last();
        let line = lines.last();
        law_lists_hold_what_the_lines_say(fewer, aliases, perm, who);
        let before = perms::granted(fewer, aliases).list(perm);
        let now = perms::granted(lines, aliases).list(perm);
        assert(line == lines[lines.len() - 1]);
        if speaks(line, aliases, perm, who) {
            if !before.contains(who) {
                assert(now == before.push(who));
                assert(now[before.len() as int] == who);
            }
            assert(speaks(lines[lines.len() - 1], aliases, perm, who));
        } else {
            match perms::entry(text::trimmed(line), aliases) {
                Some((q, w)) => {
                    assert(now == before || now == perms::joined(before, w));
                    if w != who {
                        if before.push(w).contains(who) {
                            let j = choose|j: int|
                                0 <= j < before.push(w).len() && before.push(w)[j] == who;
                            assert(before[j] == who);
                        }
                        if before.contains(who) {
                            let j = choose|j: int| 0 <= j < before.len() && before[j] == who;
                            assert(before.push(w)[j] == who);
                        }
                    } else {
                        assert(now == before);
                    }
                },
                None => {},
            }
            assert(now.contains(who) == before.contains(who));
            if before.contains(who) {
                let i = choose|i: int|
                    0 <= i < fewer.len() && #[trigger] speaks(fewer[i], aliases, perm, who);
                assert(speaks(lines[i], aliases, perm, who));
            }
            if exists|i: int| 0 <= i < lines.len() && #[trigger] speaks(lines[i], aliases, perm, who) {
                let i = choose|i: int|
                    0 <= i < lines.len() && #[trigger] speaks(lines[i], aliases, perm, who);
                assert(i < fewer.len());
                assert(speaks(fewer[i], aliases, perm, who));
            }
        }
    }
}

/// The entries of a group are the lines of its access file and, behind them, each entry
/// that is configured for it, on a line of its own.
pub proof fn law_group_has_its_file_and_its_entries(cfg: Cfg, group: Seq<char>, facts: Facts)
    ensures
        facts.group_allowed is None && !cfg.access@.contains_key(group) ==> server::group_text(
            cfg,
            group,
            facts,
        ).len() == 0,
        facts.group_allowed matches Some(c) ==> !cfg.access@.contains_key(group)
            ==> server::group_text(cfg, group, facts) == c@ + "\n"@,
        facts.group_allowed is None && cfg.access@.contains_key(group) ==> server::group_text(
            cfg,
            group,
            facts,
        ) == gitutil::terminated(text::views(cfg.access@[group]@)),
        facts.group_allowed matches Some(c) ==> cfg.access@.contains_key(group)
            ==> server::group_text(cfg, group, facts) == c@ + "\n"@ + gitutil::terminated(
            text::views(cfg.access@[group]@),
        ),
{
    if facts.group_allowed is None && cfg.access@.contains_key(group) {
        assert(server::group_text(cfg, group, facts) =~= gitutil::terminated(
            text::views(cfg.access@[group]@),
        ));
    }
}

// ---------------------------------------------------------------------------
// Listing
// ---------------------------------------------------------------------------

/// A peer that may read a repository gets the refs that git lists for it, behind the
/// mark of success; for a push it needs write access instead.
pub proof fn law_readers_get_the_refs(
    cfg: Cfg,
    peer: Vec<u8>,
    data: Msg,
    facts: Facts,
    group: Seq<char>,
    repo: Seq<char>,
    listed: Outcome,
)
    requires
        names(data, group, repo),
        cfg.repositories@.contains_key(group),
        server::may(
            cfg,
            peer@,
            group,
            facts,
            if msgpack::flag_at(data->Pairs_0, "for_push"@) {
                Perm::Write
            } else {
                Perm::Read
            },
        ),
    ensures
        server::list_act(cfg, Some(peer), data, Some(facts), Seq::empty()) == Act::Git(
            seq!["for-each-ref"@, "--format"@, "%(objectname) %(refname)"@],
        ),
        listed matches Outcome::Exited { success, stdout, .. } ==> success ==> server::list_act(
            cfg,
            Some(peer),
            data,
            Some(facts),
            seq![listed],
        ) == Act::Answer(
            seq![0u8] + vstd::utf8::encode_utf8(
                gitutil::listing(stdout, gitutil::bytes_view(facts.head)),
            ),
        ),
        !(listed matches Outcome::Exited { success, .. } && success) ==> ({
            let a = server::list_act(cfg, Some(peer), data, Some(facts), seq![listed]);
            a matches Act::Answer(b) && b.len() > 0 && b[0] == 255
        }),
{
    lemma_enters(cfg, peer, data, Some(facts), group, repo);
}

/// A peer that may not write to a repository gets no listing for a push.
pub proof fn law_listing_for_a_push_needs_write_access(
    cfg: Cfg,
    peer: Vec<u8>,
    data: Msg,
    facts: Facts,
    group: Seq<char>,
    repo: Seq<char>,
    done: Seq<Outcome>,
)
    requires
        names(data, group, repo),
        cfg.repositories@.contains_key(group),
        msgpack::flag_at(data->Pairs_0, "for_push"@),
        !server::may(cfg, peer@, group, facts, Perm::Write),
    ensures
        ({
            let a = server::list_act(cfg, Some(peer), data, Some(facts), done);
            a matches Act::Answer(b) && b.len() > 0 && b[0] == 3
        }),
{
    lemma_enters(cfg, peer, data, Some(facts), group, repo);
}

// ---------------------------------------------------------------------------
// Fetching
// ---------------------------------------------------------------------------

/// For a peer that may read a repository, a request to fetch runs what making a bundle
/// of the refs that it asks for runs; the bundle is sent once it is made, and an empty
/// answer where there is nothing to send.
pub proof fn law_readers_get_a_bundle(
    cfg: Cfg,
    peer: Vec<u8>,
    data: Msg,
    facts: Facts,
    group: Seq<char>,
    repo: Seq<char>,
    bundle: Seq<char>,
    done: Seq<Outcome>,
    refs: Seq<(Seq<char>, Option<Seq<char>>)>,
    haves: Seq<Seq<char>>,
)
    requires
        names(data, group, repo),
        cfg.repositories@.contains_key(group),
        server::may(cfg, peer@, group, facts, Perm::Read),
        server::fetch_plan(data) == Ok::<_, Seq<u8>>((refs, haves)),
    ensures
        ({
            let a = server::fetch_act(cfg, Some(peer), data, Some(facts), bundle, done);
            match gitutil::fetch_refs(refs, haves, gitutil::bundle_create(bundle), false, done) {
                gitutil::Next::Run(command) => a == Act::Git(command),
                gitutil::Next::Done(Ok(Some(_))) => a is SendBundle,
                gitutil::Next::Done(Ok(None)) => a == Act::Answer(seq![0u8]),
                gitutil::Next::Done(Err(_)) => a matches Act::Answer(b) && b.len() > 0 && b[0]
                    == 255,
            }
        }),
{
    lemma_enters(cfg, peer, data, Some(facts), group, repo);
}

/// A bundle is sent only to a peer that may read the repository.
pub proof fn law_bundles_go_to_readers(
    cfg: Cfg,
    peer: Option<Vec<u8>>,
    data: Msg,
    facts: Option<Facts>,
    bundle: Seq<char>,
    done: Seq<Outcome>,
)
    requires
        ({
            let a = server::fetch_act(cfg, peer, data, facts, bundle, done);
            a is SendBundle || a is Git
        }),
    ensures
        server::gate(cfg, peer, data, facts) matches server::Gate::Open(p, group, f)
            && server::may(cfg, p, group, f, Perm::Read),
        peer is Some && facts is Some,
{
}

/// The refs of a request to fetch are those that it names, all of them and in their
/// order, each with the object that the client has of it.
pub proof fn law_fetch_asks_for_every_ref(items: Seq<Msg>, i: int)
    requires
        server::wanted_refs(items) is Ok,
        0 <= i < items.len(),
    ensures
        ({
            let refs = server::wanted_refs(items)->Ok_0;
            &&& refs.len() == items.len()
            &&& items[i] is Pairs
            &&& msgpack::lookup(items[i]->Pairs_0, "ref"@) == Some(Msg::Text(refs[i].0))
            &&& gitutil::ref_ok(refs[i].0)
            &&& refs[i].1 matches Some(sha) ==> msgpack::lookup(items[i]->Pairs_0, "have"@) == Some(
                Msg::Text(sha),
            ) && gitutil::sha_ok(sha)
            &&& refs[i].1 is None ==> !(msgpack::lookup(
                items[i]->Pairs_0,
                "have"@,
            ) matches Some(Msg::Text(_)))
        }),
    decreases items.len(),
{
    let fewer = items.drop_last();
    if i < fewer.len() {
        law_fetch_asks_for_every_ref(fewer, i);
        assert(fewer[i] == items[i]);
    } else {
        lemma_wanted_count(items);
    }
    lemma_wanted_count(items);
}

proof fn lemma_wanted_count(items: Seq<Msg>)
    requires
        server::wanted_refs(items) is Ok,
    ensures
        server::wanted_refs(items)->Ok_0.len() == items.len(),
    decreases items.len(),
{
    if items.len() > 0 {
        lemma_wanted_count(items.drop_last());
    }
}

/// The objects that a request to fetch says the client has are all taken over.
pub proof fn law_fetch_knows_every_object(items: Seq<Msg>, i: int)
    requires
        server::had_shas(items) is Ok,
        0 <= i < items.len(),
    ensures
        server::had_shas(items)->Ok_0.len() == items.len(),
        items[i] == Msg::Text(server::had_shas(items)->Ok_0[i]),
        gitutil::sha_ok(server::had_shas(items)->Ok_0[i]),
    decreases items.len(),
{
    let fewer = items.drop_last();
    lemma_had_count(items);
    if i < fewer.len() {
        law_fetch_knows_every_object(fewer, i);
        assert(fewer[i] == items[i]);
    }
}

proof fn lemma_had_count(items: Seq<Msg>)
    requires
        server::had_shas(items) is Ok,
    ensures
        server::had_shas(items)->Ok_0.len() == items.len(),
    decreases items.len(),
{
    if items.len() > 0 {
        lemma_had_count(items.drop_last());
    }
}

// ---------------------------------------------------------------------------
// Pushing
// ---------------------------------------------------------------------------

/// A push of a bundle between two refs.
pub open spec fn pushes(
    data: Msg,
    bundle: Seq<u8>,
    local: Seq<char>,
    remote: Seq<char>,
) -> bool {
    &&& data is Pairs
    &&& msgpack::lookup(data->Pairs_0, "bundle"@) == Some(Msg::Binary(bundle))
    &&& msgpack::lookup(data->Pairs_0, "local_ref"@) == Some(Msg::Text(local))
    &&& msgpack::lookup(data->Pairs_0, "remote_ref"@) == Some(Msg::Text(remote))
}

/// A push that is answered as done was applied: its bundle was stored and verified, and
/// git then fetched the pushed ref from it into the ref of the repository, forced
/// exactly where the request says so, and succeeded.
pub proof fn law_pushed_means_applied(
    cfg: Cfg,
    peer: Vec<u8>,
    data: Msg,
    facts: Facts,
    file: Seq<char>,
    stored: BundleFile,
    done: Seq<Outcome>,
    bundle: Seq<u8>,
    local: Seq<char>,
    remote: Seq<char>,
)
    requires
        pushes(data, bundle, local, remote),
        server::push_act(cfg, Some(peer), data, Some(facts), file, stored, done) == Act::Answer(
            seq![0u8],
        ),
    ensures
        stored == BundleFile::Stored,
        server::push_act(
            cfg,
            Some(peer),
            data,
            Some(facts),
            file,
            BundleFile::Missing,
            Seq::empty(),
        ) == Act::WriteBundle(bundle),
        done.len() >= 2,
        done[0] matches Outcome::Exited { success, .. } && success,
        done[1] matches Outcome::Exited { success, .. } && success,
        server::push_act(cfg, Some(peer), data, Some(facts), file, stored, done.take(0))
            == Act::Git(seq!["bundle"@, "verify"@, file]),
        server::push_act(cfg, Some(peer), data, Some(facts), file, stored, done.take(1))
            == Act::Git(
            if msgpack::flag_at(data->Pairs_0, "force"@) {
                seq!["fetch"@, file, local + ":"@ + remote, "--force"@]
            } else {
                seq!["fetch"@, file, local + ":"@ + remote]
            },
        ),
{
    lemma_not_done(0x01, "Not identified"@);
    lemma_not_done(0x02, "Invalid request"@);
    lemma_not_done(0x03, "Not found"@);
    lemma_not_done(0x01, "Not allowed"@);
    lemma_not_done(0xFF, "Could not verify bundle"@);
    git_laws::law_applied_push_was_fetched(
        file,
        local,
        remote,
        msgpack::flag_at(data->Pairs_0, "force"@),
        done,
    );
}

proof fn lemma_not_done(code: u8, message: Seq<char>)
    requires
        code != 0,
    ensures
        server::reply(code, message) != seq![0u8],
{
    assert(server::reply(code, message)[0] == code);
    assert(seq![0u8][0] == 0);
}

/// For a peer that may write to a repository, a push of a bundle between two refs that
/// are accepted is stored, verified and applied, and answered as done if git succeeds.
pub proof fn law_writers_can_push(
    cfg: Cfg,
    peer: Vec<u8>,
    data: Msg,
    facts: Facts,
    group: Seq<char>,
    repo: Seq<char>,
    file: Seq<char>,
    bundle: Seq<u8>,
    local: Seq<char>,
    remote: Seq<char>,
    verified: Outcome,
    fetched: Outcome,
)
    requires
        names(data, group, repo),
        cfg.repositories@.contains_key(group),
        server::may(cfg, peer@, group, facts, Perm::Write),
        pushes(data, bundle, local, remote),
        gitutil::ref_ok(local),
        gitutil::ref_ok(remote),
        verified matches Outcome::Exited { success, .. } && success,
        fetched matches Outcome::Exited { success, .. } && success,
    ensures
        server::push_act(
            cfg,
            Some(peer),
            data,
            Some(facts),
            file,
            BundleFile::Missing,
            Seq::empty(),
        ) == Act::WriteBundle(bundle),
        server::push_act(
            cfg,
            Some(peer),
            data,
            Some(facts),
            file,
            BundleFile::Stored,
            seq![verified, fetched],
        ) == Act::Answer(seq![0u8]),
        ({
            let a = server::push_act(
                cfg,
                Some(peer),
                data,
                Some(facts),
                file,
                BundleFile::Failed,
                Seq::empty(),
            );
            a matches Act::Answer(b) && b.len() > 0 && b[0] == 255
        }),
{
    lemma_enters(cfg, peer, data, Some(facts), group, repo);
    git_laws::law_push_ends_as_git_does(
        file,
        local,
        remote,
        msgpack::flag_at(data->Pairs_0, "force"@),
        verified,
        fetched,
    );
}

/// A push by operations that is answered as done has carried out every one of them: git
/// was told to point its ref to its object, and succeeded, for each in its turn.
pub proof fn law_done_operations_were_carried_out(ops: Seq<Msg>, done: Seq<Outcome>, i: int)
    requires
        server::operations_act(ops, done) == Act::Answer(seq![0u8]),
        0 <= i < ops.len(),
    ensures
        done.len() >= 3 * i + 3,
        done[3 * i + 2] matches Outcome::Exited { success, .. } && success,
        ops[i] is Pairs,
        msgpack::lookup(ops[i]->Pairs_0, "action"@) == Some(Msg::Text("update_ref"@)),
        ({
            let name = msgpack::lookup(ops[i]->Pairs_0, "ref"@);
            let sha = msgpack::lookup(ops[i]->Pairs_0, "sha"@);
            &&& name is Some && name->0 is Text
            &&& sha is Some && sha->0 is Text
            &&& server::operations_act(ops, done.take(3 * i + 2)) == Act::Git(
                seq!["update-ref"@, name->0->Text_0, sha->0->Text_0],
            )
        }),
    decreases ops.len(),
{
    let first = server::operation(ops[0]);
    match first {
        Err(e) => {
            lemma_bad_operation(ops[0]);
        },
        Ok((name, sha, force)) => {
            reveal_strlit("update_ref");
            assert("update_ref"@.len() == 10);
            lemma_not_done(0xFF, "Could not update refs"@);
            git_laws::law_updated_ref_points_to_the_object(name, sha, force, done);
            if i > 0 {
                law_done_operations_were_carried_out(ops.skip(1), done.skip(3), i - 1);
                let k = 3 * i + 2;
                assert(done.skip(3)[3 * (i - 1) + 2] == done[k]);
                assert(done.take(k).skip(3) =~= done.skip(3).take(k - 3));
                assert(done.take(k)[0] == done[0]);
                assert(done.take(k)[1] == done[1]);
                assert(done.take(k)[2] == done[2]);
                assert(done.take(k).skip(2)[0] == done[2]);
                assert(done.skip(2)[0] == done[2]);
            }
        },
    }
}

proof fn lemma_bad_operation(m: Msg)
    requires
        server::operation(m) is Err,
    ensures
        server::operation(m)->Err_0 != seq![0u8],
{
    assert(server::operation(m)->Err_0[0] == 2);
    assert(seq![0u8][0] == 0);
}

/// A push by one operation needs nothing but git's consent to be done.
pub proof fn law_operation_can_be_done(
    m: Msg,
    name: Seq<char>,
    sha: Seq<char>,
    object: Outcome,
    old_value: Outcome,
    update: Outcome,
)
    requires
        m is Pairs,
        msgpack::lookup(m->Pairs_0, "action"@) == Some(Msg::Text("update_ref"@)),
        msgpack::lookup(m->Pairs_0, "ref"@) == Some(Msg::Text(name)),
        msgpack::lookup(m->Pairs_0, "sha"@) == Some(Msg::Text(sha)),
        gitutil::changeable(name),
        gitutil::sha_ok(sha),
        object matches Outcome::Exited { success, .. } && success,
        old_value matches Outcome::Exited { success, .. } && !success,
        update matches Outcome::Exited { success, .. } && success,
    ensures
        server::operations_act(seq![m], Seq::empty()) == Act::Git(seq!["cat-file"@, "-t"@, sha]),
        server::operations_act(seq![m], seq![object, old_value, update]) == Act::Answer(seq![0u8]),
{
    let force = msgpack::flag_at(m->Pairs_0, "force"@);
    git_laws::law_ref_can_be_updated(name, sha, force, object, old_value, update);
    assert(seq![m].skip(1) =~= Seq::empty());
    reveal_with_fuel(server::operations_act, 2);
}

// ---------------------------------------------------------------------------
// Deleting and creating
// ---------------------------------------------------------------------------

/// A deletion that is answered as done was made: git found the ref, and was then told to
/// delete that very ref, and did.
pub proof fn law_deleted_means_gone(
    cfg: Cfg,
    peer: Vec<u8>,
    data: Msg,
    facts: Facts,
    done: Seq<Outcome>,
)
    requires
        server::delete_act(cfg, Some(peer), data, Some(facts), done) == Act::Answer(seq![0u8]),
    ensures
        data is Pairs,
        msgpack::lookup(data->Pairs_0, "ref"@) is Some,
        msgpack::lookup(data->Pairs_0, "ref"@)->0 is Text,
        done.len() >= 2,
        done[0] matches Outcome::Exited { success, .. } && success,
        done[1] matches Outcome::Exited { success, .. } && success,
        ({
            let name = msgpack::lookup(data->Pairs_0, "ref"@)->0->Text_0;
            &&& server::delete_act(cfg, Some(peer), data, Some(facts), done.take(0)) == Act::Git(
                seq!["rev-parse"@, "--verify"@, "--quiet"@, name],
            )
            &&& server::delete_act(cfg, Some(peer), data, Some(facts), done.take(1)) == Act::Git(
                seq!["update-ref"@, "-d"@, name],
            )
        }),
{
    lemma_not_done(0x01, "Not identified"@);
    lemma_not_done(0x02, "Invalid request"@);
    lemma_not_done(0x03, "Not found"@);
    lemma_not_done(0x01, "Not allowed"@);
    lemma_not_done(0xFF, "Could not delete ref"@);
    let name = msgpack::text_at(server::entries(data), "ref"@)->0;
    git_laws::law_deletion_was_made(name, done);
}

/// A peer that may write to a repository can delete a ref of it that may be changed.
pub proof fn law_writers_can_delete(
    cfg: Cfg,
    peer: Vec<u8>,
    data: Msg,
    facts: Facts,
    group: Seq<char>,
    repo: Seq<char>,
    name: Seq<char>,
    test: Outcome,
    deletion: Outcome,
)
    requires
        names(data, group, repo),
        cfg.repositories@.contains_key(group),
        server::may(cfg, peer@, group, facts, Perm::Write),
        msgpack::lookup(data->Pairs_0, "ref"@) == Some(Msg::Text(name)),
        gitutil::changeable(name),
        test matches Outcome::Exited { success, .. } && success,
        deletion matches Outcome::Exited { success, .. } && success,
    ensures
        server::delete_act(cfg, Some(peer), data, Some(facts), seq![test, deletion]) == Act::Answer(
            seq![0u8],
        ),
{
    lemma_enters(cfg, peer, data, Some(facts), group, repo);
    git_laws::law_ref_can_be_deleted(name, test, deletion);
}

/// A creation that is answered as done made the directory, had git initialise it, and
/// wrote an access file that makes the creator its administrator.
pub proof fn law_created_means_made(
    cfg: Cfg,
    peer: Vec<u8>,
    data: Msg,
    facts: Facts,
    done: Seq<Option<String>>,
)
    requires
        server::create_act(cfg, Some(peer), data, Some(facts), done) == Act::Answer(seq![0u8]),
    ensures
        !facts.repo_exists,
        done.len() >= 3,
        done[0] is None && done[1] is None && done[2] is None,
        server::create_act(cfg, Some(peer), data, Some(facts), done.take(0)) == Act::MakeDirectory(
            facts.repo_path@,
        ),
        server::create_act(cfg, Some(peer), data, Some(facts), done.take(1)) == Act::Initialize(
            seq!["init"@, "--bare"@],
        ),
        server::create_act(cfg, Some(peer), data, Some(facts), done.take(2)) == Act::WriteFile(
            facts.repo_path@ + ".allowed"@,
            "adm:"@ + digits::hex_text(peer@) + "\n"@,
        ),
{
    lemma_not_done(0x02, "Invalid request"@);
    lemma_not_done(0x03, "Not found"@);
    lemma_not_done(0x01, "Not allowed"@);
    lemma_not_done(0x01, "Repository already exists"@);
    lemma_not_done(0xFF, "Could not initialize repository"@);
    let h = digits::hex_text(peer@);
    git_laws::law_made_repository_is_initialised(facts.repo_path@, h, false, done);
    gitutil::law_made_repository_has_its_access_file(facts.repo_path@, h, false, done);
}

/// A peer that may create in a group can make a repository there that does not exist;
/// no other peer can, and none that exists is made again.
pub proof fn law_repositories_are_made_by_creators(
    cfg: Cfg,
    peer: Vec<u8>,
    data: Msg,
    facts: Facts,
    group: Seq<char>,
    repo: Seq<char>,
    done: Seq<Option<String>>,
)
    requires
        names(data, group, repo),
        cfg.repositories@.contains_key(group),
    ensures
        ({
            let lists = server::group_lists(cfg, group, facts);
            let allowed = !server::blocked(cfg, peer@) && facts.group_is_dir
                && !lists.create.contains(Who::Nobody) && (lists.create.contains(Who::All)
                || lists.create.contains(Who::Identity(peer@)) || lists.admin.contains(
                Who::Identity(peer@),
            ));
            let a = server::create_act(cfg, Some(peer), data, Some(facts), done);
            &&& allowed && !facts.repo_exists && done.len() == 0 ==> a == Act::MakeDirectory(
                facts.repo_path@,
            )
            &&& allowed && !facts.repo_exists && done.len() == 3 && done[0] is None
                && done[1] is None && done[2] is None ==> a == Act::Answer(seq![0u8])
            &&& !allowed || facts.repo_exists ==> (a matches Act::Answer(b) && b.len() > 0 && (b[0]
                == 1 || b[0] == 3))
        }),
{
    lemma_enters(cfg, peer, data, Some(facts), group, repo);
    perms::law_group_grants_what_it_lists(
        server::group_lists(cfg, group, facts),
        peer@,
        Perm::Create,
    );
}

/// A peer without write access is told that it is not allowed where it may read, and
/// that nothing is there where it may not.
pub proof fn law_refusals_tell_readers_only(
    cfg: Cfg,
    peer: Vec<u8>,
    data: Msg,
    facts: Facts,
    group: Seq<char>,
    repo: Seq<char>,
    file: Seq<char>,
    stored: BundleFile,
    done: Seq<Outcome>,
)
    requires
        names(data, group, repo),
        cfg.repositories@.contains_key(group),
        !server::may(cfg, peer@, group, facts, Perm::Write),
    ensures
        ({
            let code: u8 = if server::may(cfg, peer@, group, facts, Perm::Read) {
                1
            } else {
                3
            };
            let push = server::push_act(cfg, Some(peer), data, Some(facts), file, stored, done);
            let delete = server::delete_act(cfg, Some(peer), data, Some(facts), done);
            &&& push matches Act::Answer(b) && b.len() > 0 && b[0] == code
            &&& delete matches Act::Answer(b) && b.len() > 0 && b[0] == code
        }),
{
    lemma_enters(cfg, peer, data, Some(facts), group, repo);
}

// ---------------------------------------------------------------------------
// Routing
// ---------------------------------------------------------------------------

/// A request goes to what its path names: the first sixteen bytes of the digest of the
/// path, where no two of the paths share them.
pub proof fn law_paths_lead_to_their_requests()
    requires
        ({
            let key = |p: Seq<char>| hash::sha256(vstd::utf8::encode_utf8(p)).take(16);
            &&& key("/git/list"@) != key("/git/fetch"@)
            &&& key("/git/list"@) != key("/git/push"@)
            &&& key("/git/list"@) != key("/git/delete"@)
            &&& key("/git/list"@) != key("/git/create"@)
            &&& key("/git/fetch"@) != key("/git/push"@)
            &&& key("/git/fetch"@) != key("/git/delete"@)
            &&& key("/git/fetch"@) != key("/git/create"@)
            &&& key("/git/push"@) != key("/git/delete"@)
            &&& key("/git/push"@) != key("/git/create"@)
            &&& key("/git/delete"@) != key("/git/create"@)
        }),
    ensures
        ({
            let key = |p: Seq<char>| hash::sha256(vstd::utf8::encode_utf8(p)).take(16);
            &&& server::route_of(key("/git/list"@)) == Some(Route::List)
            &&& server::route_of(key("/git/fetch"@)) == Some(Route::Fetch)
            &&& server::route_of(key("/git/push"@)) == Some(Route::Push)
            &&& server::route_of(key("/git/delete"@)) == Some(Route::Delete)
            &&& server::route_of(key("/git/create"@)) == Some(Route::Create)
        }),
{
}

/// A request of no known path leads nowhere.
pub proof fn law_other_paths_lead_nowhere(h: Seq<u8>)
    ensures
        server::route_of(h) is Some ==> exists|p: Seq<char>|
            h == #[trigger] transfer::path_key(p) && (p == "/git/list"@ || p == "/git/fetch"@ || p
                == "/git/push"@ || p == "/git/delete"@ || p == "/git/create"@),
        forall|p: Seq<char>|
            #[trigger] transfer::path_key(p) == hash::sha256(vstd::utf8::encode_utf8(p)).take(16),
{
    assert(transfer::path_key("/git/list"@) == transfer::path_key(transfer::PATH_LIST@));
    assert(transfer::path_key("/git/fetch"@) == transfer::path_key(transfer::PATH_FETCH@));
    assert(transfer::path_key("/git/push"@) == transfer::path_key(transfer::PATH_PUSH@));
    assert(transfer::path_key("/git/delete"@) == transfer::path_key(transfer::PATH_DELETE@));
    assert(transfer::path_key("/git/create"@) == transfer::path_key(transfer::PATH_CREATE@));
}

// ---------------------------------------------------------------------------
// Resources
// ---------------------------------------------------------------------------

/// The service receives the resources of requests and not those of responses, and a
/// client the other way round.
pub proof fn law_either_side_receives_its_own(
    state: Option<LinkState>,
    link: LinkState,
    flags: u8,
    data: Seq<u8>,
)
    ensures
        server::packet_doing(state, PacketKind::Advertisement(flags), data) == Ok::<_, Seq<char>>(
            if (flags & 0x08) != 0 && (flags & 0x10) == 0 {
                Doing::StartInbound
            } else {
                Doing::Ignore
            },
        ),
        client::client_doing(link, PacketKind::Advertisement(flags), data) == Ok::<_, Seq<char>>(
            if (flags & 0x10) != 0 && (flags & 0x08) == 0 {
                Doing::StartInbound
            } else {
                Doing::Ignore
            },
        ),
{
}

/// Parts are sent of the resource whose hash the request for them names: behind its
/// first byte, and behind four more where that byte is 255.
pub proof fn law_asked_parts_are_sent(state: LinkState, pad: Seq<u8>, hash: Seq<u8>, rest: Seq<u8>)
    requires
        hash.len() == 32,
        pad.len() == 1 && pad[0] != 0xFF || pad.len() == 5 && pad[0] == 0xFF,
        state.outbound@.contains_key(hash),
    ensures
        server::packet_doing(Some(state), PacketKind::PartRequest, pad + hash + rest) == Ok::<
            _,
            Seq<char>,
        >(Doing::ServeParts(hash)),
        client::client_doing(state, PacketKind::PartRequest, pad + hash + rest) == Ok::<
            _,
            Seq<char>,
        >(Doing::ServeParts(hash)),
{
    let b = pad + hash + rest;
    assert(b[0] == pad[0]);
    assert(b.skip(pad.len() as int).take(32) =~= hash);
}

/// A proof is checked for the resource whose hash it begins with, and a part is offered
/// to what is being received; neither is for a link that is not known.
pub proof fn law_proofs_and_parts_are_handled(state: LinkState, hash: Seq<u8>, rest: Seq<u8>)
    requires
        hash.len() == 32,
    ensures
        server::packet_doing(Some(state), PacketKind::Proof, hash + rest) == Ok::<_, Seq<char>>(
            if state.outbound@.contains_key(hash) {
                Doing::CheckProof(hash)
            } else {
                Doing::Ignore
            },
        ),
        server::packet_doing(Some(state), PacketKind::Part, rest) == Ok::<_, Seq<char>>(
            Doing::FeedInbound,
        ),
        server::packet_doing(None, PacketKind::Proof, hash + rest) is Err,
        server::packet_doing(None, PacketKind::Part, rest) is Err,
        client::client_doing(state, PacketKind::Proof, hash + rest) == server::packet_doing(
            Some(state),
            PacketKind::Proof,
            hash + rest,
        ),
        client::client_doing(state, PacketKind::Part, rest) == Ok::<_, Seq<char>>(
            Doing::FeedInbound,
        ),
{
    assert((hash + rest).take(32) =~= hash);
}

/// Further hashes go to the resource whose hash they stand behind, with the segment that
/// they are for.
pub proof fn law_further_hashes_are_taken_over(
    state: LinkState,
    hash: Seq<u8>,
    body: Seq<u8>,
    segment: u64,
    hashes: Seq<u8>,
)
    requires
        hash.len() == 32,
        state.inbound@.contains_key(hash),
        msgpack::msgpack_read(body) == Ok::<_, Seq<char>>(
            Msg::Array(seq![Msg::Integer(segment as int), Msg::Binary(hashes)]),
        ),
    ensures
        server::packet_doing(Some(state), PacketKind::HashUpdate, hash + body) == Ok::<
            _,
            Seq<char>,
        >(Doing::ApplyHashmap(hash, segment, hashes)),
        client::client_doing(state, PacketKind::HashUpdate, hash + body) == Ok::<_, Seq<char>>(
            Doing::ApplyHashmap(hash, segment, hashes),
        ),
{
    assert((hash + body).take(32) =~= hash);
    assert((hash + body).skip(32) =~= body);
}

// ---------------------------------------------------------------------------
// The client
// ---------------------------------------------------------------------------

/// A change counts as made exactly if the service answers in a packet with the mark of
/// success first.
pub proof fn law_change_needs_the_mark_of_success(b: Seq<u8>, context: Seq<char>)
    ensures
        client::change_result(Reply::Bytes(b), context) is Ok <==> b.len() > 0 && b[0] == 0,
        client::change_result(Reply::Resource(b), context) is Err,
        client::bundle_result(Reply::Bytes(b)) is Ok <==> b.len() > 0 && b[0] == 0,
        b.len() > 0 && b[0] == 0 ==> client::bundle_result(Reply::Bytes(b)) == Ok::<
            Option<Seq<u8>>,
            Seq<char>,
        >(None),
{
}

/// A bundle stands in a response behind three bytes, the most significant first, that
/// count the bytes of metadata between.
pub proof fn law_bundle_follows_its_metadata(metadata: Seq<u8>, bundle: Seq<u8>)
    requires
        metadata.len() < 0x100_0000,
    ensures
        ({
            let n = metadata.len();
            let head = seq![(n / 0x10000) as u8, (n / 0x100 % 0x100) as u8, (n % 0x100) as u8];
            client::bundle_result(Reply::Resource(head + metadata + bundle)) == Ok::<_, Seq<char>>(
                Some(bundle),
            )
        }),
{
    let n = metadata.len();
    let head = seq![(n / 0x10000) as u8, (n / 0x100 % 0x100) as u8, (n % 0x100) as u8];
    let b = head + metadata + bundle;
    assert(b[0] == head[0] && b[1] == head[1] && b[2] == head[2]);
    assert(n / 0x10000 < 256);
    assert((n / 65536) * 65536 + ((n / 256) % 256) * 256 + n % 256 == n) by (nonlinear_arith);
    assert(transfer::three_byte_number(b) == n);
    assert(b.skip(3 + n as int) =~= bundle);
}

/// A request ends with the response to it, from a packet with its identifier or from a
/// resource, and with nothing else that is a response; it fails when time runs out or
/// the link goes.
pub proof fn law_request_ends_with_its_response(
    responses: Map<Seq<u8>, client::ClientResponse>,
    path: Seq<char>,
    id: Seq<u8>,
    rid: Vec<u8>,
    data: msgpack::MsgValue,
    b: Seq<u8>,
    news: client::LinkNews,
)
    ensures
        client::request_fate(responses, path, id, true, news) is Fail,
        responses.contains_key(id) ==> client::request_fate(responses, path, id, false, news)
            == client::Fate::Done(responses[id]@),
        !responses.contains_key(id) && rid@ == id && data@ == Msg::Binary(b)
            ==> client::request_fate(
            responses,
            path,
            id,
            false,
            client::LinkNews::Response(rid, data),
        ) == client::Fate::Done(Reply::Bytes(b)),
        !responses.contains_key(id) && rid@ != id ==> client::request_fate(
            responses,
            path,
            id,
            false,
            client::LinkNews::Response(rid, data),
        ) is Wait,
        !responses.contains_key(id) ==> client::request_fate(
            responses,
            path,
            id,
            false,
            client::LinkNews::Closed,
        ) is Fail && client::request_fate(
            responses,
            path,
            id,
            false,
            client::LinkNews::ChannelClosed,
        ) is Fail && client::request_fate(
            responses,
            path,
            id,
            false,
            client::LinkNews::Resource,
        ) is HandleResource && client::request_fate(
            responses,
            path,
            id,
            false,
            client::LinkNews::Quiet,
        ) is Wait,
{
}

/// A client is connected once its link is up in time, and fails when time runs out or
/// the link goes.
pub proof fn law_client_connects_in_time(news: client::LinkNews)
    ensures
        client::connect_fate(false, client::LinkNews::Activated) == Some(Ok::<(), Seq<char>>(())),
        client::connect_fate(true, news) matches Some(Err(_)),
        client::connect_fate(false, client::LinkNews::Closed) matches Some(Err(_)),
        client::connect_fate(false, client::LinkNews::ChannelClosed) matches Some(Err(_)),
        client::connect_fate(false, client::LinkNews::Quiet) is None,
        client::connect_fate(false, client::LinkNews::Other) is None,
{
}

proof fn lemma_three_pieces(a: Seq<char>, b: Seq<char>, c: Seq<char>)
    requires
        !a.contains('/') && !b.contains('/') && !c.contains('/'),
    ensures
        text::pieces(a + "/"@ + b + "/"@ + c, '/') == seq![a, b, c],
{
    reveal_strlit("/");
    let all = a + "/"@ + b + "/"@ + c;
    let rest = b + "/"@ + c;
    lemma_first_slash(a, rest);
    assert(all =~= a + "/"@ + rest);
    lemma_first_slash(b, c);
    text::lemma_first_of(c, '/');
    if text::first_of(c, '/') is Some {
        let i = text::first_of(c, '/')->0;
        assert(c.contains(c[i]));
    }
    reveal_with_fuel(text::pieces, 4);
    assert(text::pieces(c, '/') =~= seq![c]);
    assert(text::pieces(rest, '/') =~= seq![b, c]);
    assert(text::pieces(all, '/') =~= seq![a, b, c]);
}

proof fn lemma_first_slash(a: Seq<char>, rest: Seq<char>)
    requires
        !a.contains('/'),
    ensures
        text::first_of(a + "/"@ + rest, '/') == Some(a.len() as int),
        (a + "/"@ + rest).take(a.len() as int) == a,
        (a + "/"@ + rest).skip(a.len() as int + 1) == rest,
{
    reveal_strlit("/");
    let s = a + "/"@ + rest;
    assert(s[a.len() as int] == '/');
    assert forall|j: int| 0 <= j < a.len() implies s[j] != '/' by {
        assert(s[j] == a[j]);
        assert(a.contains(a[j]));
    }
    text::lemma_first_is(s, '/', a.len() as int);
    assert(s.take(a.len() as int) =~= a);
    assert(s.skip(a.len() as int + 1) =~= rest);
}

proof fn lemma_hex_holds_digits(hash: Seq<u8>)
    requires
        hash.len() == 16,
    ensures
        ({
            let h = digits::hex_text(hash);
            &&& h.len() == 32
            &&& !h.contains('/') && !h.contains(' ')
            &&& h[0] != 'r'
            &&& vstd::utf8::encode_utf8(h).len() == 32
            &&& crate::address::address_in(h) == Some(hash)
        }),
{
    let h = digits::hex_text(hash);
    digits::law_hex_round_trip(hash);
    assert forall|k: int| 0 <= k < h.len() implies #[trigger] h[k] != '/' && h[k] != ' ' && h[k]
        != 'r' by {
        assert(digits::is_hex(h[k]));
    }
    assert forall|k: int| 0 <= k < h.len() implies '\0' <= #[trigger] h[k] <= '\u{7f}' by {
        assert(digits::is_hex(h[k]));
    }
    assert(vstd::utf8::is_ascii_chars(h));
    vstd::utf8::is_ascii_chars_encode_utf8(h);
    assert(h.take(32) =~= h);
}

proof fn lemma_slashed(h: Seq<char>, group: Seq<char>, repo: Seq<char>)
    requires
        !h.contains('/') && !h.contains(' '),
        !group.contains(' ') && !repo.contains(' '),
    ensures
        ({
            let tail = group + "/"@ + repo;
            &&& client::slashed(h + "/"@ + tail) == h + "/"@ + tail
            &&& client::slashed(h + " "@ + tail) == h + "/"@ + tail
        }),
{
    let tail = group + "/"@ + repo;
    reveal_strlit("/");
    reveal_strlit(" ");
    let plain = h + "/"@ + tail;
    let spaced = h + " "@ + tail;
    assert forall|i: int| 0 <= i < plain.len() implies plain[i] != ' ' by {
        if i < h.len() {
            assert(h.contains(h[i]));
        } else if i > h.len() {
            let k = i - h.len() - 1;
            if k < group.len() {
                assert(group.contains(group[k]));
            } else if k > group.len() {
                assert(repo.contains(repo[k - group.len() - 1]));
            }
        }
    }
    text::lemma_first_of(plain, ' ');
    assert(spaced[h.len() as int] == ' ');
    assert forall|j: int| 0 <= j < h.len() implies spaced[j] != ' ' by {
        assert(h.contains(h[j]));
    }
    text::lemma_first_is(spaced, ' ', h.len() as int);
    assert(spaced.take(h.len() as int) =~= h);
    assert(spaced.skip(h.len() as int + 1) =~= tail);
}

proof fn lemma_scheme(rest: Seq<char>)
    ensures
        client::without_scheme("rns://"@ + rest) == rest,
        rest.len() > 0 && rest[0] != 'r' ==> client::without_scheme(rest) == rest,
{
    reveal_strlit("rns://");
    reveal_strlit("rns:");
    assert(("rns://"@ + rest).take(6) =~= "rns://"@);
    assert(("rns://"@ + rest).skip(6) =~= rest);
    if rest.len() > 0 && rest[0] != 'r' {
        if rest.len() >= 4 {
            assert(rest.take(4)[0] != "rns:"@[0]);
        }
        if rest.len() >= 6 {
            assert(rest.take(6)[0] != "rns://"@[0]);
        }
    }
}

/// An address of a repository names the destination and the repository: with a scheme or
/// without one, with a slash or a space behind the destination.
pub proof fn law_addresses_are_read(hash: Seq<u8>, group: Seq<char>, repo: Seq<char>)
    requires
        hash.len() == 16,
        group.len() > 0 && !group.contains('/') && !group.contains(' '),
        repo.len() > 0 && !repo.contains('/') && !repo.contains(' '),
    ensures
        ({
            let h = digits::hex_text(hash);
            let want = Ok::<_, Seq<char>>((hash, group + "/"@ + repo));
            let tail = group + "/"@ + repo;
            &&& client::rns_url("rns://"@ + (h + "/"@ + tail)) == want
            &&& client::rns_url(h + "/"@ + tail) == want
            &&& client::rns_url("rns://"@ + (h + " "@ + tail)) == want
        }),
{
    let h = digits::hex_text(hash);
    let tail = group + "/"@ + repo;
    lemma_hex_holds_digits(hash);
    lemma_slashed(h, group, repo);
    lemma_scheme(h + "/"@ + tail);
    lemma_scheme(h + " "@ + tail);
    assert((h + "/"@ + tail)[0] == h[0]);
    assert(h + "/"@ + tail =~= h + "/"@ + group + "/"@ + repo);
    lemma_three_pieces(h, group, repo);
}

/// Refusals start with their code and say why.
pub proof fn law_refusals_say_why(data: Msg)
    ensures
        server::reply_not_identified() == seq![1u8] + vstd::utf8::encode_utf8("Not identified"@),
        server::reply_invalid() == seq![2u8] + vstd::utf8::encode_utf8("Invalid request"@),
        server::reply_not_found() == seq![3u8] + vstd::utf8::encode_utf8("Not found"@),
        server::reply_bad_sha() == seq![2u8] + vstd::utf8::encode_utf8("Invalid SHA"@),
        server::reply_no_push() == seq![2u8] + vstd::utf8::encode_utf8("Invalid request data"@),
        server::fetched(None) == Ok::<Result<Seq<u8>, Seq<u8>>, Seq<char>>(
            Err(seq![0xffu8] + vstd::utf8::encode_utf8("Could not fetch refs"@)),
        ),
        msgpack::lookup(server::entries(data), "refs"@) is None ==> server::fetch_plan(data)
            == Err::<(Seq<(Seq<char>, Option<Seq<char>>)>, Seq<Seq<char>>), Seq<u8>>(
            seq![2u8] + vstd::utf8::encode_utf8("No refs specified"@),
        ),
{
}

/// A bundle is stored only for two sound names, and applied as it was sent: with the names
/// and the force that the request gives, once it is stored.
pub proof fn law_pushed_bundle_is_stored_for_sound_names(
    data: Msg,
    bundle: Seq<char>,
    content: Seq<u8>,
    local: Seq<char>,
    remote: Seq<char>,
    stored: BundleFile,
    done: Seq<Outcome>,
)
    requires
        msgpack::lookup(server::entries(data), "bundle"@) == Some(Msg::Binary(content)),
        msgpack::text_at(server::entries(data), "local_ref"@) == Some(local),
        msgpack::text_at(server::entries(data), "remote_ref"@) == Some(remote),
    ensures
        !gitutil::ref_ok(local) ==> server::push_work(data, bundle, stored, done) == Act::Answer(
            seq![2u8] + vstd::utf8::encode_utf8("Invalid request"@),
        ),
        !gitutil::ref_ok(remote) ==> server::push_work(data, bundle, stored, done) == Act::Answer(
            seq![2u8] + vstd::utf8::encode_utf8("Invalid request"@),
        ),
        gitutil::ref_ok(local) && gitutil::ref_ok(remote) ==> server::push_work(
            data,
            bundle,
            BundleFile::Missing,
            done,
        ) == Act::WriteBundle(content),
        gitutil::ref_ok(local) && gitutil::ref_ok(remote) ==> server::push_work(
            data,
            bundle,
            BundleFile::Failed,
            done,
        ) == Act::Answer(seq![0xffu8] + vstd::utf8::encode_utf8("Could not verify bundle"@)),
        gitutil::ref_ok(local) && gitutil::ref_ok(remote) ==> (gitutil::apply_step(
            bundle,
            local,
            remote,
            msgpack::lookup(server::entries(data), "force"@) == Some(Msg::Boolean(true)),
            done,
        ) matches gitutil::Next::Run(a) ==> server::push_work(
            data,
            bundle,
            BundleFile::Stored,
            done,
        ) == Act::Git(a)),
{
}

/// A push without its names, or with neither a bundle nor operations, is refused.
pub proof fn law_push_says_what_it_pushes(
    data: Msg,
    bundle: Seq<char>,
    content: Seq<u8>,
    stored: BundleFile,
    done: Seq<Outcome>,
)
    ensures
        msgpack::lookup(server::entries(data), "bundle"@) == Some(Msg::Binary(content)) && (
        msgpack::text_at(server::entries(data), "local_ref"@) is None || msgpack::text_at(
            server::entries(data),
            "remote_ref"@,
        ) is None) ==> server::push_work(data, bundle, stored, done) == Act::Answer(
            seq![2u8] + vstd::utf8::encode_utf8("Missing ref specification"@),
        ),
        msgpack::lookup(server::entries(data), "bundle"@) is None && msgpack::lookup(
            server::entries(data),
            "operations"@,
        ) is None ==> server::push_work(data, bundle, stored, done) == Act::Answer(
            seq![2u8] + vstd::utf8::encode_utf8("Invalid request data"@),
        ),
{
}

/// The peer on a link is the one that it showed there, and nobody on a link that is not
/// known.
pub proof fn law_peer_is_known_by_its_link(
    links: Map<Seq<u8>, LinkState>,
    id: Seq<u8>,
    other: Seq<u8>,
    state: LinkState,
)
    requires
        other != id,
    ensures
        server::peer_on(Map::<Seq<u8>, LinkState>::empty(), id) is None,
        server::peer_on(links.insert(id, state), id) == gitutil::bytes_view(state.peer),
        server::peer_on(links.insert(id, state), other) == server::peer_on(links, other),
        server::peer_on(links.remove(id), id) is None,
{
}

} // verus!
