//! Who may do what with a repository.
//!
//! An access file holds entries such as `r:all` or `adm:<identity hash>`. They
//! build one list of targets for each kind of access. The lists of a repository
//! decide before those of its group.

use vstd::prelude::*;

use crate::bytes;
use crate::digits;
use crate::gitutil;
use crate::text;
use crate::text_map::TextMap;

verus! {

/// Whom an entry speaks of.
#[derive(Debug)]
pub enum Target {
    Nobody,
    All,
    Identity(Vec<u8>),
}

/// A kind of access.
#[derive(Debug, Clone, Copy, PartialEq, Eq, Structural)]
pub enum Perm {
    Read,
    Write,
    ReadWrite,
    Create,
    Stats,
    Release,
    Interact,
    Propose,
    Admin,
}

/// The targets of each kind of access.
#[derive(Debug)]
pub struct AccessLists {
    pub read: Vec<Target>,
    pub write: Vec<Target>,
    pub create: Vec<Target>,
    pub stats: Vec<Target>,
    pub release: Vec<Target>,
    pub interact: Vec<Target>,
    pub propose: Vec<Target>,
    pub admin: Vec<Target>,
}

// ---------------------------------------------------------------------------
// Specification
// ---------------------------------------------------------------------------

/// Whom an entry speaks of, over sequences.
pub enum Who {
    Nobody,
    All,
    Identity(Seq<u8>),
}

impl View for Target {
    type V = Who;

    open spec fn view(&self) -> Who {
        match self {
            Target::Nobody => Who::Nobody,
            Target::All => Who::All,
            Target::Identity(h) => Who::Identity(h@),
        }
    }
}

/// The views of a list of targets.
pub open spec fn whos(v: Seq<Target>) -> Seq<Who> {
    Seq::new(v.len(), |i: int| v[i]@)
}

/// Access lists over sequences.
#[verifier::ext_equal]
pub struct Access {
    pub read: Seq<Who>,
    pub write: Seq<Who>,
    pub create: Seq<Who>,
    pub stats: Seq<Who>,
    pub release: Seq<Who>,
    pub interact: Seq<Who>,
    pub propose: Seq<Who>,
    pub admin: Seq<Who>,
}

impl View for AccessLists {
    type V = Access;

    open spec fn view(&self) -> Access {
        Access {
            read: whos(self.read@),
            write: whos(self.write@),
            create: whos(self.create@),
            stats: whos(self.stats@),
            release: whos(self.release@),
            interact: whos(self.interact@),
            propose: whos(self.propose@),
            admin: whos(self.admin@),
        }
    }
}

impl Access {
    /// Lists without entries.
    pub open spec fn none() -> Access {
        Access {
            read: Seq::empty(),
            write: Seq::empty(),
            create: Seq::empty(),
            stats: Seq::empty(),
            release: Seq::empty(),
            interact: Seq::empty(),
            propose: Seq::empty(),
            admin: Seq::empty(),
        }
    }

    /// The list that decides on a kind of access. Reading and writing together is
    /// decided by the list for reading.
    pub open spec fn list(self, perm: Perm) -> Seq<Who> {
        match perm {
            Perm::Read => self.read,
            Perm::ReadWrite => self.read,
            Perm::Write => self.write,
            Perm::Create => self.create,
            Perm::Stats => self.stats,
            Perm::Release => self.release,
            Perm::Interact => self.interact,
            Perm::Propose => self.propose,
            Perm::Admin => self.admin,
        }
    }

    /// The lists after an entry: the target joins the list of its kind, unless it
    /// is there; an entry for reading and writing joins both lists.
    pub open spec fn with(self, perm: Perm, who: Who) -> Access {
        match perm {
            Perm::Read => Access { read: joined(self.read, who), ..self },
            Perm::Write => Access { write: joined(self.write, who), ..self },
            Perm::ReadWrite => Access {
                read: joined(self.read, who),
                write: joined(self.write, who),
                ..self
            },
            Perm::Create => Access { create: joined(self.create, who), ..self },
            Perm::Stats => Access { stats: joined(self.stats, who), ..self },
            Perm::Release => Access { release: joined(self.release, who), ..self },
            Perm::Interact => Access { interact: joined(self.interact, who), ..self },
            Perm::Propose => Access { propose: joined(self.propose, who), ..self },
            Perm::Admin => Access { admin: joined(self.admin, who), ..self },
        }
    }

    /// No list holds a target twice.
    pub open spec fn distinct(self) -> bool {
        &&& self.read.no_duplicates()
        &&& self.write.no_duplicates()
        &&& self.create.no_duplicates()
        &&& self.stats.no_duplicates()
        &&& self.release.no_duplicates()
        &&& self.interact.no_duplicates()
        &&& self.propose.no_duplicates()
        &&& self.admin.no_duplicates()
    }
}

/// The list with the target at its end, unless it is in the list.
pub open spec fn joined(list: Seq<Who>, who: Who) -> Seq<Who> {
    if list.contains(who) {
        list
    } else {
        list.push(who)
    }
}

/// The kind of access that a lower case word names.
pub open spec fn perm_named(w: Seq<char>) -> Option<Perm> {
    if w == "r"@ || w == "read"@ {
        Some(Perm::Read)
    } else if w == "w"@ || w == "write"@ {
        Some(Perm::Write)
    } else if w == "rw"@ || w == "readwrite"@ {
        Some(Perm::ReadWrite)
    } else if w == "c"@ || w == "create"@ {
        Some(Perm::Create)
    } else if w == "s"@ || w == "stats"@ {
        Some(Perm::Stats)
    } else if w == "rel"@ || w == "release"@ {
        Some(Perm::Release)
    } else if w == "i"@ || w == "interact"@ {
        Some(Perm::Interact)
    } else if w == "p"@ || w == "propose"@ {
        Some(Perm::Propose)
    } else if w == "adm"@ || w == "admin"@ {
        Some(Perm::Admin)
    } else {
        None
    }
}

/// The identity hash that a text denotes: 32 hexadecimal digits, white space
/// around them aside.
pub open spec fn identity_hash(s: Seq<char>) -> Option<Who> {
    match digits::hex_bytes(text::trimmed(s)) {
        Some(b) => if b.len() == 16 {
            Some(Who::Identity(b))
        } else {
            None
        },
        None => None,
    }
}

/// The target that a trimmed text `t` with the lower case form `lower` names. An
/// alias comes before the words for nobody and everyone.
pub open spec fn target_named(
    t: Seq<char>,
    lower: Seq<char>,
    aliases: Map<Seq<char>, String>,
) -> Option<Who> {
    if aliases.contains_key(t) {
        identity_hash(aliases[t]@)
    } else if lower == "n"@ || lower == "none"@ || lower == "nobody"@ {
        Some(Who::Nobody)
    } else if lower == "a"@ || lower == "all"@ || lower == "everyone"@ {
        Some(Who::All)
    } else {
        identity_hash(t)
    }
}

/// What an entry grants, given the lower case forms of its two halves.
pub open spec fn entry_named(
    halves: (Seq<char>, Seq<char>),
    lower: (Seq<char>, Seq<char>),
    aliases: Map<Seq<char>, String>,
) -> Option<(Perm, Who)> {
    match (perm_named(lower.0), target_named(text::trimmed(halves.1), lower.1, aliases)) {
        (Some(perm), Some(who)) => Some((perm, who)),
        _ => None,
    }
}

/// What an entry grants: a kind of access and a target, with a colon between.
pub open spec fn entry(line: Seq<char>, aliases: Map<Seq<char>, String>) -> Option<(Perm, Who)> {
    match text::halves(text::trimmed(line), ':') {
        Some(h) => entry_named(
            h,
            (text::lowercase(h.0), text::lowercase(text::trimmed(h.1))),
            aliases,
        ),
        None => None,
    }
}

/// The lower case form of ASCII text.
pub open spec fn plain_lower(s: Seq<char>) -> Seq<char> {
    s.map_values(|c: char| text::ascii_lower(c))
}

/// What an entry of ASCII characters grants.
pub open spec fn plain_entry(line: Seq<char>, aliases: Map<Seq<char>, String>) -> Option<
    (Perm, Who),
> {
    match text::halves(text::trimmed(line), ':') {
        Some(h) => entry_named(h, (plain_lower(h.0), plain_lower(text::trimmed(h.1))), aliases),
        None => None,
    }
}

/// The lists that lines of ASCII characters build.
pub open spec fn plainly_granted(lines: Seq<Seq<char>>, aliases: Map<Seq<char>, String>) -> Access
    decreases lines.len(),
{
    if lines.len() == 0 {
        Access::none()
    } else {
        let before = plainly_granted(lines.drop_last(), aliases);
        if skipped(lines.last()) {
            before
        } else {
            match plain_entry(text::trimmed(lines.last()), aliases) {
                Some((perm, who)) => before.with(perm, who),
                None => before,
            }
        }
    }
}

/// A line that is empty or a comment grants nothing.
pub open spec fn skipped(line: Seq<char>) -> bool {
    let t = text::trimmed(line);
    t.len() == 0 || t[0] == '#'
}

/// The lists that the lines build, one after the other.
pub open spec fn granted(lines: Seq<Seq<char>>, aliases: Map<Seq<char>, String>) -> Access
    decreases lines.len(),
{
    if lines.len() == 0 {
        Access::none()
    } else {
        let before = granted(lines.drop_last(), aliases);
        if skipped(lines.last()) {
            before
        } else {
            match entry(text::trimmed(lines.last()), aliases) {
                Some((perm, who)) => before.with(perm, who),
                None => before,
            }
        }
    }
}

/// What a list decides for an identity: nobody before everybody, then the
/// identity itself or as an administrator, and no for all others if the list is
/// not empty. An empty list leaves the matter open.
pub open spec fn verdict(list: Seq<Who>, admins: Seq<Who>, hash: Seq<u8>) -> Option<bool> {
    if list.contains(Who::Nobody) {
        Some(false)
    } else if list.contains(Who::All) || list.contains(Who::Identity(hash)) || admins.contains(
        Who::Identity(hash),
    ) {
        Some(true)
    } else if list.len() > 0 {
        Some(false)
    } else {
        None
    }
}

/// Whether the group grants a kind of access.
pub open spec fn group_grants(group: Access, hash: Seq<u8>, perm: Perm) -> bool {
    verdict(group.list(perm), group.admin, hash) == Some(true)
}

/// Whether an identity has a kind of access: as the repository's list decides,
/// and as the group's does where the repository's leaves it open.
pub open spec fn grants(repo: Access, group: Access, hash: Seq<u8>, perm: Perm) -> bool {
    match verdict(repo.list(perm), repo.admin, hash) {
        Some(b) => b,
        None => group_grants(group, hash, perm),
    }
}

// ---------------------------------------------------------------------------
// Laws
// ---------------------------------------------------------------------------

/// No list that is built from entries holds a target twice.
pub proof fn law_lists_are_distinct(
    lines: Seq<Seq<char>>,
    aliases: Map<Seq<char>, String>,
)
    ensures
        granted(lines, aliases).distinct(),
    decreases lines.len(),
{
    if lines.len() > 0 {
        law_lists_are_distinct(lines.drop_last(), aliases);
        let before = granted(lines.drop_last(), aliases);
        match entry(text::trimmed(lines.last()), aliases) {
            Some((perm, who)) => {
                assert forall|list: Seq<Who>|
                    #[trigger] list.no_duplicates() implies joined(list, who).no_duplicates() by {
                    if !list.contains(who) {
                        assert forall|i: int, j: int|
                            0 <= i < j < list.push(who).len() implies list.push(who)[i] != list.push(
                            who,
                        )[j] by {
                            if j == list.len() {
                                assert(list.contains(list[i]));
                            }
                        }
                    }
                }
            },
            None => {},
        }
    }
}

/// A target once granted stays granted when more lines follow.
pub proof fn law_more_lines_keep_targets(
    lines: Seq<Seq<char>>,
    more: Seq<char>,
    aliases: Map<Seq<char>, String>,
    perm: Perm,
    who: Who,
)
    ensures
        granted(lines, aliases).list(perm).contains(who) ==> granted(
            lines.push(more),
            aliases,
        ).list(perm).contains(who),
{
    let all = lines.push(more);
    assert(all.drop_last() =~= lines);
    let old_list = granted(lines, aliases).list(perm);
    let new_list = granted(all, aliases).list(perm);
    if old_list.contains(who) {
        let i = choose|i: int| 0 <= i < old_list.len() && old_list[i] == who;
        match entry(text::trimmed(more), aliases) {
            Some((p, w)) => {
                assert(new_list =~= old_list || new_list =~= old_list.push(w));
                assert(new_list[i] == who);
            },
            None => {},
        }
    }
}

/// The text is the hash of an identity in hexadecimal digits, and no alias.
pub open spec fn is_own_hash(h: Seq<char>, aliases: Map<Seq<char>, String>) -> bool {
    &&& digits::hex_bytes(h) is Some
    &&& h.len() == 32
    &&& !aliases.contains_key(h)
}

/// The identity that a new repository is made for is its administrator, and may do
/// everything with it.
pub proof fn law_creator_has_access(
    h: Seq<char>,
    aliases: Map<Seq<char>, String>,
    group: Access,
    perm: Perm,
)
    requires
        is_own_hash(h, aliases),
    ensures
        ({
            let hash = digits::hex_bytes(h)->0;
            let lists = plainly_granted(text::rows(gitutil::admin_entry(h)), aliases);
            lists.admin == seq![Who::Identity(hash)] && grants(lists, group, hash, perm)
        }),
        vstd::utf8::is_ascii_chars(gitutil::admin_entry(h)),
{
    let hash = digits::hex_bytes(h)->0;
    assert(hash.len() == 16);
    reveal_strlit("adm:");
    reveal_strlit("\n");
    let line = "adm:"@ + h;
    assert(gitutil::admin_entry(h) =~= line + seq!['\n'] + Seq::<char>::empty());
    assert(digits::is_hex(h[0]) && digits::is_hex(h[31]));
    assert forall|j: int| 0 <= j < line.len() implies line[j] != '\n' by {
        if j >= 4 {
            assert(line[j] == h[j - 4]);
            assert(digits::is_hex(h[j - 4]));
        }
    }
    assert(line.last() == h[31]);
    text::lemma_first_row(line, Seq::empty());
    let rows = text::rows(gitutil::admin_entry(h));
    assert(rows =~= seq![line]);
    text::lemma_trimmed_already(line);
    text::lemma_trimmed_already(h);
    assert(line[0] == 'a');
    assert(!skipped(line));
    assert(line[3] == ':');
    text::lemma_first_is(line, ':', 3);
    assert(line.take(3) =~= "adm"@) by {
        reveal_strlit("adm");
    }
    assert(line.skip(4) =~= h);
    assert(plain_lower("adm"@) =~= "adm"@) by {
        reveal_strlit("adm");
    }
    reveal_strlit("r");
    reveal_strlit("read");
    reveal_strlit("w");
    reveal_strlit("write");
    reveal_strlit("rw");
    reveal_strlit("readwrite");
    reveal_strlit("c");
    reveal_strlit("create");
    reveal_strlit("s");
    reveal_strlit("stats");
    reveal_strlit("rel");
    reveal_strlit("release");
    reveal_strlit("i");
    reveal_strlit("interact");
    reveal_strlit("p");
    reveal_strlit("propose");
    reveal_strlit("adm");
    assert("rel"@[0] != "adm"@[0]);
    assert(perm_named("adm"@) == Some(Perm::Admin));
    reveal_strlit("n");
    reveal_strlit("none");
    reveal_strlit("nobody");
    reveal_strlit("a");
    reveal_strlit("all");
    reveal_strlit("everyone");
    assert(plain_lower(h).len() == 32);
    assert(identity_hash(h) == Some(Who::Identity(hash)));
    assert(plain_entry(line, aliases) == Some((Perm::Admin, Who::Identity(hash))));
    let lists = plainly_granted(rows, aliases);
    assert(rows.drop_last() =~= Seq::empty());
    assert(rows.last() == line);
    reveal_with_fuel(plainly_granted, 2);
    assert(lists == Access::none().with(Perm::Admin, Who::Identity(hash)));
    assert(lists.admin =~= seq![Who::Identity(hash)]);
    assert(lists.admin[0] == Who::Identity(hash));
}

/// A repository that names nobody for a kind of access refuses it to everyone.
pub proof fn law_nobody_denies(repo: Access, group: Access, hash: Seq<u8>, perm: Perm)
    requires
        repo.list(perm).contains(Who::Nobody),
    ensures
        !grants(repo, group, hash, perm),
{
}

/// The lists of the group do not matter where the repository has a list for the
/// kind of access.
pub proof fn law_repository_overrides_group(
    repo: Access,
    group: Access,
    other: Access,
    hash: Seq<u8>,
    perm: Perm,
)
    requires
        repo.list(perm).len() > 0,
    ensures
        grants(repo, group, hash, perm) == grants(repo, other, hash, perm),
{
}

/// An administrator of the repository has every access that is not refused to
/// everyone.
pub proof fn law_admin_has_access(repo: Access, group: Access, hash: Seq<u8>, perm: Perm)
    requires
        repo.admin.contains(Who::Identity(hash)),
        !repo.list(perm).contains(Who::Nobody),
    ensures
        grants(repo, group, hash, perm),
{
}

/// Where the repository has no lists at all, the group decides.
pub proof fn law_group_decides_by_default(group: Access, hash: Seq<u8>, perm: Perm)
    ensures
        grants(Access::none(), group, hash, perm) == group_grants(group, hash, perm),
{
    assert(!Seq::<Who>::empty().contains(Who::Nobody));
    assert(!Seq::<Who>::empty().contains(Who::All));
    assert(!Seq::<Who>::empty().contains(Who::Identity(hash)));
}

/// Each kind of access has a list of its own; reading and writing together goes by
/// the list for reading.
pub proof fn law_each_access_has_its_list(a: Access)
    ensures
        a.list(Perm::Read) == a.read,
        a.list(Perm::Write) == a.write,
        a.list(Perm::ReadWrite) == a.read,
        a.list(Perm::Create) == a.create,
        a.list(Perm::Stats) == a.stats,
        a.list(Perm::Release) == a.release,
        a.list(Perm::Interact) == a.interact,
        a.list(Perm::Propose) == a.propose,
        a.list(Perm::Admin) == a.admin,
{
}

/// Where the list of a repository names everyone, and not nobody, every identity has
/// the access, whatever the group says; and so has an identity that the list names.
pub proof fn law_listed_identity_has_access(
    repo: Access,
    group: Access,
    hash: Seq<u8>,
    perm: Perm,
)
    requires
        !repo.list(perm).contains(Who::Nobody),
        repo.list(perm).contains(Who::All) || repo.list(perm).contains(Who::Identity(hash)),
    ensures
        grants(repo, group, hash, perm),
{
}

/// An identity that the repository names neither in its list nor as an administrator
/// has no access where that list has entries and none of them is for everyone.
pub proof fn law_unlisted_identity_is_refused(
    repo: Access,
    group: Access,
    hash: Seq<u8>,
    perm: Perm,
)
    requires
        repo.list(perm).len() > 0,
        !repo.list(perm).contains(Who::All),
        !repo.list(perm).contains(Who::Identity(hash)),
        !repo.admin.contains(Who::Identity(hash)),
    ensures
        !grants(repo, group, hash, perm),
{
}

/// Where the repository says nothing of a kind of access and the identity is not its
/// administrator, the identity has the access exactly if the group names it, or
/// everyone, or it as an administrator, and does not name nobody.
pub proof fn law_group_decides_where_the_repository_does_not(
    repo: Access,
    group: Access,
    hash: Seq<u8>,
    perm: Perm,
)
    requires
        repo.list(perm).len() == 0,
        !repo.admin.contains(Who::Identity(hash)),
    ensures
        grants(repo, group, hash, perm) <==> !group.list(perm).contains(Who::Nobody) && (group.list(
            perm,
        ).contains(Who::All) || group.list(perm).contains(Who::Identity(hash))
            || group.admin.contains(Who::Identity(hash))),
{
    assert(!repo.list(perm).contains(Who::Nobody));
    assert(!repo.list(perm).contains(Who::All));
    assert(!repo.list(perm).contains(Who::Identity(hash)));
}

/// The group grants an access exactly where it names the identity, or everyone, or
/// the identity as an administrator, and does not name nobody.
pub proof fn law_group_grants_what_it_lists(group: Access, hash: Seq<u8>, perm: Perm)
    ensures
        group_grants(group, hash, perm) <==> !group.list(perm).contains(Who::Nobody) && (group.list(
            perm,
        ).contains(Who::All) || group.list(perm).contains(Who::Identity(hash))
            || group.admin.contains(Who::Identity(hash))),
{
}

/// The words for the kinds of access.
pub proof fn law_words_name_accesses()
    ensures
        perm_named("r"@) == Some(Perm::Read),
        perm_named("read"@) == Some(Perm::Read),
        perm_named("w"@) == Some(Perm::Write),
        perm_named("write"@) == Some(Perm::Write),
        perm_named("rw"@) == Some(Perm::ReadWrite),
        perm_named("readwrite"@) == Some(Perm::ReadWrite),
        perm_named("c"@) == Some(Perm::Create),
        perm_named("create"@) == Some(Perm::Create),
        perm_named("s"@) == Some(Perm::Stats),
        perm_named("stats"@) == Some(Perm::Stats),
        perm_named("rel"@) == Some(Perm::Release),
        perm_named("release"@) == Some(Perm::Release),
        perm_named("i"@) == Some(Perm::Interact),
        perm_named("interact"@) == Some(Perm::Interact),
        perm_named("p"@) == Some(Perm::Propose),
        perm_named("propose"@) == Some(Perm::Propose),
        perm_named("adm"@) == Some(Perm::Admin),
        perm_named("admin"@) == Some(Perm::Admin),
{
    reveal_strlit("r");
    assert("r"@.len() == 1);
    reveal_strlit("read");
    assert("read"@.len() == 4);
    reveal_strlit("w");
    assert("w"@.len() == 1);
    reveal_strlit("write");
    assert("write"@.len() == 5);
    reveal_strlit("rw");
    assert("rw"@.len() == 2);
    reveal_strlit("readwrite");
    assert("readwrite"@.len() == 9);
    reveal_strlit("c");
    assert("c"@.len() == 1);
    reveal_strlit("create");
    assert("create"@.len() == 6);
    reveal_strlit("s");
    assert("s"@.len() == 1);
    reveal_strlit("stats");
    assert("stats"@.len() == 5);
    reveal_strlit("rel");
    assert("rel"@.len() == 3);
    reveal_strlit("release");
    assert("release"@.len() == 7);
    reveal_strlit("i");
    assert("i"@.len() == 1);
    reveal_strlit("interact");
    assert("interact"@.len() == 8);
    reveal_strlit("p");
    assert("p"@.len() == 1);
    reveal_strlit("propose");
    assert("propose"@.len() == 7);
    reveal_strlit("adm");
    assert("adm"@.len() == 3);
    reveal_strlit("admin");
    assert("admin"@.len() == 5);
    assert("r"@[0] != "w"@[0]);
    assert("r"@[0] != "c"@[0]);
    assert("r"@[0] != "s"@[0]);
    assert("r"@[0] != "i"@[0]);
    assert("r"@[0] != "p"@[0]);
    assert("w"@[0] != "c"@[0]);
    assert("w"@[0] != "s"@[0]);
    assert("w"@[0] != "i"@[0]);
    assert("w"@[0] != "p"@[0]);
    assert("c"@[0] != "s"@[0]);
    assert("c"@[0] != "i"@[0]);
    assert("c"@[0] != "p"@[0]);
    assert("s"@[0] != "i"@[0]);
    assert("s"@[0] != "p"@[0]);
    assert("i"@[0] != "p"@[0]);
    assert("write"@[0] != "stats"@[0]);
    assert("write"@[0] != "admin"@[0]);
    assert("stats"@[0] != "admin"@[0]);
    assert("rel"@[0] != "adm"@[0]);
    assert("release"@[0] != "propose"@[0]);
}

/// The words for nobody and for everyone, where they are no aliases.
pub proof fn law_words_name_targets(t: Seq<char>, aliases: Map<Seq<char>, String>)
    requires
        !aliases.contains_key(t),
    ensures
        target_named(t, "n"@, aliases) == Some(Who::Nobody),
        target_named(t, "none"@, aliases) == Some(Who::Nobody),
        target_named(t, "nobody"@, aliases) == Some(Who::Nobody),
        target_named(t, "a"@, aliases) == Some(Who::All),
        target_named(t, "all"@, aliases) == Some(Who::All),
        target_named(t, "everyone"@, aliases) == Some(Who::All),
{
    reveal_strlit("n");
    assert("n"@.len() == 1);
    reveal_strlit("none");
    assert("none"@.len() == 4);
    reveal_strlit("nobody");
    assert("nobody"@.len() == 6);
    reveal_strlit("a");
    assert("a"@.len() == 1);
    reveal_strlit("all");
    assert("all"@.len() == 3);
    reveal_strlit("everyone");
    assert("everyone"@.len() == 8);
    assert("n"@[0] != "a"@[0]);
}

/// An alias stands for the identity that it is given, before any other meaning of the
/// word.
pub proof fn law_alias_stands_for_its_identity(
    t: Seq<char>,
    lower: Seq<char>,
    aliases: Map<Seq<char>, String>,
    hash: Seq<u8>,
)
    requires
        aliases.contains_key(t),
        aliases[t]@ == digits::hex_text(hash),
        hash.len() == 16,
    ensures
        target_named(t, lower, aliases) == Some(Who::Identity(hash)),
{
    let h = digits::hex_text(hash);
    digits::law_hex_round_trip(hash);
    assert(digits::is_hex(h[0]) && digits::is_hex(h[31]));
    text::lemma_trimmed_already(h);
}

/// A line that grants an access to a target adds that target to the list of the
/// access, an entry for reading and writing to both lists, and takes nothing away.
pub proof fn law_entry_joins_its_lists(
    lines: Seq<Seq<char>>,
    line: Seq<char>,
    aliases: Map<Seq<char>, String>,
    perm: Perm,
    who: Who,
)
    requires
        text::trimmed(line).len() > 0 && text::trimmed(line)[0] != '#',
        entry(text::trimmed(line), aliases) == Some((perm, who)),
    ensures
        ({
            let before = granted(lines, aliases);
            let now = granted(lines.push(line), aliases);
            &&& perm == Perm::Read || perm == Perm::ReadWrite ==> now.read.contains(who)
            &&& perm == Perm::Write || perm == Perm::ReadWrite ==> now.write.contains(who)
            &&& perm == Perm::Create ==> now.create.contains(who)
            &&& perm == Perm::Stats ==> now.stats.contains(who)
            &&& perm == Perm::Release ==> now.release.contains(who)
            &&& perm == Perm::Interact ==> now.interact.contains(who)
            &&& perm == Perm::Propose ==> now.propose.contains(who)
            &&& perm == Perm::Admin ==> now.admin.contains(who)
            &&& perm != Perm::Read && perm != Perm::ReadWrite ==> now.read == before.read
            &&& perm != Perm::Write && perm != Perm::ReadWrite ==> now.write == before.write
            &&& perm != Perm::Create ==> now.create == before.create
            &&& perm != Perm::Stats ==> now.stats == before.stats
            &&& perm != Perm::Release ==> now.release == before.release
            &&& perm != Perm::Interact ==> now.interact == before.interact
            &&& perm != Perm::Propose ==> now.propose == before.propose
            &&& perm != Perm::Admin ==> now.admin == before.admin
        }),
{
    assert(lines.push(line).drop_last() =~= lines);
    assert forall|list: Seq<Who>| #[trigger] joined(list, who).contains(who) by {
        if !list.contains(who) {
            assert(list.push(who)[list.len() as int] == who);
        }
    }
}

/// A blank line, a comment and a line that is no entry grant nothing.
pub proof fn law_other_lines_grant_nothing(
    lines: Seq<Seq<char>>,
    line: Seq<char>,
    aliases: Map<Seq<char>, String>,
)
    requires
        text::trimmed(line).len() == 0 || text::trimmed(line)[0] == '#' || entry(
            text::trimmed(line),
            aliases,
        ) is None,
    ensures
        granted(lines.push(line), aliases) == granted(lines, aliases),
        granted(Seq::empty(), aliases).read.len() == 0,
        granted(Seq::empty(), aliases).write.len() == 0,
        granted(Seq::empty(), aliases).admin.len() == 0,
{
    assert(lines.push(line).drop_last() =~= lines);
}

/// An entry is a word for the access, a colon, and whom it speaks of.
pub proof fn law_entry_has_two_halves(
    kind: Seq<char>,
    target: Seq<char>,
    aliases: Map<Seq<char>, String>,
)
    requires
        !kind.contains(':'),
        text::trimmed(kind + ":"@ + target) == kind + ":"@ + target,
    ensures
        plain_entry(kind + ":"@ + target, aliases) == match (
            perm_named(plain_lower(kind)),
            target_named(
                text::trimmed(target),
                plain_lower(text::trimmed(target)),
                aliases,
            ),
        ) {
            (Some(perm), Some(who)) => Some((perm, who)),
            _ => None,
        },
{
    let line = kind + ":"@ + target;
    reveal_strlit(":");
    assert(line[kind.len() as int] == ':');
    assert forall|j: int| 0 <= j < kind.len() implies line[j] != ':' by {
        assert(line[j] == kind[j]);
        assert(kind.contains(kind[j]));
    }
    text::lemma_first_is(line, ':', kind.len() as int);
    assert(line.take(kind.len() as int) =~= kind);
    assert(line.skip(kind.len() as int + 1) =~= target);
}

// ---------------------------------------------------------------------------
// Executable functions
// ---------------------------------------------------------------------------

impl Target {
    /// Whether the target is nobody.
    pub fn is_none(&self) -> (r: bool)
        ensures
            r == (self@ == Who::Nobody),
    {
        match self {
            Target::Nobody => true,
            _ => false,
        }
    }

    /// Whether the target is everybody.
    pub fn is_all(&self) -> (r: bool)
        ensures
            r == (self@ == Who::All),
    {
        match self {
            Target::All => true,
            _ => false,
        }
    }

    fn is_identity(&self, hash: &[u8]) -> (r: bool)
        ensures
            r == (self@ == Who::Identity(hash@)),
    {
        match self {
            Target::Identity(h) => bytes::same(h.as_slice(), hash),
            _ => false,
        }
    }

    fn same(&self, other: &Target) -> (r: bool)
        ensures
            r == (self@ == other@),
    {
        match other {
            Target::Nobody => self.is_none(),
            Target::All => self.is_all(),
            Target::Identity(h) => self.is_identity(h.as_slice()),
        }
    }

    /// A copy of the target.
    pub fn copy(&self) -> (r: Target)
        ensures
            r@ == self@,
    {
        match self {
            Target::Nobody => Target::Nobody,
            Target::All => Target::All,
            Target::Identity(h) => Target::Identity(bytes::copy(h.as_slice())),
        }
    }
}

impl Default for AccessLists {
    fn default() -> (r: Self)
        ensures
            r@ == Access::none(),
    {
        let r = AccessLists {
            read: Vec::new(),
            write: Vec::new(),
            create: Vec::new(),
            stats: Vec::new(),
            release: Vec::new(),
            interact: Vec::new(),
            propose: Vec::new(),
            admin: Vec::new(),
        };
        assert(r@ =~= Access::none());
        r
    }
}

impl AccessLists {
    /// The list that decides on a kind of access.
    pub fn list_for(&self, perm: Perm) -> (r: &Vec<Target>)
        ensures
            whos(r@) == self@.list(perm),
    {
        match perm {
            Perm::Read => &self.read,
            Perm::ReadWrite => &self.read,
            Perm::Write => &self.write,
            Perm::Create => &self.create,
            Perm::Stats => &self.stats,
            Perm::Release => &self.release,
            Perm::Interact => &self.interact,
            Perm::Propose => &self.propose,
            Perm::Admin => &self.admin,
        }
    }
}

fn decode_identity_hash(h: &str) -> (r: Option<Target>)
    ensures
        match r {
            Some(t) => identity_hash(h@) == Some(t@),
            None => identity_hash(h@) is None,
        },
{
    let t = text::trim(h);
    match digits::hex_decode(t.as_str()) {
        Some(b) => if b.len() == 16 {
            Some(Target::Identity(b))
        } else {
            None
        },
        None => None,
    }
}

/// The kind of access that a lower case word names.
pub fn perm_by_name(w: &str) -> (r: Option<Perm>)
    ensures
        r == perm_named(w@),
{
    if text::same(w, "r") || text::same(w, "read") {
        Some(Perm::Read)
    } else if text::same(w, "w") || text::same(w, "write") {
        Some(Perm::Write)
    } else if text::same(w, "rw") || text::same(w, "readwrite") {
        Some(Perm::ReadWrite)
    } else if text::same(w, "c") || text::same(w, "create") {
        Some(Perm::Create)
    } else if text::same(w, "s") || text::same(w, "stats") {
        Some(Perm::Stats)
    } else if text::same(w, "rel") || text::same(w, "release") {
        Some(Perm::Release)
    } else if text::same(w, "i") || text::same(w, "interact") {
        Some(Perm::Interact)
    } else if text::same(w, "p") || text::same(w, "propose") {
        Some(Perm::Propose)
    } else if text::same(w, "adm") || text::same(w, "admin") {
        Some(Perm::Admin)
    } else {
        None
    }
}

/// The target that a trimmed text with the lower case form `lower` names.
pub fn target_by_name(t: &str, lower: &str, aliases: &TextMap<String>) -> (r: Option<Target>)
    ensures
        match r {
            Some(x) => target_named(t@, lower@, aliases@) == Some(x@),
            None => target_named(t@, lower@, aliases@) is None,
        },
{
    if let Some(h) = aliases.get(t) {
        return decode_identity_hash(h.as_str());
    }
    if text::same(lower, "n") || text::same(lower, "none") || text::same(lower, "nobody") {
        return Some(Target::Nobody);
    }
    if text::same(lower, "a") || text::same(lower, "all") || text::same(lower, "everyone") {
        return Some(Target::All);
    }
    decode_identity_hash(t)
}

/// Parses an entry such as `r:all`, `adm:9710b86ba12c42d1d8f30f74fe509286` or
/// `rw:nobody`. Identity aliases are resolved first. Returns `None` for an entry
/// that is not valid.
pub fn parse_permission(line: &str, aliases: &TextMap<String>) -> (r: Option<(Perm, Target)>)
    ensures
        match r {
            Some((p, t)) => entry(line@, aliases@) == Some((p, t@)),
            None => entry(line@, aliases@) is None,
        },
        vstd::utf8::is_ascii_chars(line@) ==> match r {
            Some((p, t)) => plain_entry(line@, aliases@) == Some((p, t@)),
            None => plain_entry(line@, aliases@) is None,
        },
{
    let ghost given = line@;
    let line = text::trim(line);
    let (perm_text, target_text) = match text::split_once(line.as_str(), ':') {
        Some(p) => p,
        None => {
            return None;
        },
    };
    let perm_lower = text::to_lowercase(perm_text.as_str());
    let t = text::trim(target_text.as_str());
    let lower = text::to_lowercase(t.as_str());
    proof {
        if vstd::utf8::is_ascii_chars(given) {
            text::lemma_trimmed(given);
            text::lemma_first_of(line@, ':');
            text::lemma_trimmed(target_text@);
            assert(perm_lower@ =~= plain_lower(perm_text@));
            assert(lower@ =~= plain_lower(t@));
        }
    }
    match perm_by_name(perm_lower.as_str()) {
        Some(perm) => match target_by_name(t.as_str(), lower.as_str(), aliases) {
            Some(target) => Some((perm, target)),
            None => None,
        },
        None => None,
    }
}

fn join_list(list: &mut Vec<Target>, target: &Target)
    ensures
        whos(final(list)@) == joined(whos(old(list)@), target@),
{
    let ghost before = whos(list@);
    let mut i: usize = 0;
    while i < list.len()
        invariant
            i <= list@.len(),
            before == whos(list@),
            forall|j: int| 0 <= j < i ==> before[j] != target@,
            list@ == old(list)@,
        decreases list@.len() - i,
    {
        if list[i].same(target) {
            assert(before[i as int] == target@);
            return;
        }
        i = i + 1;
    }
    list.push(target.copy());
    assert(whos(list@) =~= before.push(target@));
}

/// The lines of ASCII text are ASCII text.
proof fn lemma_rows_ascii(s: Seq<char>)
    requires
        vstd::utf8::is_ascii_chars(s),
    ensures
        forall|i: int|
            0 <= i < text::rows(s).len() ==> vstd::utf8::is_ascii_chars(
                #[trigger] text::rows(s)[i],
            ),
    decreases s.len(),
{
    if s.len() > 0 {
        text::lemma_first_of(s, '\n');
        match text::first_of(s, '\n') {
            Some(i) => {
                let rest = s.skip(i + 1);
                lemma_rows_ascii(rest);
                assert forall|k: int| 0 <= k < text::rows(s).len() implies vstd::utf8::is_ascii_chars(
                    #[trigger] text::rows(s)[k],
                ) by {
                    if k == 0 {
                        assert(text::rows(s)[0] == text::without_return(s.take(i)));
                    } else {
                        assert(text::rows(s)[k] == text::rows(rest)[k - 1]);
                    }
                }
            },
            None => {},
        }
    }
}

/// Builds the access lists from the contents of an access file or from the
/// entries of a configuration.
pub fn permissions_from_allowed_input(input: &str, aliases: &TextMap<String>) -> (r: AccessLists)
    ensures
        r@ == granted(text::rows(input@), aliases@),
        vstd::utf8::is_ascii_chars(input@) ==> r@ == plainly_granted(
            text::rows(input@),
            aliases@,
        ),
        r@.distinct(),
{
    let lines = text::lines(input);
    let ghost all = text::rows(input@);
    let ghost plain = vstd::utf8::is_ascii_chars(input@);
    proof {
        if plain {
            lemma_rows_ascii(input@);
        }
    }
    let mut lists = AccessLists::default();
    let mut i: usize = 0;
    assert(all.take(0) =~= Seq::<Seq<char>>::empty());
    while i < lines.len()
        invariant
            i <= lines@.len(),
            all == text::views(lines@),
            lists@ == granted(all.take(i as int), aliases@),
            plain ==> lists@ == plainly_granted(all.take(i as int), aliases@),
            plain ==> forall|j: int|
                0 <= j < all.len() ==> vstd::utf8::is_ascii_chars(#[trigger] all[j]),
        decreases lines@.len() - i,
    {
        let ghost before = lists@;
        proof {
            if plain {
                assert(vstd::utf8::is_ascii_chars(all[i as int]));
                text::lemma_trimmed(all[i as int]);
            }
        }
        assert(all.take(i + 1).drop_last() =~= all.take(i as int));
        assert(all.take(i + 1).last() == lines@[i as int]@);
        let line = text::trim(lines[i].as_str());
        let first = text::starts_with(line.as_str(), "#");
        proof {
            reveal_strlit("#");
            if line@.len() > 0 {
                assert(line@.take(1) =~= seq![line@[0]]);
                assert("#"@ =~= seq!['#']);
                assert((line@.take(1) == "#"@) == (line@[0] == '#')) by {
                    assert(line@.take(1)[0] == line@[0]);
                }
            }
            assert((line@.len() == 0 || first) == skipped(lines@[i as int]@));
        }
        if !line.as_str().is_empty() && !first {
            if let Some((perm, target)) = parse_permission(line.as_str(), aliases) {
                match perm {
                    Perm::Read => join_list(&mut lists.read, &target),
                    Perm::Write => join_list(&mut lists.write, &target),
                    Perm::ReadWrite => {
                        join_list(&mut lists.read, &target);
                        join_list(&mut lists.write, &target);
                    },
                    Perm::Create => join_list(&mut lists.create, &target),
                    Perm::Stats => join_list(&mut lists.stats, &target),
                    Perm::Release => join_list(&mut lists.release, &target),
                    Perm::Interact => join_list(&mut lists.interact, &target),
                    Perm::Propose => join_list(&mut lists.propose, &target),
                    Perm::Admin => join_list(&mut lists.admin, &target),
                }
                assert(lists@ =~= before.with(perm, target@));
            }
        }
        i = i + 1;
    }
    assert(all.take(all.len() as int) =~= all);
    proof {
        law_lists_are_distinct(all, aliases@);
    }
    lists
}

fn any_none(list: &Vec<Target>) -> (r: bool)
    ensures
        r == whos(list@).contains(Who::Nobody),
{
    let mut i: usize = 0;
    while i < list.len()
        invariant
            i <= list@.len(),
            forall|j: int| 0 <= j < i ==> whos(list@)[j] != Who::Nobody,
        decreases list@.len() - i,
    {
        if list[i].is_none() {
            assert(whos(list@)[i as int] == Who::Nobody);
            return true;
        }
        i = i + 1;
    }
    false
}

fn any_all(list: &Vec<Target>) -> (r: bool)
    ensures
        r == whos(list@).contains(Who::All),
{
    let mut i: usize = 0;
    while i < list.len()
        invariant
            i <= list@.len(),
            forall|j: int| 0 <= j < i ==> whos(list@)[j] != Who::All,
        decreases list@.len() - i,
    {
        if list[i].is_all() {
            assert(whos(list@)[i as int] == Who::All);
            return true;
        }
        i = i + 1;
    }
    false
}

fn contains_identity(list: &Vec<Target>, hash: &[u8]) -> (r: bool)
    ensures
        r == whos(list@).contains(Who::Identity(hash@)),
{
    let mut i: usize = 0;
    while i < list.len()
        invariant
            i <= list@.len(),
            forall|j: int| 0 <= j < i ==> whos(list@)[j] != Who::Identity(hash@),
        decreases list@.len() - i,
    {
        if list[i].is_identity(hash) {
            assert(whos(list@)[i as int] == Who::Identity(hash@));
            return true;
        }
        i = i + 1;
    }
    false
}

/// Whether `remote_hash` is granted `perm`: by the repository's own lists first,
/// then by those of the group.
pub fn resolve_permission(
    repo: &AccessLists,
    group: &AccessLists,
    remote_hash: &[u8],
    perm: Perm,
) -> (r: bool)
    ensures
        r == grants(repo@, group@, remote_hash@, perm),
{
    let repo_list = repo.list_for(perm);
    assert(repo_list@.len() == repo@.list(perm).len());
    if any_none(repo_list) {
        false
    } else if any_all(repo_list) {
        true
    } else if contains_identity(repo_list, remote_hash) {
        true
    } else if contains_identity(&repo.admin, remote_hash) {
        true
    } else if repo_list.len() > 0 {
        false
    } else {
        resolve_group_permission(group, remote_hash, perm)
    }
}

/// Whether the group's lists grant `perm` to `remote_hash`.
pub fn resolve_group_permission(group: &AccessLists, remote_hash: &[u8], perm: Perm) -> (r: bool)
    ensures
        r == group_grants(group@, remote_hash@, perm),
{
    let list = group.list_for(perm);
    if any_none(list) {
        false
    } else if any_all(list) {
        true
    } else if contains_identity(list, remote_hash) {
        true
    } else {
        contains_identity(&group.admin, remote_hash)
    }
}

} // verus!
