//! The file that a tool keeps its identity in.

use vstd::prelude::*;

use crate::args;
use crate::digits;
use crate::keys;
use crate::text;

verus! {

/// What becomes of the identity of a tool.
#[derive(Debug)]
pub enum Plan {
    /// It is read from the file.
    Read(String),
    /// It is made, and written to the file, which does not exist.
    Create(String),
}

/// What becomes of the identity of a tool, over sequences.
pub enum Intent {
    Read(Seq<char>),
    Create(Seq<char>),
}

impl View for Plan {
    type V = Intent;

    open spec fn view(&self) -> Intent {
        match self {
            Plan::Read(p) => Intent::Read(p@),
            Plan::Create(p) => Intent::Create(p@),
        }
    }
}

/// A file that is named must exist; the file of the tool itself is made where it
/// does not.
pub open spec fn intent(
    given: Option<Seq<char>>,
    given_is_file: bool,
    own: Seq<char>,
    own_is_file: bool,
) -> Result<Intent, Seq<char>> {
    match given {
        Some(p) => if given_is_file {
            Ok(Intent::Read(p))
        } else {
            Err("identity not found: "@ + p)
        },
        None => if own_is_file {
            Ok(Intent::Read(own))
        } else {
            Ok(Intent::Create(own))
        },
    }
}

/// What becomes of the identity of a tool, by the file that is named, if any, and
/// the file of the tool itself, and by which of them exist.
pub fn plan_identity(given: &Option<String>, given_is_file: bool, own: &str, own_is_file: bool) -> (r:
    Result<Plan, String>)
    ensures
        match r {
            Ok(p) => intent(args::opt_text(*given), given_is_file, own@, own_is_file) == Ok::<
                _,
                Seq<char>,
            >(p@),
            Err(e) => intent(args::opt_text(*given), given_is_file, own@, own_is_file) == Err::<
                Intent,
                _,
            >(e@),
        },
{
    match given {
        Some(p) => if given_is_file {
            Ok(Plan::Read(p.clone()))
        } else {
            Err(text::cat("identity not found: ", p.as_str()))
        },
        None => if own_is_file {
            Ok(Plan::Read(own.to_owned()))
        } else {
            Ok(Plan::Create(own.to_owned()))
        },
    }
}

/// The private keys that a file holds: its first 128 characters after the white
/// space at its start.
pub open spec fn stored(content: Seq<char>) -> Option<Seq<u8>> {
    keys::keys_in(text::trimmed(content))
}

/// Reads the private keys that a file holds. `shown` is the path of the file as
/// an error is to show it.
pub fn stored_identity(content: &str, shown: &str) -> (r: Result<Vec<u8>, String>)
    ensures
        match r {
            Ok(k) => stored(content@) == Some(k@) && k@.len() == 64,
            Err(e) => stored(content@) is None && e@ == "bad identity "@ + shown@
                + ": IncorrectHash"@,
        },
{
    let t = text::trim(content);
    match keys::private_from_hex(t.as_str()) {
        Some(k) => Ok(k),
        None => Err(text::cat3("bad identity ", shown, ": IncorrectHash")),
    }
}

/// What is written to the file of a new identity.
pub fn identity_line(private: &[u8]) -> (r: String)
    ensures
        r@ == digits::hex_text(private@) + "\n"@,
{
    let h = digits::hex_encode(private);
    text::cat(h.as_str(), "\n")
}

/// An identity that was written is read back.
pub proof fn law_new_identity_is_read_back(private: Seq<u8>)
    requires
        private.len() == 64,
    ensures
        stored(digits::hex_text(private) + "\n"@) == Some(private),
{
    reveal_strlit("\n");
    digits::law_hex_round_trip(private);
    let h = digits::hex_text(private);
    let s = h + "\n"@;
    assert(digits::is_hex(h[0]) && digits::is_hex(h[127]));
    assert(s[0] == h[0]);
    assert(text::trimmed_start(s) == s);
    assert(s.last() == '\n');
    assert(s.drop_last() =~= h);
    assert(text::trimmed_end(h) == h);
    assert(text::trimmed(s) == h);
    assert(h.take(128) =~= h);
}

} // verus!
