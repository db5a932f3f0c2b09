//! The configuration of the git service.

use vstd::prelude::*;

use crate::text;
use crate::text_map::TextMap;

verus! {

pub const APP_NAME: &'static str = "git";

pub const APP_ASPECT: &'static str = "repositories";

/// The configuration of the git service.
pub struct Cfg {
    pub rngit: CfgRngit,
    /// The directory of each group of repositories.
    pub repositories: TextMap<String>,
    /// The access entries of each group.
    pub access: TextMap<Vec<String>>,
    /// The identity hash of each alias.
    pub aliases: TextMap<String>,
    /// The identity hashes that have no access at all.
    pub blocked_identities: Vec<String>,
}

/// The part of the configuration on the node itself.
pub struct CfgRngit {
    /// The seconds between announces; none are sent where it is 0.
    pub announce_interval: u64,
    /// The name of the node.
    pub node_name: String,
}

/// The seconds between announces where nothing else is configured.
pub fn default_announce_interval() -> (r: u64)
    ensures
        r == 600,
{
    600
}

impl Default for CfgRngit {
    fn default() -> (r: Self)
        ensures
            r.announce_interval == 600,
            r.node_name@ == Seq::<char>::empty(),
    {
        CfgRngit { announce_interval: default_announce_interval(), node_name: String::new() }
    }
}

impl Default for Cfg {
    fn default() -> (r: Self)
        ensures
            r.rngit.announce_interval == 600,
            r.rngit.node_name@ == Seq::<char>::empty(),
            r.repositories@ == Map::<Seq<char>, String>::empty(),
            r.access@ == Map::<Seq<char>, Vec<String>>::empty(),
            r.aliases@ == Map::<Seq<char>, String>::empty(),
            r.blocked_identities@ == Seq::<String>::empty(),
    {
        Cfg {
            rngit: CfgRngit::default(),
            repositories: TextMap::new(),
            access: TextMap::new(),
            aliases: TextMap::new(),
            blocked_identities: Vec::new(),
        }
    }
}

/// The directory of the service's files, below the home directory.
pub fn rngit_dir(home: &str) -> (r: String)
    ensures
        r@ == text::below(home@, ".config/rngit"@),
{
    text::join_path(home, ".config/rngit")
}

/// The configuration file.
pub fn config_path(home: &str) -> (r: String)
    ensures
        r@ == text::below(text::below(home@, ".config/rngit"@), "config"@),
{
    let dir = rngit_dir(home);
    text::join_path(dir.as_str(), "config")
}

/// The file of the service's identity.
pub fn ident_path(home: &str) -> (r: String)
    ensures
        r@ == text::below(text::below(home@, ".config/rngit"@), "rngit"@),
{
    let dir = rngit_dir(home);
    text::join_path(dir.as_str(), "rngit")
}

} // verus!
