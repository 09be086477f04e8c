//! Finding the configuration file: from the working directory upward, up
//! to the top of a repository.
use crate::paths::{join_path, join_paths, path_parent, std_parent};
use vstd::prelude::*;

verus! {

/// A step of the search for a configuration file, which starts in the
/// working directory and walks up.
pub enum DiscoveryStep {
    /// The file was found at this path.
    Found(String),
    /// There is none: a repository boundary or the top was reached.
    Stop,
    /// Look in this directory next.
    Parent(String),
}

/// The name of the configuration file.
pub open spec fn config_file_name() -> Seq<char> {
    seq!['.', 's', 'a', 'l', 't', '-', 'l', 'i', 'n', 't']
}

/// The name that marks a repository's top directory.
pub open spec fn git_dir_name() -> Seq<char> {
    seq!['.', 'g', 'i', 't']
}

/// Where the configuration file of `dir` would be.
pub fn config_candidate(dir: &str) -> (r: String)
    ensures
        r@ == join_path(dir@, config_file_name()),
{
    proof {
        reveal_strlit(".salt-lint");
        assert(".salt-lint"@ =~= config_file_name());
    }
    join_paths(dir, ".salt-lint")
}

/// Where the repository marker of `dir` would be.
pub fn git_marker(dir: &str) -> (r: String)
    ensures
        r@ == join_path(dir@, git_dir_name()),
{
    proof {
        reveal_strlit(".git");
        assert(".git"@ =~= git_dir_name());
    }
    join_paths(dir, ".git")
}

/// The step of the search in `dir`, given whether its configuration file
/// exists and whether its repository marker exists: the file when it is
/// there; else a stop at a repository's top; else the parent directory, or
/// a stop when there is none.
pub fn discovery_step(dir: &str, has_config: bool, has_git: bool) -> (r: DiscoveryStep)
    ensures
        has_config ==> (r matches DiscoveryStep::Found(p) && p@ == join_path(dir@, config_file_name())),
        !has_config && has_git ==> r is Stop,
        !has_config && !has_git ==> match std_parent(dir@) {
            Some(q) => (r matches DiscoveryStep::Parent(p) && p@ == q),
            None => r is Stop,
        },
{
    if has_config {
        return DiscoveryStep::Found(config_candidate(dir));
    }
    if has_git {
        return DiscoveryStep::Stop;
    }
    match path_parent(dir) {
        Some(p) => DiscoveryStep::Parent(p),
        None => DiscoveryStep::Stop,
    }
}

} // verus!
