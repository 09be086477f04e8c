//! The files that a run lints.
use crate::file_types::{kind_of_extension, FileKind};
use crate::paths::{extension_of, join_path, join_paths};
use vstd::prelude::*;

verus! {

/// A file to lint and the language it holds.
#[derive(Debug, Clone, PartialEq, Eq)]
pub struct LintFile {
    pub path: String,
    pub kind: FileKind,
}

impl LintFile {
    /// The file at `path`, its kind judged by its extension.
    pub fn new(path: &str) -> (f: LintFile)
        ensures
            f.path@ == path@,
            f.kind == kind_of_extension(extension_of(path@)),
    {
        LintFile { path: path.to_owned(), kind: FileKind::detect(path) }
    }
}

/// The name of the state file that a directory stands for.
pub open spec fn init_sls() -> Seq<char> {
    seq!['i', 'n', 'i', 't', '.', 's', 'l', 's']
}

/// The path linted for an input: a directory stands for its `init.sls`.
pub open spec fn target_path(input: Seq<char>, is_dir: bool) -> Seq<char> {
    if is_dir {
        join_path(input, init_sls())
    } else {
        input
    }
}

/// The path linted for an input; `is_dir` says whether it names a directory.
pub fn lint_target(input: &str, is_dir: bool) -> (r: String)
    ensures
        r@ == target_path(input@, is_dir),
{
    if is_dir {
        proof {
            reveal_strlit("init.sls");
            assert("init.sls"@ =~= init_sls());
        }
        join_paths(input, "init.sls")
    } else {
        input.to_owned()
    }
}

} // verus!
