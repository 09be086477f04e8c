//! The command-line arguments, as plain values.
use vstd::prelude::*;

verus! {

/// What the command line asks for. Paths are kept as text.
#[derive(Debug, Clone, PartialEq, Eq)]
pub struct CliArgs {
    /// The files and directories to lint.
    pub files: Vec<String>,
    /// `-L`: list the built-in rules.
    pub list_rules: bool,
    /// `-r`: custom rule directories, which are not supported.
    pub rulesdir: Vec<String>,
    /// `-R`: use the default rules alongside custom ones.
    pub use_default_rules: bool,
    /// `-t`: run only the rules that carry one of these tags or ids.
    pub tags: Vec<String>,
    /// `-T`: list the tags of the built-in rules.
    pub list_tags: bool,
    /// `-v`, counted.
    pub verbosity: u8,
    /// `-x`: rule ids or tags to skip, each possibly a comma-separated list.
    pub skip_list: Vec<String>,
    /// `--nocolor`.
    pub no_color: bool,
    /// `--force-color`.
    pub force_color: bool,
    /// `--exclude`: path prefixes to skip.
    pub exclude_paths: Vec<String>,
    /// `--json`.
    pub json: bool,
    /// `--severity`.
    pub severity: bool,
    /// `-c`: the configuration file.
    pub config: Option<String>,
}

impl CliArgs {
    /// No file, no flag.
    pub fn empty() -> (a: CliArgs)
        ensures
            a.files@.len() == 0,
            !a.list_rules,
            a.rulesdir@.len() == 0,
            !a.use_default_rules,
            a.tags@.len() == 0,
            !a.list_tags,
            a.verbosity == 0,
            a.skip_list@.len() == 0,
            !a.no_color,
            !a.force_color,
            a.exclude_paths@.len() == 0,
            !a.json,
            !a.severity,
            a.config is None,
    {
        CliArgs {
            files: Vec::new(),
            list_rules: false,
            rulesdir: Vec::new(),
            use_default_rules: false,
            tags: Vec::new(),
            list_tags: false,
            verbosity: 0,
            skip_list: Vec::new(),
            no_color: false,
            force_color: false,
            exclude_paths: Vec::new(),
            json: false,
            severity: false,
            config: None,
        }
    }
}

} // verus!
