//! What a rule is told about the file it checks.
use crate::config::Config;
use crate::file_types::FileKind;
use vstd::prelude::*;

verus! {

pub struct RuleContext<'a> {
    pub filename: &'a str,
    pub kind: FileKind,
    pub config: &'a Config,
}

/// What the rules' specifications see of a context: the file name as text,
/// the kind and the configuration.
pub struct ContextView {
    pub filename: Seq<char>,
    pub kind: FileKind,
    pub config: Config,
}

impl<'a> View for RuleContext<'a> {
    type V = ContextView;

    open spec fn view(&self) -> ContextView {
        ContextView { filename: self.filename@, kind: self.kind, config: *self.config }
    }
}

impl<'a> RuleContext<'a> {
    pub fn new(filename: &'a str, kind: FileKind, config: &'a Config) -> (c: Self)
        ensures
            c.filename == filename,
            c.kind == kind,
            c.config == config,
    {
        RuleContext { filename, kind, config }
    }
}

} // verus!
