//! The interface of a rule and what it hands back before the engine turns
//! it into a problem.
use crate::engine::context::{ContextView, RuleContext};
use crate::problem::{problem_of, Problem, ProblemView, RuleMeta};
use vstd::prelude::*;

verus! {

/// A finding before the engine attaches the rule and file to it. A
/// `skip_excerpt`, when present, is the text whose `# noqa` comments may
/// silence the finding.
#[derive(Debug, Clone, PartialEq, Eq)]
pub struct ProblemSeed {
    pub linenumber: usize,
    pub line: String,
    pub message: Option<String>,
    pub skip_excerpt: Option<String>,
}

/// The model of a seed.
pub struct SeedView {
    pub linenumber: nat,
    pub line: Seq<char>,
    pub message: Option<Seq<char>>,
    pub skip_excerpt: Option<Seq<char>>,
}

pub open spec fn opt_view(o: Option<String>) -> Option<Seq<char>> {
    match o {
        Some(s) => Some(s@),
        None => None,
    }
}

pub open spec fn opt_str_view(o: Option<&str>) -> Option<Seq<char>> {
    match o {
        Some(s) => Some(s@),
        None => None,
    }
}

impl View for ProblemSeed {
    type V = SeedView;

    open spec fn view(&self) -> SeedView {
        SeedView {
            linenumber: self.linenumber as nat,
            line: self.line@,
            message: opt_view(self.message),
            skip_excerpt: opt_view(self.skip_excerpt),
        }
    }
}

pub open spec fn seed_views(v: Seq<ProblemSeed>) -> Seq<SeedView> {
    v.map_values(|s: ProblemSeed| s@)
}

pub open spec fn opt_seed_view(o: Option<ProblemSeed>) -> Option<SeedView> {
    match o {
        Some(s) => Some(s@),
        None => None,
    }
}

/// The problem that `meta` makes of a seed in the file `filename`.
pub open spec fn seed_problem(seed: SeedView, meta: RuleMeta, filename: Seq<char>) -> ProblemView {
    problem_of(meta, filename, seed.linenumber, seed.line, seed.message)
}

fn clone_str_opt(o: Option<&str>) -> (r: Option<String>)
    ensures
        opt_view(r) == opt_str_view(o),
{
    match o {
        Some(s) => Some(s.to_owned()),
        None => None,
    }
}

impl ProblemSeed {
    /// A finding on one line.
    pub fn line(linenumber: usize, line: &str, message: Option<&str>) -> (s: Self)
        ensures
            s@ == (SeedView {
                linenumber: linenumber as nat,
                line: line@,
                message: opt_str_view(message),
                skip_excerpt: None,
            }),
    {
        ProblemSeed {
            linenumber,
            line: line.to_owned(),
            message: clone_str_opt(message),
            skip_excerpt: None,
        }
    }

    /// A finding about a section of text, which `# noqa` comments anywhere
    /// in `skip_excerpt` may silence.
    pub fn section(linenumber: usize, line: &str, message: Option<&str>, skip_excerpt: &str) -> (s:
        Self)
        ensures
            s@ == (SeedView {
                linenumber: linenumber as nat,
                line: line@,
                message: opt_str_view(message),
                skip_excerpt: Some(skip_excerpt@),
            }),
    {
        ProblemSeed {
            linenumber,
            line: line.to_owned(),
            message: clone_str_opt(message),
            skip_excerpt: Some(skip_excerpt.to_owned()),
        }
    }

    pub fn into_problem(self, meta: &RuleMeta, filename: &str) -> (p: Problem)
        ensures
            p@ == seed_problem(self@, *meta, filename@),
    {
        self.to_problem(meta, filename)
    }

    /// The problem that `meta` makes of this seed in `filename`.
    pub fn to_problem(&self, meta: &RuleMeta, filename: &str) -> (p: Problem)
        ensures
            p@ == seed_problem(self@, *meta, filename@),
    {
        let message: Option<&str> = match &self.message {
            Some(m) => Some(m.as_str()),
            None => None,
        };
        Problem::from_meta(meta, filename, self.linenumber, self.line.as_str(), message)
    }
}

/// A lint rule. A rule looks at single lines (`check_line`), at the whole
/// text (`check_text`), or both; the engine decides which lines and which
/// findings count. The `spec_*` functions say what an implementation
/// returns; rules of this crate define them and are proved to keep to them.
/// A rule written outside this crate is trusted to keep to its own.
pub trait Rule {
    /// The metadata that `meta` returns.
    open spec fn spec_meta(&self) -> RuleMeta {
        arbitrary()
    }

    /// What `check_line` finds; nothing unless the rule says otherwise.
    open spec fn spec_check_line(&self, ctx: ContextView, line_no: nat, line: Seq<char>) -> Option<
        SeedView,
    > {
        None
    }

    /// What `check_text` finds; nothing unless the rule says otherwise.
    open spec fn spec_check_text(&self, ctx: ContextView, text: Seq<char>) -> Seq<SeedView> {
        Seq::empty()
    }

    fn meta(&self) -> (m: &'static RuleMeta)
        ensures
            *m == self.spec_meta(),
    ;

    fn check_line(&self, ctx: &RuleContext, line_no: usize, line: &str) -> (r: Option<ProblemSeed>)
        ensures
            opt_seed_view(r) == self.spec_check_line(ctx@, line_no as nat, line@),
    ;

    fn check_text(&self, ctx: &RuleContext, text: &str) -> (r: Vec<ProblemSeed>)
        ensures
            seed_views(r@) == self.spec_check_text(ctx@, text@),
    ;
}

} // verus!
