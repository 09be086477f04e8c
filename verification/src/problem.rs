//! What a rule is (its metadata) and what it reports (a problem).
use crate::file_types::FileKind;
use vstd::prelude::*;

verus! {

#[derive(Debug, Clone, Copy, PartialEq, Eq, Structural)]
pub enum Severity {
    Info,
    VeryLow,
    Low,
    Medium,
    High,
}

impl Severity {
    /// The label of a severity, as it is printed and serialized.
    pub open spec fn label(self) -> Seq<char> {
        match self {
            Severity::Info => "INFO"@,
            Severity::VeryLow => "VERY_LOW"@,
            Severity::Low => "LOW"@,
            Severity::Medium => "MEDIUM"@,
            Severity::High => "HIGH"@,
        }
    }

    pub fn as_str(self) -> (s: &'static str)
        ensures
            s@ == self.label(),
    {
        match self {
            Severity::Info => "INFO",
            Severity::VeryLow => "VERY_LOW",
            Severity::Low => "LOW",
            Severity::Medium => "MEDIUM",
            Severity::High => "HIGH",
        }
    }
}

/// What describes a rule: its id, texts, severity, tags and the file kinds
/// it applies to (all kinds when `languages` is empty).
#[derive(Debug, Clone, Copy, PartialEq, Eq)]
pub struct RuleMeta {
    pub id: &'static str,
    pub shortdesc: &'static str,
    pub description: &'static str,
    pub severity: Severity,
    pub tags: &'static [&'static str],
    pub languages: &'static [FileKind],
}

/// One finding of one rule in one file.
#[derive(Debug, Clone, PartialEq, Eq)]
pub struct Problem {
    pub id: String,
    pub message: String,
    pub filename: String,
    pub linenumber: usize,
    pub line: String,
    pub severity: Severity,
}

/// The model of a problem: its texts as character sequences.
pub struct ProblemView {
    pub id: Seq<char>,
    pub message: Seq<char>,
    pub filename: Seq<char>,
    pub linenumber: nat,
    pub line: Seq<char>,
    pub severity: Severity,
}

impl View for Problem {
    type V = ProblemView;

    open spec fn view(&self) -> ProblemView {
        ProblemView {
            id: self.id@,
            message: self.message@,
            filename: self.filename@,
            linenumber: self.linenumber as nat,
            line: self.line@,
            severity: self.severity,
        }
    }
}

/// The models of a sequence of problems.
pub open spec fn problem_views(v: Seq<Problem>) -> Seq<ProblemView> {
    v.map_values(|p: Problem| p@)
}

/// The problem that `meta` reports at a line: the rule's own message is its
/// short description unless another message is given.
pub open spec fn problem_of(
    meta: RuleMeta,
    filename: Seq<char>,
    linenumber: nat,
    line: Seq<char>,
    message: Option<Seq<char>>,
) -> ProblemView {
    ProblemView {
        id: meta.id@,
        message: match message {
            Some(m) => m,
            None => meta.shortdesc@,
        },
        filename,
        linenumber,
        line,
        severity: meta.severity,
    }
}

impl Problem {
    pub fn from_meta(
        meta: &RuleMeta,
        filename: &str,
        linenumber: usize,
        line: &str,
        message: Option<&str>,
    ) -> (p: Problem)
        ensures
            p@ == problem_of(
                *meta,
                filename@,
                linenumber as nat,
                line@,
                match message {
                    Some(m) => Some(m@),
                    None => None,
                },
            ),
    {
        let message = match message {
            Some(m) => m.to_owned(),
            None => meta.shortdesc.to_owned(),
        };
        Problem {
            id: meta.id.to_owned(),
            message,
            filename: filename.to_owned(),
            linenumber,
            line: line.to_owned(),
            severity: meta.severity,
        }
    }
}

} // verus!
