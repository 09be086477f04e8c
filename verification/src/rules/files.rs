//! Rules about file names and file modes.
use crate::engine::context::{ContextView, RuleContext};
use crate::engine::rule::{seed_views, ProblemSeed, Rule, SeedView};
use crate::file_types::FileKind;
use crate::paths::{extension_of, path_extension, path_file_name, std_file_name};
use crate::problem::{RuleMeta, Severity};
use crate::regex_api::{regex_compiles, regex_matches};
use crate::rules::{acts_as, line_seed, pattern_matches};
use crate::text::{
    ascii_lower, ascii_lowercase, first_line, first_line_str, split_on, split_str, str_eq,
};
use vstd::prelude::*;

verus! {

pub const FILE_MODE_QUOTATION_PATTERN: &'static str = r#"(?x)^
        \s+
        -\s
        (?:dir_|file_)?mode
        :\s?
        (?:
            (\d{3,4})
            (?:
                ['"]
              |
                \s
              |
                $
            )
          |
            (['"]\d{3,4}(?:[^\d'"]|$))
        )
        "#;

pub const FILE_MODE_LEADING_ZERO_PATTERN: &'static str = r#"(?x)^
        \s+
        -\s
        (?:dir_|file_)?mode
        :\s?
        ['"]?
        ([0-9]{3})
        (?:['"\s]|$)
        "#;

pub struct FileExtensionRule;

pub struct FileModeQuotationRule;

pub struct FileModeLeadingZeroRule;

pub struct SlsFileNameRule;

/// Whether a path's extension is `sls`, ignoring ASCII case.
pub open spec fn has_sls_extension(path: Seq<char>) -> bool {
    match extension_of(path) {
        Some(e) => ascii_lower(e) == seq!['s', 'l', 's'],
        None => false,
    }
}

/// The file name of a path, or nothing.
pub open spec fn base_name(path: Seq<char>) -> Seq<char> {
    match std_file_name(path) {
        Some(n) => n,
        None => Seq::empty(),
    }
}

/// The one finding of a whole-file rule: the first line of the text.
pub open spec fn first_line_finding(text: Seq<char>) -> Seq<SeedView> {
    seq![line_seed(1, first_line(text))]
}

fn first_line_seed(text: &str) -> (r: Vec<ProblemSeed>)
    ensures
        seed_views(r@) == first_line_finding(text@),
{
    let line = first_line_str(text);
    let mut r: Vec<ProblemSeed> = Vec::new();
    r.push(ProblemSeed::line(1, line.as_str(), None));
    proof {
        assert(seed_views(r@) =~= first_line_finding(text@));
    }
    r
}

fn no_seeds() -> (r: Vec<ProblemSeed>)
    ensures
        seed_views(r@) == Seq::<SeedView>::empty(),
{
    let r: Vec<ProblemSeed> = Vec::new();
    assert(seed_views(r@) =~= Seq::<SeedView>::empty());
    r
}

impl Rule for FileExtensionRule {
    open spec fn spec_meta(&self) -> RuleMeta {
        RuleMeta {
            id: "205",
            shortdesc: "Use \".sls\" as a Salt State file extension",
            description: "Salt State files should have the \".sls\" extension",
            severity: Severity::Medium,
            tags: &["formatting"],
            languages: &[],
        }
    }

    open spec fn spec_check_line(&self, ctx: ContextView, line_no: nat, line: Seq<char>) -> Option<
        SeedView,
    > {
        None
    }

    open spec fn spec_check_text(&self, ctx: ContextView, text: Seq<char>) -> Seq<SeedView> {
        if has_sls_extension(ctx.filename) {
            Seq::empty()
        } else {
            first_line_finding(text)
        }
    }

    fn meta(&self) -> (m: &'static RuleMeta) {
        &RuleMeta {
            id: "205",
            shortdesc: "Use \".sls\" as a Salt State file extension",
            description: "Salt State files should have the \".sls\" extension",
            severity: Severity::Medium,
            tags: &["formatting"],
            languages: &[],
        }
    }

    fn check_line(&self, ctx: &RuleContext, line_no: usize, line: &str) -> (r: Option<ProblemSeed>) {
        None
    }

    fn check_text(&self, ctx: &RuleContext, text: &str) -> (r: Vec<ProblemSeed>) {
        let sls = match path_extension(ctx.filename) {
            Some(e) => {
                let l = ascii_lowercase(e.as_str());
                proof {
                    reveal_strlit("sls");
                    assert("sls"@ =~= seq!['s', 'l', 's']);
                }
                str_eq(l.as_str(), "sls")
            },
            None => false,
        };
        if sls {
            no_seeds()
        } else {
            first_line_seed(text)
        }
    }
}

impl Rule for FileModeQuotationRule {
    open spec fn spec_meta(&self) -> RuleMeta {
        RuleMeta {
            id: "207",
            shortdesc: "File modes should always be encapsulated in quotation marks",
            description: "File modes should always be encapsulated in quotation marks",
            severity: Severity::High,
            tags: &["formatting"],
            languages: &[FileKind::Sls],
        }
    }

    open spec fn spec_check_line(&self, ctx: ContextView, line_no: nat, line: Seq<char>) -> Option<
        SeedView,
    > {
        if regex_compiles(FILE_MODE_QUOTATION_PATTERN@) && regex_matches(
            FILE_MODE_QUOTATION_PATTERN@,
            line,
        ) {
            Some(line_seed(line_no, line))
        } else {
            None
        }
    }

    open spec fn spec_check_text(&self, ctx: ContextView, text: Seq<char>) -> Seq<SeedView> {
        Seq::empty()
    }

    fn meta(&self) -> (m: &'static RuleMeta) {
        &RuleMeta {
            id: "207",
            shortdesc: "File modes should always be encapsulated in quotation marks",
            description: "File modes should always be encapsulated in quotation marks",
            severity: Severity::High,
            tags: &["formatting"],
            languages: &[FileKind::Sls],
        }
    }

    fn check_line(&self, ctx: &RuleContext, line_no: usize, line: &str) -> (r: Option<ProblemSeed>) {
        if pattern_matches(FILE_MODE_QUOTATION_PATTERN, line) {
            Some(ProblemSeed::line(line_no, line, None))
        } else {
            None
        }
    }

    fn check_text(&self, ctx: &RuleContext, text: &str) -> (r: Vec<ProblemSeed>) {
        no_seeds()
    }
}

impl Rule for FileModeLeadingZeroRule {
    open spec fn spec_meta(&self) -> RuleMeta {
        RuleMeta {
            id: "208",
            shortdesc: "File modes should always contain a leading zero",
            description: "File modes should always contain a leading zero",
            severity: Severity::Low,
            tags: &["formatting"],
            languages: &[FileKind::Sls],
        }
    }

    open spec fn spec_check_line(&self, ctx: ContextView, line_no: nat, line: Seq<char>) -> Option<
        SeedView,
    > {
        if regex_compiles(FILE_MODE_LEADING_ZERO_PATTERN@) && regex_matches(
            FILE_MODE_LEADING_ZERO_PATTERN@,
            line,
        ) {
            Some(line_seed(line_no, line))
        } else {
            None
        }
    }

    open spec fn spec_check_text(&self, ctx: ContextView, text: Seq<char>) -> Seq<SeedView> {
        Seq::empty()
    }

    fn meta(&self) -> (m: &'static RuleMeta) {
        &RuleMeta {
            id: "208",
            shortdesc: "File modes should always contain a leading zero",
            description: "File modes should always contain a leading zero",
            severity: Severity::Low,
            tags: &["formatting"],
            languages: &[FileKind::Sls],
        }
    }

    fn check_line(&self, ctx: &RuleContext, line_no: usize, line: &str) -> (r: Option<ProblemSeed>) {
        if pattern_matches(FILE_MODE_LEADING_ZERO_PATTERN, line) {
            Some(ProblemSeed::line(line_no, line, None))
        } else {
            None
        }
    }

    fn check_text(&self, ctx: &RuleContext, text: &str) -> (r: Vec<ProblemSeed>) {
        no_seeds()
    }
}

impl Rule for SlsFileNameRule {
    open spec fn spec_meta(&self) -> RuleMeta {
        RuleMeta {
            id: "214",
            shortdesc: "SLS file with a period in the name (besides the suffix period) can not be referenced",
            description: "SLS file with a period in the name (besides the suffix period) can not be referenced",
            severity: Severity::High,
            tags: &["formatting"],
            languages: &[FileKind::Sls],
        }
    }

    open spec fn spec_check_line(&self, ctx: ContextView, line_no: nat, line: Seq<char>) -> Option<
        SeedView,
    > {
        None
    }

    /// A name of more than two `.`-separated pieces is reported.
    open spec fn spec_check_text(&self, ctx: ContextView, text: Seq<char>) -> Seq<SeedView> {
        if split_on(base_name(ctx.filename), '.').len() <= 2 {
            Seq::empty()
        } else {
            first_line_finding(text)
        }
    }

    fn meta(&self) -> (m: &'static RuleMeta) {
        &RuleMeta {
            id: "214",
            shortdesc: "SLS file with a period in the name (besides the suffix period) can not be referenced",
            description: "SLS file with a period in the name (besides the suffix period) can not be referenced",
            severity: Severity::High,
            tags: &["formatting"],
            languages: &[FileKind::Sls],
        }
    }

    fn check_line(&self, ctx: &RuleContext, line_no: usize, line: &str) -> (r: Option<ProblemSeed>) {
        None
    }

    fn check_text(&self, ctx: &RuleContext, text: &str) -> (r: Vec<ProblemSeed>) {
        let basename = match path_file_name(ctx.filename) {
            Some(n) => n,
            None => String::new(),
        };
        let pieces = split_str(basename.as_str(), '.');
        if pieces.len() <= 2 {
            no_seeds()
        } else {
            first_line_seed(text)
        }
    }
}

/// The rules about files, in the order they are registered.
pub fn all_rules() -> (r: Vec<Box<dyn Rule>>)
    ensures
        r@.len() == 4,
        acts_as(r@, 0, FileExtensionRule),
        acts_as(r@, 1, FileModeQuotationRule),
        acts_as(r@, 2, FileModeLeadingZeroRule),
        acts_as(r@, 3, SlsFileNameRule),
{
    let r: Vec<Box<dyn Rule>> = vec![
        Box::new(FileExtensionRule),
        Box::new(FileModeQuotationRule),
        Box::new(FileModeLeadingZeroRule),
        Box::new(SlsFileNameRule),
    ];
    r
}

pub fn builtin_rule_count() -> (n: usize)
    ensures
        n == 4,
{
    4
}

} // verus!
