//! The YAML rule: numbers with a leading zero read as octal.
use crate::engine::context::{ContextView, RuleContext};
use crate::engine::rule::{seed_views, ProblemSeed, Rule, SeedView};
use crate::file_types::FileKind;
use crate::problem::{RuleMeta, Severity};
use crate::regex_api::{regex_compiles, regex_find, regex_first_match, regex_matches};
use crate::rules::{acts_as, line_seed, pattern_matches};
use crate::text::{chars_of, starts_with, string_of_range};
use vstd::prelude::*;

verus! {

pub const YAML_OCTAL_PATTERN: &'static str = r"^[^:]+:\s*0[0-9]+\s*";

pub const YAML_OCTAL_EXCLUDE_PATTERN: &'static str = r"[ T]\d\d:\d\d(?:[: ]|$)";

pub struct YamlHasOctalValueRule;

/// Whether what follows a match may end the value: nothing, a comment, or
/// a Jinja comment.
pub open spec fn ends_value(rest: Seq<char>) -> bool {
    rest.len() == 0 || rest[0] == '#' || starts_with(rest, seq!['{', '#'])
}

/// A line whose value is a number with a leading zero, unless the number is
/// followed by more than a comment or looks like a time of day.
pub open spec fn octal_finding(line_no: nat, line: Seq<char>) -> Option<SeedView> {
    if !regex_compiles(YAML_OCTAL_PATTERN@) {
        None
    } else {
        match regex_first_match(YAML_OCTAL_PATTERN@, line) {
            None => None,
            Some((s, e)) => if !ends_value(line.skip(e)) {
                None
            } else if regex_compiles(YAML_OCTAL_EXCLUDE_PATTERN@) && regex_matches(
                YAML_OCTAL_EXCLUDE_PATTERN@,
                line.subrange(s, e),
            ) {
                None
            } else {
                Some(line_seed(line_no, line))
            },
        }
    }
}

impl Rule for YamlHasOctalValueRule {
    open spec fn spec_meta(&self) -> RuleMeta {
        RuleMeta {
            id: "210",
            shortdesc: "Numbers that start with '0' should always be encapsulated in quotation marks",
            description: "Numbers that start with '0' should always be encapsulated in quotation marks",
            severity: Severity::High,
            tags: &["formatting"],
            languages: &[FileKind::Sls],
        }
    }

    open spec fn spec_check_line(&self, ctx: ContextView, line_no: nat, line: Seq<char>) -> Option<
        SeedView,
    > {
        octal_finding(line_no, line)
    }

    open spec fn spec_check_text(&self, ctx: ContextView, text: Seq<char>) -> Seq<SeedView> {
        Seq::empty()
    }

    fn meta(&self) -> (m: &'static RuleMeta) {
        &RuleMeta {
            id: "210",
            shortdesc: "Numbers that start with '0' should always be encapsulated in quotation marks",
            description: "Numbers that start with '0' should always be encapsulated in quotation marks",
            severity: Severity::High,
            tags: &["formatting"],
            languages: &[FileKind::Sls],
        }
    }

    fn check_line(&self, ctx: &RuleContext, line_no: usize, line: &str) -> (r: Option<ProblemSeed>) {
        let (s, e) = match regex_find(YAML_OCTAL_PATTERN, line) {
            None => return None,
            Some(None) => return None,
            Some(Some(span)) => span,
        };
        let cs = chars_of(line);
        let rest_ok = e == cs.len() || cs[e] == '#' || (e + 1 < cs.len() && cs[e] == '{' && cs[e
            + 1] == '#');
        proof {
            let rest = line@.skip(e as int);
            if e < cs@.len() {
                assert(rest[0] == cs@[e as int]);
            }
            if e + 1 < cs@.len() {
                assert(rest[1] == cs@[e + 1]);
                if cs@[e as int] == '{' && cs@[e + 1] == '#' {
                    assert(rest.take(2) =~= seq!['{', '#']);
                }
            }
            if starts_with(rest, seq!['{', '#']) {
                assert(rest.take(2)[0] == rest[0]);
                assert(rest.take(2)[1] == rest[1]);
            }
        }
        if !rest_ok {
            return None;
        }
        let found = string_of_range(&cs, s, e);
        if pattern_matches(YAML_OCTAL_EXCLUDE_PATTERN, found.as_str()) {
            return None;
        }
        Some(ProblemSeed::line(line_no, line, None))
    }

    fn check_text(&self, ctx: &RuleContext, text: &str) -> (r: Vec<ProblemSeed>) {
        let r: Vec<ProblemSeed> = Vec::new();
        assert(seed_views(r@) =~= Seq::<SeedView>::empty());
        r
    }
}

/// The YAML rules, in the order they are registered.
pub fn all_rules() -> (r: Vec<Box<dyn Rule>>)
    ensures
        r@.len() == 1,
        acts_as(r@, 0, YamlHasOctalValueRule),
{
    let r: Vec<Box<dyn Rule>> = vec![
        Box::new(YamlHasOctalValueRule),
    ];
    r
}

pub fn builtin_rule_count() -> (n: usize)
    ensures
        n == 1,
{
    1
}

} // verus!
