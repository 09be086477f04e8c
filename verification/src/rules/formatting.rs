//! Formatting rules that look at one line at a time.
use crate::engine::context::{ContextView, RuleContext};
use crate::engine::rule::{opt_seed_view, seed_views, ProblemSeed, Rule, SeedView};
use crate::file_types::FileKind;
use crate::problem::{RuleMeta, Severity};
use crate::regex_api::{regex_compiles, regex_matches};
use crate::rules::{acts_as, line_seed, pattern_matches};
use crate::text::{
    chars_of, contains_char, is_whitespace, remove_char, trim_end, trimmed_end_len, without_char,
};
use vstd::prelude::*;

verus! {

pub const CMD_WAIT_PATTERN: &'static str = r"^\s{2}cmd\.wait:(\s+)?$";

pub const TYPO_ONCHANGES_PATTERN: &'static str =
    r"^\s+- (on_?change(|_in|_any)|on_changes(|_in|_any)):";

pub const TYPO_REQUIRE_PATTERN: &'static str = r"^\s+- requires(|_in|_any):";

/// Spaces other than the plain space that rule 212 reports.
pub const IRREGULAR_SPACES: [char; 24] = [
    '\u{000B}',
    '\u{000C}',
    '\u{00A0}',
    '\u{0085}',
    '\u{1680}',
    '\u{180E}',
    '\u{FEFF}',
    '\u{2000}',
    '\u{2001}',
    '\u{2002}',
    '\u{2003}',
    '\u{2004}',
    '\u{2005}',
    '\u{2006}',
    '\u{2007}',
    '\u{2008}',
    '\u{2009}',
    '\u{200A}',
    '\u{200B}',
    '\u{2028}',
    '\u{2029}',
    '\u{202F}',
    '\u{205F}',
    '\u{3000}',
];

pub struct TrailingWhitespaceRule;

pub struct NoTabsRule;

pub struct LineTooLongRule;

pub struct NoIrregularSpacesRule;

pub struct CmdWaitRecommendRule;

pub struct TypoOnchangesRule;

pub struct TypoRequireRule;

/// Whether a line, its carriage returns removed, ends in whitespace.
pub open spec fn has_trailing_whitespace(line: Seq<char>) -> bool {
    let n = without_char(line, '\r');
    trim_end(n) != n
}

/// Whether a line is longer than 160 characters.
pub open spec fn is_too_long(line: Seq<char>) -> bool {
    line.len() > 160
}

/// Whether a line holds one of the irregular spaces.
pub open spec fn has_irregular_space(line: Seq<char>) -> bool {
    exists|i: int| 0 <= i < IRREGULAR_SPACES@.len() && line.contains(#[trigger] IRREGULAR_SPACES@[i])
}

/// The finding of a line rule whose condition holds on the line.
pub open spec fn flag_if(cond: bool, line_no: nat, line: Seq<char>) -> Option<SeedView> {
    if cond {
        Some(line_seed(line_no, line))
    } else {
        None
    }
}

fn flag(cond: bool, line_no: usize, line: &str) -> (r: Option<ProblemSeed>)
    ensures
        opt_seed_view(r) == flag_if(cond, line_no as nat, line@),
{
    if cond {
        Some(ProblemSeed::line(line_no, line, None))
    } else {
        None
    }
}

fn no_seeds() -> (r: Vec<ProblemSeed>)
    ensures
        seed_views(r@) == Seq::<SeedView>::empty(),
{
    let r: Vec<ProblemSeed> = Vec::new();
    assert(seed_views(r@) =~= Seq::<SeedView>::empty());
    r
}

impl Rule for TrailingWhitespaceRule {
    open spec fn spec_meta(&self) -> RuleMeta {
        RuleMeta {
            id: "201",
            shortdesc: "Trailing whitespace",
            description: "There should not be any trailing whitespace",
            severity: Severity::Info,
            tags: &["formatting"],
            languages: &[],
        }
    }

    open spec fn spec_check_line(&self, ctx: ContextView, line_no: nat, line: Seq<char>) -> Option<
        SeedView,
    > {
        flag_if(has_trailing_whitespace(line), line_no, line)
    }

    open spec fn spec_check_text(&self, ctx: ContextView, text: Seq<char>) -> Seq<SeedView> {
        Seq::empty()
    }

    fn meta(&self) -> (m: &'static RuleMeta) {
        &RuleMeta {
            id: "201",
            shortdesc: "Trailing whitespace",
            description: "There should not be any trailing whitespace",
            severity: Severity::Info,
            tags: &["formatting"],
            languages: &[],
        }
    }

    fn check_line(&self, ctx: &RuleContext, line_no: usize, line: &str) -> (r: Option<ProblemSeed>) {
        let normalized = remove_char(&chars_of(line), '\r');
        let k = trimmed_end_len(&normalized);
        proof {
            if k == normalized@.len() {
                assert(normalized@.take(k as int) =~= normalized@);
            }
        }
        flag(k != normalized.len(), line_no, line)
    }

    fn check_text(&self, ctx: &RuleContext, text: &str) -> (r: Vec<ProblemSeed>) {
        no_seeds()
    }
}

impl Rule for NoTabsRule {
    open spec fn spec_meta(&self) -> RuleMeta {
        RuleMeta {
            id: "203",
            shortdesc: "Most files should not contain tabs",
            description: "Tabs can cause unexpected display issues, use spaces",
            severity: Severity::Low,
            tags: &["formatting"],
            languages: &[FileKind::Sls],
        }
    }

    open spec fn spec_check_line(&self, ctx: ContextView, line_no: nat, line: Seq<char>) -> Option<
        SeedView,
    > {
        flag_if(line.contains('\t'), line_no, line)
    }

    open spec fn spec_check_text(&self, ctx: ContextView, text: Seq<char>) -> Seq<SeedView> {
        Seq::empty()
    }

    fn meta(&self) -> (m: &'static RuleMeta) {
        &RuleMeta {
            id: "203",
            shortdesc: "Most files should not contain tabs",
            description: "Tabs can cause unexpected display issues, use spaces",
            severity: Severity::Low,
            tags: &["formatting"],
            languages: &[FileKind::Sls],
        }
    }

    fn check_line(&self, ctx: &RuleContext, line_no: usize, line: &str) -> (r: Option<ProblemSeed>) {
        flag(contains_char(&chars_of(line), '\t'), line_no, line)
    }

    fn check_text(&self, ctx: &RuleContext, text: &str) -> (r: Vec<ProblemSeed>) {
        no_seeds()
    }
}

impl Rule for LineTooLongRule {
    open spec fn spec_meta(&self) -> RuleMeta {
        RuleMeta {
            id: "204",
            shortdesc: "Lines should be no longer than 160 chars",
            description: "Long lines make code harder to read and code review more difficult",
            severity: Severity::VeryLow,
            tags: &["formatting"],
            languages: &[],
        }
    }

    open spec fn spec_check_line(&self, ctx: ContextView, line_no: nat, line: Seq<char>) -> Option<
        SeedView,
    > {
        flag_if(is_too_long(line), line_no, line)
    }

    open spec fn spec_check_text(&self, ctx: ContextView, text: Seq<char>) -> Seq<SeedView> {
        Seq::empty()
    }

    fn meta(&self) -> (m: &'static RuleMeta) {
        &RuleMeta {
            id: "204",
            shortdesc: "Lines should be no longer than 160 chars",
            description: "Long lines make code harder to read and code review more difficult",
            severity: Severity::VeryLow,
            tags: &["formatting"],
            languages: &[],
        }
    }

    fn check_line(&self, ctx: &RuleContext, line_no: usize, line: &str) -> (r: Option<ProblemSeed>) {
        let n = chars_of(line).len();
        flag(n > 160, line_no, line)
    }

    fn check_text(&self, ctx: &RuleContext, text: &str) -> (r: Vec<ProblemSeed>) {
        no_seeds()
    }
}

impl Rule for NoIrregularSpacesRule {
    open spec fn spec_meta(&self) -> RuleMeta {
        RuleMeta {
            id: "212",
            shortdesc: "Most files should not contain irregular spaces",
            description: "Irregular spaces can cause unexpected display issues, use spaces",
            severity: Severity::Low,
            tags: &["formatting"],
            languages: &[],
        }
    }

    open spec fn spec_check_line(&self, ctx: ContextView, line_no: nat, line: Seq<char>) -> Option<
        SeedView,
    > {
        flag_if(has_irregular_space(line), line_no, line)
    }

    open spec fn spec_check_text(&self, ctx: ContextView, text: Seq<char>) -> Seq<SeedView> {
        Seq::empty()
    }

    fn meta(&self) -> (m: &'static RuleMeta) {
        &RuleMeta {
            id: "212",
            shortdesc: "Most files should not contain irregular spaces",
            description: "Irregular spaces can cause unexpected display issues, use spaces",
            severity: Severity::Low,
            tags: &["formatting"],
            languages: &[],
        }
    }

    fn check_line(&self, ctx: &RuleContext, line_no: usize, line: &str) -> (r: Option<ProblemSeed>) {
        let cs = chars_of(line);
        let spaces = IRREGULAR_SPACES;
        let mut found = false;
        let mut i: usize = 0;
        while i < 24
            invariant
                i <= 24,
                spaces@ == IRREGULAR_SPACES@,
                cs@ == line@,
                found == exists|j: int| 0 <= j < i && line@.contains(#[trigger] IRREGULAR_SPACES@[j]),
            decreases 24 - i,
        {
            if contains_char(&cs, spaces[i]) {
                found = true;
            }
            i += 1;
        }
        flag(found, line_no, line)
    }

    fn check_text(&self, ctx: &RuleContext, text: &str) -> (r: Vec<ProblemSeed>) {
        no_seeds()
    }
}

impl Rule for CmdWaitRecommendRule {
    open spec fn spec_meta(&self) -> RuleMeta {
        RuleMeta {
            id: "213",
            shortdesc: "SaltStack recommends using cmd.run together with onchanges, rather than cmd.wait",
            description: "SaltStack recommends using cmd.run together with onchanges, rather than cmd.wait",
            severity: Severity::Low,
            tags: &["formatting"],
            languages: &[FileKind::Sls],
        }
    }

    open spec fn spec_check_line(&self, ctx: ContextView, line_no: nat, line: Seq<char>) -> Option<
        SeedView,
    > {
        flag_if(
            regex_compiles(CMD_WAIT_PATTERN@) && regex_matches(CMD_WAIT_PATTERN@, line),
            line_no,
            line,
        )
    }

    open spec fn spec_check_text(&self, ctx: ContextView, text: Seq<char>) -> Seq<SeedView> {
        Seq::empty()
    }

    fn meta(&self) -> (m: &'static RuleMeta) {
        &RuleMeta {
            id: "213",
            shortdesc: "SaltStack recommends using cmd.run together with onchanges, rather than cmd.wait",
            description: "SaltStack recommends using cmd.run together with onchanges, rather than cmd.wait",
            severity: Severity::Low,
            tags: &["formatting"],
            languages: &[FileKind::Sls],
        }
    }

    fn check_line(&self, ctx: &RuleContext, line_no: usize, line: &str) -> (r: Option<ProblemSeed>) {
        flag(pattern_matches(CMD_WAIT_PATTERN, line), line_no, line)
    }

    fn check_text(&self, ctx: &RuleContext, text: &str) -> (r: Vec<ProblemSeed>) {
        no_seeds()
    }
}

impl Rule for TypoOnchangesRule {
    open spec fn spec_meta(&self) -> RuleMeta {
        RuleMeta {
            id: "216",
            shortdesc: "\"onchange\" looks like a typo. Did you mean \"onchanges\"?",
            description: "\"onchange\" looks like a typo. Did you mean \"onchanges\"?",
            severity: Severity::Low,
            tags: &["formatting"],
            languages: &[FileKind::Sls],
        }
    }

    open spec fn spec_check_line(&self, ctx: ContextView, line_no: nat, line: Seq<char>) -> Option<
        SeedView,
    > {
        flag_if(
            regex_compiles(TYPO_ONCHANGES_PATTERN@) && regex_matches(TYPO_ONCHANGES_PATTERN@, line),
            line_no,
            line,
        )
    }

    open spec fn spec_check_text(&self, ctx: ContextView, text: Seq<char>) -> Seq<SeedView> {
        Seq::empty()
    }

    fn meta(&self) -> (m: &'static RuleMeta) {
        &RuleMeta {
            id: "216",
            shortdesc: "\"onchange\" looks like a typo. Did you mean \"onchanges\"?",
            description: "\"onchange\" looks like a typo. Did you mean \"onchanges\"?",
            severity: Severity::Low,
            tags: &["formatting"],
            languages: &[FileKind::Sls],
        }
    }

    fn check_line(&self, ctx: &RuleContext, line_no: usize, line: &str) -> (r: Option<ProblemSeed>) {
        flag(pattern_matches(TYPO_ONCHANGES_PATTERN, line), line_no, line)
    }

    fn check_text(&self, ctx: &RuleContext, text: &str) -> (r: Vec<ProblemSeed>) {
        no_seeds()
    }
}

impl Rule for TypoRequireRule {
    open spec fn spec_meta(&self) -> RuleMeta {
        RuleMeta {
            id: "217",
            shortdesc: "\"requires\" looks like a typo. Did you mean \"require\"?",
            description: "\"requires\" looks like a typo. Did you mean \"require\"?",
            severity: Severity::Low,
            tags: &["formatting"],
            languages: &[FileKind::Sls],
        }
    }

    open spec fn spec_check_line(&self, ctx: ContextView, line_no: nat, line: Seq<char>) -> Option<
        SeedView,
    > {
        flag_if(
            regex_compiles(TYPO_REQUIRE_PATTERN@) && regex_matches(TYPO_REQUIRE_PATTERN@, line),
            line_no,
            line,
        )
    }

    open spec fn spec_check_text(&self, ctx: ContextView, text: Seq<char>) -> Seq<SeedView> {
        Seq::empty()
    }

    fn meta(&self) -> (m: &'static RuleMeta) {
        &RuleMeta {
            id: "217",
            shortdesc: "\"requires\" looks like a typo. Did you mean \"require\"?",
            description: "\"requires\" looks like a typo. Did you mean \"require\"?",
            severity: Severity::Low,
            tags: &["formatting"],
            languages: &[FileKind::Sls],
        }
    }

    fn check_line(&self, ctx: &RuleContext, line_no: usize, line: &str) -> (r: Option<ProblemSeed>) {
        flag(pattern_matches(TYPO_REQUIRE_PATTERN, line), line_no, line)
    }

    fn check_text(&self, ctx: &RuleContext, text: &str) -> (r: Vec<ProblemSeed>) {
        no_seeds()
    }
}

/// The formatting rules, in the order they are registered.
pub fn all_rules() -> (r: Vec<Box<dyn Rule>>)
    ensures
        r@.len() == 7,
        acts_as(r@, 0, TrailingWhitespaceRule),
        acts_as(r@, 1, NoTabsRule),
        acts_as(r@, 2, LineTooLongRule),
        acts_as(r@, 3, NoIrregularSpacesRule),
        acts_as(r@, 4, CmdWaitRecommendRule),
        acts_as(r@, 5, TypoOnchangesRule),
        acts_as(r@, 6, TypoRequireRule),
{
    let r: Vec<Box<dyn Rule>> = vec![
        Box::new(TrailingWhitespaceRule),
        Box::new(NoTabsRule),
        Box::new(LineTooLongRule),
        Box::new(NoIrregularSpacesRule),
        Box::new(CmdWaitRecommendRule),
        Box::new(TypoOnchangesRule),
        Box::new(TypoRequireRule),
    ];
    r
}

pub fn builtin_rule_count() -> (n: usize)
    ensures
        n == 7,
{
    7
}

/// Whether the last character of `line` that is not a carriage return is
/// whitespace.
proof fn lemma_last_non_cr(line: Seq<char>)
    ensures
        (without_char(line, '\r').len() > 0 && is_whitespace(without_char(line, '\r').last()))
            <==> exists|i: int|
            0 <= i < line.len() && line[i] != '\r' && is_whitespace(#[trigger] line[i]) && forall|
                j: int,
            | i < j < line.len() ==> line[j] == '\r',
    decreases line.len(),
{
    if line.len() > 0 {
        let d = line.drop_last();
        lemma_last_non_cr(d);
        let last = line.len() - 1;
        if line.last() == '\r' {
            if exists|i: int|
                0 <= i < d.len() && d[i] != '\r' && is_whitespace(#[trigger] d[i]) && forall|j: int|
                    i < j < d.len() ==> d[j] == '\r' {
                let i = choose|i: int|
                    0 <= i < d.len() && d[i] != '\r' && is_whitespace(#[trigger] d[i]) && forall|
                        j: int,
                    | i < j < d.len() ==> d[j] == '\r';
                assert(line[i] == d[i]);
                assert forall|j: int| i < j < line.len() implies line[j] == '\r' by {
                    if j < last {
                        assert(line[j] == d[j]);
                    }
                }
            }
            if exists|i: int|
                0 <= i < line.len() && line[i] != '\r' && is_whitespace(#[trigger] line[i]) && forall|
                    j: int,
                | i < j < line.len() ==> line[j] == '\r' {
                let i = choose|i: int|
                    0 <= i < line.len() && line[i] != '\r' && is_whitespace(#[trigger] line[i])
                        && forall|j: int| i < j < line.len() ==> line[j] == '\r';
                assert(i < last);
                assert(d[i] == line[i]);
                assert forall|j: int| i < j < d.len() implies d[j] == '\r' by {
                    assert(d[j] == line[j]);
                }
            }
        } else {
            assert(without_char(line, '\r') == without_char(d, '\r').push(line.last()));
            if is_whitespace(line.last()) {
                assert(line[last] == line.last());
            }
            if exists|i: int|
                0 <= i < line.len() && line[i] != '\r' && is_whitespace(#[trigger] line[i]) && forall|
                    j: int,
                | i < j < line.len() ==> line[j] == '\r' {
                let i = choose|i: int|
                    0 <= i < line.len() && line[i] != '\r' && is_whitespace(#[trigger] line[i])
                        && forall|j: int| i < j < line.len() ==> line[j] == '\r';
                assert(i == last);
            }
        }
    }
}

/// Trimming changes a text exactly when it ends in whitespace.
proof fn lemma_trim_end_changes(s: Seq<char>)
    ensures
        trim_end(s).len() <= s.len(),
        (trim_end(s) != s) <==> (s.len() > 0 && is_whitespace(s.last())),
    decreases s.len(),
{
    if s.len() > 0 && is_whitespace(s.last()) {
        lemma_trim_end_changes(s.drop_last());
    }
}

/// Rule 201 looks past carriage returns: it flags a line exactly when the
/// last character of the line that is not a carriage return is whitespace,
/// so a line of a file with `\r\n` endings is judged by what stands before
/// its `\r`, and its finding is the line itself.
pub proof fn law_trailing_whitespace_ignores_carriage_returns(
    ctx: ContextView,
    line_no: nat,
    line: Seq<char>,
)
    ensures
        TrailingWhitespaceRule.spec_check_line(ctx, line_no, line) is Some <==> exists|i: int|
            0 <= i < line.len() && line[i] != '\r' && is_whitespace(#[trigger] line[i]) && forall|
                j: int,
            | i < j < line.len() ==> line[j] == '\r',
        TrailingWhitespaceRule.spec_check_line(ctx, line_no, line) matches Some(s) ==> s.line == line
            && s.linenumber == line_no && s.message is None && s.skip_excerpt is None,
{
    lemma_last_non_cr(line);
    lemma_trim_end_changes(without_char(line, '\r'));
}


} // verus!
