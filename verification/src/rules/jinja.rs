//! Jinja rules. They read the text with its `{% raw %}` blocks blanked out,
//! one line at a time.
use crate::engine::collection::{comment_line, is_comment_line};
use crate::engine::context::{ContextView, RuleContext};
use crate::engine::rule::{seed_views, ProblemSeed, Rule, SeedView};
use crate::engine::skip::{contains_str, noqa_ids, parse_noqa_ids};
use crate::file_types::FileKind;
use crate::problem::{RuleMeta, Severity};
use crate::regex_api::{
    regex_all_matches, regex_compiles, regex_find_all, regex_matches, spans_ordered,
};
use crate::rules::{acts_as, line_seed, pattern_matches};
use crate::text::{
    chars_of, count_char, lemma_count_concat, lemma_count_newlines, lemma_lines_len,
    lemma_split_len, lines_of, lines_str, newlines, split_on, split_str, string_of, string_of_range,
    views,
};
use vstd::prelude::*;

verus! {

pub const RAW_BLOCK_PATTERN: &'static str =
    r"(?s)\{%[+-]?\s?raw\s?[+-]?%\}.*?\{%[+-]?\s?endraw\s?[+-]?%\}";

pub const JINJA_STATEMENT_PATTERN: &'static str =
    r"\{%[^ \-\+]|\{%[\-\+][^ ]|[^ \-\+]%\}|[^ ][\-\+]%\}";

pub const JINJA_COMMENT_PATTERN: &'static str =
    r"\{#[^ \-\+]|\{#[\-\+][^ ]|[^ \-\+]#\}|[^ ][\-\+]#\}";

pub const JINJA_VARIABLE_PATTERN: &'static str =
    r"\{\{[^ {}\-\+\d]|\{\{[-\+][^ {}]|[^ {}\-\+\d]\}\}|[^ {}][-\+\d]\}\}";

pub const JINJA_PILLAR_GRAINS_PATTERN: &'static str =
    r"\{\{(?: |\-|\+)?(?:pillar|grains)\.get\[[^}]+\}\}";

pub struct JinjaStatementHasSpacesRule;

pub struct JinjaCommentHasSpacesRule;

pub struct JinjaVariableHasSpacesRule;

pub struct JinjaPillarGrainsGetFormatRule;

// ---------------------------------------------------------------------------
// Raw blocks
// ---------------------------------------------------------------------------
/// The newlines that stand in for a raw block: one fewer than its lines.
pub open spec fn raw_block_newlines(block: Seq<char>) -> nat {
    let n = lines_of(block).len();
    if n > 0 {
        (n - 1) as nat
    } else {
        0
    }
}

/// Where the text after the first `n` blocks resumes.
pub open spec fn resume_at(spans: Seq<(int, int)>, n: nat) -> int {
    if n == 0 {
        0
    } else {
        spans[n - 1].1
    }
}

/// The text up to the end of the `n`-th block, each block replaced by its
/// newlines.
pub open spec fn escaped_upto(text: Seq<char>, spans: Seq<(int, int)>, n: nat) -> Seq<char>
    decreases n,
{
    if n == 0 {
        Seq::empty()
    } else {
        let m = spans[n - 1];
        escaped_upto(text, spans, (n - 1) as nat) + text.subrange(
            resume_at(spans, (n - 1) as nat),
            m.0,
        ) + newlines(raw_block_newlines(text.subrange(m.0, m.1)))
    }
}

/// The text with each of the spans replaced by its newlines.
pub open spec fn escape_spans(text: Seq<char>, spans: Seq<(int, int)>) -> Seq<char> {
    escaped_upto(text, spans, spans.len()) + text.subrange(
        resume_at(spans, spans.len()),
        text.len() as int,
    )
}

/// The text with its raw blocks replaced by newlines, so that the lines
/// after a block keep their numbers.
pub open spec fn escape_raw(text: Seq<char>) -> Seq<char> {
    if regex_compiles(RAW_BLOCK_PATTERN@) {
        escape_spans(text, regex_all_matches(RAW_BLOCK_PATTERN@, text))
    } else {
        text
    }
}

/// The blocks are ordered, within the text, not empty, and none ends with
/// a newline (a raw block ends with `%}`).
pub open spec fn blocks_well_placed(text: Seq<char>, spans: Seq<(int, int)>) -> bool {
    &&& spans_ordered(spans, text.len() as int)
    &&& forall|i: int|
        0 <= i < spans.len() ==> (#[trigger] spans[i]).0 < spans[i].1 && text[spans[i].1 - 1] != '\n'
}

proof fn lemma_escaped_upto_newlines(text: Seq<char>, spans: Seq<(int, int)>, n: nat)
    requires
        blocks_well_placed(text, spans),
        n <= spans.len(),
    ensures
        count_char(escaped_upto(text, spans, n), '\n') == count_char(
            text.take(resume_at(spans, n)),
            '\n',
        ),
        0 <= resume_at(spans, n) <= text.len(),
    decreases n,
{
    if n == 0 {
        assert(text.take(0) =~= Seq::<char>::empty());
    } else {
        let k = (n - 1) as nat;
        lemma_escaped_upto_newlines(text, spans, k);
        let m = spans[n - 1];
        let r = resume_at(spans, k);
        assert(0 <= m.0 <= m.1 <= text.len());
        if n > 1 {
            assert(spans[n - 2].1 <= spans[n - 1].0);
        }
        let block = text.subrange(m.0, m.1);
        assert(block.last() == text[m.1 - 1]);
        lemma_lines_len(block);
        lemma_count_newlines(raw_block_newlines(block));
        let prev = escaped_upto(text, spans, k);
        let gap = text.subrange(r, m.0);
        lemma_count_concat(prev, gap, '\n');
        lemma_count_concat(prev + gap, newlines(raw_block_newlines(block)), '\n');
        assert(text.take(m.1) =~= text.take(r) + gap + block);
        lemma_count_concat(text.take(r), gap, '\n');
        lemma_count_concat(text.take(r) + gap, block, '\n');
    }
}

/// Blanking the raw blocks keeps the number of lines, so every line after a
/// block keeps its number.
pub proof fn law_escape_keeps_line_count(text: Seq<char>, spans: Seq<(int, int)>)
    requires
        blocks_well_placed(text, spans),
    ensures
        split_on(escape_spans(text, spans), '\n').len() == split_on(text, '\n').len(),
{
    let n = spans.len();
    lemma_escaped_upto_newlines(text, spans, n);
    let r = resume_at(spans, n);
    let rest = text.subrange(r, text.len() as int);
    lemma_count_concat(escaped_upto(text, spans, n), rest, '\n');
    assert(text =~= text.take(r) + rest);
    lemma_count_concat(text.take(r), rest, '\n');
    lemma_split_len(escape_spans(text, spans), '\n', Seq::empty());
    lemma_split_len(text, '\n', Seq::empty());
}

/// How often `c` occurs in the first `n` blocks.
pub open spec fn blocks_count(text: Seq<char>, spans: Seq<(int, int)>, c: char, n: nat) -> nat
    decreases n,
{
    if n == 0 {
        0
    } else {
        blocks_count(text, spans, c, (n - 1) as nat) + count_char(
            text.subrange(spans[n - 1].0, spans[n - 1].1),
            c,
        )
    }
}

/// Newlines hold no other character.
proof fn lemma_newlines_hold_no_other(n: nat, c: char)
    requires
        c != '\n',
    ensures
        count_char(newlines(n), c) == 0,
    decreases n,
{
    if n > 0 {
        assert(newlines(n).drop_first() =~= newlines((n - 1) as nat));
        lemma_newlines_hold_no_other((n - 1) as nat, c);
    }
}

proof fn lemma_escaped_upto_others(text: Seq<char>, spans: Seq<(int, int)>, c: char, n: nat)
    requires
        spans_ordered(spans, text.len() as int),
        n <= spans.len(),
        c != '\n',
    ensures
        count_char(escaped_upto(text, spans, n), c) + blocks_count(text, spans, c, n) == count_char(
            text.take(resume_at(spans, n)),
            c,
        ),
        0 <= resume_at(spans, n) <= text.len(),
    decreases n,
{
    if n == 0 {
        assert(text.take(0) =~= Seq::<char>::empty());
    } else {
        let k = (n - 1) as nat;
        lemma_escaped_upto_others(text, spans, c, k);
        let m = spans[n - 1];
        let r = resume_at(spans, k);
        assert(0 <= m.0 <= m.1 <= text.len());
        if n > 1 {
            assert(spans[n - 2].1 <= spans[n - 1].0);
        }
        let block = text.subrange(m.0, m.1);
        let nl = newlines(raw_block_newlines(block));
        lemma_newlines_hold_no_other(raw_block_newlines(block), c);
        let prev = escaped_upto(text, spans, k);
        let gap = text.subrange(r, m.0);
        lemma_count_concat(prev, gap, c);
        lemma_count_concat(prev + gap, nl, c);
        assert(text.take(m.1) =~= text.take(r) + gap + block);
        lemma_count_concat(text.take(r), gap, c);
        lemma_count_concat(text.take(r) + gap, block, c);
    }
}

/// Blanking the raw blocks removes every character of every block that
/// `find_iter` reports, and nothing else: a character other than a newline
/// occurs in the escaped text as often as in the text outside all blocks.
pub proof fn law_escape_raw_blanks_every_block(text: Seq<char>, c: char)
    requires
        regex_compiles(RAW_BLOCK_PATTERN@),
        spans_ordered(regex_all_matches(RAW_BLOCK_PATTERN@, text), text.len() as int),
        c != '\n',
    ensures
        count_char(escape_raw(text), c) + blocks_count(
            text,
            regex_all_matches(RAW_BLOCK_PATTERN@, text),
            c,
            regex_all_matches(RAW_BLOCK_PATTERN@, text).len(),
        ) == count_char(text, c),
{
    let ms = regex_all_matches(RAW_BLOCK_PATTERN@, text);
    let n = ms.len();
    lemma_escaped_upto_others(text, ms, c, n);
    let r = resume_at(ms, n);
    let rest = text.subrange(r, text.len() as int);
    lemma_count_concat(escaped_upto(text, ms, n), rest, c);
    assert(text =~= text.take(r) + rest);
    lemma_count_concat(text.take(r), rest, c);
}

// ---------------------------------------------------------------------------
// Line scan
// ---------------------------------------------------------------------------
/// The finding on the line `index` (counted from 0): comment lines and
/// lines whose `# noqa` names the rule are passed over.
pub open spec fn jinja_line_finding(
    line: Seq<char>,
    index: int,
    id: Seq<char>,
    pattern: Seq<char>,
) -> Option<SeedView> {
    if is_comment_line(line) || noqa_ids(line).contains(id) {
        None
    } else if regex_compiles(pattern) && regex_matches(pattern, line) {
        Some(line_seed((index + 1) as nat, line))
    } else {
        None
    }
}

/// The findings on the first `n` lines.
pub open spec fn jinja_findings(
    lines: Seq<Seq<char>>,
    id: Seq<char>,
    pattern: Seq<char>,
    n: nat,
) -> Seq<SeedView>
    decreases n,
{
    if n == 0 {
        Seq::empty()
    } else {
        let prev = jinja_findings(lines, id, pattern, (n - 1) as nat);
        match jinja_line_finding(lines[n - 1], n - 1, id, pattern) {
            Some(s) => prev.push(s),
            None => prev,
        }
    }
}

/// The lines of the escaped text on which `pattern` matches.
pub open spec fn escaped_findings(text: Seq<char>, id: Seq<char>, pattern: Seq<char>) -> Seq<SeedView> {
    let lines = split_on(escape_raw(text), '\n');
    jinja_findings(lines, id, pattern, lines.len())
}

fn extend_range(out: &mut Vec<char>, cs: &Vec<char>, lo: usize, hi: usize)
    requires
        lo <= hi <= cs@.len(),
    ensures
        final(out)@ == old(out)@ + cs@.subrange(lo as int, hi as int),
{
    let mut i: usize = lo;
    while i < hi
        invariant
            lo <= i <= hi,
            hi <= cs@.len(),
            out@ == old(out)@ + cs@.subrange(lo as int, i as int),
        decreases hi - i,
    {
        out.push(cs[i]);
        proof {
            assert(cs@.subrange(lo as int, i + 1) =~= cs@.subrange(lo as int, i as int).push(
                cs@[i as int],
            ));
        }
        i += 1;
    }
    proof {
        assert(out@ =~= old(out)@ + cs@.subrange(lo as int, hi as int));
    }
}

fn push_newlines(out: &mut Vec<char>, n: usize)
    ensures
        final(out)@ == old(out)@ + newlines(n as nat),
{
    let mut i: usize = 0;
    while i < n
        invariant
            i <= n,
            out@ == old(out)@ + newlines(i as nat),
        decreases n - i,
    {
        out.push('\n');
        proof {
            assert(newlines((i + 1) as nat) =~= newlines(i as nat).push('\n'));
            assert(out@ =~= old(out)@ + newlines((i + 1) as nat));
        }
        i += 1;
    }
}

/// The text with its raw blocks replaced by newlines.
pub fn escape_raw_blocks(text: &str) -> (r: String)
    ensures
        r@ == escape_raw(text@),
{
    let spans = match regex_find_all(RAW_BLOCK_PATTERN, text) {
        Some(v) => v,
        None => return text.to_owned(),
    };
    let ghost ms = regex_all_matches(RAW_BLOCK_PATTERN@, text@);
    let cs = chars_of(text);
    let mut out: Vec<char> = Vec::new();
    let mut prev: usize = 0;
    let mut i: usize = 0;
    proof {
        assert(spans@.map_values(|p: (usize, usize)| (p.0 as int, p.1 as int)).len() == spans@.len());
        assert(out@ =~= escaped_upto(cs@, ms, 0));
    }
    while i < spans.len()
        invariant
            i <= spans@.len(),
            cs@ == text@,
            spans@.map_values(|p: (usize, usize)| (p.0 as int, p.1 as int)) == ms,
            ms.len() == spans@.len(),
            spans_ordered(ms, text@.len() as int),
            prev as int == resume_at(ms, i as nat),
            prev <= cs@.len(),
            out@ == escaped_upto(cs@, ms, i as nat),
        decreases spans@.len() - i,
    {
        let (s, e) = spans[i];
        proof {
            assert(ms[i as int] == (s as int, e as int));
            assert(0 <= ms[i as int].0 <= ms[i as int].1 <= text@.len());
            if i > 0 {
                assert(ms[i - 1].1 <= ms[i as int].0);
            }
        }
        extend_range(&mut out, &cs, prev, s);
        let block = string_of_range(&cs, s, e);
        let k = lines_str(block.as_str()).len();
        let n = if k > 0 {
            k - 1
        } else {
            0
        };
        push_newlines(&mut out, n);
        proof {
            assert(n as nat == raw_block_newlines(cs@.subrange(s as int, e as int)));
            assert(out@ =~= escaped_upto(cs@, ms, (i + 1) as nat));
        }
        prev = e;
        i += 1;
    }
    extend_range(&mut out, &cs, prev, cs.len());
    let r = string_of(&out);
    proof {
        assert(r@ =~= escape_spans(text@, ms));
    }
    r
}

fn scan_escaped_lines(text: &str, id: &str, pattern: &str) -> (r: Vec<ProblemSeed>)
    ensures
        seed_views(r@) == escaped_findings(text@, id@, pattern@),
{
    let escaped = escape_raw_blocks(text);
    let lines = split_str(escaped.as_str(), '\n');
    let ghost lv = views(lines@);
    let mut r: Vec<ProblemSeed> = Vec::new();
    proof {
        assert(seed_views(r@) =~= Seq::<SeedView>::empty());
    }
    let mut i: usize = 0;
    while i < lines.len()
        invariant
            i <= lines@.len(),
            lv == views(lines@),
            lv == split_on(escape_raw(text@), '\n'),
            seed_views(r@) == jinja_findings(lv, id@, pattern@, i as nat),
        decreases lines@.len() - i,
    {
        let line = lines[i].as_str();
        proof {
            assert(lv[i as int] == line@);
        }
        let ghost prev = seed_views(r@);
        if !comment_line(line) && !contains_str(&parse_noqa_ids(line), id) && pattern_matches(
            pattern,
            line,
        ) {
            let seed = ProblemSeed::line(i + 1, line, None);
            r.push(seed);
            proof {
                assert(seed_views(r@) =~= prev.push(seed@));
            }
        }
        i += 1;
    }
    r
}

impl Rule for JinjaStatementHasSpacesRule {
    open spec fn spec_meta(&self) -> RuleMeta {
        RuleMeta {
            id: "202",
            shortdesc: "Jinja statement should have spaces before and after: '{% statement %}'",
            description: "Jinja statement should have spaces before and after: '{% statement %}'",
            severity: Severity::Low,
            tags: &["formatting", "jinja"],
            languages: &[FileKind::Sls, FileKind::Jinja],
        }
    }

    open spec fn spec_check_line(&self, ctx: ContextView, line_no: nat, line: Seq<char>) -> Option<
        SeedView,
    > {
        None
    }

    open spec fn spec_check_text(&self, ctx: ContextView, text: Seq<char>) -> Seq<SeedView> {
        escaped_findings(text, self.spec_meta().id@, JINJA_STATEMENT_PATTERN@)
    }

    fn meta(&self) -> (m: &'static RuleMeta) {
        &RuleMeta {
            id: "202",
            shortdesc: "Jinja statement should have spaces before and after: '{% statement %}'",
            description: "Jinja statement should have spaces before and after: '{% statement %}'",
            severity: Severity::Low,
            tags: &["formatting", "jinja"],
            languages: &[FileKind::Sls, FileKind::Jinja],
        }
    }

    fn check_line(&self, ctx: &RuleContext, line_no: usize, line: &str) -> (r: Option<ProblemSeed>) {
        None
    }

    fn check_text(&self, ctx: &RuleContext, text: &str) -> (r: Vec<ProblemSeed>) {
        scan_escaped_lines(text, self.meta().id, JINJA_STATEMENT_PATTERN)
    }
}

impl Rule for JinjaCommentHasSpacesRule {
    open spec fn spec_meta(&self) -> RuleMeta {
        RuleMeta {
            id: "209",
            shortdesc: "Jinja comment should have spaces before and after: '{# comment #}'",
            description: "Jinja comment should have spaces before and after: '{# comment #}'",
            severity: Severity::Low,
            tags: &["formatting", "jinja"],
            languages: &[FileKind::Sls, FileKind::Jinja],
        }
    }

    open spec fn spec_check_line(&self, ctx: ContextView, line_no: nat, line: Seq<char>) -> Option<
        SeedView,
    > {
        None
    }

    open spec fn spec_check_text(&self, ctx: ContextView, text: Seq<char>) -> Seq<SeedView> {
        escaped_findings(text, self.spec_meta().id@, JINJA_COMMENT_PATTERN@)
    }

    fn meta(&self) -> (m: &'static RuleMeta) {
        &RuleMeta {
            id: "209",
            shortdesc: "Jinja comment should have spaces before and after: '{# comment #}'",
            description: "Jinja comment should have spaces before and after: '{# comment #}'",
            severity: Severity::Low,
            tags: &["formatting", "jinja"],
            languages: &[FileKind::Sls, FileKind::Jinja],
        }
    }

    fn check_line(&self, ctx: &RuleContext, line_no: usize, line: &str) -> (r: Option<ProblemSeed>) {
        None
    }

    fn check_text(&self, ctx: &RuleContext, text: &str) -> (r: Vec<ProblemSeed>) {
        scan_escaped_lines(text, self.meta().id, JINJA_COMMENT_PATTERN)
    }
}

impl Rule for JinjaVariableHasSpacesRule {
    open spec fn spec_meta(&self) -> RuleMeta {
        RuleMeta {
            id: "206",
            shortdesc: "Jinja variables should have spaces before and after: '{{ var_name }}'",
            description: "Jinja variables should have spaces before and after: '{{ var_name }}'",
            severity: Severity::Low,
            tags: &["formatting", "jinja"],
            languages: &[FileKind::Sls, FileKind::Jinja],
        }
    }

    open spec fn spec_check_line(&self, ctx: ContextView, line_no: nat, line: Seq<char>) -> Option<
        SeedView,
    > {
        None
    }

    open spec fn spec_check_text(&self, ctx: ContextView, text: Seq<char>) -> Seq<SeedView> {
        escaped_findings(text, self.spec_meta().id@, JINJA_VARIABLE_PATTERN@)
    }

    fn meta(&self) -> (m: &'static RuleMeta) {
        &RuleMeta {
            id: "206",
            shortdesc: "Jinja variables should have spaces before and after: '{{ var_name }}'",
            description: "Jinja variables should have spaces before and after: '{{ var_name }}'",
            severity: Severity::Low,
            tags: &["formatting", "jinja"],
            languages: &[FileKind::Sls, FileKind::Jinja],
        }
    }

    fn check_line(&self, ctx: &RuleContext, line_no: usize, line: &str) -> (r: Option<ProblemSeed>) {
        None
    }

    fn check_text(&self, ctx: &RuleContext, text: &str) -> (r: Vec<ProblemSeed>) {
        scan_escaped_lines(text, self.meta().id, JINJA_VARIABLE_PATTERN)
    }
}

impl Rule for JinjaPillarGrainsGetFormatRule {
    open spec fn spec_meta(&self) -> RuleMeta {
        RuleMeta {
            id: "211",
            shortdesc: "pillar.get or grains.get should be formatted differently",
            description: "pillar.get and grains.get should always be formatted like salt['pillar.get']('item'), grains['item1'] or  pillar.get('item')",
            severity: Severity::High,
            tags: &["formatting", "jinja"],
            languages: &[FileKind::Sls, FileKind::Jinja],
        }
    }

    open spec fn spec_check_line(&self, ctx: ContextView, line_no: nat, line: Seq<char>) -> Option<
        SeedView,
    > {
        None
    }

    open spec fn spec_check_text(&self, ctx: ContextView, text: Seq<char>) -> Seq<SeedView> {
        escaped_findings(text, self.spec_meta().id@, JINJA_PILLAR_GRAINS_PATTERN@)
    }

    fn meta(&self) -> (m: &'static RuleMeta) {
        &RuleMeta {
            id: "211",
            shortdesc: "pillar.get or grains.get should be formatted differently",
            description: "pillar.get and grains.get should always be formatted like salt['pillar.get']('item'), grains['item1'] or  pillar.get('item')",
            severity: Severity::High,
            tags: &["formatting", "jinja"],
            languages: &[FileKind::Sls, FileKind::Jinja],
        }
    }

    fn check_line(&self, ctx: &RuleContext, line_no: usize, line: &str) -> (r: Option<ProblemSeed>) {
        None
    }

    fn check_text(&self, ctx: &RuleContext, text: &str) -> (r: Vec<ProblemSeed>) {
        scan_escaped_lines(text, self.meta().id, JINJA_PILLAR_GRAINS_PATTERN)
    }
}

/// The Jinja rules, in the order they are registered.
pub fn all_rules() -> (r: Vec<Box<dyn Rule>>)
    ensures
        r@.len() == 4,
        acts_as(r@, 0, JinjaStatementHasSpacesRule),
        acts_as(r@, 1, JinjaCommentHasSpacesRule),
        acts_as(r@, 2, JinjaVariableHasSpacesRule),
        acts_as(r@, 3, JinjaPillarGrainsGetFormatRule),
{
    let r: Vec<Box<dyn Rule>> = vec![
        Box::new(JinjaStatementHasSpacesRule),
        Box::new(JinjaCommentHasSpacesRule),
        Box::new(JinjaVariableHasSpacesRule),
        Box::new(JinjaPillarGrainsGetFormatRule),
    ];
    r
}

pub fn builtin_rule_count() -> (n: usize)
    ensures
        n == 4,
{
    4
}

} // verus!
