//! Rules that look at several lines at once.
use crate::engine::context::{ContextView, RuleContext};
use crate::engine::rule::{opt_seed_view, seed_views, ProblemSeed, Rule, SeedView};
use crate::file_types::FileKind;
use crate::problem::{RuleMeta, Severity};
use crate::regex_api::{
    regex_all_matches, regex_capture, regex_compiles, regex_find_all, regex_group, spans_ordered,
};
use crate::rules::acts_as;
use crate::text::{
    char_is_whitespace, chars_of, find, find_exec, is_whitespace, leading_whitespace, lines_of,
    lines_str, push_str, split_on, split_str, string_of_range, trim_start, views,
};
use vstd::prelude::*;
use vstd::utf8::encode_utf8;

verus! {

pub const CMD_RUN_QUIET_PATTERN: &'static str =
    r"(?m)^.+\n^\s{2}cmd\.run:(?:\n.+)+\n^\s{4}- quiet\s?.*";

pub const NESTED_DICT_HEADER_PATTERN: &'static str = r"^(\s+)-\s+(context|defaults):[^{\[]*$";

pub struct CmdRunQuietRule;

pub struct NestedDictRule;

// ---------------------------------------------------------------------------
// 901: cmd.run with quiet
// ---------------------------------------------------------------------------
/// The finding for a match `(s, e)`: it is reported on the last line that
/// the match touches, and `# noqa` anywhere in the match silences it.
pub open spec fn quiet_seed(text: Seq<char>, m: (int, int)) -> SeedView {
    let ls = lines_of(text.take(m.1));
    SeedView {
        linenumber: ls.len(),
        line: if ls.len() > 0 {
            ls.last()
        } else {
            Seq::empty()
        },
        message: None,
        skip_excerpt: Some(text.subrange(m.0, m.1)),
    }
}

pub open spec fn quiet_findings(text: Seq<char>) -> Seq<SeedView> {
    if regex_compiles(CMD_RUN_QUIET_PATTERN@) {
        regex_all_matches(CMD_RUN_QUIET_PATTERN@, text).map_values(|m: (int, int)| quiet_seed(text, m))
    } else {
        Seq::empty()
    }
}

// ---------------------------------------------------------------------------
// 219: nested dictionaries under context/defaults
// ---------------------------------------------------------------------------
/// The number of spaces that start a line.
pub open spec fn space_prefix_len(s: Seq<char>) -> nat
    decreases s.len(),
{
    if s.len() > 0 && s[0] == ' ' {
        1 + space_prefix_len(s.drop_first())
    } else {
        0
    }
}

/// A line that reads as `key: value` rather than as a list item, a flow
/// mapping or a flow sequence.
pub open spec fn looks_like_inline_key(t: Seq<char>) -> bool {
    &&& t.len() > 0
    &&& t[0] != '-'
    &&& t[0] != '{'
    &&& t[0] != '['
    &&& !is_whitespace(t[0])
    &&& find(t, seq![':', ' ']) is Some
}

/// The finding for the header on line `index` (counted from 0): the next
/// line is a `key: value` indented at most three columns past the header's
/// indentation (in bytes), and not less.
pub open spec fn nested_at(lines: Seq<Seq<char>>, index: int) -> Option<SeedView> {
    let line = lines[index];
    let next = lines[index + 1];
    if !regex_compiles(NESTED_DICT_HEADER_PATTERN@) {
        None
    } else {
        match regex_group(NESTED_DICT_HEADER_PATTERN@, line, 1) {
            Some(Some((gs, ge))) => {
                let base = (encode_utf8(line.subrange(gs, ge)).len() as usize) as int;
                let indent = space_prefix_len(next) as int;
                if base <= indent <= base + 3 && looks_like_inline_key(trim_start(next)) {
                    Some(
                        SeedView {
                            linenumber: (index + 2) as nat,
                            line: next,
                            message: None,
                            skip_excerpt: Some(line + seq!['\n'] + next),
                        },
                    )
                } else {
                    None
                }
            },
            _ => None,
        }
    }
}

/// The findings for the headers among the first `n` lines.
pub open spec fn nested_findings(lines: Seq<Seq<char>>, n: nat) -> Seq<SeedView>
    decreases n,
{
    if n == 0 {
        Seq::empty()
    } else {
        let prev = nested_findings(lines, (n - 1) as nat);
        match nested_at(lines, n - 1) {
            Some(s) => prev.push(s),
            None => prev,
        }
    }
}

/// Every line but the last can be a header.
pub open spec fn nested_dict_findings(text: Seq<char>) -> Seq<SeedView> {
    let lines = split_on(text, '\n');
    if lines.len() == 0 {
        Seq::empty()
    } else {
        nested_findings(lines, (lines.len() - 1) as nat)
    }
}

fn no_seeds() -> (r: Vec<ProblemSeed>)
    ensures
        seed_views(r@) == Seq::<SeedView>::empty(),
{
    let r: Vec<ProblemSeed> = Vec::new();
    assert(seed_views(r@) =~= Seq::<SeedView>::empty());
    r
}

fn space_prefix(cs: &Vec<char>) -> (k: usize)
    ensures
        k == space_prefix_len(cs@),
{
    let mut k: usize = 0;
    assert(cs@.skip(0) =~= cs@);
    while k < cs.len() && cs[k] == ' '
        invariant
            k <= cs@.len(),
            space_prefix_len(cs@) == k + space_prefix_len(cs@.skip(k as int)),
        decreases cs@.len() - k,
    {
        proof {
            let t = cs@.skip(k as int);
            assert(t.drop_first() =~= cs@.skip(k + 1));
        }
        k += 1;
    }
    proof {
        let t = cs@.skip(k as int);
        if t.len() > 0 {
            assert(t[0] == cs@[k as int]);
        }
    }
    k
}

fn inline_key(t: &Vec<char>) -> (b: bool)
    ensures
        b == looks_like_inline_key(t@),
{
    if t.len() == 0 {
        return false;
    }
    let c = t[0];
    if c == '-' || c == '{' || c == '[' || char_is_whitespace(c) {
        return false;
    }
    let pat = vec![':', ' '];
    assert(pat@ =~= seq![':', ' ']);
    match find_exec(t, &pat) {
        Some(_) => true,
        None => false,
    }
}

fn quiet_seeds(text: &str) -> (r: Vec<ProblemSeed>)
    ensures
        seed_views(r@) == quiet_findings(text@),
{
    let spans = match regex_find_all(CMD_RUN_QUIET_PATTERN, text) {
        Some(v) => v,
        None => return no_seeds(),
    };
    let ghost ms = regex_all_matches(CMD_RUN_QUIET_PATTERN@, text@);
    let cs = chars_of(text);
    let mut r: Vec<ProblemSeed> = Vec::new();
    let mut i: usize = 0;
    while i < spans.len()
        invariant
            i <= spans@.len(),
            cs@ == text@,
            regex_compiles(CMD_RUN_QUIET_PATTERN@),
            spans@.map_values(|p: (usize, usize)| (p.0 as int, p.1 as int)) == ms,
            spans_ordered(ms, text@.len() as int),
            seed_views(r@) == ms.take(i as int).map_values(|m: (int, int)| quiet_seed(text@, m)),
        decreases spans@.len() - i,
    {
        let (s, e) = spans[i];
        proof {
            assert(ms[i as int] == (s as int, e as int));
            assert(0 <= ms[i as int].0 <= ms[i as int].1 <= text@.len());
        }
        let prefix = string_of_range(&cs, 0, e);
        let section = string_of_range(&cs, s, e);
        let lines = lines_str(prefix.as_str());
        let n = lines.len();
        let seed = if n > 0 {
            ProblemSeed::section(n, lines[n - 1].as_str(), None, section.as_str())
        } else {
            ProblemSeed::section(0, "", None, section.as_str())
        };
        let ghost old_views = seed_views(r@);
        r.push(seed);
        proof {
            reveal_strlit("");
            assert(cs@.subrange(0, e as int) =~= text@.take(e as int));
            let ls = lines_of(text@.take(e as int));
            if n > 0 {
                assert(ls.last() == lines@[n - 1]@);
            }
            assert(section@ == text@.subrange(s as int, e as int));
            assert(views(lines@) == ls);
            assert(n == ls.len());
            if n == 0 {
                assert(""@ =~= Seq::<char>::empty());
            }
            assert(seed@.linenumber == quiet_seed(text@, ms[i as int]).linenumber);
            assert(seed@.line == quiet_seed(text@, ms[i as int]).line);
            assert(seed@.skip_excerpt == quiet_seed(text@, ms[i as int]).skip_excerpt);
            assert(seed@ == quiet_seed(text@, ms[i as int]));
            assert(seed_views(r@) =~= old_views.push(seed@));
            assert(ms.take(i + 1) =~= ms.take(i as int).push(ms[i as int]));
            assert(ms.take(i + 1).map_values(|m: (int, int)| quiet_seed(text@, m)) =~= ms.take(
                i as int,
            ).map_values(|m: (int, int)| quiet_seed(text@, m)).push(quiet_seed(text@, ms[i as int])));
        }
        i += 1;
    }
    proof {
        assert(spans@.map_values(|p: (usize, usize)| (p.0 as int, p.1 as int)).len() == spans@.len());
        assert(ms.take(ms.len() as int) =~= ms);
    }
    r
}

fn nested_at_exec(lines: &Vec<String>, index: usize) -> (r: Option<ProblemSeed>)
    requires
        index + 1 < lines.len(),
    ensures
        opt_seed_view(r) == nested_at(views(lines@), index as int),
{
    let line = lines[index].as_str();
    let next = lines[index + 1].as_str();
    proof {
        assert(views(lines@)[index as int] == line@);
        assert(views(lines@)[index + 1] == next@);
    }
    let (gs, ge) = match regex_capture(NESTED_DICT_HEADER_PATTERN, line, 1) {
        Some(Some(Some(span))) => span,
        _ => return None,
    };
    let lcs = chars_of(line);
    let group = string_of_range(&lcs, gs, ge);
    let base = group.as_str().len();
    let ncs = chars_of(next);
    let indent = space_prefix(&ncs);
    let k = leading_whitespace(&ncs);
    let trimmed = string_of_range(&ncs, k, ncs.len());
    let tcs = chars_of(trimmed.as_str());
    proof {
        assert(lcs@.subrange(gs as int, ge as int) == line@.subrange(gs as int, ge as int));
        assert(tcs@ == trim_start(next@));
    }
    if base <= indent && indent - base <= 3 && inline_key(&tcs) {
        let mut section = String::new();
        push_str(&mut section, line);
        push_str(&mut section, "\n");
        push_str(&mut section, next);
        proof {
            reveal_strlit("\n");
            assert(section@ =~= line@ + seq!['\n'] + next@);
        }
        Some(ProblemSeed::section(index + 2, next, None, section.as_str()))
    } else {
        None
    }
}

fn nested_seeds(text: &str) -> (r: Vec<ProblemSeed>)
    ensures
        seed_views(r@) == nested_dict_findings(text@),
{
    let lines = split_str(text, '\n');
    let ghost lv = views(lines@);
    proof {
        assert(lv.len() == lines@.len());
    }
    let n = if lines.len() == 0 {
        0
    } else {
        lines.len() - 1
    };
    let mut r: Vec<ProblemSeed> = Vec::new();
    proof {
        assert(seed_views(r@) =~= Seq::<SeedView>::empty());
    }
    let mut i: usize = 0;
    while i < n
        invariant
            i <= n,
            n < lines@.len() || n == 0,
            lv == views(lines@),
            lv == split_on(text@, '\n'),
            seed_views(r@) == nested_findings(lv, i as nat),
        decreases n - i,
    {
        let found = nested_at_exec(&lines, i);
        let ghost prev = seed_views(r@);
        match found {
            Some(seed) => {
                r.push(seed);
                proof {
                    assert(seed_views(r@) =~= prev.push(seed@));
                }
            },
            None => {},
        }
        i += 1;
    }
    proof {
        assert(lv.len() == lines@.len());
    }
    r
}

impl Rule for CmdRunQuietRule {
    open spec fn spec_meta(&self) -> RuleMeta {
        RuleMeta {
            id: "901",
            shortdesc: "Using the quiet argument with cmd.run is deprecated. Use output_loglevel: quiet",
            description: "Using the quiet argument with cmd.run is deprecated. Use output_loglevel: quiet",
            severity: Severity::High,
            tags: &["deprecation"],
            languages: &[FileKind::Sls],
        }
    }

    open spec fn spec_check_line(&self, ctx: ContextView, line_no: nat, line: Seq<char>) -> Option<
        SeedView,
    > {
        None
    }

    open spec fn spec_check_text(&self, ctx: ContextView, text: Seq<char>) -> Seq<SeedView> {
        quiet_findings(text)
    }

    fn meta(&self) -> (m: &'static RuleMeta) {
        &RuleMeta {
            id: "901",
            shortdesc: "Using the quiet argument with cmd.run is deprecated. Use output_loglevel: quiet",
            description: "Using the quiet argument with cmd.run is deprecated. Use output_loglevel: quiet",
            severity: Severity::High,
            tags: &["deprecation"],
            languages: &[FileKind::Sls],
        }
    }

    fn check_line(&self, ctx: &RuleContext, line_no: usize, line: &str) -> (r: Option<ProblemSeed>) {
        None
    }

    fn check_text(&self, ctx: &RuleContext, text: &str) -> (r: Vec<ProblemSeed>) {
        quiet_seeds(text)
    }
}

impl Rule for NestedDictRule {
    open spec fn spec_meta(&self) -> RuleMeta {
        RuleMeta {
            id: "219",
            shortdesc: "Nested dictionaries (in context or defaults) should be over-indented",
            description: "Nested dictionaries (in context or defaults) should be over-indented",
            severity: Severity::High,
            tags: &["formatting"],
            languages: &[FileKind::Sls],
        }
    }

    open spec fn spec_check_line(&self, ctx: ContextView, line_no: nat, line: Seq<char>) -> Option<
        SeedView,
    > {
        None
    }

    open spec fn spec_check_text(&self, ctx: ContextView, text: Seq<char>) -> Seq<SeedView> {
        nested_dict_findings(text)
    }

    fn meta(&self) -> (m: &'static RuleMeta) {
        &RuleMeta {
            id: "219",
            shortdesc: "Nested dictionaries (in context or defaults) should be over-indented",
            description: "Nested dictionaries (in context or defaults) should be over-indented",
            severity: Severity::High,
            tags: &["formatting"],
            languages: &[FileKind::Sls],
        }
    }

    fn check_line(&self, ctx: &RuleContext, line_no: usize, line: &str) -> (r: Option<ProblemSeed>) {
        None
    }

    fn check_text(&self, ctx: &RuleContext, text: &str) -> (r: Vec<ProblemSeed>) {
        nested_seeds(text)
    }
}

/// The rules that read several lines, in the order they are registered.
pub fn all_rules() -> (r: Vec<Box<dyn Rule>>)
    ensures
        r@.len() == 2,
        acts_as(r@, 0, CmdRunQuietRule),
        acts_as(r@, 1, NestedDictRule),
{
    let r: Vec<Box<dyn Rule>> = vec![
        Box::new(CmdRunQuietRule),
        Box::new(NestedDictRule),
    ];
    r
}

pub fn builtin_rule_count() -> (n: usize)
    ensures
        n == 2,
{
    2
}

/// The findings among the first `n` headers each name the line after their
/// header, with the header and that line as the section.
proof fn lemma_nested_findings_sections(lines: Seq<Seq<char>>, n: nat)
    requires
        n < lines.len(),
    ensures
        forall|i: int|
            0 <= i < nested_findings(lines, n).len() ==> {
                let f = #[trigger] nested_findings(lines, n)[i];
                &&& 2 <= f.linenumber <= n + 1
                &&& f.line == lines[f.linenumber - 1]
                &&& f.skip_excerpt == Some(lines[f.linenumber - 2] + seq!['\n'] + f.line)
                &&& f.message is None
            },
    decreases n,
{
    if n > 0 {
        lemma_nested_findings_sections(lines, (n - 1) as nat);
        let prev = nested_findings(lines, (n - 1) as nat);
        let cur = nested_findings(lines, n);
        assert forall|i: int| 0 <= i < cur.len() implies {
            let f = #[trigger] cur[i];
            &&& 2 <= f.linenumber <= n + 1
            &&& f.line == lines[f.linenumber - 1]
            &&& f.skip_excerpt == Some(lines[f.linenumber - 2] + seq!['\n'] + f.line)
            &&& f.message is None
        } by {
            if i < prev.len() {
                assert(cur[i] == prev[i]);
            }
        }
    }
}

/// A finding of rule 219 is the line after a `context:` or `defaults:`
/// header, at its line number, and its section is the header line, a
/// newline and that line, so a `# noqa` on the header line falls within
/// it.
pub proof fn law_nested_dict_section_spans_header(ctx: ContextView, text: Seq<char>)
    ensures
        forall|i: int|
            0 <= i < NestedDictRule.spec_check_text(ctx, text).len() ==> {
                let f = #[trigger] NestedDictRule.spec_check_text(ctx, text)[i];
                let lines = split_on(text, '\n');
                &&& 2 <= f.linenumber <= lines.len()
                &&& f.line == lines[f.linenumber - 1]
                &&& f.skip_excerpt == Some(lines[f.linenumber - 2] + seq!['\n'] + f.line)
                &&& f.message is None
            },
{
    let lines = split_on(text, '\n');
    if lines.len() > 0 {
        lemma_nested_findings_sections(lines, (lines.len() - 1) as nat);
    }
}

} // verus!
