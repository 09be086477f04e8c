//! The rule engine: which rules run on a file, which lines they see, which
//! findings survive `# noqa`, and in what order problems come out.
use crate::engine::context::{ContextView, RuleContext};
use crate::engine::rule::{seed_problem, seed_views, Rule, SeedView};
use crate::engine::skip::{contains_str, noqa_ids, parse_noqa_ids, text_has_noqa, text_silences};
use crate::file_types::FileKind;
use crate::order::{
    insertion_sort, lemma_insert_at, lemma_insertion_sort, lemma_insertion_sort_stable, same_key,
    sorted_by, strict_order, strict_weak_order,
};
use crate::problem::{problem_views, Problem, ProblemView, RuleMeta};
use crate::text::{
    chars_of, leading_whitespace, lemma_seq_lt_irreflexive, lemma_seq_lt_total,
    lemma_seq_lt_transitive, seq_lt, split_on, split_str, starts_with, str_eq, str_lt, trim_start,
    views,
};
use vstd::prelude::*;

verus! {

// ---------------------------------------------------------------------------
// Order of problems
// ---------------------------------------------------------------------------
/// Problems are ordered by file name, then line number, then rule id.
pub open spec fn problem_lt(a: ProblemView, b: ProblemView) -> bool {
    ||| seq_lt(a.filename, b.filename)
    ||| (a.filename == b.filename && a.linenumber < b.linenumber)
    ||| (a.filename == b.filename && a.linenumber == b.linenumber && seq_lt(a.id, b.id))
}

/// The order of problems as a spec closure.
pub open spec fn location_lt() -> spec_fn(ProblemView, ProblemView) -> bool {
    |a: ProblemView, b: ProblemView| problem_lt(a, b)
}

/// The stable sort of problems by location: problems that compare equal
/// keep their order.
pub open spec fn sort_by_location(s: Seq<ProblemView>) -> Seq<ProblemView> {
    insertion_sort(s, location_lt())
}

/// The order of problems is a strict order.
pub proof fn lemma_location_lt_strict_order()
    ensures
        strict_order(location_lt()),
{
    assert forall|a: ProblemView| !#[trigger] location_lt()(a, a) by {
        lemma_seq_lt_irreflexive(a.filename);
        lemma_seq_lt_irreflexive(a.id);
    }
    assert forall|a: ProblemView, b: ProblemView, c: ProblemView|
        #[trigger] location_lt()(a, b) && #[trigger] location_lt()(b, c) implies location_lt()(
        a,
        c,
    ) by {
        if seq_lt(a.filename, b.filename) && seq_lt(b.filename, c.filename) {
            lemma_seq_lt_transitive(a.filename, b.filename, c.filename);
        }
        if a.filename == b.filename && b.filename == c.filename && a.linenumber == b.linenumber
            && b.linenumber == c.linenumber {
            lemma_seq_lt_irreflexive(a.filename);
            lemma_seq_lt_transitive(a.id, b.id, c.id);
        }
    }
}

/// Two problems that neither sorts before the other have the same file
/// name, line number and rule id.
proof fn lemma_location_incomparable(a: ProblemView, b: ProblemView)
    requires
        !problem_lt(a, b),
        !problem_lt(b, a),
    ensures
        a.filename == b.filename && a.linenumber == b.linenumber && a.id == b.id,
{
    if a.filename != b.filename {
        lemma_seq_lt_total(a.filename, b.filename);
    }
    if a.filename == b.filename && a.linenumber == b.linenumber && a.id != b.id {
        lemma_seq_lt_total(a.id, b.id);
    }
}

/// The order of problems is a strict weak order: problems with the same
/// location and id compare equal.
pub proof fn lemma_location_lt_strict_weak_order()
    ensures
        strict_weak_order(location_lt()),
{
    lemma_location_lt_strict_order();
    assert forall|a: ProblemView, b: ProblemView, c: ProblemView|
        #![trigger location_lt()(a, b), location_lt()(b, c), location_lt()(a, c)]
        location_lt()(a, c) implies location_lt()(a, b) || location_lt()(b, c) by {
        if !problem_lt(a, b) && !problem_lt(b, c) {
            if !problem_lt(b, a) {
                lemma_location_incomparable(a, b);
            }
            if !problem_lt(c, b) {
                lemma_location_incomparable(b, c);
            }
            if problem_lt(b, a) && problem_lt(c, b) {
                assert(location_lt()(c, b) && location_lt()(b, a));
                assert(location_lt()(c, a));
            }
            lemma_seq_lt_irreflexive(a.filename);
            lemma_seq_lt_irreflexive(a.id);
            if problem_lt(c, a) {
                assert(location_lt()(a, c) && location_lt()(c, a));
                assert(location_lt()(a, a));
            }
        }
    }
}

/// The problems that `RuleCollection::run` reports come in order of file
/// name, line number and rule id; they are the rules' findings, none lost
/// and none added; and findings at the same place from the same rule keep
/// the order in which they were found.
pub proof fn law_sort_by_location(s: Seq<ProblemView>)
    ensures
        sorted_by(sort_by_location(s), location_lt()),
        sort_by_location(s).to_multiset() == s.to_multiset(),
        forall|x: ProblemView|
            #[trigger] sort_by_location(s).filter(same_key(location_lt(), x)) == s.filter(
                same_key(location_lt(), x),
            ),
{
    lemma_location_lt_strict_weak_order();
    lemma_insertion_sort(s, location_lt());
    assert forall|x: ProblemView|
        #[trigger] sort_by_location(s).filter(same_key(location_lt(), x)) == s.filter(
            same_key(location_lt(), x),
        ) by {
        lemma_insertion_sort_stable(s, location_lt(), x);
    }
}

pub fn problem_less(a: &Problem, b: &Problem) -> (r: bool)
    ensures
        r == problem_lt(a@, b@),
{
    if str_lt(a.filename.as_str(), b.filename.as_str()) {
        return true;
    }
    if !str_eq(a.filename.as_str(), b.filename.as_str()) {
        return false;
    }
    if a.linenumber != b.linenumber {
        return a.linenumber < b.linenumber;
    }
    str_lt(a.id.as_str(), b.id.as_str())
}

/// Sorts problems by file name, line number and rule id; problems that
/// compare equal keep their order.
pub fn sort_problems(problems: &mut Vec<Problem>)
    ensures
        problem_views(final(problems)@) == sort_by_location(problem_views(old(problems)@)),
{
    let mut src: Vec<Problem> = Vec::new();
    std::mem::swap(&mut src, problems);
    let ghost orig = problem_views(src@);
    let n = src.len();
    let mut out: Vec<Problem> = Vec::new();
    let mut i: usize = 0;
    while i < n
        invariant
            i <= n,
            n == orig.len(),
            problem_views(src@) == orig.skip(i as int),
            problem_views(out@) == sort_by_location(orig.take(i as int)),
        decreases n - i,
    {
        proof {
            assert(problem_views(src@).len() == n - i);
        }
        let ghost old_src = src@;
        let x = src.remove(0);
        proof {
            assert(problem_views(old_src)[0] == old_src[0]@);
            assert(orig.skip(i as int)[0] == orig[i as int]);
            assert(x@ == orig[i as int]);
            assert(src@ =~= old_src.drop_first());
            assert(problem_views(src@) =~= problem_views(old_src).drop_first());
            assert(orig.skip(i as int).drop_first() =~= orig.skip(i + 1));
        }
        let mut p: usize = 0;
        while p < out.len() && !problem_less(&x, &out[p])
            invariant
                p <= out@.len(),
                forall|j: int| 0 <= j < p ==> !location_lt()(x@, #[trigger] problem_views(out@)[j]),
            decreases out@.len() - p,
        {
            p += 1;
        }
        let ghost before = problem_views(out@);
        proof {
            if p < out@.len() {
                assert(problem_views(out@)[p as int] == out@[p as int]@);
            }
            lemma_insert_at(x@, before, p as int, location_lt());
            assert(orig.take(i + 1).drop_last() =~= orig.take(i as int));
            assert(orig.take(i + 1).last() == orig[i as int]);
        }
        out.insert(p, x);
        proof {
            assert(problem_views(out@) =~= before.take(p as int) + seq![x@] + before.skip(p as int));
        }
        i += 1;
    }
    proof {
        assert(orig.take(n as int) =~= orig);
    }
    *problems = out;
}

// ---------------------------------------------------------------------------
// Which rules run, which lines and findings count
// ---------------------------------------------------------------------------
/// The words that select a rule: its tags and its id.
pub open spec fn rule_tokens(meta: RuleMeta) -> Seq<Seq<char>> {
    meta.tags@.map_values(|t: &str| t@).push(meta.id@)
}

/// A rule runs on a file when it applies to the file's kind, shares a token
/// with the requested tags (if any), has no token in the skip list, and no
/// token whose `ignore` patterns cover the file.
pub open spec fn rule_applies(
    meta: RuleMeta,
    ctx: ContextView,
    tags: Seq<Seq<char>>,
    skip_list: Seq<Seq<char>>,
) -> bool {
    let tokens = rule_tokens(meta);
    &&& (meta.languages@.len() == 0 || meta.languages@.contains(ctx.kind))
    &&& (tags.len() == 0 || exists|k: int| 0 <= k < tokens.len() && tags.contains(#[trigger] tokens[k]))
    &&& !exists|k: int| 0 <= k < tokens.len() && skip_list.contains(#[trigger] tokens[k])
    &&& !exists|k: int|
        0 <= k < tokens.len() && ctx.config.spec_is_file_ignored(ctx.filename, #[trigger] tokens[k])
}

/// Whether a rule gets as far as its `ignore` patterns on the file of
/// `ctx`: it applies to the file's kind, shares a token with the requested
/// tags (if any) and has no token in the skip list.
pub open spec fn rule_reaches_ignores(
    meta: RuleMeta,
    ctx: ContextView,
    tags: Seq<Seq<char>>,
    skip_list: Seq<Seq<char>>,
) -> bool {
    let tokens = rule_tokens(meta);
    &&& (meta.languages@.len() == 0 || meta.languages@.contains(ctx.kind))
    &&& (tags.len() == 0 || exists|k: int| 0 <= k < tokens.len() && tags.contains(#[trigger] tokens[k]))
    &&& !exists|k: int| 0 <= k < tokens.len() && skip_list.contains(#[trigger] tokens[k])
}

/// Whether the `ignore` matchers of a rule's tokens, asked in order until
/// one covers the file, can each answer.
pub open spec fn ignore_queries_ok(meta: RuleMeta, ctx: ContextView) -> bool {
    let tokens = rule_tokens(meta);
    forall|k: int|
        0 <= k < tokens.len() && (forall|j: int|
            0 <= j < k ==> !ctx.config.spec_is_file_ignored(ctx.filename, tokens[j]))
            ==> ctx.config.accepts_rule_path(ctx.filename, #[trigger] tokens[k])
}

/// Whether deciding if a rule runs on the file of `ctx` asks no `ignore`
/// matcher that cannot answer.
pub open spec fn rule_can_run(
    meta: RuleMeta,
    ctx: ContextView,
    tags: Seq<Seq<char>>,
    skip_list: Seq<Seq<char>>,
) -> bool {
    rule_reaches_ignores(meta, ctx, tags, skip_list) ==> ignore_queries_ok(meta, ctx)
}

/// Whether running `rules` on the file of `ctx` asks no `ignore` matcher
/// that cannot answer.
pub open spec fn rules_can_run(
    rules: Seq<Box<dyn Rule>>,
    ctx: ContextView,
    tags: Seq<Seq<char>>,
    skip_list: Seq<Seq<char>>,
) -> bool {
    forall|i: int|
        0 <= i < rules.len() ==> rule_can_run(
            (#[trigger] rules[i]).spec_meta(),
            ctx,
            tags,
            skip_list,
        )
}

/// A line that, once its leading whitespace is dropped, starts with `#`.
pub open spec fn is_comment_line(line: Seq<char>) -> bool {
    starts_with(trim_start(line), seq!['#'])
}

/// Whether a line is kept from line rules of the rule `id`: comment lines
/// are, and so are lines whose `# noqa` names the rule.
pub open spec fn line_skipped(line: Seq<char>, id: Seq<char>) -> bool {
    is_comment_line(line) || noqa_ids(line).contains(id)
}

/// The problems that a rule finds in the first `n` lines.
pub open spec fn line_findings(
    rules: Seq<Box<dyn Rule>>,
    i: int,
    ctx: ContextView,
    meta: RuleMeta,
    lines: Seq<Seq<char>>,
    n: nat,
) -> Seq<ProblemView>
    decreases n,
{
    if n == 0 {
        Seq::empty()
    } else {
        let prev = line_findings(rules, i, ctx, meta, lines, (n - 1) as nat);
        let l = lines[n - 1];
        if line_skipped(l, meta.id@) {
            prev
        } else {
            match rules[i].spec_check_line(ctx, n, l) {
                Some(seed) => prev.push(seed_problem(seed, meta, ctx.filename)),
                None => prev,
            }
        }
    }
}

/// Whether a whole-text finding survives: a finding with an excerpt is
/// dropped when some line of the excerpt silences the rule.
pub open spec fn seed_kept(seed: SeedView, id: Seq<char>) -> bool {
    match seed.skip_excerpt {
        Some(e) => !text_silences(e, id),
        None => true,
    }
}

/// The problems made from the first `n` whole-text findings.
pub open spec fn text_findings(
    seeds: Seq<SeedView>,
    meta: RuleMeta,
    filename: Seq<char>,
    n: nat,
) -> Seq<ProblemView>
    decreases n,
{
    if n == 0 {
        Seq::empty()
    } else {
        let prev = text_findings(seeds, meta, filename, (n - 1) as nat);
        if seed_kept(seeds[n - 1], meta.id@) {
            prev.push(seed_problem(seeds[n - 1], meta, filename))
        } else {
            prev
        }
    }
}

/// The problems of the rule `rules[i]`: its line findings, then its
/// whole-text ones.
pub open spec fn rule_findings(
    rules: Seq<Box<dyn Rule>>,
    i: int,
    ctx: ContextView,
    text: Seq<char>,
    tags: Seq<Seq<char>>,
    skip_list: Seq<Seq<char>>,
) -> Seq<ProblemView> {
    let meta = rules[i].spec_meta();
    if !rule_applies(meta, ctx, tags, skip_list) {
        Seq::empty()
    } else {
        let lines = split_on(text, '\n');
        let seeds = rules[i].spec_check_text(ctx, text);
        line_findings(rules, i, ctx, meta, lines, lines.len()) + text_findings(
            seeds,
            meta,
            ctx.filename,
            seeds.len(),
        )
    }
}

/// The problems of the first `n` rules, in registration order.
pub open spec fn all_findings(
    rules: Seq<Box<dyn Rule>>,
    ctx: ContextView,
    text: Seq<char>,
    tags: Seq<Seq<char>>,
    skip_list: Seq<Seq<char>>,
    n: nat,
) -> Seq<ProblemView>
    decreases n,
{
    if n == 0 {
        Seq::empty()
    } else {
        all_findings(rules, ctx, text, tags, skip_list, (n - 1) as nat) + rule_findings(
            rules,
            n - 1,
            ctx,
            text,
            tags,
            skip_list,
        )
    }
}

/// A rule reports nothing from lines that are comments or whose `# noqa`
/// names it.
pub proof fn law_silenced_lines_report_nothing(
    rules: Seq<Box<dyn Rule>>,
    i: int,
    ctx: ContextView,
    meta: RuleMeta,
    lines: Seq<Seq<char>>,
    n: nat,
)
    requires
        n <= lines.len(),
        forall|k: int| 0 <= k < n ==> line_skipped(#[trigger] lines[k], meta.id@),
    ensures
        line_findings(rules, i, ctx, meta, lines, n) == Seq::<ProblemView>::empty(),
    decreases n,
{
    if n > 0 {
        assert(line_skipped(lines[n - 1], meta.id@));
        law_silenced_lines_report_nothing(rules, i, ctx, meta, lines, (n - 1) as nat);
    }
}

/// A whole-text finding whose excerpt holds a `# noqa` naming the rule is
/// not reported.
pub proof fn law_silenced_sections_report_nothing(
    seeds: Seq<SeedView>,
    meta: RuleMeta,
    filename: Seq<char>,
    n: nat,
)
    requires
        n <= seeds.len(),
        forall|k: int|
            0 <= k < n ==> match (#[trigger] seeds[k]).skip_excerpt {
                Some(e) => text_silences(e, meta.id@),
                None => false,
            },
    ensures
        text_findings(seeds, meta, filename, n) == Seq::<ProblemView>::empty(),
    decreases n,
{
    if n > 0 {
        assert(!seed_kept(seeds[n - 1], meta.id@));
        law_silenced_sections_report_nothing(seeds, meta, filename, (n - 1) as nat);
    }
}

/// A rule whose id (or one of whose tags) is in the skip list reports
/// nothing; so does a rule that none of the requested tags selects, and a
/// rule for other kinds of file.
pub proof fn law_disabled_rule_reports_nothing(
    rules: Seq<Box<dyn Rule>>,
    i: int,
    ctx: ContextView,
    text: Seq<char>,
    tags: Seq<Seq<char>>,
    skip_list: Seq<Seq<char>>,
)
    requires
        ({
            let meta = rules[i].spec_meta();
            let tokens = rule_tokens(meta);
            ||| skip_list.contains(meta.id@)
            ||| (exists|k: int|
                0 <= k < meta.tags@.len() && skip_list.contains(#[trigger] meta.tags@[k]@))
            ||| (tags.len() > 0 && forall|k: int|
                0 <= k < tokens.len() ==> !tags.contains(#[trigger] tokens[k]))
            ||| (meta.languages@.len() > 0 && !meta.languages@.contains(ctx.kind))
        }),
    ensures
        rule_findings(rules, i, ctx, text, tags, skip_list) == Seq::<ProblemView>::empty(),
{
    let meta = rules[i].spec_meta();
    let tokens = rule_tokens(meta);
    assert(tokens[tokens.len() - 1] == meta.id@);
    if exists|k: int| 0 <= k < meta.tags@.len() && skip_list.contains(#[trigger] meta.tags@[k]@) {
        let k = choose|k: int|
            0 <= k < meta.tags@.len() && skip_list.contains(#[trigger] meta.tags@[k]@);
        assert(tokens[k] == meta.tags@[k]@);
    }
    assert(!rule_applies(meta, ctx, tags, skip_list));
}

/// A rule reports nothing on a file that the `ignore` patterns configured
/// for its id, or for one of its tags, cover: such a rule does not run
/// there.
pub proof fn law_ignored_rule_reports_nothing(
    rules: Seq<Box<dyn Rule>>,
    i: int,
    ctx: ContextView,
    text: Seq<char>,
    tags: Seq<Seq<char>>,
    skip_list: Seq<Seq<char>>,
)
    requires
        ({
            let meta = rules[i].spec_meta();
            ||| ctx.config.spec_is_file_ignored(ctx.filename, meta.id@)
            ||| exists|k: int|
                0 <= k < meta.tags@.len() && ctx.config.spec_is_file_ignored(
                    ctx.filename,
                    #[trigger] meta.tags@[k]@,
                )
        }),
    ensures
        !rule_applies(rules[i].spec_meta(), ctx, tags, skip_list),
        rule_findings(rules, i, ctx, text, tags, skip_list) == Seq::<ProblemView>::empty(),
{
    let meta = rules[i].spec_meta();
    let tokens = rule_tokens(meta);
    assert(tokens[tokens.len() - 1] == meta.id@);
    if exists|k: int|
        0 <= k < meta.tags@.len() && ctx.config.spec_is_file_ignored(
            ctx.filename,
            #[trigger] meta.tags@[k]@,
        ) {
        let k = choose|k: int|
            0 <= k < meta.tags@.len() && ctx.config.spec_is_file_ignored(
                ctx.filename,
                #[trigger] meta.tags@[k]@,
            );
        assert(tokens[k] == meta.tags@[k]@);
    }
    assert(!rule_applies(meta, ctx, tags, skip_list));
}

fn slice_contains_kind(kinds: &[FileKind], k: FileKind) -> (b: bool)
    ensures
        b == kinds@.contains(k),
{
    let mut i: usize = 0;
    while i < kinds.len()
        invariant
            i <= kinds@.len(),
            forall|j: int| 0 <= j < i ==> kinds@[j] != k,
        decreases kinds@.len() - i,
    {
        if kinds[i] == k {
            return true;
        }
        i += 1;
    }
    false
}

/// The tokens of a rule as owned strings.
fn tokens_of(meta: &RuleMeta) -> (r: Vec<String>)
    ensures
        views(r@) == rule_tokens(*meta),
{
    let mut r: Vec<String> = Vec::new();
    let mut i: usize = 0;
    while i < meta.tags.len()
        invariant
            i <= meta.tags@.len(),
            views(r@) == meta.tags@.take(i as int).map_values(|t: &str| t@),
        decreases meta.tags@.len() - i,
    {
        let t = meta.tags[i];
        let ghost old_views = views(r@);
        let o = t.to_owned();
        r.push(o);
        proof {
            assert(meta.tags@.take(i + 1) =~= meta.tags@.take(i as int).push(t));
            assert(views(r@) =~= old_views.push(o@));
            assert(meta.tags@.take(i + 1).map_values(|t: &str| t@) =~= meta.tags@.take(
                i as int,
            ).map_values(|t: &str| t@).push(t@));
        }
        i += 1;
    }
    let ghost old_views = views(r@);
    let o = meta.id.to_owned();
    r.push(o);
    proof {
        assert(views(r@) =~= old_views.push(o@));
        assert(meta.tags@.take(meta.tags@.len() as int) =~= meta.tags@);
        assert(views(r@) =~= rule_tokens(*meta));
    }
    r
}

/// Whether a rule gets as far as its `ignore` patterns on the file of
/// `ctx`.
fn rule_reaches(meta: &RuleMeta, ctx: &RuleContext, tags: &Vec<String>, skip_list: &Vec<String>) -> (b:
    bool)
    ensures
        b == rule_reaches_ignores(*meta, ctx@, views(tags@), views(skip_list@)),
{
    if meta.languages.len() != 0 && !slice_contains_kind(meta.languages, ctx.kind) {
        return false;
    }
    let tokens = tokens_of(meta);
    let ghost tv = views(tokens@);
    if tags.len() != 0 {
        let mut found = false;
        let mut k: usize = 0;
        while k < tokens.len()
            invariant
                k <= tokens@.len(),
                tv == views(tokens@),
                tv == rule_tokens(*meta),
                found == exists|j: int| 0 <= j < k && views(tags@).contains(#[trigger] tv[j]),
            decreases tokens@.len() - k,
        {
            if contains_str(tags, tokens[k].as_str()) {
                found = true;
            }
            proof {
                assert(tv[k as int] == tokens@[k as int]@);
            }
            k += 1;
        }
        if !found {
            return false;
        }
    }
    let mut k: usize = 0;
    while k < tokens.len()
        invariant
            k <= tokens@.len(),
            tv == views(tokens@),
            tv == rule_tokens(*meta),
            forall|j: int| 0 <= j < k ==> !views(skip_list@).contains(#[trigger] tv[j]),
        decreases tokens@.len() - k,
    {
        proof {
            assert(tv[k as int] == tokens@[k as int]@);
        }
        if contains_str(skip_list, tokens[k].as_str()) {
            assert(views(skip_list@).contains(rule_tokens(*meta)[k as int]));
            return false;
        }
        k += 1;
    }
    true
}

/// Whether a rule runs on the file of `ctx`.
pub fn rule_enabled(
    meta: &RuleMeta,
    ctx: &RuleContext,
    tags: &Vec<String>,
    skip_list: &Vec<String>,
) -> (b: bool)
    requires
        rule_can_run(*meta, ctx@, views(tags@), views(skip_list@)),
    ensures
        b == rule_applies(*meta, ctx@, views(tags@), views(skip_list@)),
{
    if !rule_reaches(meta, ctx, tags, skip_list) {
        return false;
    }
    let tokens = tokens_of(meta);
    let ghost tv = views(tokens@);
    let mut k: usize = 0;
    while k < tokens.len()
        invariant
            k <= tokens@.len(),
            tv == views(tokens@),
            tv == rule_tokens(*meta),
            ignore_queries_ok(*meta, ctx@),
            forall|j: int|
                0 <= j < k ==> !ctx.config.spec_is_file_ignored(ctx.filename@, #[trigger] tv[j]),
        decreases tokens@.len() - k,
    {
        proof {
            assert(tv[k as int] == tokens@[k as int]@);
            assert(ctx.config.accepts_rule_path(ctx.filename@, tv[k as int]));
        }
        if ctx.config.is_file_ignored(ctx.filename, tokens[k].as_str()) {
            assert(ctx.config.spec_is_file_ignored(ctx.filename@, rule_tokens(*meta)[k as int]));
            return false;
        }
        k += 1;
    }
    true
}

/// Whether the `ignore` matchers of a rule's tokens, asked in order until
/// one covers the file, can each answer.
fn ignore_queries_fit(meta: &RuleMeta, ctx: &RuleContext) -> (b: bool)
    requires
        ctx.config.wf(),
    ensures
        b == ignore_queries_ok(*meta, ctx@),
{
    let tokens = tokens_of(meta);
    let ghost tv = views(tokens@);
    let mut k: usize = 0;
    while k < tokens.len()
        invariant
            k <= tokens@.len(),
            tv == views(tokens@),
            tv == rule_tokens(*meta),
            ctx.config.wf(),
            forall|j: int|
                0 <= j < k ==> !ctx.config.spec_is_file_ignored(ctx.filename@, #[trigger] tv[j])
                    && ctx.config.accepts_rule_path(ctx.filename@, tv[j]),
        decreases tokens@.len() - k,
    {
        proof {
            assert(tv[k as int] == tokens@[k as int]@);
        }
        if !ctx.config.accepts_rule(ctx.filename, tokens[k].as_str()) {
            assert(!ctx.config.accepts_rule_path(ctx.filename@, tv[k as int]));
            return false;
        }
        if ctx.config.is_file_ignored(ctx.filename, tokens[k].as_str()) {
            proof {
                assert forall|m: int|
                    0 <= m < tv.len() && (forall|j: int|
                        0 <= j < m ==> !ctx.config.spec_is_file_ignored(ctx.filename@, tv[j]))
                        implies ctx.config.accepts_rule_path(ctx.filename@, #[trigger] tv[m]) by {
                    if m > k {
                        assert(!ctx.config.spec_is_file_ignored(ctx.filename@, tv[k as int]));
                    }
                }
            }
            return true;
        }
        k += 1;
    }
    true
}

/// Whether a line is a comment.
pub fn comment_line(line: &str) -> (b: bool)
    ensures
        b == is_comment_line(line@),
{
    let cs = chars_of(line);
    let k = leading_whitespace(&cs);
    let r = k < cs.len() && cs[k] == '#';
    proof {
        let t = cs@.skip(k as int);
        if r {
            assert(t.take(1) =~= seq!['#']);
        } else if t.len() >= 1 {
            assert(t.take(1)[0] == t[0]);
            assert(t[0] == cs@[k as int]);
        }
    }
    r
}

// ---------------------------------------------------------------------------
// The collection
// ---------------------------------------------------------------------------
pub struct RuleCollection {
    pub rules: Vec<Box<dyn Rule>>,
}

impl RuleCollection {
    pub fn new() -> (c: Self)
        ensures
            c.rules@.len() == 0,
    {
        RuleCollection { rules: Vec::new() }
    }

    pub fn register(&mut self, rule: Box<dyn Rule>)
        ensures
            final(self).rules@ == old(self).rules@.push(rule),
            final(self).rules@.len() == old(self).rules@.len() + 1,
    {
        self.rules.push(rule);
        proof {
            crate::rules::lemma_push(old(self).rules@, rule);
        }
    }

    pub fn len(&self) -> (n: usize)
        ensures
            n == self.rules@.len(),
    {
        self.rules.len()
    }

    /// Whether running the rules on the file of `ctx` asks no `ignore`
    /// matcher that cannot answer.
    pub fn can_run(&self, ctx: &RuleContext, tags: &Vec<String>, skip_list: &Vec<String>) -> (b: bool)
        requires
            ctx.config.wf(),
        ensures
            b == rules_can_run(self.rules@, ctx@, views(tags@), views(skip_list@)),
    {
        let mut i: usize = 0;
        while i < self.rules.len()
            invariant
                i <= self.rules@.len(),
                ctx.config.wf(),
                forall|j: int|
                    0 <= j < i ==> rule_can_run(
                        (#[trigger] self.rules@[j]).spec_meta(),
                        ctx@,
                        views(tags@),
                        views(skip_list@),
                    ),
            decreases self.rules@.len() - i,
        {
            let meta = self.rules[i].meta();
            if rule_reaches(meta, ctx, tags, skip_list) && !ignore_queries_fit(meta, ctx) {
                assert(!rule_can_run(self.rules@[i as int].spec_meta(), ctx@, views(tags@), views(skip_list@)));
                return false;
            }
            i += 1;
        }
        true
    }

    /// The problems that one rule finds in a text whose lines are `lines`.
    fn run_rule(
        rules: &Vec<Box<dyn Rule>>,
        i: usize,
        ctx: &RuleContext,
        text: &str,
        lines: &Vec<String>,
        tags: &Vec<String>,
        skip_list: &Vec<String>,
        problems: &mut Vec<Problem>,
    )
        requires
            i < rules@.len(),
            views(lines@) == split_on(text@, '\n'),
            rules_can_run(rules@, ctx@, views(tags@), views(skip_list@)),
        ensures
            problem_views(final(problems)@) == problem_views(old(problems)@) + rule_findings(
                rules@,
                i as int,
                ctx@,
                text@,
                views(tags@),
                views(skip_list@),
            ),
    {
        let meta = rules[i].meta();
        proof {
            assert(rule_can_run(rules@[i as int].spec_meta(), ctx@, views(tags@), views(skip_list@)));
        }
        if !rule_enabled(meta, ctx, tags, skip_list) {
            proof {
                assert(rule_findings(rules@, i as int, ctx@, text@, views(tags@), views(skip_list@))
                    =~= Seq::<ProblemView>::empty());
                assert(problem_views(problems@) =~= problem_views(old(problems)@) + Seq::<
                    ProblemView,
                >::empty());
            }
            return;
        }
        let ghost base = problem_views(problems@);
        let ghost lv = views(lines@);
        proof {
            assert(line_findings(rules@, i as int, ctx@, *meta, lv, 0) == Seq::<ProblemView>::empty());
            assert(base + line_findings(rules@, i as int, ctx@, *meta, lv, 0) =~= base);
        }
        let mut j: usize = 0;
        while j < lines.len()
            invariant
                j <= lines@.len(),
                lv == views(lines@),
                *meta == rules@[i as int].spec_meta(),
                i < rules@.len(),
                problem_views(problems@) == base + line_findings(
                    rules@,
                    i as int,
                    ctx@,
                    *meta,
                    lv,
                    j as nat,
                ),
            decreases lines@.len() - j,
        {
            let line = lines[j].as_str();
            proof {
                assert(lv[j as int] == line@);
            }
            let ids = parse_noqa_ids(line);
            let ghost prev = problem_views(problems@);
            let ghost prevf = line_findings(rules@, i as int, ctx@, *meta, lv, j as nat);
            if comment_line(line) || contains_str(&ids, meta.id) {
                assert(line_skipped(lv[j as int], meta.id@));
                assert(line_findings(rules@, i as int, ctx@, *meta, lv, (j + 1) as nat) == prevf);
            } else {
                assert(!line_skipped(lv[j as int], meta.id@));
                let found = rules[i].check_line(ctx, j + 1, line);
                match found {
                    Some(seed) => {
                        let p = seed.into_problem(meta, ctx.filename);
                        problems.push(p);
                        proof {
                            assert(line_findings(rules@, i as int, ctx@, *meta, lv, (j + 1) as nat)
                                == prevf.push(seed_problem(seed@, *meta, ctx.filename@)));
                            assert(problem_views(problems@) =~= prev.push(p@));
                        }
                    },
                    None => {
                        assert(line_findings(rules@, i as int, ctx@, *meta, lv, (j + 1) as nat)
                            == prevf);
                    },
                }
            }
            j += 1;
        }
        let seeds = rules[i].check_text(ctx, text);
        let ghost sv = seed_views(seeds@);
        let ghost mid = problem_views(problems@);
        proof {
            assert(mid + text_findings(sv, *meta, ctx.filename@, 0) =~= mid);
        }
        let mut k: usize = 0;
        while k < seeds.len()
            invariant
                k <= seeds@.len(),
                sv == seed_views(seeds@),
                *meta == rules@[i as int].spec_meta(),
                i < rules@.len(),
                problem_views(problems@) == mid + text_findings(sv, *meta, ctx.filename@, k as nat),
            decreases seeds@.len() - k,
        {
            let seed = &seeds[k];
            proof {
                assert(sv[k as int] == seed@);
            }
            let ghost prev = problem_views(problems@);
            let silenced = match &seed.skip_excerpt {
                Some(e) => text_has_noqa(e.as_str(), meta.id),
                None => false,
            };
            if !silenced {
                let p = seed.to_problem(meta, ctx.filename);
                problems.push(p);
                proof {
                    assert(problem_views(problems@) =~= prev.push(p@));
                }
            }
            k += 1;
        }
        proof {
            assert(problem_views(problems@) =~= base + (line_findings(
                rules@,
                i as int,
                ctx@,
                *meta,
                lv,
                lv.len(),
            ) + text_findings(sv, *meta, ctx.filename@, sv.len())));
        }
    }

    /// Runs every registered rule on `text`, the content of the file that
    /// `context` names, and returns the problems sorted by location.
    pub fn run(
        &self,
        context: &RuleContext,
        text: &str,
        tags: &Vec<String>,
        skip_list: &Vec<String>,
    ) -> (r: Vec<Problem>)
        requires
            rules_can_run(self.rules@, context@, views(tags@), views(skip_list@)),
        ensures
            problem_views(r@) == sort_by_location(
                all_findings(
                    self.rules@,
                    context@,
                    text@,
                    views(tags@),
                    views(skip_list@),
                    self.rules@.len(),
                ),
            ),
    {
        let lines = split_str(text, '\n');
        let mut problems: Vec<Problem> = Vec::new();
        let mut i: usize = 0;
        while i < self.rules.len()
            invariant
                i <= self.rules@.len(),
                views(lines@) == split_on(text@, '\n'),
                rules_can_run(self.rules@, context@, views(tags@), views(skip_list@)),
                problem_views(problems@) == all_findings(
                    self.rules@,
                    context@,
                    text@,
                    views(tags@),
                    views(skip_list@),
                    i as nat,
                ),
            decreases self.rules@.len() - i,
        {
            Self::run_rule(&self.rules, i, context, text, &lines, tags, skip_list, &mut problems);
            i += 1;
        }
        sort_problems(&mut problems);
        problems
    }
}

} // verus!
