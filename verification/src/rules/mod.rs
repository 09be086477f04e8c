//! The built-in rules.
pub mod deprecations;
pub mod files;
pub mod formatting;
pub mod fulltext;
pub mod jinja;
pub mod yaml;

use crate::engine::collection::RuleCollection;
use crate::engine::context::ContextView;
use crate::engine::rule::{Rule, SeedView};
use crate::regex_api::{regex_compiles, regex_is_match, regex_matches};
use vstd::prelude::*;

verus! {

/// The finding of a line rule on a line: the line itself, with the rule's
/// own message.
pub open spec fn line_seed(line_no: nat, line: Seq<char>) -> SeedView {
    SeedView { linenumber: line_no, line, message: None, skip_excerpt: None }
}

/// Facts about a pushed sequence, proved for any element type (the solver
/// does not apply them to sequences of trait objects by itself).
pub proof fn lemma_push<A>(s: Seq<A>, a: A)
    ensures
        s.push(a).len() == s.len() + 1,
        s.push(a)[s.len() as int] == a,
        forall|i: int| 0 <= i < s.len() ==> s.push(a)[i] == s[i],
{
}

/// The rule at place `i` of `rules` is `r`: it has `r`'s metadata and
/// finds what `r` finds.
pub open spec fn acts_as<R: Rule>(rules: Seq<Box<dyn Rule>>, i: int, r: R) -> bool {
    &&& rules[i].spec_meta() == r.spec_meta()
    &&& forall|ctx: ContextView, n: nat, l: Seq<char>|
        #[trigger] rules[i].spec_check_line(ctx, n, l) == r.spec_check_line(ctx, n, l)
    &&& forall|ctx: ContextView, t: Seq<char>|
        #[trigger] rules[i].spec_check_text(ctx, t) == r.spec_check_text(ctx, t)
}

/// The built-in rules, place by place: the formatting rules, the Jinja
/// rules, the deprecation rules, the file rules, the YAML rule and the
/// multi-line rules, each group in its own order.
pub open spec fn builtin_acts(rules: Seq<Box<dyn Rule>>) -> bool {
    &&& acts_as(rules, 0, formatting::TrailingWhitespaceRule)
    &&& acts_as(rules, 1, formatting::NoTabsRule)
    &&& acts_as(rules, 2, formatting::LineTooLongRule)
    &&& acts_as(rules, 3, formatting::NoIrregularSpacesRule)
    &&& acts_as(rules, 4, formatting::CmdWaitRecommendRule)
    &&& acts_as(rules, 5, formatting::TypoOnchangesRule)
    &&& acts_as(rules, 6, formatting::TypoRequireRule)
    &&& acts_as(rules, 7, jinja::JinjaStatementHasSpacesRule)
    &&& acts_as(rules, 8, jinja::JinjaCommentHasSpacesRule)
    &&& acts_as(rules, 9, jinja::JinjaVariableHasSpacesRule)
    &&& acts_as(rules, 10, jinja::JinjaPillarGrainsGetFormatRule)
    &&& forall|k: int| 0 <= k < 14 ==> acts_as(rules, 11 + k, #[trigger] deprecations::deprecation(k))
    &&& acts_as(rules, 25, files::FileExtensionRule)
    &&& acts_as(rules, 26, files::FileModeQuotationRule)
    &&& acts_as(rules, 27, files::FileModeLeadingZeroRule)
    &&& acts_as(rules, 28, files::SlsFileNameRule)
    &&& acts_as(rules, 29, yaml::YamlHasOctalValueRule)
    &&& acts_as(rules, 30, fulltext::CmdRunQuietRule)
    &&& acts_as(rules, 31, fulltext::NestedDictRule)
}

/// Registers the rules of `rules` after those already there, in their order.
fn register_all(collection: &mut RuleCollection, rules: Vec<Box<dyn Rule>>)
    ensures
        final(collection).rules@ == old(collection).rules@ + rules@,
{
    let mut rules = rules;
    collection.rules.append(&mut rules);
}

/// The built-in rules: the formatting, Jinja, deprecation, file, YAML and
/// multi-line rules, in that order.
#[verifier::rlimit(40)]
pub fn builtin_rules() -> (c: RuleCollection)
    ensures
        c.rules@.len() == 32,
        builtin_acts(c.rules@),
{
    let mut collection = RuleCollection::new();
    register_all(&mut collection, formatting::all_rules());
    let ghost s1 = collection.rules@;
    let more = jinja::all_rules();
    let ghost m2 = more@;
    register_all(&mut collection, more);
    let ghost s2 = collection.rules@;
    let more = deprecations::all_rules();
    let ghost m3 = more@;
    register_all(&mut collection, more);
    let ghost s3 = collection.rules@;
    register_all(&mut collection, files::all_rules());
    register_all(&mut collection, yaml::all_rules());
    register_all(&mut collection, fulltext::all_rules());
    proof {
        assert(s1.len() == 7 && s2.len() == 11 && s3.len() == 25);
        assert forall|k: int| 0 <= k < 14 implies acts_as(
            collection.rules@,
            11 + k,
            #[trigger] deprecations::deprecation(k),
        ) by {
            assert(acts_as(m3, k, deprecations::deprecation(k)));
            assert(s3[11 + k] == m3[k]);
            assert(collection.rules@[11 + k] == s3[11 + k]);
        }
    }
    collection
}

/// The ids of the built-in rules, in the order they are registered.
pub open spec fn builtin_ids() -> Seq<Seq<char>> {
    seq![
        "201"@,
        "203"@,
        "204"@,
        "212"@,
        "213"@,
        "216"@,
        "217"@,
        "202"@,
        "209"@,
        "206"@,
        "211"@,
        "902"@,
        "903"@,
        "904"@,
        "905"@,
        "906"@,
        "907"@,
        "908"@,
        "909"@,
        "910"@,
        "911"@,
        "912"@,
        "913"@,
        "914"@,
        "915"@,
        "205"@,
        "207"@,
        "208"@,
        "214"@,
        "210"@,
        "901"@,
        "219"@,
    ]
}

/// Each built-in rule has its own id: the ids are 201 to 214, 216, 217,
/// 219 and 901 to 915, and no two rules share one.
#[verifier::rlimit(60)]
pub proof fn law_builtin_ids_distinct(rules: Seq<Box<dyn Rule>>)
    requires
        rules.len() == 32,
        builtin_acts(rules),
    ensures
        forall|i: int| 0 <= i < 32 ==> (#[trigger] rules[i]).spec_meta().id@ == builtin_ids()[i],
        forall|i: int, j: int|
            0 <= i < j < 32 ==> (#[trigger] rules[i]).spec_meta().id@ != (#[trigger] rules[j]).spec_meta().id@,
{
    assert forall|k: int| 0 <= k < 14 implies (#[trigger] rules[11 + k]).spec_meta().id@
        == builtin_ids()[11 + k] by {
        assert(acts_as(rules, 11 + k, deprecations::deprecation(k)));
    }
    assert forall|i: int| 0 <= i < 32 implies (#[trigger] rules[i]).spec_meta().id@ == builtin_ids()[i] by {
        if 11 <= i < 25 {
            assert(rules[11 + (i - 11)].spec_meta().id@ == builtin_ids()[11 + (i - 11)]);
        }
    }
    reveal_strlit("201");
    reveal_strlit("203");
    reveal_strlit("204");
    reveal_strlit("212");
    reveal_strlit("213");
    reveal_strlit("216");
    reveal_strlit("217");
    reveal_strlit("202");
    reveal_strlit("209");
    reveal_strlit("206");
    reveal_strlit("211");
    reveal_strlit("902");
    reveal_strlit("903");
    reveal_strlit("904");
    reveal_strlit("905");
    reveal_strlit("906");
    reveal_strlit("907");
    reveal_strlit("908");
    reveal_strlit("909");
    reveal_strlit("910");
    reveal_strlit("911");
    reveal_strlit("912");
    reveal_strlit("913");
    reveal_strlit("914");
    reveal_strlit("915");
    reveal_strlit("205");
    reveal_strlit("207");
    reveal_strlit("208");
    reveal_strlit("214");
    reveal_strlit("210");
    reveal_strlit("901");
    reveal_strlit("219");
    assert forall|i: int, j: int| 0 <= i < j < 32 implies builtin_ids()[i] != builtin_ids()[j] by {
        assert(builtin_ids()[i].len() == 3 && builtin_ids()[j].len() == 3);
        if builtin_ids()[i] == builtin_ids()[j] {
            assert(builtin_ids()[i][0] == builtin_ids()[j][0]);
            assert(builtin_ids()[i][1] == builtin_ids()[j][1]);
            assert(builtin_ids()[i][2] == builtin_ids()[j][2]);
        }
    }
}

/// Whether `pattern` compiles and matches `text`.
pub fn pattern_matches(pattern: &str, text: &str) -> (b: bool)
    ensures
        b == (regex_compiles(pattern@) && regex_matches(pattern@, text@)),
{
    match regex_is_match(pattern, text) {
        Some(b) => b,
        None => false,
    }
}

} // verus!
