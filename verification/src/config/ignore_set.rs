//! The `ignore` patterns of a rule: gitignore-style globs, compiled once
//! and matched against the files a rule would check.
use crate::config::raw::{
    keep_nonempty_trimmed, nonempty_trimmed, rule_keys_unique, RawConfig, RawRuleConfig,
};
use crate::config::{invalid_pattern, ConfigError};
use crate::gitignore::{
    builder_lines, builder_root, gitignore_add_line, gitignore_build, gitignore_builder,
    gitignore_matches, glob_line_accepted, globs_build, ignores_path, is_glob_line, matcher_accepts,
    matcher_lines, matcher_root,
};
use crate::paths::{join_path, join_paths, strip_dot_slash};
use crate::text::{lines_of, lines_str, views};
use ignore::gitignore::Gitignore;
use vstd::prelude::*;

verus! {

/// The compiled `ignore` patterns of one rule or tag.
pub struct RuleIgnoreSet {
    pub rule: String,
    pub matcher: Gitignore,
}

/// The patterns of an `ignore` value: its lines, trimmed, without empty ones.
pub open spec fn ignore_lines(patterns: Seq<char>) -> Seq<Seq<char>> {
    nonempty_trimmed(lines_of(patterns))
}

/// The lines that hold globs, in order: comments and blank lines go.
pub open spec fn glob_lines(lines: Seq<Seq<char>>) -> Seq<Seq<char>>
    decreases lines.len(),
{
    if lines.len() == 0 {
        Seq::empty()
    } else if is_glob_line(lines.last()) {
        glob_lines(lines.drop_last()).push(lines.last())
    } else {
        glob_lines(lines.drop_last())
    }
}

/// The root of a matcher made at `cwd` with these globs: the working
/// directory without a leading `./`, or nothing when there is no glob.
pub open spec fn matcher_root_for(cwd: Seq<char>, globs: Seq<Seq<char>>) -> Seq<char> {
    if globs.len() == 0 {
        Seq::empty()
    } else {
        strip_dot_slash(cwd)
    }
}

/// Index of the first line that the matcher refuses.
pub open spec fn first_refused(lines: Seq<Seq<char>>) -> Option<int>
    decreases lines.len(),
{
    if lines.len() == 0 {
        None
    } else {
        match first_refused(lines.drop_last()) {
            Some(k) => Some(k),
            None => if glob_line_accepted(lines.last()) {
                None
            } else {
                Some(lines.len() - 1)
            },
        }
    }
}

/// The error that the patterns of `rule` give, as `(rule, pattern)`: the
/// first refused line, or the whole value when the lines do not build.
pub open spec fn ignore_error(rule: Seq<char>, patterns: Seq<char>) -> Option<(Seq<char>, Seq<char>)> {
    let lines = ignore_lines(patterns);
    match first_refused(lines) {
        Some(k) => Some((rule, lines[k])),
        None => if globs_build(glob_lines(lines)) {
            None
        } else {
            Some((rule, patterns))
        },
    }
}

/// The `(rule, patterns)` of the rules that have `ignore` patterns, in order.
pub open spec fn ignore_entries(rules: Seq<(String, RawRuleConfig)>) -> Seq<(Seq<char>, Seq<char>)>
    decreases rules.len(),
{
    if rules.len() == 0 {
        Seq::empty()
    } else {
        let prev = ignore_entries(rules.drop_last());
        match rules.last().1.ignore {
            Some(p) => prev.push((rules.last().0@, p@)),
            None => prev,
        }
    }
}

/// The entries with `ignore` patterns of a configuration file.
pub open spec fn raw_ignore_entries(raw: RawConfig) -> Seq<(Seq<char>, Seq<char>)> {
    match raw.rules {
        Some(v) => ignore_entries(v@),
        None => Seq::empty(),
    }
}

/// The error of the first entry that has one.
pub open spec fn first_ignore_error(entries: Seq<(Seq<char>, Seq<char>)>) -> Option<
    (Seq<char>, Seq<char>),
>
    decreases entries.len(),
{
    if entries.len() == 0 {
        None
    } else {
        match first_ignore_error(entries.drop_last()) {
            Some(e) => Some(e),
            None => ignore_error(entries.last().0, entries.last().1),
        }
    }
}

impl RuleIgnoreSet {
    /// Compiles the `ignore` patterns of `rule`, one per line, rooted at
    /// `cwd`. A refused line is reported with the rule; a set that does not
    /// build is reported with all its patterns.
    pub fn new(cwd: &str, rule: &str, patterns: &str) -> (r: Result<RuleIgnoreSet, ConfigError>)
        ensures
            r is Ok <==> ignore_error(rule@, patterns@) is None,
            match r {
                Ok(s) => s.rule@ == rule@ && matcher_lines(s.matcher) == glob_lines(
                    ignore_lines(patterns@),
                ) && matcher_root(s.matcher) == matcher_root_for(
                    cwd@,
                    glob_lines(ignore_lines(patterns@)),
                ),
                Err(e) => invalid_pattern(e) == ignore_error(rule@, patterns@),
            },
    {
        let lines = keep_nonempty_trimmed(&lines_str(patterns));
        let ghost lv = views(lines@);
        let mut builder = gitignore_builder(cwd);
        let mut k: usize = 0;
        proof {
            assert(lv.take(0) =~= Seq::<Seq<char>>::empty());
        }
        while k < lines.len()
            invariant
                k <= lines@.len(),
                lv == views(lines@),
                lv == ignore_lines(patterns@),
                builder_root(builder) == strip_dot_slash(cwd@),
                builder_lines(builder) == glob_lines(lv.take(k as int)),
                first_refused(lv.take(k as int)) is None,
            decreases lines@.len() - k,
        {
            let line = lines[k].as_str();
            proof {
                let s = lv.take(k + 1);
                assert(s.drop_last() =~= lv.take(k as int));
                assert(s.last() == line@);
            }
            if !gitignore_add_line(&mut builder, line) {
                proof {
                    lemma_first_refused_prefix(lv, k as int);
                }
                return Err(
                    ConfigError::InvalidIgnorePattern {
                        rule: rule.to_owned(),
                        pattern: line.to_owned(),
                    },
                );
            }
            proof {
                assert(builder_lines(builder) =~= glob_lines(lv.take(k + 1)));
            }
            k += 1;
        }
        proof {
            assert(lv.take(lines@.len() as int) =~= lv);
        }
        match gitignore_build(&builder) {
            Some(matcher) => Ok(RuleIgnoreSet { rule: rule.to_owned(), matcher }),
            None => Err(
                ConfigError::InvalidIgnorePattern {
                    rule: rule.to_owned(),
                    pattern: patterns.to_owned(),
                },
            ),
        }
    }

    /// Whether the patterns cover `path` or one of its parent directories;
    /// a relative path is taken from `cwd`.
    pub fn matches(&self, cwd: &str, path: &str) -> (b: bool)
        requires
            matcher_lines(self.matcher).len() == 0 || matcher_accepts(
                matcher_root(self.matcher),
                join_path(cwd@, path@),
            ),
        ensures
            b == ignores_path(
                matcher_root(self.matcher),
                matcher_lines(self.matcher),
                join_path(cwd@, path@),
            ),
            matcher_lines(self.matcher).len() == 0 ==> !b,
    {
        let candidate = join_paths(cwd, path);
        gitignore_matches(&self.matcher, candidate.as_str())
    }
}

/// The entries of a prefix of the rules are a prefix of the entries.
pub(crate) proof fn lemma_ignore_entries_prefix(rules: Seq<(String, RawRuleConfig)>, k: int)
    requires
        0 <= k <= rules.len(),
    ensures
        ignore_entries(rules.take(k)).len() <= ignore_entries(rules).len(),
        ignore_entries(rules).take(ignore_entries(rules.take(k)).len() as int) == ignore_entries(
            rules.take(k),
        ),
    decreases rules.len() - k,
{
    if k == rules.len() {
        assert(rules.take(k) =~= rules);
        assert(ignore_entries(rules).take(ignore_entries(rules).len() as int) =~= ignore_entries(
            rules,
        ));
    } else {
        let d = rules.drop_last();
        assert(d.take(k) =~= rules.take(k));
        lemma_ignore_entries_prefix(d, k);
        let e = ignore_entries(rules);
        let ed = ignore_entries(d);
        let n = ignore_entries(rules.take(k)).len() as int;
        assert(e.take(n) =~= ed.take(n));
    }
}

/// An entry with an error after entries without one gives the first error.
pub(crate) proof fn lemma_first_ignore_error_at(entries: Seq<(Seq<char>, Seq<char>)>, k: int)
    requires
        0 <= k < entries.len(),
        first_ignore_error(entries.take(k)) is None,
        ignore_error(entries[k].0, entries[k].1) is Some,
    ensures
        first_ignore_error(entries) == ignore_error(entries[k].0, entries[k].1),
    decreases entries.len() - k,
{
    if k == entries.len() - 1 {
        assert(entries.drop_last() =~= entries.take(k));
    } else {
        assert(entries.drop_last().take(k) =~= entries.take(k));
        assert(entries.drop_last()[k] == entries[k]);
        lemma_first_ignore_error_at(entries.drop_last(), k);
    }
}

/// Each entry comes from one of the rules: its key is that rule's key.
proof fn lemma_entry_key(rules: Seq<(String, RawRuleConfig)>, e: int)
    requires
        0 <= e < ignore_entries(rules).len(),
    ensures
        exists|k: int| 0 <= k < rules.len() && (#[trigger] rules[k]).0@ == ignore_entries(rules)[e].0,
    decreases rules.len(),
{
    let d = rules.drop_last();
    let ed = ignore_entries(d);
    if e < ed.len() {
        lemma_entry_key(d, e);
        let k = choose|k: int| 0 <= k < d.len() && (#[trigger] d[k]).0@ == ed[e].0;
        assert(rules[k] == d[k]);
        assert(ignore_entries(rules)[e] == ed[e]);
    } else {
        assert(rules[rules.len() - 1] == rules.last());
    }
}

/// The entries of rules whose keys are unique have unique keys.
pub(crate) proof fn lemma_ignore_entries_unique(rules: Seq<(String, RawRuleConfig)>)
    requires
        rule_keys_unique(rules),
    ensures
        forall|i: int, j: int|
            0 <= i < j < ignore_entries(rules).len() ==> (#[trigger] ignore_entries(rules)[i]).0
                != (#[trigger] ignore_entries(rules)[j]).0,
    decreases rules.len(),
{
    if rules.len() > 0 {
        let d = rules.drop_last();
        assert forall|i: int, j: int| 0 <= i < j < d.len() implies (#[trigger] d[i]).0@ != (
        #[trigger] d[j]).0@ by {
            assert(d[i] == rules[i] && d[j] == rules[j]);
        }
        lemma_ignore_entries_unique(d);
        let ed = ignore_entries(d);
        let e = ignore_entries(rules);
        assert forall|i: int, j: int| 0 <= i < j < e.len() implies (#[trigger] e[i]).0 != (
        #[trigger] e[j]).0 by {
            if j < ed.len() {
                assert(e[i] == ed[i] && e[j] == ed[j]);
            } else {
                lemma_entry_key(d, i);
                let k = choose|k: int| 0 <= k < d.len() && (#[trigger] d[k]).0@ == ed[i].0;
                assert(d[k] == rules[k]);
                assert(e[i] == ed[i]);
                assert(e[j].0 == rules.last().0@);
                assert(rules[rules.len() - 1] == rules.last());
            }
        }
    }
}

/// A refused line after accepted ones is the first refused line.
proof fn lemma_first_refused_prefix(lines: Seq<Seq<char>>, k: int)
    requires
        0 <= k < lines.len(),
        first_refused(lines.take(k)) is None,
        !glob_line_accepted(lines[k]),
    ensures
        first_refused(lines) == Some(k),
    decreases lines.len() - k,
{
    if k == lines.len() - 1 {
        assert(lines.drop_last() =~= lines.take(k));
    } else {
        assert(lines.drop_last().take(k) =~= lines.take(k));
        assert(lines.drop_last()[k] == lines[k]);
        lemma_first_refused_prefix(lines.drop_last(), k);
    }
}

} // verus!
