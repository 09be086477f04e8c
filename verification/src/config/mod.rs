//! The effective configuration: command-line values merged with those of a
//! `.salt-lint` file.
pub mod discovery;
pub mod ignore_set;
pub mod raw;

use crate::cli::CliArgs;
use crate::config::ignore_set::{
    first_ignore_error, glob_lines, ignore_entries, ignore_error, ignore_lines,
    lemma_first_ignore_error_at, lemma_ignore_entries_prefix, lemma_ignore_entries_unique,
    matcher_root_for, raw_ignore_entries,
    RuleIgnoreSet,
};
use crate::config::raw::{
    expand_csv, expand_csv_values, opt_views, scalar_text, tags_vec, RawConfig, RawRuleConfig,
    ScalarValue,
};
use crate::engine::rule::opt_view;
use crate::gitignore::{
    gitignore_is_empty, ignores_path, matcher_accepts, matcher_lines, matcher_root,
};
use crate::order::{
    dedup, dedup_texts, insertion_sort, lemma_dedup_sorted, lemma_insertion_sort,
    lemma_text_lt_strict_order, sort_texts, strictly_increasing, text_lt,
};
use crate::paths::{
    join_path, join_paths, matcher_candidate_str, normalize_path_string, normalize_slashes,
    path_is_absolute, strip_dot_slash, strip_dot_slash_str,
};
use crate::text::{append_texts, chars_of, push_str, starts_with, str_eq, vec_starts_with, views};
use vstd::prelude::*;

verus! {

/// Why a configuration could not be made: the file could not be read, it
/// is not valid YAML, or an `ignore` pattern of a rule is refused.
pub enum ConfigError {
    Io(String),
    Yaml(String),
    InvalidIgnorePattern { rule: String, pattern: String },
}

impl ConfigError {
    /// The message of the error.
    pub fn describe(&self) -> (r: String)
        ensures
            r@ == config_error_text(*self),
    {
        match self {
            ConfigError::Io(m) => m.clone(),
            ConfigError::Yaml(m) => m.clone(),
            ConfigError::InvalidIgnorePattern { rule, pattern } => {
                let mut r = String::new();
                push_str(&mut r, "invalid ignore pattern for `");
                push_str(&mut r, rule.as_str());
                push_str(&mut r, "`: ");
                push_str(&mut r, pattern.as_str());
                proof {
                    reveal_strlit("invalid ignore pattern for `");
                    reveal_strlit("`: ");
                }
                r
            },
        }
    }
}

/// The message of an error: that of the underlying error, or which pattern
/// of which rule was refused.
pub open spec fn config_error_text(e: ConfigError) -> Seq<char> {
    match e {
        ConfigError::Io(m) => m@,
        ConfigError::Yaml(m) => m@,
        ConfigError::InvalidIgnorePattern { rule, pattern } => "invalid ignore pattern for `"@ + rule@
            + "`: "@ + pattern@,
    }
}

/// The rule and pattern of a refused `ignore` pattern.
pub open spec fn invalid_pattern(e: ConfigError) -> Option<(Seq<char>, Seq<char>)> {
    match e {
        ConfigError::InvalidIgnorePattern { rule, pattern } => Some((rule@, pattern@)),
        _ => None,
    }
}

/// The settings of a run.
pub struct Config {
    /// The configuration file that was read, if any.
    pub config_path: Option<String>,
    pub verbosity: u8,
    /// Path prefixes of the files that are not linted.
    pub exclude_paths: Vec<String>,
    /// Rule ids and tags that are not run, sorted, each once.
    pub skip_list: Vec<String>,
    /// When not empty, only the rules that carry one of these tags or ids run.
    pub tags: Vec<String>,
    pub use_default_rules: bool,
    pub rulesdir: Vec<String>,
    /// Whether problems are printed as JSON.
    pub json: bool,
    /// Whether problems are printed with their severities.
    pub severity: bool,
    /// The rule directories that were asked for and are not used.
    pub unsupported_rulesdirs: Vec<String>,
    /// The working directory.
    pub cwd: String,
    /// The compiled `ignore` patterns, by rule id or tag.
    pub rule_ignores: Vec<RuleIgnoreSet>,
}

/// The first ignore set for `rule`.
pub open spec fn ignore_set_for(sets: Seq<RuleIgnoreSet>, rule: Seq<char>) -> Option<int>
    decreases sets.len(),
{
    if sets.len() == 0 {
        None
    } else {
        match ignore_set_for(sets.drop_last(), rule) {
            Some(i) => Some(i),
            None => if sets.last().rule@ == rule {
                Some(sets.len() - 1)
            } else {
                None
            },
        }
    }
}

impl Config {
    /// Whether `path` is skipped: its text (backslashes read as slashes)
    /// starts with an exclude path, as given or joined to the working directory.
    pub open spec fn spec_is_excluded(&self, path: Seq<char>) -> bool {
        exists|i: int|
            0 <= i < self.exclude_paths@.len() && {
                let e = #[trigger] self.exclude_paths@[i]@;
                starts_with(normalize_slashes(path), normalize_slashes(e)) || starts_with(
                    normalize_slashes(path),
                    normalize_slashes(join_path(self.cwd@, e)),
                )
            }
    }

    /// Whether the `ignore` patterns configured for `rule` cover `path`
    /// (relative paths being taken from the working directory); a set
    /// without globs covers nothing.
    pub open spec fn spec_is_file_ignored(&self, path: Seq<char>, rule: Seq<char>) -> bool {
        match ignore_set_for(self.rule_ignores@, rule) {
            None => false,
            Some(i) => {
                let m = self.rule_ignores@[i].matcher;
                matcher_lines(m).len() > 0 && ignores_path(
                    matcher_root(m),
                    matcher_lines(m),
                    join_path(self.cwd@, path),
                )
            },
        }
    }

    /// Every ignore matcher with globs was made at the working directory;
    /// one without globs has an empty root. Each rule or tag has at most
    /// one set of patterns.
    pub open spec fn wf(&self) -> bool {
        &&& forall|i: int|
            0 <= i < self.rule_ignores@.len() ==> {
                let m = (#[trigger] self.rule_ignores@[i]).matcher;
                matcher_root(m) == matcher_root_for(self.cwd@, matcher_lines(m))
            }
        &&& forall|i: int, j: int|
            0 <= i < j < self.rule_ignores@.len() ==> (#[trigger] self.rule_ignores@[i]).rule@
                != (#[trigger] self.rule_ignores@[j]).rule@
    }

    /// Whether the `ignore` matcher for `rule`, if there is one, can be
    /// asked about `path`, taken from the working directory: a matcher with
    /// globs panics when what it would match in place of the path is
    /// absolute.
    pub open spec fn accepts_rule_path(&self, path: Seq<char>, rule: Seq<char>) -> bool {
        match ignore_set_for(self.rule_ignores@, rule) {
            None => true,
            Some(i) => {
                let m = self.rule_ignores@[i].matcher;
                matcher_lines(m).len() == 0 || matcher_accepts(
                    matcher_root(m),
                    join_path(self.cwd@, path),
                )
            },
        }
    }

    /// The configuration of the command line `args` merged with the file
    /// `raw` read from `config_path`, in the working directory `cwd`. Lists
    /// from the command line come first; `json` and `severity` are on when
    /// the command line or the file turns them on; the skip list is split at commas, sorted and
    /// freed of repeats. It fails when the `ignore` patterns of a rule do
    /// not compile.
    pub fn from_cli(args: &CliArgs, cwd: &str, config_path: Option<String>, raw: RawConfig) -> (r:
        Result<Config, ConfigError>)
        requires
            raw.wf(),
        ensures
            r is Ok <==> first_ignore_error(raw_ignore_entries(raw)) is None,
            match r {
                Ok(c) => {
                    &&& c.wf()
                    &&& opt_view(c.config_path) == opt_view(config_path)
                    &&& c.verbosity == merged_verbosity(args.verbosity, raw.verbosity)
                    &&& views(c.exclude_paths@) == views(args.exclude_paths@) + opt_views(
                        raw.exclude_paths,
                    )
                    &&& views(c.skip_list@) == merged_skip_list(*args, raw)
                    &&& views(c.tags@) == merged_tags(*args, raw)
                    &&& c.use_default_rules == (args.use_default_rules || raw.use_default_rules
                        == Some(true))
                    &&& views(c.rulesdir@) == views(args.rulesdir@) + opt_views(raw.rulesdir)
                    &&& views(c.unsupported_rulesdirs@) == views(c.rulesdir@)
                    &&& c.json == (args.json || raw.json == Some(true))
                    &&& c.severity == (args.severity || raw.severity == Some(true))
                    &&& c.cwd@ == cwd@
                    &&& ignore_sets_match(c.rule_ignores@, raw_ignore_entries(raw), cwd@)
                },
                Err(e) => invalid_pattern(e) == first_ignore_error(raw_ignore_entries(raw)),
            },
    {
        let mut config = Config::empty(cwd.to_owned());
        config.config_path = config_path;
        let file_verbosity: u8 = match raw.verbosity {
            Some(v) => v,
            None => 0,
        };
        config.verbosity = args.verbosity.saturating_add(file_verbosity);
        append_texts(&mut config.exclude_paths, &args.exclude_paths);
        match &raw.exclude_paths {
            Some(v) => append_texts(&mut config.exclude_paths, v),
            None => {},
        }
        let mut skip: Vec<String> = Vec::new();
        append_texts(&mut skip, &args.skip_list);
        match &raw.skip_list {
            Some(v) => push_scalar_texts(&mut skip, v),
            None => {},
        }
        proof {
            assert(views(config.exclude_paths@) =~= views(args.exclude_paths@) + opt_views(
                raw.exclude_paths,
            ));
            assert(views(skip@) =~= views(args.skip_list@) + raw_skip_texts(raw));
        }
        config.skip_list = dedup_texts(&sort_texts(expand_csv_values(&skip)));
        append_texts(&mut config.tags, &args.tags);
        match raw.tags {
            Some(t) => {
                let extra = t.into_vec();
                append_texts(&mut config.tags, &extra);
            },
            None => {},
        }
        config.use_default_rules = args.use_default_rules || match raw.use_default_rules {
            Some(b) => b,
            None => false,
        };
        append_texts(&mut config.rulesdir, &args.rulesdir);
        match &raw.rulesdir {
            Some(v) => append_texts(&mut config.rulesdir, v),
            None => {},
        }
        append_texts(&mut config.unsupported_rulesdirs, &config.rulesdir);
        config.json = args.json || match raw.json {
            Some(b) => b,
            None => false,
        };
        config.severity = args.severity || match raw.severity {
            Some(b) => b,
            None => false,
        };
        proof {
            assert(views(config.tags@) =~= merged_tags(*args, raw));
            assert(views(config.rulesdir@) =~= views(args.rulesdir@) + opt_views(raw.rulesdir));
            assert(views(config.unsupported_rulesdirs@) =~= views(config.rulesdir@));
        }
        match ignore_sets_for(cwd, &raw.rules) {
            Ok(sets) => {
                proof {
                    match raw.rules {
                        Some(v) => lemma_ignore_entries_unique(v@),
                        None => {},
                    }
                }
                config.rule_ignores = sets;
            },
            Err(e) => {
                return Err(e);
            },
        }
        Ok(config)
    }

    /// A configuration with nothing set, for the working directory `cwd`.
    pub fn empty(cwd: String) -> (c: Config)
        ensures
            c.config_path is None,
            c.verbosity == 0,
            c.exclude_paths@.len() == 0,
            c.skip_list@.len() == 0,
            c.tags@.len() == 0,
            !c.use_default_rules,
            c.rulesdir@.len() == 0,
            !c.json,
            !c.severity,
            c.unsupported_rulesdirs@.len() == 0,
            c.cwd == cwd,
            c.rule_ignores@.len() == 0,
    {
        Config {
            config_path: None,
            verbosity: 0,
            exclude_paths: Vec::new(),
            skip_list: Vec::new(),
            tags: Vec::new(),
            use_default_rules: false,
            rulesdir: Vec::new(),
            json: false,
            severity: false,
            unsupported_rulesdirs: Vec::new(),
            cwd,
            rule_ignores: Vec::new(),
        }
    }

    pub fn is_excluded(&self, path: &str) -> (b: bool)
        ensures
            b == self.spec_is_excluded(path@),
    {
        let p = chars_of(normalize_path_string(path).as_str());
        let mut i: usize = 0;
        while i < self.exclude_paths.len()
            invariant
                i <= self.exclude_paths@.len(),
                p@ == normalize_slashes(path@),
                forall|j: int|
                    0 <= j < i ==> {
                        let e = #[trigger] self.exclude_paths@[j]@;
                        !starts_with(normalize_slashes(path@), normalize_slashes(e)) && !starts_with(
                            normalize_slashes(path@),
                            normalize_slashes(join_path(self.cwd@, e)),
                        )
                    },
            decreases self.exclude_paths@.len() - i,
        {
            let e = self.exclude_paths[i].as_str();
            let raw = chars_of(normalize_path_string(e).as_str());
            let joined = join_paths(self.cwd.as_str(), e);
            let absolute = chars_of(normalize_path_string(joined.as_str()).as_str());
            if vec_starts_with(&p, &raw) || vec_starts_with(&p, &absolute) {
                return true;
            }
            i += 1;
        }
        false
    }

    /// Index of the first ignore set for `rule`.
    fn find_ignore_set(&self, rule: &str) -> (r: Option<usize>)
        ensures
            match r {
                Some(i) => ignore_set_for(self.rule_ignores@, rule@) == Some(i as int) && i
                    < self.rule_ignores@.len(),
                None => ignore_set_for(self.rule_ignores@, rule@) is None,
            },
    {
        let mut i: usize = 0;
        while i < self.rule_ignores.len()
            invariant
                i <= self.rule_ignores@.len(),
                ignore_set_for(self.rule_ignores@.take(i as int), rule@) is None,
            decreases self.rule_ignores@.len() - i,
        {
            proof {
                assert(self.rule_ignores@.take(i + 1).drop_last() =~= self.rule_ignores@.take(
                    i as int,
                ));
            }
            if str_eq(self.rule_ignores[i].rule.as_str(), rule) {
                proof {
                    lemma_ignore_set_prefix(self.rule_ignores@, rule@, i + 1);
                }
                return Some(i);
            }
            i += 1;
        }
        proof {
            assert(self.rule_ignores@.take(i as int) =~= self.rule_ignores@);
        }
        None
    }

    pub fn is_file_ignored(&self, path: &str, rule: &str) -> (b: bool)
        requires
            self.accepts_rule_path(path@, rule@),
        ensures
            b == self.spec_is_file_ignored(path@, rule@),
    {
        match self.find_ignore_set(rule) {
            None => false,
            Some(i) => self.rule_ignores[i].matches(self.cwd.as_str(), path),
        }
    }

    /// Whether the `ignore` matcher for `rule` can be asked about `path`.
    pub fn accepts_rule(&self, path: &str, rule: &str) -> (b: bool)
        requires
            self.wf(),
        ensures
            b == self.accepts_rule_path(path@, rule@),
    {
        match self.find_ignore_set(rule) {
            None => true,
            Some(i) => {
                if gitignore_is_empty(&self.rule_ignores[i].matcher) {
                    return true;
                }
                let candidate = matcher_candidate_str(
                    strip_dot_slash_str(self.cwd.as_str()).as_str(),
                    join_paths(self.cwd.as_str(), path).as_str(),
                );
                !path_is_absolute(candidate.as_str())
            },
        }
    }
}

proof fn lemma_ignore_set_prefix(sets: Seq<RuleIgnoreSet>, rule: Seq<char>, k: int)
    requires
        0 < k <= sets.len(),
        ignore_set_for(sets.take(k - 1), rule) is None,
        sets[k - 1].rule@ == rule,
    ensures
        ignore_set_for(sets, rule) == Some(k - 1),
    decreases sets.len() - k,
{
    if k == sets.len() {
        assert(sets.take(k - 1) =~= sets.drop_last());
    } else {
        assert(sets.drop_last().take(k - 1) =~= sets.take(k - 1));
        assert(sets.drop_last()[k - 1] == sets[k - 1]);
        lemma_ignore_set_prefix(sets.drop_last(), rule, k);
    }
}

/// The configuration file to read: the one given with `-c`, else the one
/// discovered.
pub fn select_config_path(args: &CliArgs, discovered: Option<String>) -> (r: Option<String>)
    ensures
        opt_view(r) == match args.config {
            Some(c) => Some(c@),
            None => opt_view(discovered),
        },
{
    match &args.config {
        Some(c) => Some(c.clone()),
        None => discovered,
    }
}

/// `-v` counts added to the file's `verbosity`, at most 255.
pub open spec fn merged_verbosity(cli: u8, file: Option<u8>) -> u8 {
    let f: int = match file {
        Some(v) => v as int,
        None => 0,
    };
    if cli + f > 255 {
        255
    } else {
        (cli + f) as u8
    }
}

/// The `skip_list` entries of a file, as text.
pub open spec fn raw_skip_texts(raw: RawConfig) -> Seq<Seq<char>> {
    match raw.skip_list {
        Some(v) => v@.map_values(|x: ScalarValue| scalar_text(x)),
        None => Seq::empty(),
    }
}

/// The skip list: the comma-separated items of the command line's and the
/// file's entries, sorted, each once.
pub open spec fn merged_skip_list(args: CliArgs, raw: RawConfig) -> Seq<Seq<char>> {
    dedup(insertion_sort(expand_csv(views(args.skip_list@) + raw_skip_texts(raw)), text_lt()))
}

/// The tags of the command line, then those of the file.
pub open spec fn merged_tags(args: CliArgs, raw: RawConfig) -> Seq<Seq<char>> {
    views(args.tags@) + match raw.tags {
        Some(t) => tags_vec(t),
        None => Seq::empty(),
    }
}

/// The ignore sets are those of the entries, in order, made at `cwd`.
pub open spec fn ignore_sets_match(
    sets: Seq<RuleIgnoreSet>,
    entries: Seq<(Seq<char>, Seq<char>)>,
    cwd: Seq<char>,
) -> bool {
    &&& sets.len() == entries.len()
    &&& forall|i: int|
        0 <= i < sets.len() ==> {
            &&& (#[trigger] sets[i]).rule@ == entries[i].0
            &&& matcher_lines(sets[i].matcher) == glob_lines(ignore_lines(entries[i].1))
            &&& matcher_root(sets[i].matcher) == matcher_root_for(
                cwd,
                glob_lines(ignore_lines(entries[i].1)),
            )
        }
}

/// The ignore sets of the rules that have `ignore` patterns, in order; the
/// error of the first whose patterns do not compile.
fn ignore_sets_for(cwd: &str, rules: &Option<Vec<(String, RawRuleConfig)>>) -> (r: Result<
    Vec<RuleIgnoreSet>,
    ConfigError,
>)
    ensures
        ({
            let entries = match *rules {
                Some(v) => ignore_entries(v@),
                None => Seq::empty(),
            };
            &&& r is Ok <==> first_ignore_error(entries) is None
            &&& match r {
                Ok(sets) => ignore_sets_match(sets@, entries, cwd@),
                Err(e) => invalid_pattern(e) == first_ignore_error(entries),
            }
        }),
{
    let mut out: Vec<RuleIgnoreSet> = Vec::new();
    match rules {
        Some(list) => {
            let mut i: usize = 0;
            while i < list.len()
                invariant
                    i <= list@.len(),
                    *rules == Some(*list),
                    first_ignore_error(ignore_entries(list@.take(i as int))) is None,
                    ignore_sets_match(out@, ignore_entries(list@.take(i as int)), cwd@),
                decreases list@.len() - i,
            {
                let ghost before = ignore_entries(list@.take(i as int));
                proof {
                    let s = list@.take(i + 1);
                    assert(s.drop_last() =~= list@.take(i as int));
                    assert(s.last() == list@[i as int]);
                }
                match &list[i].1.ignore {
                    Some(p) => {
                        match RuleIgnoreSet::new(cwd, list[i].0.as_str(), p.as_str()) {
                            Ok(set) => {
                                out.push(set);
                                proof {
                                    let after = ignore_entries(list@.take(i + 1));
                                    assert(after == before.push((list@[i as int].0@, p@)));
                                    assert(after.drop_last() =~= before);
                                    assert forall|j: int| 0 <= j < out@.len() implies {
                                        &&& (#[trigger] out@[j]).rule@ == after[j].0
                                        &&& matcher_lines(out@[j].matcher) == glob_lines(
                                            ignore_lines(after[j].1),
                                        )
                                        &&& matcher_root(out@[j].matcher) == matcher_root_for(
                                            cwd@,
                                            glob_lines(ignore_lines(after[j].1)),
                                        )
                                    } by {
                                        if j < before.len() {
                                            assert(after[j] == before[j]);
                                        }
                                    }
                                }
                            },
                            Err(e) => {
                                proof {
                                    let all = ignore_entries(list@);
                                    let after = ignore_entries(list@.take(i + 1));
                                    assert(after == before.push((list@[i as int].0@, p@)));
                                    lemma_ignore_entries_prefix(list@, i + 1);
                                    assert(all.take(after.len() as int) == after);
                                    assert(all.take(before.len() as int) =~= before);
                                    assert(all[before.len() as int] == after.last());
                                    assert(ignore_error(list@[i as int].0@, p@) is Some);
                                    lemma_first_ignore_error_at(all, before.len() as int);
                                }
                                return Err(e);
                            },
                        }
                    },
                    None => {
                        proof {
                            assert(ignore_entries(list@.take(i + 1)) == before);
                        }
                    },
                }
                i += 1;
            }
            proof {
                assert(list@.take(list@.len() as int) =~= list@);
            }
        },
        None => {},
    }
    Ok(out)
}

/// The merged skip list holds each item of the command line's and the
/// file's lists once, in increasing order.
pub proof fn law_skip_list_sorted_unique(args: CliArgs, raw: RawConfig)
    ensures
        strictly_increasing(merged_skip_list(args, raw)),
        merged_skip_list(args, raw).to_set() == expand_csv(
            views(args.skip_list@) + raw_skip_texts(raw),
        ).to_set(),
{
    broadcast use vstd::seq_lib::group_to_multiset_ensures;

    let items = expand_csv(views(args.skip_list@) + raw_skip_texts(raw));
    let sorted = insertion_sort(items, text_lt());
    lemma_text_lt_strict_order();
    lemma_insertion_sort(items, text_lt());
    lemma_dedup_sorted(sorted);
    assert forall|x: Seq<char>| #[trigger] sorted.to_set().contains(x) == items.to_set().contains(x) by {
        assert(sorted.contains(x) <==> sorted.to_multiset().count(x) > 0);
        assert(items.contains(x) <==> items.to_multiset().count(x) > 0);
    }
    assert(sorted.to_set() =~= items.to_set());
}

/// An exclude path excludes everything below it: a path that extends an
/// excluded path is excluded too.
pub proof fn law_exclusion_covers_extensions(config: Config, p: Seq<char>, q: Seq<char>)
    requires
        config.spec_is_excluded(p),
    ensures
        config.spec_is_excluded(p + q),
{
    let i = choose|i: int|
        0 <= i < config.exclude_paths@.len() && {
            let e = #[trigger] config.exclude_paths@[i]@;
            starts_with(normalize_slashes(p), normalize_slashes(e)) || starts_with(
                normalize_slashes(p),
                normalize_slashes(join_path(config.cwd@, e)),
            )
        };
    assert(normalize_slashes(p + q) =~= normalize_slashes(p) + normalize_slashes(q));
    let np = normalize_slashes(p);
    let npq = normalize_slashes(p + q);
    assert forall|pre: Seq<char>| starts_with(np, pre) implies starts_with(npq, pre) by {
        assert(npq.take(pre.len() as int) =~= np.take(pre.len() as int));
    }
    let e = config.exclude_paths@[i]@;
    assert(starts_with(npq, normalize_slashes(e)) || starts_with(
        npq,
        normalize_slashes(join_path(config.cwd@, e)),
    ));
}

fn push_scalar_texts(dst: &mut Vec<String>, values: &Vec<ScalarValue>)
    ensures
        views(final(dst)@) == views(old(dst)@) + values@.map_values(|x: ScalarValue| scalar_text(x)),
{
    let ghost target = values@.map_values(|x: ScalarValue| scalar_text(x));
    let mut i: usize = 0;
    while i < values.len()
        invariant
            i <= values@.len(),
            target == values@.map_values(|x: ScalarValue| scalar_text(x)),
            views(dst@) == views(old(dst)@) + target.take(i as int),
        decreases values@.len() - i,
    {
        let t = values[i].to_text();
        let ghost prev = views(dst@);
        dst.push(t);
        proof {
            assert(views(dst@) =~= prev.push(t@));
            assert(target.take(i + 1) =~= target.take(i as int).push(target[i as int]));
        }
        i += 1;
    }
    proof {
        assert(target.take(values@.len() as int) =~= target);
    }
}

} // verus!
