//! A run of the linter: what it lists, lints and reports, and its exit code,
//! once the caller has read the arguments, the configuration and the files.
use crate::cli::CliArgs;
use crate::config::{config_error_text, Config, ConfigError};
use crate::engine::collection::{
    all_findings, rules_can_run, sort_by_location, sort_problems, RuleCollection,
};
use crate::engine::context::{ContextView, RuleContext};
use crate::engine::listing::{rules_listing, tags_listing};
use crate::engine::rule::Rule;
use crate::file_types::FileKind;
use crate::formatter::{format_problems, formatted, FormatterKind};
use crate::fs::{target_path, LintFile};
use crate::problem::{problem_views, Problem, ProblemView};
use crate::text::{concat, push_str, views};
use vstd::prelude::*;

verus! {

/// The linter, working in the directory `current_dir`.
#[derive(Debug, Clone)]
pub struct App {
    pub current_dir: String,
}

/// Why a run stopped: a file could not be read, or the configuration could
/// not be made.
pub enum AppError {
    Io(String),
    Config(ConfigError),
}

impl AppError {
    /// The message of the error.
    pub fn describe(&self) -> (r: String)
        ensures
            r@ == match *self {
                AppError::Io(m) => m@,
                AppError::Config(e) => config_error_text(e),
            },
    {
        match self {
            AppError::Io(m) => m.clone(),
            AppError::Config(e) => e.describe(),
        }
    }
}

/// A file to lint with its text.
pub struct Source {
    pub file: LintFile,
    pub text: String,
}

/// What a run prints on standard output and standard error, and its exit
/// code.
pub struct RunOutcome {
    pub exit_code: i32,
    pub stdout: String,
    pub stderr: String,
}

// ---------------------------------------------------------------------------
// Models
// ---------------------------------------------------------------------------
/// The name under which standard input is linted.
pub open spec fn stdin_name() -> Seq<char> {
    seq!['s', 't', 'd', 'i', 'n', '.', 's', 'l', 's']
}

/// The warning for a rule directory that is given but not used.
pub open spec fn rulesdir_warning(dir: Seq<char>) -> Seq<char> {
    "warning: custom Python rule directories are unsupported, ignoring: "@ + dir + "\n"@
}

/// The warnings for all the rule directories, in order.
pub open spec fn rulesdir_warnings(dirs: Seq<Seq<char>>) -> Seq<char> {
    concat(dirs.map_values(|d: Seq<char>| rulesdir_warning(d)))
}

/// The context in which a file is linted.
pub open spec fn file_context(path: Seq<char>, kind: FileKind, config: Config) -> ContextView {
    ContextView { filename: path, kind, config }
}

/// The problems that the rules find in one file, sorted.
pub open spec fn file_problems(
    rules: Seq<Box<dyn Rule>>,
    config: Config,
    path: Seq<char>,
    kind: FileKind,
    text: Seq<char>,
) -> Seq<ProblemView> {
    sort_by_location(
        all_findings(
            rules,
            file_context(path, kind, config),
            text,
            views(config.tags@),
            views(config.skip_list@),
            rules.len(),
        ),
    )
}

/// The problems of the first `n` sources, file after file.
pub open spec fn sources_problems(
    rules: Seq<Box<dyn Rule>>,
    config: Config,
    sources: Seq<Source>,
    n: nat,
) -> Seq<ProblemView>
    decreases n,
{
    if n == 0 {
        Seq::empty()
    } else {
        let s = sources[n - 1];
        sources_problems(rules, config, sources, (n - 1) as nat) + file_problems(
            rules,
            config,
            s.file.path@,
            s.file.kind,
            s.text@,
        )
    }
}

/// Everything that a lint run reports: the problems of the files, or of
/// standard input when no file was named, sorted by location.
pub open spec fn run_problems(
    rules: Seq<Box<dyn Rule>>,
    args: CliArgs,
    config: Config,
    sources: Seq<Source>,
    stdin_text: Option<String>,
) -> Seq<ProblemView> {
    if args.files@.len() == 0 {
        match stdin_text {
            Some(t) => file_problems(rules, config, stdin_name(), FileKind::Sls, t@),
            None => Seq::empty(),
        }
    } else {
        sort_by_location(sources_problems(rules, config, sources, sources.len()))
    }
}

/// The format that a configuration asks for.
pub open spec fn config_format(config: Config) -> FormatterKind {
    if config.json {
        FormatterKind::Json
    } else if config.severity {
        FormatterKind::Severity
    } else {
        FormatterKind::Default
    }
}

/// The report of a lint run: nothing when there is no problem; else the
/// problems in the configured format (JSON followed by a newline).
pub open spec fn report_text(problems: Seq<ProblemView>, config: Config) -> Seq<char> {
    if problems.len() == 0 {
        Seq::empty()
    } else if config_format(config) == FormatterKind::Json {
        formatted(problems, FormatterKind::Json) + "\n"@
    } else {
        formatted(problems, config_format(config))
    }
}

/// Whether linting the file `path` of kind `kind` with `rules` asks no
/// `ignore` matcher of `config` that cannot answer.
pub open spec fn file_can_run(
    rules: Seq<Box<dyn Rule>>,
    config: Config,
    path: Seq<char>,
    kind: FileKind,
) -> bool {
    rules_can_run(
        rules,
        ContextView { filename: path, kind, config },
        views(config.tags@),
        views(config.skip_list@),
    )
}

/// Whether every file that a run lints can be linted without asking an
/// `ignore` matcher that cannot answer.
pub open spec fn run_paths_accepted(
    rules: Seq<Box<dyn Rule>>,
    args: CliArgs,
    config: Config,
    sources: Seq<Source>,
) -> bool {
    if args.files@.len() == 0 {
        file_can_run(rules, config, stdin_name(), FileKind::Sls)
    } else {
        forall|i: int|
            0 <= i < sources.len() ==> file_can_run(
                rules,
                config,
                (#[trigger] sources[i]).file.path@,
                sources[i].file.kind,
            )
    }
}

/// The paths linted for the inputs, in order, without those that the
/// configuration excludes.
pub open spec fn planned_paths(config: Config, inputs: Seq<Seq<char>>, dirs: Seq<bool>, n: nat) -> Seq<
    Seq<char>,
>
    decreases n,
{
    if n == 0 {
        Seq::empty()
    } else {
        let prev = planned_paths(config, inputs, dirs, (n - 1) as nat);
        let p = target_path(inputs[n - 1], dirs[n - 1]);
        if config.spec_is_excluded(p) {
            prev
        } else {
            prev.push(p)
        }
    }
}

fn push_warnings(out: &mut String, dirs: &Vec<String>)
    ensures
        final(out)@ == old(out)@ + rulesdir_warnings(views(dirs@)),
{
    let ghost ws = views(dirs@).map_values(|d: Seq<char>| rulesdir_warning(d));
    let mut i: usize = 0;
    proof {
        assert(ws.take(0) =~= Seq::<Seq<char>>::empty());
    }
    while i < dirs.len()
        invariant
            i <= dirs@.len(),
            ws == views(dirs@).map_values(|d: Seq<char>| rulesdir_warning(d)),
            out@ == old(out)@ + concat(ws.take(i as int)),
        decreases dirs@.len() - i,
    {
        let ghost before = out@;
        push_str(out, "warning: custom Python rule directories are unsupported, ignoring: ");
        push_str(out, dirs[i].as_str());
        push_str(out, "\n");
        proof {
            let t = ws.take(i + 1);
            assert(t.drop_last() =~= ws.take(i as int));
            assert(t.last() == rulesdir_warning(dirs@[i as int]@));
            assert(out@ =~= before + rulesdir_warning(dirs@[i as int]@));
        }
        i += 1;
    }
    proof {
        assert(ws.take(dirs@.len() as int) =~= ws);
    }
}

fn lint_file(
    rules: &RuleCollection,
    config: &Config,
    path: &str,
    kind: FileKind,
    text: &str,
) -> (r: Vec<Problem>)
    requires
        file_can_run(rules.rules@, *config, path@, kind),
    ensures
        problem_views(r@) == file_problems(rules.rules@, *config, path@, kind, text@),
{
    let ctx = RuleContext::new(path, kind, config);
    rules.run(&ctx, text, &config.tags, &config.skip_list)
}

fn append_problems(dst: &mut Vec<Problem>, src: Vec<Problem>)
    ensures
        problem_views(final(dst)@) == problem_views(old(dst)@) + problem_views(src@),
{
    let mut src = src;
    let ghost s0 = src@;
    dst.append(&mut src);
    proof {
        assert(problem_views(dst@) =~= problem_views(old(dst)@) + problem_views(s0));
    }
}

impl App {
    /// The linter working in `dir`.
    pub fn with_current_dir(dir: &str) -> (a: App)
        ensures
            a.current_dir@ == dir@,
    {
        App { current_dir: dir.to_owned() }
    }

    /// The files to read for the inputs, in order: a directory stands for
    /// its `init.sls`, and paths that the configuration excludes are
    /// dropped. `dirs[i]` says whether `inputs[i]` is a directory.
    pub fn lint_targets(&self, config: &Config, inputs: &Vec<String>, dirs: &Vec<bool>) -> (r: Vec<
        LintFile,
    >)
        requires
            inputs@.len() == dirs@.len(),
        ensures
            r@.map_values(|f: LintFile| f.path@) == planned_paths(
                *config,
                views(inputs@),
                dirs@,
                inputs@.len() as nat,
            ),
            forall|i: int|
                0 <= i < r@.len() ==> (#[trigger] r@[i]).kind == crate::file_types::kind_of_extension(
                    crate::paths::extension_of(r@[i].path@),
                ),
    {
        let mut r: Vec<LintFile> = Vec::new();
        let ghost iv = views(inputs@);
        let mut i: usize = 0;
        proof {
            assert(r@.map_values(|f: LintFile| f.path@) =~= Seq::<Seq<char>>::empty());
        }
        while i < inputs.len()
            invariant
                i <= inputs@.len(),
                inputs@.len() == dirs@.len(),
                iv == views(inputs@),
                r@.map_values(|f: LintFile| f.path@) == planned_paths(*config, iv, dirs@, i as nat),
                forall|j: int|
                    0 <= j < r@.len() ==> (#[trigger] r@[j]).kind
                        == crate::file_types::kind_of_extension(
                        crate::paths::extension_of(r@[j].path@),
                    ),
            decreases inputs@.len() - i,
        {
            let path = crate::fs::lint_target(inputs[i].as_str(), dirs[i]);
            proof {
                assert(iv[i as int] == inputs@[i as int]@);
            }
            if !config.is_excluded(path.as_str()) {
                let f = LintFile::new(path.as_str());
                let ghost prev = r@;
                r.push(f);
                proof {
                    assert(r@.map_values(|f: LintFile| f.path@) =~= prev.map_values(
                        |f: LintFile| f.path@,
                    ).push(f.path@));
                    assert forall|j: int| 0 <= j < r@.len() implies (#[trigger] r@[j]).kind
                        == crate::file_types::kind_of_extension(
                        crate::paths::extension_of(r@[j].path@),
                    ) by {
                        if j < prev.len() {
                            assert(r@[j] == prev[j]);
                        }
                    }
                }
            }
            i += 1;
        }
        r
    }

    /// One run. With `-L` it lists the rules of `rules`, with `-T` their
    /// tags. Without files and without standard input it prints `help` on
    /// standard error and exits with 1. Otherwise it warns about rule
    /// directories, lints the `sources` (or standard input, as
    /// `stdin.sls`, when no file is named), reports the problems, and exits
    /// with 2 when there are some, else with 0.
    pub fn run(
        &self,
        rules: &RuleCollection,
        args: &CliArgs,
        config: &Config,
        sources: &Vec<Source>,
        stdin_text: &Option<String>,
        help: &str,
    ) -> (r: RunOutcome)
        requires
            run_paths_accepted(rules.rules@, *args, *config, sources@),
        ensures
            args.list_rules ==> r.exit_code == 0 && r.stdout@ == rules_listing(rules.rules@) + "\n"@
                && r.stderr@.len() == 0,
            !args.list_rules && args.list_tags ==> r.exit_code == 0 && r.stdout@ == tags_listing(
                rules.rules@,
            ) + "\n"@ && r.stderr@.len() == 0,
            !args.list_rules && !args.list_tags && args.files@.len() == 0 && stdin_text is None
                ==> r.exit_code == 1 && r.stdout@.len() == 0 && r.stderr@ == help@ + "\n"@,
            !args.list_rules && !args.list_tags && (args.files@.len() > 0 || stdin_text is Some)
                ==> {
                let problems = run_problems(rules.rules@, *args, *config, sources@, *stdin_text);
                &&& r.stderr@ == rulesdir_warnings(views(config.unsupported_rulesdirs@))
                &&& r.stdout@ == report_text(problems, *config)
                &&& r.exit_code == (if problems.len() == 0 {
                    0i32
                } else {
                    2i32
                })
            },
    {
        if args.list_rules {
            let mut out = rules.render_rules();
            push_str(&mut out, "\n");
            return RunOutcome { exit_code: 0, stdout: out, stderr: String::new() };
        }
        if args.list_tags {
            let mut out = rules.render_tags();
            push_str(&mut out, "\n");
            return RunOutcome { exit_code: 0, stdout: out, stderr: String::new() };
        }
        if args.files.len() == 0 && stdin_text.is_none() {
            let mut err = String::new();
            push_str(&mut err, help);
            push_str(&mut err, "\n");
            return RunOutcome { exit_code: 1, stdout: String::new(), stderr: err };
        }
        let mut err = String::new();
        push_warnings(&mut err, &config.unsupported_rulesdirs);
        let mut problems: Vec<Problem> = Vec::new();
        if args.files.len() == 0 {
            match stdin_text {
                Some(t) => {
                    proof {
                        reveal_strlit("stdin.sls");
                        assert("stdin.sls"@ =~= stdin_name());
                    }
                    problems = lint_file(rules, config, "stdin.sls", FileKind::Sls, t.as_str());
                },
                None => {},
            }
        } else {
            let mut i: usize = 0;
            proof {
                assert(problem_views(problems@) =~= Seq::<ProblemView>::empty());
            }
            while i < sources.len()
                invariant
                    i <= sources@.len(),
                    args.files@.len() > 0,
                    run_paths_accepted(rules.rules@, *args, *config, sources@),
                    problem_views(problems@) == sources_problems(
                        rules.rules@,
                        *config,
                        sources@,
                        i as nat,
                    ),
                decreases sources@.len() - i,
            {
                let s = &sources[i];
                proof {
                    assert(file_can_run(
                        rules.rules@,
                        *config,
                        sources@[i as int].file.path@,
                        sources@[i as int].file.kind,
                    ));
                }
                let found = lint_file(
                    rules,
                    config,
                    s.file.path.as_str(),
                    s.file.kind,
                    s.text.as_str(),
                );
                append_problems(&mut problems, found);
                i += 1;
            }
            sort_problems(&mut problems);
        }
        let ghost pv = problem_views(problems@);
        proof {
            assert(pv == run_problems(rules.rules@, *args, *config, sources@, *stdin_text));
        }
        if problems.len() == 0 {
            return RunOutcome { exit_code: 0, stdout: String::new(), stderr: err };
        }
        let kind = FormatterKind::from_flags(config.json, config.severity);
        let mut out = format_problems(problems.as_slice(), kind);
        if kind == FormatterKind::Json {
            push_str(&mut out, "\n");
        }
        RunOutcome { exit_code: 2, stdout: out, stderr: err }
    }
}

} // verus!
