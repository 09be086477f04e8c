use salt_lint_rs::app::{App, RunOutcome, Source};
use salt_lint_rs::cli::CliArgs;
use salt_lint_rs::config::discovery::{discovery_step, DiscoveryStep};
use salt_lint_rs::config::raw::{RawConfig, ScalarValue};
use salt_lint_rs::config::{select_config_path, Config};
use salt_lint_rs::fs::{lint_target, LintFile};
use salt_lint_rs::rules::builtin_rules;
use tempfile::tempdir;

const HELP: &str = "Lint Salt state files\n\nUsage: salt-lint [OPTIONS] [FILE]...";

fn run(
    app: &App,
    args: &CliArgs,
    config: &Config,
    sources: &Vec<Source>,
    stdin: Option<String>,
) -> RunOutcome {
    app.run(&builtin_rules(), args, config, sources, &stdin, HELP)
}

#[test]
fn no_input_returns_exit_code_one_and_help_text() {
    let args = CliArgs::empty();
    let app = App::with_current_dir("/work");
    let config = Config::empty("/work".to_owned());

    let outcome = run(&app, &args, &config, &Vec::new(), None);

    assert_eq!(outcome.exit_code, 1);
    assert!(outcome.stdout.is_empty());
    assert!(outcome.stderr.contains("Usage:"));
    assert_eq!(outcome.stderr, format!("{HELP}\n"));
}

#[test]
fn app_warns_about_unsupported_rulesdir() {
    let tempdir = tempdir().expect("tempdir should be created");
    let cwd = tempdir.path().to_str().unwrap().to_owned();
    let mut args = CliArgs::empty();
    args.rulesdir = vec!["custom-rules".to_owned()];
    args.files = vec!["top.sls".to_owned()];
    let app = App::with_current_dir(&cwd);
    let config = Config::from_cli(&args, &cwd, None, RawConfig::default()).ok().unwrap();

    // top.sls does not exist in the directory, so there is nothing to read.
    let outcome = run(&app, &args, &config, &Vec::new(), None);

    assert_eq!(outcome.exit_code, 0);
    assert!(outcome.stderr.contains("custom Python rule directories are unsupported"));
    assert!(outcome.stderr.contains("custom-rules"));
    assert!(outcome.stdout.is_empty());
}

#[test]
fn list_rules_outputs_real_builtin_rules() {
    let app = App::with_current_dir("/work");
    let config = Config::empty("/work".to_owned());
    let mut args = CliArgs::empty();
    args.list_rules = true;

    let outcome = run(&app, &args, &config, &Vec::new(), None);

    assert_eq!(outcome.exit_code, 0);
    assert!(outcome.stdout.contains("201: Trailing whitespace"));
    assert!(outcome.stdout.contains("901: Using the quiet argument with cmd.run is deprecated"));
    assert!(outcome.stderr.is_empty());
}

#[test]
fn list_tags_outputs_real_builtin_tags() {
    let app = App::with_current_dir("/work");
    let config = Config::empty("/work".to_owned());
    let mut args = CliArgs::empty();
    args.list_tags = true;

    let outcome = run(&app, &args, &config, &Vec::new(), None);

    assert_eq!(outcome.exit_code, 0);
    assert!(outcome.stdout.contains("deprecation"));
    assert!(outcome.stdout.contains("[901]"));
    assert!(outcome.stdout.contains("formatting"));
}

#[test]
fn stdin_input_is_linted_as_sls() {
    let app = App::with_current_dir("/work");
    let config = Config::empty("/work".to_owned());
    let args = CliArgs::empty();

    let outcome = run(
        &app,
        &args,
        &config,
        &Vec::new(),
        Some("testfile:\n  file.managed:\n    - source:/salt://lorem  ".to_owned()),
    );

    assert_eq!(outcome.exit_code, 2);
    assert!(outcome.stdout.contains("stdin.sls"));
    assert!(outcome.stdout.contains("[201]"));
}

#[test]
fn no_input_still_exits_one_without_piped_stdin() {
    let app = App::with_current_dir("/work");
    let config = Config::empty("/work".to_owned());

    let outcome = run(&app, &CliArgs::empty(), &config, &Vec::new(), None);

    assert_eq!(outcome.exit_code, 1);
}

#[test]
fn unsupported_rulesdir_warning_is_emitted() {
    let mut args = CliArgs::empty();
    args.rulesdir = vec!["custom-rules".to_owned()];
    args.files = vec!["clean.sls".to_owned()];
    let app = App::with_current_dir("/work");
    let config = Config::from_cli(&args, "/work", None, RawConfig::default()).ok().unwrap();
    let sources = vec![Source {
        file: LintFile::new("clean.sls"),
        text: "test:\n  file.managed:\n    - source: salt://x\n".to_owned(),
    }];

    let outcome = run(&app, &args, &config, &sources, None);

    assert_eq!(outcome.exit_code, 0);
    assert!(outcome.stderr.contains("custom Python rule directories are unsupported"));
}

#[test]
fn config_discovery_applies_skip_list() {
    // The configuration lies one directory up from where the run starts.
    let mut current = "/tmp/project/nested".to_owned();
    let discovered = loop {
        let has_config = current == "/tmp/project";
        match discovery_step(&current, has_config, false) {
            DiscoveryStep::Found(path) => break Some(path),
            DiscoveryStep::Stop => break None,
            DiscoveryStep::Parent(parent) => current = parent,
        }
    };
    assert_eq!(discovered.as_deref(), Some("/tmp/project/.salt-lint"));

    let mut args = CliArgs::empty();
    args.files = vec!["state.sls".to_owned()];
    let path = select_config_path(&args, discovered);
    let mut raw = RawConfig::default();
    raw.skip_list = Some(vec![ScalarValue::Integer(201)]);
    let config = Config::from_cli(&args, "/tmp/project/nested", path, raw).ok().unwrap();
    let app = App::with_current_dir("/tmp/project/nested");
    let sources = vec![Source {
        file: LintFile::new("state.sls"),
        text: "test:\n  file.managed:\n    - source: x  ".to_owned(),
    }];

    let outcome = run(&app, &args, &config, &sources, None);

    assert_eq!(outcome.exit_code, 0);
}

#[test]
fn directories_stand_for_their_init_sls() {
    assert_eq!(lint_target("states/web", true), "states/web/init.sls");
    assert_eq!(lint_target("states/web/", true), "states/web/init.sls");
    assert_eq!(lint_target("top.sls", false), "top.sls");

    let mut config = Config::empty("/work".to_owned());
    config.exclude_paths = vec!["vendor".to_owned()];
    let app = App::with_current_dir("/work");
    let targets = app.lint_targets(
        &config,
        &vec!["states".to_owned(), "vendor/x.sls".to_owned(), "a.j2".to_owned()],
        &vec![true, false, false],
    );
    assert_eq!(
        targets,
        vec![
            LintFile::new("states/init.sls"),
            LintFile::new("a.j2"),
        ]
    );
    assert_eq!(targets[0].kind, salt_lint_rs::file_types::FileKind::Sls);
    assert_eq!(targets[1].kind, salt_lint_rs::file_types::FileKind::Jinja);
}
