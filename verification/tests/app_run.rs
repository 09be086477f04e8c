use salt_lint_rs::app::{App, AppError, RunOutcome, Source};
use salt_lint_rs::cli::CliArgs;
use salt_lint_rs::config::{Config, ConfigError};
use salt_lint_rs::fs::LintFile;
use salt_lint_rs::rules::builtin_rules;

fn multiple_findings() -> String {
    let long = "x".repeat(170);
    format!("test:\n  file.managed:\n    - source: salt://x  \n    - name: /{long}\n    - requires:\n")
}

fn lint(text: &str, json: bool, severity: bool) -> RunOutcome {
    let app = App::with_current_dir("/work");
    let mut config = Config::empty("/work".to_owned());
    config.json = json;
    config.severity = severity;
    let mut args = CliArgs::empty();
    args.files = vec!["multiple_findings.sls".to_owned()];
    let sources = vec![Source {
        file: LintFile::new("multiple_findings.sls"),
        text: text.to_owned(),
    }];
    app.run(&builtin_rules(), &args, &config, &sources, &None, "help")
}

#[test]
fn multiple_findings_output_is_stably_sorted() {
    let outcome = lint(&multiple_findings(), false, false);

    assert_eq!(outcome.exit_code, 2);
    let first = outcome.stdout.find("[201]").expect("201 finding should exist");
    let second = outcome.stdout.find("[204]").expect("204 finding should exist");
    let third = outcome.stdout.find("[217]").expect("217 finding should exist");
    assert!(first < second && second < third);
}

#[test]
fn json_output_contains_expected_fields_and_order() {
    let outcome = lint(&multiple_findings(), true, false);

    assert_eq!(outcome.exit_code, 2);
    let parsed: serde_json::Value = serde_json::from_str(&outcome.stdout).expect("json should parse");
    let items = parsed.as_array().expect("json output should be an array");
    assert_eq!(items.len(), 3);
    assert_eq!(items[0]["id"], "201");
    assert_eq!(items[1]["id"], "204");
    assert_eq!(items[2]["id"], "217");
    assert_eq!(items[0]["linenumber"], 3);
    assert_eq!(items[0]["filename"], "multiple_findings.sls");
    assert_eq!(items[0]["severity"], "INFO");
    assert_eq!(items[0]["line"], "    - source: salt://x  ");
    assert!(outcome.stdout.ends_with("]\n"));
}

#[test]
fn severity_output_includes_severity_labels() {
    let outcome = lint(&multiple_findings(), false, true);

    assert_eq!(outcome.exit_code, 2);
    assert!(outcome.stdout.contains("[INFO]"));
    assert!(outcome.stdout.contains("[VERY_LOW]"));
    assert!(outcome.stdout.contains("[LOW]"));
}

#[test]
fn clean_text_exits_zero_and_prints_nothing() {
    let outcome = lint("test:\n  file.managed:\n    - source: salt://x\n", false, false);

    assert_eq!(outcome.exit_code, 0);
    assert!(outcome.stdout.is_empty());
    assert!(outcome.stderr.is_empty());
}

#[test]
fn raw_blocks_and_section_noqa_exit_zero() {
    let raw = lint("{% raw %}\n{{variable}}\n{%-set x='y'+%}\n{% endraw %}\n", false, false);
    assert_eq!(raw.exit_code, 0);

    let section = lint(
        "getpip:\n  cmd.run:\n    - name: /usr/bin/python /usr/local/sbin/get-pip.py\n    - quiet # noqa: 901\n",
        false,
        false,
    );
    assert_eq!(section.exit_code, 0);
}

#[test]
fn problems_of_several_files_are_sorted_together() {
    let app = App::with_current_dir("/work");
    let config = Config::empty("/work".to_owned());
    let mut args = CliArgs::empty();
    args.files = vec!["b.sls".to_owned(), "a.sls".to_owned()];
    let sources = vec![
        Source { file: LintFile::new("b.sls"), text: "x: 1  \n".to_owned() },
        Source { file: LintFile::new("a.sls"), text: "y: 2\nz: 3  \n".to_owned() },
    ];

    let outcome = app.run(&builtin_rules(), &args, &config, &sources, &None, "help");

    assert_eq!(outcome.exit_code, 2);
    assert_eq!(
        outcome.stdout,
        "[201] Trailing whitespace\na.sls:2\nz: 3  \n[201] Trailing whitespace\nb.sls:1\nx: 1  \n"
    );
}

#[test]
fn app_errors_describe_themselves() {
    assert_eq!(AppError::Io("disk on fire".to_owned()).describe(), "disk on fire");
    assert_eq!(
        AppError::Config(ConfigError::InvalidIgnorePattern {
            rule: "201".to_owned(),
            pattern: "[z-a]".to_owned()
        })
        .describe(),
        "invalid ignore pattern for `201`: [z-a]"
    );
}
