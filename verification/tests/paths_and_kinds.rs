use salt_lint_rs::cli::CliArgs;
use salt_lint_rs::config::raw::{RawConfig, RawRuleConfig};
use salt_lint_rs::config::Config;
use salt_lint_rs::engine::collection::RuleCollection;
use salt_lint_rs::engine::context::RuleContext;
use salt_lint_rs::file_types::FileKind;
use salt_lint_rs::paths::{
    join_paths, matcher_candidate_str, normalize_path_string, path_is_absolute, path_is_dot,
    strip_dot_slash_str,
};
use salt_lint_rs::rules::{builtin_rules, files};

#[test]
fn kinds_follow_the_extension() {
    assert_eq!(FileKind::detect("states/top.sls"), FileKind::Sls);
    assert_eq!(FileKind::detect("states/TOP.SLS"), FileKind::Sls);
    assert_eq!(FileKind::detect("t.jinja"), FileKind::Jinja);
    assert_eq!(FileKind::detect("t.Jinja2"), FileKind::Jinja);
    assert_eq!(FileKind::detect("t.j2"), FileKind::Jinja);
    assert_eq!(FileKind::detect("states.sls/top"), FileKind::Unknown);
    assert_eq!(FileKind::detect(".sls"), FileKind::Unknown);
    assert_eq!(FileKind::detect("top"), FileKind::Unknown);
    assert_eq!(FileKind::detect("a.b.sls"), FileKind::Sls);
}

#[test]
fn sls_file_name_rule_looks_at_the_file_name_only() {
    let config = Config::empty("/work".to_owned());
    let mut collection = RuleCollection::new();
    collection.register(Box::new(files::SlsFileNameRule));

    let dotted_dir = RuleContext::new("states.v2/web.sls", FileKind::Sls, &config);
    assert!(collection.run(&dotted_dir, "a: b\n", &Vec::new(), &Vec::new()).is_empty());

    let dotted_name = RuleContext::new("states/web.v2.sls", FileKind::Sls, &config);
    let found = collection.run(&dotted_name, "a: b\n", &Vec::new(), &Vec::new());
    assert_eq!(found.len(), 1);
    assert_eq!(found[0].id, "214");
    assert_eq!(found[0].linenumber, 1);
    assert_eq!(found[0].line, "a: b");
}

#[test]
fn paths_join_and_normalize_as_text() {
    assert_eq!(join_paths("/work", "states"), "/work/states");
    assert_eq!(join_paths("/work/", "states"), "/work/states");
    assert_eq!(join_paths("/work", "/etc"), "/etc");
    assert_eq!(join_paths("", "states"), "states");
    assert_eq!(normalize_path_string("a\\b/c"), "a/b/c");
    assert!(path_is_absolute("/a"));
    assert!(!path_is_absolute("a/b"));
    assert_eq!(strip_dot_slash_str("./a/b"), "a/b");
    assert_eq!(strip_dot_slash_str("../a"), "../a");
}

#[test]
fn matcher_roots_strip_from_paths() {
    assert_eq!(matcher_candidate_str("/work", "/work/a.sls"), "a.sls");
    assert_eq!(matcher_candidate_str("/work/", "/work/a.sls"), "a.sls");
    assert_eq!(matcher_candidate_str("/work", "/work//a.sls"), "/a.sls");
    assert_eq!(matcher_candidate_str("/work", "/other/a.sls"), "/other/a.sls");
    assert_eq!(matcher_candidate_str("/work", "/workshop/a.sls"), "shop/a.sls");
    assert_eq!(matcher_candidate_str("work", "./work/a.sls"), "a.sls");
    assert_eq!(matcher_candidate_str("work", "a.sls"), "a.sls");
    assert_eq!(matcher_candidate_str(".", "./a/b.sls"), "a/b.sls");
    assert_eq!(matcher_candidate_str(".", "/a/b.sls"), "/a/b.sls");
    assert_eq!(matcher_candidate_str("", "/a/b.sls"), "a/b.sls");
}

#[test]
fn dot_roots_are_recognised_by_their_components() {
    assert!(path_is_dot("."));
    assert!(path_is_dot("./"));
    assert!(path_is_dot("./."));
    assert!(path_is_dot(".//./"));
    assert!(!path_is_dot(""));
    assert!(!path_is_dot(".."));
    assert!(!path_is_dot("./a"));
    assert!(!path_is_dot("/."));
}

#[test]
fn ignore_matchers_accept_paths_under_the_working_directory() {
    let mut raw = RawConfig::default();
    raw.rules = Some(vec![(
        "201".to_owned(),
        RawRuleConfig { ignore: Some("vendor/**\n".to_owned()) },
    )]);
    let mut args = CliArgs::empty();
    args.files = vec!["x.sls".to_owned()];
    let config = Config::from_cli(&args, "/work", None, raw).ok().unwrap();

    assert!(config.accepts_rule("states/a.sls", "201"));
    assert!(config.accepts_rule("/work/states/a.sls", "201"));
    assert!(!config.accepts_rule("/elsewhere/a.sls", "201"));
    assert!(config.is_file_ignored("vendor/x/a.sls", "201"));
    assert!(config.is_file_ignored("/work/vendor/a.sls", "201"));
    assert!(!config.is_file_ignored("states/a.sls", "201"));

    let relative = Config::from_cli(&args, "work", None, RawConfig::default()).ok().unwrap();
    assert!(relative.accepts_rule("/elsewhere/a.sls", "201"));
}

fn ignore_config(cwd: &str, patterns: &str) -> Config {
    ignore_config_for(cwd, "201", patterns)
}

fn ignore_config_for(cwd: &str, rule: &str, patterns: &str) -> Config {
    let mut raw = RawConfig::default();
    raw.rules = Some(vec![(
        rule.to_owned(),
        RawRuleConfig { ignore: Some(patterns.to_owned()) },
    )]);
    let mut args = CliArgs::empty();
    args.files = vec!["x.sls".to_owned()];
    Config::from_cli(&args, cwd, None, raw).ok().unwrap()
}

#[test]
fn ignore_sets_without_globs_accept_every_path() {
    let comments = ignore_config("/work", "# nothing here\n  \n");
    assert!(comments.accepts_rule("/elsewhere/a.sls", "201"));
    assert!(!comments.is_file_ignored("/elsewhere/a.sls", "201"));
    assert!(!comments.is_file_ignored("states/a.sls", "201"));
}

#[test]
fn relative_working_directories_accept_relative_paths() {
    let config = ignore_config("work", "vendor/**");
    assert!(config.accepts_rule("states/a.sls", "201"));
    assert!(config.accepts_rule("vendor/x/a.sls", "201"));
    assert!(config.is_file_ignored("vendor/x/a.sls", "201"));
    assert!(!config.is_file_ignored("states/a.sls", "201"));
    assert!(!config.accepts_rule("/elsewhere/a.sls", "201"));

    let dot = ignore_config(".", "vendor/**");
    assert!(dot.accepts_rule("vendor/x/a.sls", "201"));
    assert!(dot.is_file_ignored("vendor/x/a.sls", "201"));
    assert!(!dot.accepts_rule("/elsewhere/a.sls", "201"));
}

#[test]
fn runs_ask_only_the_matchers_they_reach() {
    let rules = builtin_rules();
    let outside = "/elsewhere/a.sls";

    let config = ignore_config_for("/work", "201", "vendor/**");
    let ctx = RuleContext::new(outside, FileKind::Sls, &config);
    assert!(!rules.can_run(&ctx, &config.tags, &config.skip_list));
    let inside = RuleContext::new("/work/a.sls", FileKind::Sls, &config);
    assert!(rules.can_run(&inside, &config.tags, &config.skip_list));
    assert!(rules.can_run(&ctx, &config.tags, &vec!["201".to_owned()]));
    assert!(rules.can_run(&ctx, &vec!["jinja".to_owned()], &config.skip_list));

    let unused = ignore_config_for("/work", "999", "vendor/**");
    let ctx = RuleContext::new(outside, FileKind::Sls, &unused);
    assert!(rules.can_run(&ctx, &unused.tags, &unused.skip_list));

    let tag = ignore_config_for("/work", "formatting", "*.sls");
    let ctx = RuleContext::new(outside, FileKind::Sls, &tag);
    assert!(!rules.can_run(&ctx, &tag.tags, &tag.skip_list));
}
