use salt_lint_rs::cli::CliArgs;
use salt_lint_rs::config::discovery::{discovery_step, DiscoveryStep};
use salt_lint_rs::config::ignore_set::RuleIgnoreSet;
use salt_lint_rs::config::raw::{expand_csv_values, RawConfig, RawRuleConfig, ScalarValue, TagsValue};
use salt_lint_rs::config::{select_config_path, Config, ConfigError};
use tempfile::tempdir;

fn strings(items: &[&str]) -> Vec<String> {
    items.iter().map(|s| s.to_string()).collect()
}

fn top_sls_args() -> CliArgs {
    let mut args = CliArgs::empty();
    args.files = strings(&["top.sls"]);
    args
}

#[test]
fn merges_yaml_config_with_cli_values() {
    let tempdir = tempdir().expect("tempdir should be created");
    let cwd = tempdir.path().to_str().unwrap().to_owned();
    let config_path = format!("{cwd}/.salt-lint");

    let mut args = top_sls_args();
    args.verbosity = 1;
    args.skip_list = strings(&["210,211"]);
    args.tags = strings(&["deprecation"]);
    args.rulesdir = strings(&["from-cli-rules"]);
    args.exclude_paths = strings(&["vendor"]);
    args.config = Some(config_path.clone());

    let mut raw = RawConfig::default();
    raw.verbosity = Some(1);
    raw.exclude_paths = Some(strings(&["exclude_this_file"]));
    raw.skip_list = Some(vec![
        ScalarValue::Integer(207),
        ScalarValue::String("208,209".to_owned()),
    ]);
    raw.tags = Some(TagsValue::List(strings(&["formatting"])));
    raw.use_default_rules = Some(true);
    raw.rulesdir = Some(strings(&["from-config-rules"]));
    raw.rules = Some(vec![(
        "formatting".to_owned(),
        RawRuleConfig {
            ignore: Some("tests/test-extension-failure\ntests/**/*.jinja\n".to_owned()),
        },
    )]);

    let config = Config::from_cli(&args, &cwd, Some(config_path.clone()), raw)
        .ok()
        .expect("config should load");

    assert_eq!(config.exclude_paths, strings(&["vendor", "exclude_this_file"]));
    assert!(config.skip_list.contains(&"207".to_owned()));
    assert!(config.skip_list.contains(&"208".to_owned()));
    assert!(config.skip_list.contains(&"209".to_owned()));
    assert!(config.skip_list.contains(&"210".to_owned()));
    assert!(config.skip_list.contains(&"211".to_owned()));
    assert_eq!(config.tags, strings(&["deprecation", "formatting"]));
    assert_eq!(config.rulesdir, strings(&["from-cli-rules", "from-config-rules"]));
    assert_eq!(config.unsupported_rulesdirs, config.rulesdir);
    assert_eq!(config.verbosity, 2);
    assert!(config.use_default_rules);
    assert_eq!(config.config_path, Some(config_path));
    assert_eq!(config.skip_list, strings(&["207", "208", "209", "210", "211"]));
}

#[test]
fn rule_ignore_matching_uses_gitwildmatch_style_patterns() {
    let tempdir = tempdir().expect("tempdir should be created");
    let cwd = tempdir.path().to_str().unwrap().to_owned();
    let mut raw = RawConfig::default();
    raw.rules = Some(vec![(
        "formatting".to_owned(),
        RawRuleConfig {
            ignore: Some("tests/test-extension-failure\ntests/**/*.jinja\n".to_owned()),
        },
    )]);

    let config = Config::from_cli(&top_sls_args(), &cwd, None, raw)
        .ok()
        .expect("config should load");

    assert!(config.is_file_ignored("tests/test-extension-failure", "formatting"));
    assert!(config.is_file_ignored("tests/other/test.jinja", "formatting"));
    assert!(!config.is_file_ignored("test.jinja", "formatting"));
    assert!(!config.is_file_ignored("tests/test-extension-failure", "deprecation"));
}

#[test]
fn exclude_paths_match_relative_and_absolute_prefixes() {
    let tempdir = tempdir().expect("tempdir should be created");
    let cwd = tempdir.path().to_str().unwrap().to_owned();
    let mut args = top_sls_args();
    args.exclude_paths = strings(&["states"]);

    let config = Config::from_cli(&args, &cwd, None, RawConfig::default())
        .ok()
        .expect("config should load");

    assert!(config.is_excluded("states/init.sls"));
    assert!(config.is_excluded(&format!("{cwd}/states/init.sls")));
    assert!(!config.is_excluded("other/init.sls"));
}

#[test]
fn excludes_read_backslashes_as_slashes() {
    let mut config = Config::empty("/work".to_owned());
    config.exclude_paths = strings(&["states\\web"]);

    assert!(config.is_excluded("states/web/init.sls"));
    assert!(config.is_excluded("states\\web\\init.sls"));
    assert!(config.is_excluded("/work/states/web/init.sls"));
    assert!(!config.is_excluded("/elsewhere/states/web/init.sls"));
}

#[test]
fn command_line_flags_stay_on_and_file_flags_add() {
    let mut args = top_sls_args();
    args.json = true;
    args.severity = false;
    let mut raw = RawConfig::default();
    raw.json = Some(false);
    raw.severity = Some(true);

    let config = Config::from_cli(&args, "/work", None, raw).ok().unwrap();
    assert!(config.json);
    assert!(config.severity);

    let mut args = top_sls_args();
    args.json = true;
    let config = Config::from_cli(&args, "/work", None, RawConfig::default()).ok().unwrap();
    assert!(config.json);
    assert!(!config.severity);

    let mut raw = RawConfig::default();
    raw.severity = Some(false);
    let config = Config::from_cli(&top_sls_args(), "/work", None, raw).ok().unwrap();
    assert!(!config.json);
    assert!(!config.severity);
}

#[test]
fn verbosity_adds_up_and_saturates() {
    let mut args = top_sls_args();
    args.verbosity = 200;
    let mut raw = RawConfig::default();
    raw.verbosity = Some(100);

    let config = Config::from_cli(&args, "/work", None, raw).ok().unwrap();
    assert_eq!(config.verbosity, 255);
}

#[test]
fn skip_list_is_sorted_and_unique() {
    let mut args = top_sls_args();
    args.skip_list = strings(&["b, a", "", " c ,a"]);
    let mut raw = RawConfig::default();
    raw.skip_list = Some(vec![
        ScalarValue::Boolean(true),
        ScalarValue::Integer(-3),
        ScalarValue::String("b".to_owned()),
    ]);

    let config = Config::from_cli(&args, "/work", None, raw).ok().unwrap();
    assert_eq!(config.skip_list, strings(&["-3", "a", "b", "c", "true"]));
}

#[test]
fn comma_separated_values_are_split_and_trimmed() {
    assert_eq!(
        expand_csv_values(&strings(&[" 201 , 202", ",,", "203"])),
        strings(&["201", "202", "203"])
    );
    assert_eq!(
        TagsValue::String("formatting, jinja ,".to_owned()).into_vec(),
        strings(&["formatting", "jinja"])
    );
    assert_eq!(
        TagsValue::List(strings(&["a, b"])).into_vec(),
        strings(&["a, b"])
    );
    assert_eq!(ScalarValue::Integer(42).to_text(), "42");
    assert_eq!(ScalarValue::Boolean(false).to_text(), "false");
    assert_eq!(ScalarValue::String("x".to_owned()).to_text(), "x");
}

#[test]
fn refused_ignore_pattern_names_rule_and_pattern() {
    let mut raw = RawConfig::default();
    raw.rules = Some(vec![
        ("201".to_owned(), RawRuleConfig { ignore: None }),
        (
            "formatting".to_owned(),
            RawRuleConfig { ignore: Some("ok/**\n  [z-a]  \nlater\n".to_owned()) },
        ),
    ]);

    let err = Config::from_cli(&top_sls_args(), "/work", None, raw)
        .err()
        .expect("the pattern should be refused");
    match &err {
        ConfigError::InvalidIgnorePattern { rule, pattern } => {
            assert_eq!(rule, "formatting");
            assert_eq!(pattern, "[z-a]");
        }
        _ => panic!("unexpected error"),
    }
    assert_eq!(err.describe(), "invalid ignore pattern for `formatting`: [z-a]");

    let set = RuleIgnoreSet::new("/work", "formatting", "a/**\n\n  b.sls  \n")
        .ok()
        .expect("patterns should compile");
    assert_eq!(set.rule, "formatting");
}

#[test]
fn other_config_errors_describe_themselves() {
    assert_eq!(ConfigError::Io("no such file".to_owned()).describe(), "no such file");
    assert_eq!(ConfigError::Yaml("bad yaml".to_owned()).describe(), "bad yaml");
}

#[test]
fn config_path_prefers_the_command_line() {
    let mut args = top_sls_args();
    assert_eq!(
        select_config_path(&args, Some("/found/.salt-lint".to_owned())),
        Some("/found/.salt-lint".to_owned())
    );
    args.config = Some("given.yml".to_owned());
    assert_eq!(
        select_config_path(&args, Some("/found/.salt-lint".to_owned())),
        Some("given.yml".to_owned())
    );
    assert_eq!(select_config_path(&top_sls_args(), None), None);
}

/// Walks up from `start` through a tree where `configs` hold a
/// configuration file and `gits` a repository marker.
fn discover(start: &str, configs: &[&str], gits: &[&str]) -> Option<String> {
    let mut current = start.to_owned();
    loop {
        let has_config = configs.contains(&current.as_str());
        let has_git = gits.contains(&current.as_str());
        match discovery_step(&current, has_config, has_git) {
            DiscoveryStep::Found(path) => return Some(path),
            DiscoveryStep::Stop => return None,
            DiscoveryStep::Parent(parent) => current = parent,
        }
    }
}

#[test]
fn discovers_nearest_config_file() {
    assert_eq!(
        discover("/tmp/project/salt/states", &["/tmp/project", "/tmp"], &[]),
        Some("/tmp/project/.salt-lint".to_owned())
    );
    assert_eq!(discover("/tmp/project/salt", &[], &[]), None);
}

#[test]
fn stops_searching_at_git_boundary() {
    assert_eq!(
        discover("/tmp/outer/project/salt/states", &["/tmp/outer"], &["/tmp/outer/project"]),
        None
    );
    assert_eq!(
        discover("/tmp/outer/project", &["/tmp/outer/project"], &["/tmp/outer/project"]),
        Some("/tmp/outer/project/.salt-lint".to_owned())
    );
}

#[test]
fn rule_keys_of_a_file_are_checked_for_repeats() {
    let mut raw = RawConfig::default();
    assert!(raw.rule_keys_are_unique());
    raw.rules = Some(vec![
        ("201".to_owned(), RawRuleConfig { ignore: None }),
        ("formatting".to_owned(), RawRuleConfig { ignore: Some("a/**".to_owned()) }),
    ]);
    assert!(raw.rule_keys_are_unique());
    raw.rules = Some(vec![
        ("201".to_owned(), RawRuleConfig { ignore: None }),
        ("202".to_owned(), RawRuleConfig { ignore: None }),
        ("201".to_owned(), RawRuleConfig { ignore: Some("a/**".to_owned()) }),
    ]);
    assert!(!raw.rule_keys_are_unique());
}
