use salt_lint_rs::config::Config;
use salt_lint_rs::engine::collection::RuleCollection;
use salt_lint_rs::engine::context::RuleContext;
use salt_lint_rs::engine::rule::{ProblemSeed, Rule};
use salt_lint_rs::engine::skip::{parse_noqa_ids, text_has_noqa};
use salt_lint_rs::file_types::FileKind;
use salt_lint_rs::problem::Problem;
use salt_lint_rs::rules::jinja::escape_raw_blocks;
use salt_lint_rs::rules::{builtin_rules, deprecations, fulltext, jinja};

fn run_one(rule: Box<dyn Rule>, path: &str, text: &str) -> Vec<Problem> {
    let config = Config::empty("/work".to_owned());
    let context = RuleContext::new(path, FileKind::detect(path), &config);
    let mut collection = RuleCollection::new();
    collection.register(rule);
    collection.run(&context, text, &Vec::new(), &Vec::new())
}

#[test]
fn raw_blocks_become_newlines() {
    assert_eq!(
        escape_raw_blocks("a\n{% raw %}\n{{x}}\n{% endraw %}\nb"),
        "a\n\n\n\nb"
    );
    assert_eq!(escape_raw_blocks("x{%- raw -%}y{%- endraw -%}z"), "xz");
    assert_eq!(escape_raw_blocks("no blocks"), "no blocks");
    let text = "1\n{% raw %}\n2\n3\n{% endraw %}\n4\n{% raw %}5{% endraw %}\n6";
    assert_eq!(
        escape_raw_blocks(text).split('\n').count(),
        text.split('\n').count()
    );
}

#[test]
fn jinja_rules_skip_comment_lines_and_noqa() {
    let problems = run_one(
        Box::new(jinja::JinjaStatementHasSpacesRule),
        "t.sls",
        "# {%bad%}\n{%bad%} # noqa 202\n{%bad%}\n",
    );
    assert_eq!(problems.len(), 1);
    assert_eq!(problems[0].linenumber, 3);

    let unknown = run_one(Box::new(jinja::JinjaStatementHasSpacesRule), "t.txt", "{%bad%}\n");
    assert!(unknown.is_empty());
    let template = run_one(Box::new(jinja::JinjaStatementHasSpacesRule), "t.j2", "{%bad%}\n");
    assert_eq!(template.len(), 1);
}

#[test]
fn nested_dict_indent_is_counted_in_bytes() {
    let ok = "    - context:\n        key: value\n";
    let under = "    - context:\n      key: value\n";
    let list = "    - context:\n      - item: value\n";
    let flow = "    - defaults: {a: 1}\n      key: value\n";
    assert!(run_one(Box::new(fulltext::NestedDictRule), "t.sls", ok).is_empty());
    let found = run_one(Box::new(fulltext::NestedDictRule), "t.sls", under);
    assert_eq!(found.len(), 1);
    assert_eq!(found[0].linenumber, 2);
    assert_eq!(found[0].line, "      key: value");
    assert!(run_one(Box::new(fulltext::NestedDictRule), "t.sls", list).is_empty());
    assert!(run_one(Box::new(fulltext::NestedDictRule), "t.sls", flow).is_empty());
    assert!(run_one(
        Box::new(fulltext::NestedDictRule),
        "t.sls",
        "    - context:\n      key: value # noqa 219\n"
    )
    .is_empty());
}

#[test]
fn cmd_run_quiet_reports_the_last_line_of_the_match() {
    let text = "state:\n  cmd.run:\n    - name: x\n    - quiet\n";
    let found = run_one(Box::new(fulltext::CmdRunQuietRule), "t.sls", text);
    assert_eq!(found.len(), 1);
    assert_eq!(found[0].linenumber, 4);
    assert_eq!(found[0].line, "    - quiet");
    assert_eq!(found[0].id, "901");
}

#[test]
fn noqa_ids_follow_the_marker() {
    assert_eq!(parse_noqa_ids("x # noqa 201  202"), vec!["201", "202"]);
    assert_eq!(parse_noqa_ids("x # noqa: 219"), vec![":", "219"]);
    assert!(parse_noqa_ids("x #noqa 201").is_empty());
    assert!(text_has_noqa("a\nb # noqa 901\n", "901"));
    assert!(!text_has_noqa("a\nb # noqa 9011\n", "901"));
}

#[test]
fn builtin_listing_is_sorted_by_id() {
    let listing = builtin_rules().render_rules();
    let ids: Vec<&str> = listing
        .lines()
        .filter(|l| !l.starts_with(' '))
        .map(|l| l.split(':').next().unwrap())
        .collect();
    assert_eq!(ids.len(), 32);
    let mut sorted = ids.clone();
    sorted.sort();
    assert_eq!(ids, sorted);
    assert!(listing.starts_with("201: Trailing whitespace\n There should not be any trailing whitespace\n"));
}

#[test]
fn builtin_tags_listing_groups_ids() {
    let listing = builtin_rules().render_tags();
    let lines: Vec<&str> = listing.lines().collect();
    assert_eq!(lines[0], "deprecation [901], [902], [903], [904], [905], [906], [907], [908], [909], [910], [911], [912], [913], [914], [915]");
    assert!(lines[1].starts_with("formatting [201], [202], [203], [204], [205], [206], [207], [208], [209], [210], [211], [212], [213]"));
    assert!(lines[2].starts_with("jinja [202], [206], [209], [211]"));
}

#[test]
fn builtin_tags_listing_is_exact() {
    assert_eq!(
        builtin_rules().render_tags(),
        "deprecation [901], [902], [903], [904], [905], [906], [907], [908], [909], [910], [911], [912], [913], [914], [915]\n\
         formatting [201], [202], [203], [204], [205], [206], [207], [208], [209], [210], [211], [212], [213], [214], [216], [217], [219]\n\
         jinja [202], [206], [209], [211]"
    );
}

#[test]
fn builtin_rules_have_distinct_ids_in_registration_order() {
    let collection = builtin_rules();
    let ids: Vec<&str> = collection.rules.iter().map(|r| r.meta().id).collect();
    assert_eq!(
        ids,
        vec![
            "201", "203", "204", "212", "213", "216", "217", "202", "209", "206", "211", "902",
            "903", "904", "905", "906", "907", "908", "909", "910", "911", "912", "913", "914",
            "915", "205", "207", "208", "214", "210", "901", "219",
        ]
    );
    let mut sorted = ids.clone();
    sorted.sort();
    sorted.dedup();
    assert_eq!(sorted.len(), 32);
}

#[test]
fn docker_running_is_the_eleventh_deprecation_rule() {
    let rules = deprecations::all_rules();
    let rule = &rules[10];
    assert_eq!(rule.meta().id, "912");
    let config = Config::empty("/work".to_owned());
    let ctx = RuleContext::new("a.sls", FileKind::Sls, &config);
    assert_eq!(
        rule.check_line(&ctx, 2, "  docker.running:"),
        Some(ProblemSeed::line(2, "  docker.running:", None))
    );
    assert!(rule.check_line(&ctx, 6, "  docker.running").is_some());
    assert!(rule.check_line(&ctx, 2, "  docker.running_x:").is_none());
    assert!(rule.check_line(&ctx, 2, "    docker.running:").is_none());
}
