use salt_lint_rs::config::Config;
use salt_lint_rs::engine::collection::RuleCollection;
use salt_lint_rs::engine::context::RuleContext;
use salt_lint_rs::engine::rule::{ProblemSeed, Rule};
use salt_lint_rs::file_types::FileKind;
use salt_lint_rs::problem::{Problem, RuleMeta, Severity};
use salt_lint_rs::rules;
use tempfile::tempdir;

struct RunFromText {
    collection: RuleCollection,
}

impl RunFromText {
    fn new(collection: RuleCollection) -> Self {
        Self { collection }
    }

    fn run(&self, text: &str) -> Vec<Problem> {
        let tempdir = tempdir().expect("tempdir should be created");
        let config = Config::empty(tempdir.path().to_str().unwrap().to_owned());
        let context = RuleContext::new("inline.sls", FileKind::Sls, &config);
        self.collection.run(&context, text, &Vec::new(), &Vec::new())
    }
}

const TEST_TAGS: &[&str] = &["test"];
const ALL_LANGUAGES: &[FileKind] = &[];

const TEST_LINE_RULE_META: RuleMeta = RuleMeta {
    id: "801",
    shortdesc: "Flags TODO lines",
    description: "Flags TODO lines",
    severity: Severity::Low,
    tags: TEST_TAGS,
    languages: ALL_LANGUAGES,
};

const TEST_TEXT_RULE_META: RuleMeta = RuleMeta {
    id: "802",
    shortdesc: "Flags BAD sections",
    description: "Flags BAD sections",
    severity: Severity::Low,
    tags: TEST_TAGS,
    languages: ALL_LANGUAGES,
};

const TEST_SORT_RULE_META: RuleMeta = RuleMeta {
    id: "700",
    shortdesc: "Sorts earlier",
    description: "Sorts earlier",
    severity: Severity::Low,
    tags: TEST_TAGS,
    languages: ALL_LANGUAGES,
};

struct TodoLineRule;

impl Rule for TodoLineRule {
    fn meta(&self) -> &'static RuleMeta {
        &TEST_LINE_RULE_META
    }

    fn check_line(&self, _ctx: &RuleContext<'_>, line_no: usize, line: &str) -> Option<ProblemSeed> {
        if line.contains("TODO") {
            Some(ProblemSeed::line(line_no, line, Some("Found TODO")))
        } else {
            None
        }
    }

    fn check_text(&self, _ctx: &RuleContext<'_>, _text: &str) -> Vec<ProblemSeed> {
        Vec::new()
    }
}

struct BadSectionRule;

impl Rule for BadSectionRule {
    fn meta(&self) -> &'static RuleMeta {
        &TEST_TEXT_RULE_META
    }

    fn check_line(&self, _ctx: &RuleContext<'_>, _line_no: usize, _line: &str) -> Option<ProblemSeed> {
        None
    }

    fn check_text(&self, _ctx: &RuleContext<'_>, text: &str) -> Vec<ProblemSeed> {
        if !text.contains("BAD") {
            return Vec::new();
        }

        vec![ProblemSeed::section(2, "BAD", Some("Found BAD"), text)]
    }
}

struct SortRule;

impl Rule for SortRule {
    fn meta(&self) -> &'static RuleMeta {
        &TEST_SORT_RULE_META
    }

    fn check_line(&self, _ctx: &RuleContext<'_>, line_no: usize, line: &str) -> Option<ProblemSeed> {
        if line.contains("TODO") {
            Some(ProblemSeed::line(line_no, line, Some("Earlier id should sort first")))
        } else {
            None
        }
    }

    fn check_text(&self, _ctx: &RuleContext<'_>, _text: &str) -> Vec<ProblemSeed> {
        Vec::new()
    }
}

#[test]
fn line_rules_execute_against_text() {
    let mut collection = RuleCollection::new();
    collection.register(Box::new(TodoLineRule));

    let problems = RunFromText::new(collection).run("good\nTODO item\n");

    assert_eq!(problems.len(), 1);
    assert_eq!(problems[0].id, "801");
    assert_eq!(problems[0].linenumber, 2);
}

#[test]
fn full_text_rules_execute_against_text() {
    let mut collection = RuleCollection::new();
    collection.register(Box::new(BadSectionRule));

    let problems = RunFromText::new(collection).run("good\nBAD\n");

    assert_eq!(problems.len(), 1);
    assert_eq!(problems[0].id, "802");
    assert_eq!(problems[0].linenumber, 2);
}

#[test]
fn line_noqa_skips_matching_rule() {
    let mut collection = RuleCollection::new();
    collection.register(Box::new(TodoLineRule));

    let problems = RunFromText::new(collection).run("TODO item # noqa 801\n");

    assert!(problems.is_empty());
}

#[test]
fn section_noqa_skips_full_text_rule() {
    let mut collection = RuleCollection::new();
    collection.register(Box::new(BadSectionRule));

    let problems = RunFromText::new(collection).run("good\nBAD # noqa 802\n");

    assert!(problems.is_empty());
}

#[test]
fn collection_sorts_problems_by_id_when_line_matches_are_equal() {
    let mut collection = RuleCollection::new();
    collection.register(Box::new(TodoLineRule));
    collection.register(Box::new(SortRule));

    let problems = RunFromText::new(collection).run("TODO item\n");

    assert_eq!(problems.len(), 2);
    assert_eq!(problems[0].id, "700");
    assert_eq!(problems[1].id, "801");
}

#[test]
fn builtin_rules_register_minimal_host_validation_rules() {
    let collection = rules::builtin_rules();
    assert_eq!(collection.len(), 32);
}

// The laws of the engine, on concrete values.

#[test]
fn comment_lines_are_not_given_to_line_rules() {
    let mut collection = RuleCollection::new();
    collection.register(Box::new(TodoLineRule));

    let problems = RunFromText::new(collection).run("  # TODO later\nTODO now\n");

    assert_eq!(problems.len(), 1);
    assert_eq!(problems[0].linenumber, 2);
}

#[test]
fn noqa_for_another_rule_does_not_silence() {
    let mut collection = RuleCollection::new();
    collection.register(Box::new(TodoLineRule));

    let problems = RunFromText::new(collection).run("TODO item # noqa 700 802\n");

    assert_eq!(problems.len(), 1);
    assert_eq!(problems[0].message, "Found TODO");
}

#[test]
fn skip_list_and_tags_select_rules() {
    let tempdir = tempdir().expect("tempdir should be created");
    let config = Config::empty(tempdir.path().to_str().unwrap().to_owned());
    let context = RuleContext::new("inline.sls", FileKind::Sls, &config);
    let mut collection = RuleCollection::new();
    collection.register(Box::new(TodoLineRule));
    collection.register(Box::new(SortRule));

    let skipped = collection.run(&context, "TODO\n", &Vec::new(), &vec!["801".to_owned()]);
    assert_eq!(skipped.len(), 1);
    assert_eq!(skipped[0].id, "700");

    let by_tag = collection.run(&context, "TODO\n", &vec!["test".to_owned()], &Vec::new());
    assert_eq!(by_tag.len(), 2);

    let by_id = collection.run(&context, "TODO\n", &vec!["801".to_owned()], &Vec::new());
    assert_eq!(by_id.len(), 1);
    assert_eq!(by_id[0].id, "801");

    let none = collection.run(&context, "TODO\n", &vec!["formatting".to_owned()], &Vec::new());
    assert!(none.is_empty());

    let skipped_tag = collection.run(&context, "TODO\n", &Vec::new(), &vec!["test".to_owned()]);
    assert!(skipped_tag.is_empty());
}

#[test]
fn problems_sort_by_file_then_line_then_id() {
    let meta = RuleMeta {
        id: "300",
        shortdesc: "s",
        description: "d",
        severity: Severity::Low,
        tags: TEST_TAGS,
        languages: ALL_LANGUAGES,
    };
    let other = RuleMeta { id: "250", ..meta };
    let mut problems = vec![
        Problem::from_meta(&meta, "b.sls", 1, "x", None),
        Problem::from_meta(&meta, "a.sls", 9, "x", Some("first of two")),
        Problem::from_meta(&meta, "a.sls", 2, "x", None),
        Problem::from_meta(&other, "a.sls", 9, "x", None),
        Problem::from_meta(&meta, "a.sls", 9, "x", Some("second of two")),
    ];

    salt_lint_rs::engine::collection::sort_problems(&mut problems);

    let order: Vec<(String, usize, String)> = problems
        .iter()
        .map(|p| (p.filename.clone(), p.linenumber, p.id.clone()))
        .collect();
    assert_eq!(
        order,
        vec![
            ("a.sls".to_owned(), 2, "300".to_owned()),
            ("a.sls".to_owned(), 9, "250".to_owned()),
            ("a.sls".to_owned(), 9, "300".to_owned()),
            ("a.sls".to_owned(), 9, "300".to_owned()),
            ("b.sls".to_owned(), 1, "300".to_owned()),
        ]
    );
    assert_eq!(problems[2].message, "first of two");
    assert_eq!(problems[3].message, "second of two");
}

#[test]
fn seeds_become_problems_with_the_rule_message_by_default() {
    let seed = ProblemSeed::line(4, "some line", None);
    let problem = seed.into_problem(&TEST_LINE_RULE_META, "f.sls");
    assert_eq!(problem.id, "801");
    assert_eq!(problem.message, "Flags TODO lines");
    assert_eq!(problem.filename, "f.sls");
    assert_eq!(problem.linenumber, 4);
    assert_eq!(problem.line, "some line");
    assert_eq!(problem.severity, Severity::Low);

    let section = ProblemSeed::section(2, "b", Some("custom"), "a\nb");
    assert_eq!(section.skip_excerpt.as_deref(), Some("a\nb"));
    assert_eq!(section.to_problem(&TEST_LINE_RULE_META, "f.sls").message, "custom");
}
