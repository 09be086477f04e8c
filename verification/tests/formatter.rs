use salt_lint_rs::formatter::{format_problems, FormatterKind};
use salt_lint_rs::problem::{Problem, RuleMeta, Severity};

const META: RuleMeta = RuleMeta {
    id: "204",
    shortdesc: "Lines should be no longer than 160 chars",
    description: "Long lines make code harder to read and code review more difficult",
    severity: Severity::VeryLow,
    tags: &["formatting"],
    languages: &[],
};

fn problems() -> Vec<Problem> {
    vec![
        Problem::from_meta(&META, "a.sls", 12, "line \"quoted\"\ttab", None),
        Problem::from_meta(&META, "b.sls", 3, "plain", Some("custom \\ message")),
    ]
}

#[test]
fn flags_choose_the_format() {
    assert_eq!(FormatterKind::from_flags(true, true), FormatterKind::Json);
    assert_eq!(FormatterKind::from_flags(true, false), FormatterKind::Json);
    assert_eq!(FormatterKind::from_flags(false, true), FormatterKind::Severity);
    assert_eq!(FormatterKind::from_flags(false, false), FormatterKind::Default);
}

#[test]
fn default_format_lists_id_message_location_and_line() {
    assert_eq!(
        format_problems(&problems(), FormatterKind::Default),
        "[204] Lines should be no longer than 160 chars\na.sls:12\nline \"quoted\"\ttab\n\
         [204] custom \\ message\nb.sls:3\nplain\n"
    );
}

#[test]
fn severity_format_adds_the_label() {
    assert_eq!(
        format_problems(&problems()[1..], FormatterKind::Severity),
        "[204] [VERY_LOW] custom \\ message\nb.sls:3\nplain\n"
    );
}

#[test]
fn json_format_escapes_strings() {
    assert_eq!(
        format_problems(&problems(), FormatterKind::Json),
        "[{\"id\":\"204\",\"message\":\"Lines should be no longer than 160 chars\",\"filename\":\"a.sls\",\
         \"linenumber\":12,\"line\":\"line \\\"quoted\\\"\\ttab\",\"severity\":\"VERY_LOW\"},\
         {\"id\":\"204\",\"message\":\"custom \\\\ message\",\"filename\":\"b.sls\",\"linenumber\":3,\
         \"line\":\"plain\",\"severity\":\"VERY_LOW\"}]"
    );
}

#[test]
fn empty_lists_format_as_nothing_or_an_empty_array() {
    assert_eq!(format_problems(&[], FormatterKind::Default), "");
    assert_eq!(format_problems(&[], FormatterKind::Severity), "");
    assert_eq!(format_problems(&[], FormatterKind::Json), "[]");
}

#[test]
fn severities_have_their_labels() {
    assert_eq!(Severity::Info.as_str(), "INFO");
    assert_eq!(Severity::VeryLow.as_str(), "VERY_LOW");
    assert_eq!(Severity::Low.as_str(), "LOW");
    assert_eq!(Severity::Medium.as_str(), "MEDIUM");
    assert_eq!(Severity::High.as_str(), "HIGH");
}

#[test]
fn json_format_escapes_control_characters_as_serde_json_does() {
    let ps = vec![Problem::from_meta(
        &META,
        "c.sls",
        1,
        "a\u{1}b\u{8}c\u{c}d\re\n\u{1f}é\u{7f}/",
        None,
    )];
    assert_eq!(
        format_problems(&ps, FormatterKind::Json),
        "[{\"id\":\"204\",\"message\":\"Lines should be no longer than 160 chars\",\"filename\":\"c.sls\",\
         \"linenumber\":1,\"line\":\"a\\u0001b\\bc\\fd\\re\\n\\u001fé\u{7f}/\",\"severity\":\"VERY_LOW\"}]"
    );
}
