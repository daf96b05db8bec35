use repo_cli::docs::model::DocKind;
use repo_cli::help::{docs_kind_help, ulid_help, DOCS_HELP, PROMPT_HELP, SKILLS_HELP};
use repo_cli::prompt::Prompt;
use repo_cli::prompt_table::{prompt_init_lines, prompt_table_lines, unknown_prompt_lines};

#[test]
fn print_help_does_not_panic() {
    assert!(PROMPT_HELP.starts_with("repo prompt \u{2014} Reusable prompt snippets"));
    assert!(PROMPT_HELP.contains("--tag <TAG>"));
}

#[test]
fn print_table_does_not_panic_on_empty() {
    let lines = prompt_table_lines(&vec![], false);
    assert_eq!(lines[0], "  NAME  TAGS  SRC       DESCRIPTION");
    assert_eq!(lines[3], "  0 prompt(s)  ");
}

#[test]
fn print_table_does_not_panic_with_entries() {
    let p1 = Prompt {
        name: "test-prompt".to_string(),
        description: "A test".to_string(),
        tags: vec!["review".to_string()],
        body: "body".to_string(),
        builtin: true,
    };
    let p2 = Prompt {
        name: "custom-one".to_string(),
        description: String::new(),
        tags: vec![],
        body: "body2".to_string(),
        builtin: false,
    };
    let lines = prompt_table_lines(&vec![p1, p2], false);
    assert_eq!(lines[0], "  NAME         TAGS    SRC       DESCRIPTION");
    assert_eq!(lines[2], "  test-prompt  review  built-in  A test");
    assert_eq!(lines[3], "  custom-one   \u{2014}       custom    ");
    assert_eq!(lines[4], "");
    assert_eq!(lines[5], "  2 prompt(s)  1 built-in, 1 custom");
    assert_eq!(lines[6], "  Run repo prompt <name> to output a snippet.");
}

#[test]
fn prompt_table_colours_tags_and_pads_by_plain_width() {
    let p = Prompt {
        name: "a".into(),
        description: "d".into(),
        tags: vec!["x".into(), "y".into()],
        body: String::new(),
        builtin: false,
    };
    let lines = prompt_table_lines(&vec![p], true);
    assert_eq!(lines[2], "  a     \x1b[36mx, y\x1b[0m  custom    d");
}

#[test]
fn prompt_init_reports_written_and_skipped() {
    assert_eq!(
        prompt_init_lines(3, 0, false),
        vec!["\u{2713} Wrote 3 default prompt(s) to .repo/prompts/".to_string()]
    );
    assert_eq!(
        prompt_init_lines(0, 2, false),
        vec![
            "  \u{21b3} 2 already existed (not overwritten)".to_string(),
            "  All defaults already present. Edit them in .repo/prompts/".to_string(),
        ]
    );
    assert!(prompt_init_lines(0, 0, false).is_empty());
}

#[test]
fn unknown_prompt_suggests_or_points_to_list() {
    assert_eq!(
        unknown_prompt_lines("zz", &vec![]),
        vec![
            "Unknown prompt: zz".to_string(),
            String::new(),
            "Run `repo prompt list` to see available prompts.".to_string(),
        ]
    );
    assert_eq!(
        unknown_prompt_lines("rev", &vec!["review-cycle".into()]),
        vec![
            "Unknown prompt: rev".to_string(),
            String::new(),
            "Did you mean:".to_string(),
            "  review-cycle".to_string(),
        ]
    );
}

#[test]
fn help_texts_name_their_commands_and_locations() {
    assert!(DOCS_HELP.starts_with("repo docs \u{2014} Browse plans, ADRs, and references"));
    assert!(SKILLS_HELP.contains("repo skills fix"));
    let plans = docs_kind_help(DocKind::Plans);
    assert!(plans.starts_with("repo docs plans \u{2014} List plans\n\nUSAGE:\n    repo docs plans [OPTIONS]"));
    assert!(plans.ends_with("Scans .repo/storage/**/*.{md,json} for plan documents."));
    let adrs = docs_kind_help(DocKind::Adrs);
    assert!(adrs.starts_with("repo docs adrs \u{2014} List ADRs\n"));
    assert!(adrs.ends_with("Scans _docs/adrs/*.md for plan documents."));
    assert!(ulid_help(false).starts_with("repo ulid \u{2014} Generate valid ULIDs"));
    assert!(ulid_help(true).starts_with("\x1b[1mrepo ulid\x1b[0m \u{2014}"));
}
