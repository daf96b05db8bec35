use repo_cli::docs::select::{pick_choice, PickChoice};
use repo_cli::docs::model::{Doc, DocKind, PlanPhase};
use repo_cli::docs::select::DetailsMode;
use repo_cli::docs::table::{
    no_docs_message, no_match_message, overview_line, pad_cell, query_miss_lines, table_lines,
};

fn design() -> Doc {
    Doc {
        file: "a.md".to_string(),
        title: "Hello".to_string(),
        version: "1.0".to_string(),
        status: "draft".to_string(),
        date: "2024-01-01".to_string(),
        phases: vec![],
    }
}

fn plan() -> Doc {
    Doc {
        file: "p.md".to_string(),
        title: "Plan".to_string(),
        version: String::new(),
        status: "active".to_string(),
        date: "2024-02-02".to_string(),
        phases: vec![
            PlanPhase { name: "One".to_string(), done: 1, total: 2 },
            PlanPhase { name: "Two".to_string(), done: 2, total: 2 },
        ],
    }
}

#[test]
fn table_lines_for_designs_pad_every_column() {
    let d = design();
    let lines = table_lines(DocKind::Designs, &[&d], DetailsMode::Off, false);
    let rule = "\u{2500}";
    assert_eq!(
        lines,
        vec![
            "  FILE  TITLE  VERSION  STATUS  DATE      ".to_string(),
            format!(
                "  {}  {}  {}  {}  {}",
                rule.repeat(4),
                rule.repeat(5),
                rule.repeat(7),
                rule.repeat(6),
                rule.repeat(10)
            ),
            "  a.md  Hello  1.0      draft   2024-01-01".to_string(),
            String::new(),
            "  1 design(s) found".to_string(),
        ]
    );
}

#[test]
fn table_lines_for_plans_show_progress_and_hints() {
    let p = plan();
    let lines = table_lines(DocKind::Plans, &[&p], DetailsMode::Off, false);
    assert_eq!(lines[0], format!("  FILE  TITLE  STATUS  DATE        PROGRESS{}", " ".repeat(13)));
    assert_eq!(lines[2], "  p.md  Plan   active  2024-02-02  1/2 phases  3/4 tasks");
    assert_eq!(lines[3], "");
    assert_eq!(lines[4], "  1 plan(s) found");
    assert_eq!(lines[5], "  Run repo docs plans <query> to inspect one plan.");
    assert_eq!(lines[6], "  Run repo docs plans --details incomplete to expand active plans.");
    assert_eq!(lines.len(), 7);
}

#[test]
fn table_lines_expand_phase_details() {
    let p = plan();
    let lines = table_lines(DocKind::Plans, &[&p], DetailsMode::All, false);
    let full = "\u{2588}";
    let empty = "\u{2591}";
    assert_eq!(lines[4], "  Plan phases:");
    assert_eq!(
        lines[5],
        format!("    [{}{}]  1/2  partial  One", full.repeat(8), empty.repeat(8))
    );
    assert_eq!(lines[6], format!("    [{}]  2/2  done  Two", full.repeat(16)));
    assert_eq!(lines[7], "");
    assert_eq!(lines[8], "  1 plan(s) found");
    assert_eq!(lines.len(), 9);
}

#[test]
fn table_lines_incomplete_details_skip_finished_plans() {
    let mut p = plan();
    p.phases[0].done = 2;
    let lines = table_lines(DocKind::Plans, &[&p], DetailsMode::Incomplete, false);
    assert_eq!(lines.len(), 5);
    assert_eq!(lines[4], "  1 plan(s) found");
}

#[test]
fn table_lines_colour_the_status_but_pad_by_its_plain_width() {
    let d = design();
    let lines = table_lines(DocKind::Designs, &[&d], DetailsMode::Off, true);
    assert_eq!(lines[2], "  a.md  Hello  1.0      \x1b[36mdraft\x1b[0m   2024-01-01");
}

#[test]
fn pad_cell_keeps_long_text_whole() {
    let c: Vec<char> = "abcdef".chars().collect();
    assert_eq!(pad_cell(&c, 3).into_iter().collect::<String>(), "abcdef");
    assert_eq!(pad_cell(&c, 8).into_iter().collect::<String>(), "abcdef  ");
}

#[test]
fn overview_line_counts_and_summarises_statuses() {
    let mut a = design();
    let b = design();
    a.status = "accepted".to_string();
    let line = overview_line(DocKind::Adrs, &[a, b], false);
    assert_eq!(line, "  adrs           2 doc(s)  1 accepted, 1 draft  _docs/");
    let empty = overview_line(DocKind::Plans, &[], false);
    assert_eq!(empty, "  plans          0 doc(s)  (empty)  .repo/storage/");
}

fn make_doc(file: &str, title: &str, status: &str, phases: Vec<PlanPhase>) -> Doc {
    Doc {
        file: file.into(),
        title: title.into(),
        version: "1.0.0".into(),
        status: status.into(),
        date: "2026-01-01".into(),
        phases,
    }
}

fn last_count(lines: &[String]) -> Option<&String> {
    lines.iter().find(|l| l.ends_with("(s) found"))
}

#[test]
fn plans_with_phases_does_not_panic() {
    let doc = make_doc(
        "plan.json",
        "Test Plan",
        "active",
        vec![
            PlanPhase { name: "Setup".into(), done: 1, total: 2 },
            PlanPhase { name: "Ship".into(), done: 0, total: 3 },
        ],
    );
    let docs: Vec<&Doc> = vec![&doc];
    let lines = table_lines(DocKind::Plans, &docs, DetailsMode::Off, false);
    assert_eq!(last_count(&lines).unwrap(), "  1 plan(s) found");
}

#[test]
fn plans_with_details_all_does_not_panic() {
    let doc = make_doc(
        "plan.json",
        "Test Plan",
        "active",
        vec![
            PlanPhase { name: "Setup".into(), done: 2, total: 2 },
            PlanPhase { name: "Ship".into(), done: 1, total: 3 },
        ],
    );
    let docs: Vec<&Doc> = vec![&doc];
    let lines = table_lines(DocKind::Plans, &docs, DetailsMode::All, false);
    assert!(lines.iter().any(|l| l == "  Test Plan phases:"));
}

#[test]
fn plans_with_details_incomplete_does_not_panic() {
    let doc = make_doc(
        "plan.json",
        "Test Plan",
        "active",
        vec![PlanPhase { name: "Setup".into(), done: 0, total: 2 }],
    );
    let docs: Vec<&Doc> = vec![&doc];
    let lines = table_lines(DocKind::Plans, &docs, DetailsMode::Incomplete, false);
    assert!(lines.iter().any(|l| l.ends_with("0/2  pending  Setup")));
}

#[test]
fn non_plan_without_phases_does_not_panic() {
    let doc = make_doc("design.md", "My Design", "accepted", Vec::new());
    let docs: Vec<&Doc> = vec![&doc];
    let lines = table_lines(DocKind::Designs, &docs, DetailsMode::Off, false);
    assert_eq!(last_count(&lines).unwrap(), "  1 design(s) found");
}

#[test]
fn non_plan_with_phases_does_not_panic() {
    let doc = make_doc(
        "adr.md",
        "My ADR",
        "proposed",
        vec![PlanPhase { name: "Review".into(), done: 0, total: 1 }],
    );
    let docs: Vec<&Doc> = vec![&doc];
    let lines = table_lines(DocKind::Adrs, &docs, DetailsMode::All, false);
    assert!(lines[0].contains("VERSION"));
    assert!(!lines.iter().any(|l| l.contains("phases:")));
}

#[test]
fn plans_no_phases_uses_basic_layout() {
    let doc = make_doc("plan.json", "Empty Plan", "proposal", Vec::new());
    let docs: Vec<&Doc> = vec![&doc];
    let lines = table_lines(DocKind::Plans, &docs, DetailsMode::Off, false);
    assert!(lines[0].contains("VERSION"));
    assert!(!lines[0].contains("PROGRESS"));
}

#[test]
fn empty_docs_does_not_panic() {
    let docs: Vec<&Doc> = vec![];
    let lines = table_lines(DocKind::References, &docs, DetailsMode::Off, false);
    assert_eq!(last_count(&lines).unwrap(), "  0 reference(s) found");
}

#[test]
fn details_all_with_complete_phases() {
    let doc = make_doc(
        "plan.json",
        "Done Plan",
        "complete",
        vec![PlanPhase { name: "Only".into(), done: 5, total: 5 }],
    );
    let docs: Vec<&Doc> = vec![&doc];
    let lines = table_lines(DocKind::Plans, &docs, DetailsMode::All, false);
    assert!(lines.iter().any(|l| l.ends_with("5/5  done  Only")));
}

#[test]
fn details_all_with_zero_total_phase() {
    let doc = make_doc(
        "plan.json",
        "Unknown Plan",
        "active",
        vec![PlanPhase { name: "Empty".into(), done: 0, total: 0 }],
    );
    let docs: Vec<&Doc> = vec![&doc];
    let lines = table_lines(DocKind::Plans, &docs, DetailsMode::All, false);
    assert!(lines.iter().any(|l| l.ends_with("0/0  --  Empty")));
}

#[test]
fn listing_messages_name_the_kind_and_place() {
    assert_eq!(no_docs_message(DocKind::Plans), "No plans found in .repo/storage/");
    assert_eq!(no_docs_message(DocKind::Designs), "No designs found in _docs/designs/");
    assert_eq!(no_match_message(DocKind::Adrs), "No ADRs match the given filter.");
    assert_eq!(
        query_miss_lines(DocKind::References, "zz"),
        vec![
            "No reference matched `zz`.".to_string(),
            "Run `repo docs references --help` for usage.".to_string(),
        ]
    );
}

#[test]
fn table_fits_rejects_bars_that_overflow_their_width() {
    let good = plan();
    assert!(repo_cli::docs::table::table_fits(DocKind::Plans, &[&good], DetailsMode::All));
    let mut bad = plan();
    bad.phases[0].done = 5; // more done than total: the bar would overfill
    bad.phases[0].total = 2;
    assert!(!repo_cli::docs::table::table_fits(DocKind::Plans, &[&bad], DetailsMode::All));
    assert!(repo_cli::docs::table::table_fits(DocKind::Plans, &[&bad], DetailsMode::Off));
    assert!(repo_cli::docs::table::table_fits(DocKind::Designs, &[&bad], DetailsMode::All));
}

#[test]
fn pick_menu_numbers_documents_from_one() {
    let a = design();
    let mut b = design();
    b.file = "b.md".into();
    b.title = "Bee".into();
    let lines = repo_cli::docs::table::pick_menu_lines(DocKind::Designs, &[&a, &b], false);
    assert_eq!(
        lines,
        vec![
            "Select a design:".to_string(),
            "  1. a.md (Hello)".to_string(),
            "  2. b.md (Bee)".to_string(),
        ]
    );
}

#[test]
fn pick_choice_reads_the_typed_number() {
    assert_eq!(pick_choice("  \n", 3), PickChoice::Cancel);
    assert_eq!(pick_choice("2\n", 3), PickChoice::Chosen(1));
    assert_eq!(pick_choice("0", 3), PickChoice::Chosen(0));
    assert_eq!(pick_choice("+3", 3), PickChoice::Chosen(2));
    assert_eq!(pick_choice("4", 3), PickChoice::Invalid);
    assert_eq!(pick_choice("two", 3), PickChoice::Invalid);
}

#[test]
fn empty_phase_fits_whatever_it_counts_as_done() {
    let mut doc = plan();
    doc.phases = vec![PlanPhase { name: "Empty".to_string(), done: usize::MAX, total: 0 }];
    assert!(repo_cli::docs::table::table_fits(DocKind::Plans, &[&doc], DetailsMode::All));
    let docs: Vec<&Doc> = vec![&doc];
    let lines = table_lines(DocKind::Plans, &docs, DetailsMode::All, false);
    assert!(lines.iter().any(|l| l.contains(&format!("[{}]", " ".repeat(16)))), "{lines:?}");
}
