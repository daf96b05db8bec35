use repo_cli::docs::select::sort_owned_docs;
use repo_cli::docs::markdown::{parse_frontmatter, parse_plan_phases};
use repo_cli::docs::model::{
    color_progress_summary, format_progress_summary, phase_status, plan_progress, progress_bar,
    Doc, DocKind, PlanPhase,
};
use repo_cli::docs::overview::{plan_docs_run, sort_strings, status_summary, to_json_doc, DocsAction};
use repo_cli::docs::plan_json::{
    derive_plan_status, extract_json_phases, parse_plan_json, step_progress, truncate_title, Json,
};
use repo_cli::docs::select::{
    find_doc, parse_list_options, select_docs, should_expand_doc, sort_docs, DetailsMode,
    Selection, SortMode,
};
use repo_cli::frontmatter::parse_yaml_fields;

fn to_json(v: serde_json::Value) -> Json {
    match v {
        serde_json::Value::Null => Json::Null,
        serde_json::Value::Bool(b) => Json::Bool(b),
        serde_json::Value::Number(n) => Json::Number(n.as_u64()),
        serde_json::Value::String(s) => Json::Str(s),
        serde_json::Value::Array(a) => Json::Array(a.into_iter().map(to_json).collect()),
        serde_json::Value::Object(o) => {
            Json::Object(o.into_iter().map(|(k, v)| (k, to_json(v))).collect())
        }
    }
}

fn json(text: &str) -> Json {
    to_json(serde_json::from_str(text).unwrap())
}

// ── DocKind ─────────────────────────────────────────────────────────

#[test]
fn parse_accepts_known_names_and_aliases() {
    assert!(matches!(DocKind::parse("plans"), Some(DocKind::Plans)));
    assert!(matches!(DocKind::parse("designs"), Some(DocKind::Designs)));
    assert!(matches!(DocKind::parse("adrs"), Some(DocKind::Adrs)));
    assert!(matches!(DocKind::parse("refs"), Some(DocKind::References)));
    assert!(matches!(DocKind::parse("references"), Some(DocKind::References)));
    assert!(DocKind::parse("unknown").is_none());
}

#[test]
fn kind_subdir_parses_back_to_the_kind() {
    for kind in [DocKind::Plans, DocKind::Designs, DocKind::Adrs, DocKind::References] {
        assert_eq!(DocKind::parse(kind.subdir()), Some(kind));
    }
    assert_eq!(DocKind::Adrs.label(), "ADR");
}

// ── Parsing ─────────────────────────────────────────────────────────

#[test]
fn parse_frontmatter_extracts_fields_and_defaults() {
    let doc = parse_frontmatter(
        "---\n\
         title: \"Example Plan\"\n\
         version: '1.2.3'\n\
         status: accepted\n\
         date: 2026-03-21\n\
         ---\n\
         body\n",
        "2026-03-21-example.md",
    )
    .expect("expected frontmatter");

    assert_eq!(doc.file, "2026-03-21-example.md");
    assert_eq!(doc.title, "Example Plan");
    assert_eq!(doc.version, "1.2.3");
    assert_eq!(doc.status, "accepted");
    assert_eq!(doc.date, "2026-03-21");
    assert!(doc.phases.is_empty());
}

#[test]
fn parse_frontmatter_rejects_missing_title() {
    assert!(parse_frontmatter("---\nstatus: draft\n---\nbody\n", "missing-title.md").is_none());
}

#[test]
fn parse_plan_phases_groups_headings_and_counts_tasks() {
    let phases = parse_plan_phases(
        "\
         # Intro\n\
         ## Phase 1 - Setup\n\
         - [x] one\n\
         - [ ] two\n\
         ## Phase 2 - Finish\n\
         - [x] done\n",
    );

    assert_eq!(phases.len(), 2);
    assert_eq!(phases[0].name, "Phase 1 - Setup");
    assert_eq!(phases[0].done, 1);
    assert_eq!(phases[0].total, 2);
    assert_eq!(phases[1].name, "Phase 2 - Finish");
    assert_eq!(phases[1].done, 1);
    assert_eq!(phases[1].total, 1);
}

#[test]
fn truncate_title_prefers_sentence_boundaries_and_word_wrap() {
    assert_eq!(truncate_title("Short title", 72), "Short title".to_string());
    assert_eq!(
        truncate_title("A concise outcome: keep the first clause when truncating the title", 40),
        "A concise outcome".to_string()
    );
}

// ── JSON plans ──────────────────────────────────────────────────────

#[test]
fn parse_plan_json_uses_progress_and_status_from_steps() {
    let doc = parse_plan_json(
        r#"{
            "schemaVersion": "1",
            "metadata": {
                "planId": "release-checklist",
                "version": "2.0.0",
                "updatedAt": "2026-03-21T12:34:56Z"
            },
            "problem": {
                "successOutcome": "Ship a tighter release flow without breaking installs"
            },
            "steps": [
                {
                    "id": "setup",
                    "title": "Setup",
                    "size": "S",
                    "validationBudget": { "valReq": 2, "valDone": 2 }
                },
                {
                    "id": "ship",
                    "title": "Ship",
                    "size": "M",
                    "validationBudget": { "required": 3, "performed": 1 }
                }
            ],
            "executionOrder": {
                "sequence": ["setup", "ship"],
                "parallelizableGroups": [["setup", "ship"]]
            }
        }"#,
        "plan.json",
    )
    .expect("expected json doc");

    assert_eq!(doc.file, "plan.json");
    assert_eq!(doc.title, "Ship a tighter release flow without breaking installs");
    assert_eq!(doc.version, "2.0.0");
    assert_eq!(doc.status, "active");
    assert_eq!(doc.date, "2026-03-21");
    assert_eq!(doc.phases.len(), 2);
    assert!(doc.phases[0].name.starts_with("┌ [S] Setup"));
    assert!(doc.phases[1].name.starts_with("└ [M] Ship"));
    assert_eq!(doc.phases[0].done, 2);
    assert_eq!(doc.phases[0].total, 2);
}

#[test]
fn parse_plan_json_rejects_text_that_is_not_json() {
    assert!(parse_plan_json("not json at all", "plan.json").is_none());
}

#[test]
fn derive_plan_status_prefers_phase_completion_over_history() {
    let obj = json(r#"{"metadata": {"versionHistory": [1]}}"#);
    let phases = vec![PlanPhase { name: "setup".into(), done: 1, total: 1 }];

    assert_eq!(derive_plan_status(&obj, &phases), "complete");
}

// ── Progress ────────────────────────────────────────────────────────

fn phase(done: usize, total: usize) -> PlanPhase {
    PlanPhase { name: "p".into(), done, total }
}

#[test]
fn phase_status_unknown_when_no_tasks() {
    assert_eq!(phase_status(&phase(0, 0)), "unknown");
}

#[test]
fn phase_status_done_when_all_complete() {
    assert_eq!(phase_status(&phase(3, 3)), "done");
}

#[test]
fn phase_status_partial_when_some_done() {
    assert_eq!(phase_status(&phase(1, 3)), "partial");
}

#[test]
fn phase_status_pending_when_none_done() {
    assert_eq!(phase_status(&phase(0, 3)), "pending");
}

#[test]
fn step_progress_returns_zero_one_when_no_budget() {
    let step = json(r#"{ "id": "a" }"#);
    assert_eq!(step_progress(&step), (0, 1));
}

#[test]
fn step_progress_reads_val_req_and_val_done() {
    let step = json(r#"{ "validationBudget": { "valReq": 4, "valDone": 2 } }"#);
    assert_eq!(step_progress(&step), (2, 4));
}

#[test]
fn step_progress_reads_required_and_performed() {
    let step = json(r#"{ "validationBudget": { "required": 3, "performed": 1 } }"#);
    assert_eq!(step_progress(&step), (1, 3));
}

#[test]
fn plan_progress_sums_across_phases() {
    let phases = vec![phase(2, 3), phase(1, 1)];
    let p = plan_progress(&phases);
    assert_eq!(p.total_phases, 2);
    assert_eq!(p.complete_phases, 1);
    assert_eq!(p.done_tasks, 3);
    assert_eq!(p.total_tasks, 4);
}

#[test]
fn format_progress_summary_returns_dash_for_empty() {
    assert_eq!(format_progress_summary(&[]), "\u{2014}");
}

#[test]
fn format_progress_summary_formats_counts() {
    let phases = vec![phase(2, 2), phase(0, 1)];
    let s = format_progress_summary(&phases);
    assert!(s.contains("1/2 phases"), "got: {s}");
    assert!(s.contains("2/3 tasks"), "got: {s}");
    assert_eq!(s, "1/2 phases  2/3 tasks");
}

#[test]
fn progress_bar_returns_empty_bar_for_zero_total() {
    let bar = progress_bar(0, 0, 5, true);
    assert!(bar.contains('['), "got: {bar}");
    let plain = progress_bar(0, 0, 5, false);
    assert!(plain.contains('['), "got: {plain}");
}

#[test]
fn progress_bar_fully_filled_for_complete() {
    let bar = progress_bar(4, 4, 4, true);
    assert!(bar.contains('\u{2588}'), "expected filled blocks in: {bar}");
}

#[test]
fn progress_bar_partial_for_in_progress() {
    let bar = progress_bar(2, 4, 4, true);
    assert!(bar.contains('\u{2588}'), "expected some filled: {bar}");
    assert!(bar.contains('\u{2591}'), "expected some empty: {bar}");
}

#[test]
fn progress_bar_all_empty_for_zero_done() {
    let bar = progress_bar(0, 4, 4, true);
    assert!(bar.contains('\u{2591}'), "expected empty blocks in: {bar}");
}

#[test]
fn progress_bar_without_color_is_exact() {
    assert_eq!(progress_bar(2, 4, 4, false), "[\u{2588}\u{2588}\u{2591}\u{2591}]");
}

#[test]
fn truncate_title_breaks_at_word_boundary() {
    let long = "one two three four five six seven eight nine ten eleven";
    let truncated = truncate_title(long, 20);
    assert!(truncated.ends_with("..."), "got: {truncated}");
    assert!(truncated.len() <= 23, "got: {truncated}");
}

#[test]
fn color_progress_summary_returns_dash_for_empty_phases() {
    let result = color_progress_summary(&[], true);
    assert!(result.contains('\u{2014}'), "expected em-dash in: {result}");
}

#[test]
fn color_progress_summary_all_complete() {
    let phases = vec![phase(2, 2), phase(1, 1)];
    let result = color_progress_summary(&phases, true);
    assert!(result.contains("2/2 phases"), "got: {result}");
    assert!(result.contains("3/3 tasks"), "got: {result}");
}

#[test]
fn color_progress_summary_partial_phases() {
    let phases = vec![phase(1, 2), phase(0, 3)];
    let result = color_progress_summary(&phases, true);
    assert!(result.contains("0/2 phases"), "got: {result}");
    assert!(result.contains("1/5 tasks"), "got: {result}");
}

#[test]
fn color_progress_summary_zero_done() {
    let phases = vec![phase(0, 2), phase(0, 3)];
    let result = color_progress_summary(&phases, true);
    assert!(result.contains("0/2 phases"), "got: {result}");
}

// ── parse_list_options ──────────────────────────────────────────────

#[test]
fn empty_args_returns_defaults() {
    let opts = parse_list_options(&[]).unwrap();
    assert!(opts.query.is_none());
    assert!(opts.status_filter.is_none());
    assert!(!opts.json_output);
    assert_eq!(opts.sort, SortMode::Date);
    assert!(opts.limit.is_none());
    assert_eq!(opts.details, DetailsMode::Off);
    assert!(!opts.interactive);
}

#[test]
fn json_flag() {
    let opts = parse_list_options(&["--json"]).unwrap();
    assert!(opts.json_output);
}

#[test]
fn interactive_flag() {
    let opts = parse_list_options(&["--interactive"]).unwrap();
    assert!(opts.interactive);
}

#[test]
fn status_filter() {
    let opts = parse_list_options(&["--status", "Draft"]).unwrap();
    assert_eq!(opts.status_filter.as_deref(), Some("draft"));
}

#[test]
fn status_missing_value() {
    assert!(parse_list_options(&["--status"]).is_err());
}

#[test]
fn sort_all_modes() {
    for (input, expected) in [
        ("date", SortMode::Date),
        ("status", SortMode::Status),
        ("title", SortMode::Title),
        ("progress", SortMode::Progress),
    ] {
        let opts = parse_list_options(&["--sort", input]).unwrap();
        assert_eq!(opts.sort, expected);
    }
}

#[test]
fn sort_invalid() {
    assert!(parse_list_options(&["--sort", "unknown"]).is_err());
}

#[test]
fn sort_missing_value() {
    assert!(parse_list_options(&["--sort"]).is_err());
}

#[test]
fn limit_valid() {
    let opts = parse_list_options(&["--limit", "5"]).unwrap();
    assert_eq!(opts.limit, Some(5));
}

#[test]
fn limit_invalid() {
    assert!(parse_list_options(&["--limit", "abc"]).is_err());
}

#[test]
fn limit_missing_value() {
    assert!(parse_list_options(&["--limit"]).is_err());
}

#[test]
fn details_all_modes() {
    for (input, expected) in [
        ("none", DetailsMode::Off),
        ("incomplete", DetailsMode::Incomplete),
        ("all", DetailsMode::All),
    ] {
        let opts = parse_list_options(&["--details", input]).unwrap();
        assert_eq!(opts.details, expected);
    }
}

#[test]
fn details_invalid() {
    assert!(parse_list_options(&["--details", "bad"]).is_err());
}

#[test]
fn details_missing_value() {
    assert!(parse_list_options(&["--details"]).is_err());
}

#[test]
fn unknown_flag_rejected() {
    assert_eq!(parse_list_options(&["--foo"]).err().unwrap(), "Unknown docs option: --foo");
}

#[test]
fn duplicate_queries_rejected() {
    assert!(parse_list_options(&["query1", "query2"]).is_err());
}

#[test]
fn interactive_with_json_rejected() {
    assert!(parse_list_options(&["--interactive", "--json"]).is_err());
}

#[test]
fn interactive_with_query_rejected() {
    assert!(parse_list_options(&["--interactive", "myquery"]).is_err());
}

#[test]
fn query_is_captured() {
    let opts = parse_list_options(&["my-plan"]).unwrap();
    assert_eq!(opts.query.as_deref(), Some("my-plan"));
}

// ── extract_json_phases ─────────────────────────────────────────────

#[test]
fn no_steps_returns_empty() {
    let obj = json("{}");
    assert!(extract_json_phases(&obj).is_empty());
}

#[test]
fn empty_steps_returns_empty() {
    let obj = json(r#"{"steps": []}"#);
    assert!(extract_json_phases(&obj).is_empty());
}

#[test]
fn steps_without_execution_order_uses_step_order() {
    let obj = json(
        r#"{
            "steps": [
                {"id": "a", "title": "Alpha", "size": "S", "validationBudget": {"valReq": 2, "valDone": 1}},
                {"id": "b", "title": "Beta", "size": "M"}
            ]
        }"#,
    );
    let phases = extract_json_phases(&obj);
    assert_eq!(phases.len(), 2);
    assert!(phases[0].name.contains("Alpha"));
    assert!(phases[0].name.contains("[S]"));
    assert_eq!(phases[0].done, 1);
    assert_eq!(phases[0].total, 2);
    assert!(phases[1].name.contains("Beta"));
    assert_eq!(phases[1].done, 0);
    assert_eq!(phases[1].total, 1);
}

#[test]
fn parallel_groups_annotated() {
    let obj = json(
        r#"{
            "steps": [
                {"id": "a", "title": "A", "size": "S"},
                {"id": "b", "title": "B", "size": "M"},
                {"id": "c", "title": "C", "size": "L"}
            ],
            "executionOrder": {
                "sequence": ["a", "b", "c"],
                "parallelizableGroups": [["a", "b"]]
            }
        }"#,
    );
    let phases = extract_json_phases(&obj);
    assert_eq!(phases.len(), 3);
    assert!(phases[0].name.starts_with("\u{250c}"), "first in group: {}", phases[0].name);
    assert!(phases[1].name.starts_with("\u{2514}"), "last in group: {}", phases[1].name);
    assert!(phases[2].name.starts_with("[L]"), "solo: {}", phases[2].name);
}

#[test]
fn three_way_parallel_group() {
    let obj = json(
        r#"{
            "steps": [
                {"id": "a", "title": "A", "size": "S"},
                {"id": "b", "title": "B", "size": "M"},
                {"id": "c", "title": "C", "size": "L"}
            ],
            "executionOrder": {
                "sequence": ["a", "b", "c"],
                "parallelizableGroups": [["a", "b", "c"]]
            }
        }"#,
    );
    let phases = extract_json_phases(&obj);
    assert!(phases[0].name.starts_with("\u{250c}"), "first: {}", phases[0].name);
    assert!(phases[1].name.starts_with("\u{251c}"), "middle: {}", phases[1].name);
    assert!(phases[2].name.starts_with("\u{2514}"), "last: {}", phases[2].name);
}

// ── sort_docs ───────────────────────────────────────────────────────

fn doc(title: &str, date: &str, status: &str, done: usize, total: usize) -> Doc {
    Doc {
        file: format!("{title}.md"),
        title: title.into(),
        version: String::new(),
        status: status.into(),
        date: date.into(),
        phases: vec![PlanPhase { name: "p".into(), done, total }],
    }
}

#[test]
fn sort_by_date() {
    let a = doc("Alpha", "2026-01-01", "draft", 0, 1);
    let b = doc("Beta", "2026-02-01", "draft", 0, 1);
    let mut docs: Vec<&Doc> = vec![&a, &b];
    sort_docs(&mut docs, SortMode::Date);
    assert_eq!(docs[0].title, "Beta");
    assert_eq!(docs[1].title, "Alpha");
}

#[test]
fn sort_by_status() {
    let a = doc("Alpha", "2026-01-01", "draft", 0, 1);
    let b = doc("Beta", "2026-01-01", "accepted", 0, 1);
    let mut docs: Vec<&Doc> = vec![&a, &b];
    sort_docs(&mut docs, SortMode::Status);
    assert_eq!(docs[0].title, "Beta");
    assert_eq!(docs[1].title, "Alpha");
}

#[test]
fn sort_by_title() {
    let a = doc("Zulu", "2026-01-01", "draft", 0, 1);
    let b = doc("Alpha", "2026-01-01", "draft", 0, 1);
    let mut docs: Vec<&Doc> = vec![&a, &b];
    sort_docs(&mut docs, SortMode::Title);
    assert_eq!(docs[0].title, "Alpha");
    assert_eq!(docs[1].title, "Zulu");
}

#[test]
fn sort_by_progress() {
    let a = doc("Low", "2026-01-01", "active", 0, 3);
    let b = doc("High", "2026-01-01", "active", 3, 3);
    let mut docs: Vec<&Doc> = vec![&a, &b];
    sort_docs(&mut docs, SortMode::Progress);
    assert_eq!(docs[0].title, "High");
    assert_eq!(docs[1].title, "Low");
}

// ── find_doc ────────────────────────────────────────────────────────

fn named_doc(file: &str, title: &str) -> Doc {
    Doc {
        file: file.into(),
        title: title.into(),
        version: String::new(),
        status: "draft".into(),
        date: "2026-01-01".into(),
        phases: Vec::new(),
    }
}

#[test]
fn exact_filename_match() {
    let d = named_doc("plan.md", "My Plan");
    let docs: Vec<&Doc> = vec![&d];
    assert_eq!(find_doc(&docs, "plan.md").unwrap().title, "My Plan");
}

#[test]
fn stem_match() {
    let d = named_doc("release-plan.md", "Release Plan");
    let docs: Vec<&Doc> = vec![&d];
    assert_eq!(find_doc(&docs, "release-plan").unwrap().title, "Release Plan");
}

#[test]
fn prefix_match_title() {
    let d = named_doc("plan.md", "Release Checklist v2");
    let docs: Vec<&Doc> = vec![&d];
    assert_eq!(find_doc(&docs, "release").unwrap().title, "Release Checklist v2");
}

#[test]
fn prefix_match_file() {
    let d = named_doc("release-v2.md", "Some Title");
    let docs: Vec<&Doc> = vec![&d];
    assert_eq!(find_doc(&docs, "release").unwrap().title, "Some Title");
}

#[test]
fn no_match_returns_none() {
    let d = named_doc("plan.md", "My Plan");
    let docs: Vec<&Doc> = vec![&d];
    assert!(find_doc(&docs, "nonexistent").is_none());
}

// ── should_expand_doc ───────────────────────────────────────────────

fn doc_with_phases(done: usize, total: usize) -> Doc {
    Doc {
        file: "test.md".into(),
        title: "Test".into(),
        version: String::new(),
        status: "active".into(),
        date: "2026-01-01".into(),
        phases: vec![PlanPhase { name: "p".into(), done, total }],
    }
}

#[test]
fn none_never_expands() {
    assert!(!should_expand_doc(DetailsMode::Off, &doc_with_phases(0, 3)));
}

#[test]
fn all_always_expands() {
    assert!(should_expand_doc(DetailsMode::All, &doc_with_phases(3, 3)));
}

#[test]
fn incomplete_expands_when_not_done() {
    assert!(should_expand_doc(DetailsMode::Incomplete, &doc_with_phases(1, 3)));
}

#[test]
fn incomplete_does_not_expand_when_complete() {
    assert!(!should_expand_doc(DetailsMode::Incomplete, &doc_with_phases(3, 3)));
}

// ── to_json_doc ─────────────────────────────────────────────────────

#[test]
fn round_trip_preserves_fields() {
    let doc = Doc {
        file: "test.json".into(),
        title: "Test Plan".into(),
        version: "1.0.0".into(),
        status: "active".into(),
        date: "2026-04-01".into(),
        phases: vec![
            PlanPhase { name: "Setup".into(), done: 2, total: 2 },
            PlanPhase { name: "Ship".into(), done: 0, total: 3 },
        ],
    };
    let json_doc = to_json_doc(&doc);
    assert_eq!(json_doc.file, "test.json");
    assert_eq!(json_doc.title, "Test Plan");
    assert_eq!(json_doc.version, "1.0.0");
    assert_eq!(json_doc.status, "active");
    assert_eq!(json_doc.date, "2026-04-01");
    assert_eq!(json_doc.progress.complete_phases, 1);
    assert_eq!(json_doc.progress.total_phases, 2);
    assert_eq!(json_doc.progress.done_tasks, 2);
    assert_eq!(json_doc.progress.total_tasks, 5);
    assert_eq!(json_doc.phases.len(), 2);
    assert_eq!(json_doc.phases[0].status, "done");
    assert_eq!(json_doc.phases[1].status, "pending");
}

// ── parse_yaml_fields ───────────────────────────────────────────────

#[test]
fn unquoted_value() {
    let fields = parse_yaml_fields("title: My Title");
    assert_eq!(fields.get("title").unwrap(), "My Title");
}

#[test]
fn double_quoted_value() {
    let fields = parse_yaml_fields("title: \"My Title\"");
    assert_eq!(fields.get("title").unwrap(), "My Title");
}

#[test]
fn single_quoted_value() {
    let fields = parse_yaml_fields("version: '1.0.0'");
    assert_eq!(fields.get("version").unwrap(), "1.0.0");
}

#[test]
fn skips_indented_lines() {
    let fields = parse_yaml_fields("title: Hello\n  indented: value");
    assert_eq!(fields.len(), 1);
    assert!(!fields.contains_key("indented"));
}

#[test]
fn skips_empty_lines() {
    let fields = parse_yaml_fields("title: Hello\n\nstatus: draft");
    assert_eq!(fields.len(), 2);
}

#[test]
fn skips_multiline_markers() {
    let fields = parse_yaml_fields("description: >\ntitle: Hello\nblock: |");
    assert_eq!(fields.len(), 1);
    assert_eq!(fields.get("title").unwrap(), "Hello");
}

#[test]
fn keys_lowercased() {
    let fields = parse_yaml_fields("Title: Hello");
    assert_eq!(fields.get("title").unwrap(), "Hello");
}

#[test]
fn later_key_wins() {
    let fields = parse_yaml_fields("title: One\ntitle: Two");
    assert_eq!(fields.get("title").unwrap(), "Two");
    assert_eq!(fields.len(), 1);
}

// ── Dispatch, overview and the listing pipeline ─────────────────────

#[test]
fn docs_dispatch_lists_a_kind_with_its_options() {
    match plan_docs_run(&["plans", "--status", "draft"]) {
        DocsAction::ListKind(kind, rest) => {
            assert_eq!(kind, DocKind::Plans);
            assert_eq!(rest, vec!["--status".to_string(), "draft".to_string()]);
        }
        _ => panic!("expected a listing"),
    }
    assert!(matches!(plan_docs_run(&[]), DocsAction::Overview(false)));
    assert!(matches!(plan_docs_run(&["--json"]), DocsAction::Overview(true)));
    assert!(matches!(plan_docs_run(&["plans", "--help"]), DocsAction::Help(Some(DocKind::Plans))));
    assert!(matches!(plan_docs_run(&["-h"]), DocsAction::Help(None)));
    match plan_docs_run(&["bogus"]) {
        DocsAction::UnknownSubcommand(s) => assert_eq!(s, "bogus"),
        _ => panic!("expected an unknown subcommand"),
    }
}

#[test]
fn status_summary_counts_and_sorts() {
    let docs = vec![
        doc("A", "2026-01-01", "draft", 0, 1),
        doc("B", "2026-01-01", "accepted", 0, 1),
        doc("C", "2026-01-01", "draft", 0, 1),
    ];
    assert_eq!(status_summary(&docs), vec!["1 accepted".to_string(), "2 draft".to_string()]);
    assert_eq!(
        sort_strings(vec!["b".to_string(), "a".to_string(), "c".to_string()]),
        vec!["a".to_string(), "b".to_string(), "c".to_string()]
    );
}

#[test]
fn selection_filters_sorts_and_limits() {
    let docs = vec![
        doc("Alpha", "2026-01-01", "Draft", 0, 1),
        doc("Beta", "2026-02-01", "accepted", 0, 1),
        doc("Gamma", "2026-03-01", "draft", 0, 1),
    ];
    let options = parse_list_options(&["--status", "draft", "--limit", "1"]).unwrap();
    match select_docs(&docs, &options) {
        Selection::Show(v) => {
            assert_eq!(v.len(), 1);
            assert_eq!(v[0].title, "Gamma");
        }
        _ => panic!("expected documents"),
    }
    let missing = parse_list_options(&["nothing-like-this"]).unwrap();
    assert!(matches!(select_docs(&docs, &missing), Selection::NoMatch));
    let pick = parse_list_options(&["--interactive"]).unwrap();
    match select_docs(&docs, &pick) {
        Selection::Pick(v) => assert_eq!(v.len(), 3),
        _ => panic!("expected a choice"),
    }
}

#[test]
fn owned_docs_sort_like_borrowed_ones() {
    let docs = vec![
        doc("Beta", "2024-01-01", "draft", 0, 0),
        doc("Alpha", "2024-03-01", "active", 0, 0),
        doc("Aardvark", "2024-01-01", "draft", 0, 0),
    ];
    let sorted = sort_owned_docs(docs, SortMode::Date);
    let titles: Vec<&str> = sorted.iter().map(|d| d.title.as_str()).collect();
    assert_eq!(titles, vec!["Alpha", "Aardvark", "Beta"]);
}

#[test]
fn progress_bar_with_no_total_ignores_done() {
    assert_eq!(progress_bar(usize::MAX, 0, 4, false), "[    ]");
}

#[test]
fn truncate_title_without_limit_keeps_the_title() {
    let title = "A title: with a colon; and a semicolon";
    assert_eq!(truncate_title(title, usize::MAX), title.to_string());
}

fn plan_text(plan_id: &str, problem: &str) -> String {
    format!(
        r#"{{"schemaVersion": "1", "metadata": {{"planId": "{plan_id}"}}, "problem": {{{problem}}}}}"#
    )
}

#[test]
fn parse_plan_json_cuts_only_the_text_the_title_comes_from() {
    // A problem statement whose cut at 69 bytes would split `é`.
    let long = format!("{}\u{e9}{}", "a".repeat(68), "a".repeat(20));
    let with_outcome =
        plan_text("", &format!(r#""successOutcome": "Ship", "problemStatement": "{long}""#));
    let doc = parse_plan_json(&with_outcome, "p.json").expect("plan with an outcome");
    assert_eq!(doc.title, "Ship");
    let with_id = plan_text("my-plan", &format!(r#""problemStatement": "{long}""#));
    let doc = parse_plan_json(&with_id, "p.json").expect("plan with an id");
    assert_eq!(doc.title, "my plan");
    let bare = plan_text("", &format!(r#""problemStatement": "{long}""#));
    assert!(parse_plan_json(&bare, "p.json").is_none());
}
