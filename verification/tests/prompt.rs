use repo_cli::frontmatter::parse_yaml_fields;
use repo_cli::prompt::{
    find_prompt, list_prompts, load_defaults, merge_prompts, parse_prompt, parse_tags,
    plan_prompt_run, sort_prompts, source_summary, suggestions, tag_filter, Prompt, PromptAction,
};

fn prompt(name: &str, tags: &[&str], builtin: bool) -> Prompt {
    Prompt {
        name: name.to_string(),
        description: String::new(),
        tags: tags.iter().map(|t| t.to_string()).collect(),
        body: format!("{name} body"),
        builtin,
    }
}

// ── tag_filter ──────────────────────────────────────────────────────

#[test]
fn tag_filter_extracts_value() {
    let args: Vec<&str> = vec!["list", "--tag", "review"];
    assert_eq!(tag_filter(&args), Some("review".to_string()));
}

#[test]
fn tag_filter_returns_none_when_absent() {
    let args: Vec<&str> = vec!["list", "--json"];
    assert_eq!(tag_filter(&args), None);
}

#[test]
fn tag_filter_lowercases_value() {
    let args: Vec<&str> = vec!["--tag", "PLAN"];
    assert_eq!(tag_filter(&args), Some("plan".to_string()));
}

#[test]
fn tag_filter_ignores_a_trailing_flag() {
    assert_eq!(tag_filter(&["list", "--tag"]), None);
}

// ── parse_yaml_fields ───────────────────────────────────────────────

#[test]
fn parse_yaml_fields_handles_quoted_values() {
    let yaml = "name: \"hello\"\ndesc: 'world'";
    let fields = parse_yaml_fields(yaml);
    assert_eq!(fields.get("name").unwrap(), "hello");
    assert_eq!(fields.get("desc").unwrap(), "world");
}

#[test]
fn parse_yaml_fields_skips_multiline_markers() {
    let yaml = "description: >\nname: test";
    let fields = parse_yaml_fields(yaml);
    assert!(!fields.contains_key("description"));
    assert_eq!(fields.get("name").unwrap(), "test");
}

#[test]
fn parse_yaml_fields_skips_indented_lines() {
    let yaml = "name: top\n  indented: skip\n\t tabbed: skip";
    let fields = parse_yaml_fields(yaml);
    assert_eq!(fields.len(), 1);
    assert_eq!(fields.get("name").unwrap(), "top");
}

// ── The snippet format ──────────────────────────────────────────────

#[test]
fn parse_prompt_reads_frontmatter_and_body() {
    let p = parse_prompt(
        "---\nname: my-prompt\ndescription: hello\ntags: [a, \"b\", 'c']\n---\n\nbody here",
        ".repo/prompts/my-prompt.md",
    );
    assert_eq!(p.name, "my-prompt");
    assert_eq!(p.description, "hello");
    assert_eq!(p.tags, vec!["a", "b", "c"]);
    assert_eq!(p.body, "body here");
    assert!(!p.builtin);
}

#[test]
fn parse_prompt_without_frontmatter_uses_file_stem() {
    let p = parse_prompt("just a body\n", "prompts/quick-note.md");
    assert_eq!(p.name, "quick-note");
    assert_eq!(p.body, "just a body\n");
    assert!(p.tags.is_empty());
}

#[test]
fn parse_prompt_without_name_uses_file_stem() {
    let p = parse_prompt("---\ndescription: d\n---\nbody", "x/format-plan.md");
    assert_eq!(p.name, "format-plan");
}

#[test]
fn parse_tags_drops_empty_pieces() {
    assert_eq!(parse_tags("review, , format"), vec!["review", "format"]);
    assert_eq!(parse_tags("[]"), Vec::<String>::new());
}

#[test]
fn load_defaults_marks_builtins() {
    let defaults = load_defaults(&[
        ("format-plan.md", "---\nname: format-plan\ntags: [plan, format]\n---\nFormat it."),
        ("review-cycle.md", "Review it."),
    ]);
    assert_eq!(defaults.len(), 2);
    assert!(defaults.iter().all(|p| p.builtin));
    assert_eq!(defaults[0].name, "format-plan");
    assert_eq!(defaults[1].name, "review-cycle");
}

// ── Merging, listing, lookup ────────────────────────────────────────

#[test]
fn user_prompt_overrides_builtin_and_list_is_sorted() {
    let defaults = vec![prompt("validate-plan", &["plan"], true), prompt("format-plan", &["plan"], true)];
    let mut custom = prompt("format-plan", &["custom"], false);
    custom.description = "user version".to_string();
    let user = sort_prompts(vec![prompt("brand-new", &[], false), custom]);
    let merged = merge_prompts(defaults, user);
    let names: Vec<&str> = merged.iter().map(|p| p.name.as_str()).collect();
    assert_eq!(names, vec!["brand-new", "format-plan", "validate-plan"]);
    assert_eq!(merged[1].description, "user version");
    assert!(!merged[1].builtin);
}

#[test]
fn list_prompts_filters_by_tag_case_insensitively() {
    let prompts = vec![prompt("a", &["Review"], true), prompt("b", &["plan"], false)];
    let all = list_prompts(prompts, None);
    assert_eq!(all.len(), 2);
    let prompts = vec![prompt("a", &["Review"], true), prompt("b", &["plan"], false)];
    let reviewed = list_prompts(prompts, Some("REVIEW"));
    assert_eq!(reviewed.len(), 1);
    assert_eq!(reviewed[0].name, "a");
    let prompts = vec![prompt("a", &["Review"], true)];
    assert!(list_prompts(prompts, Some("nonexistent-xyz-tag")).is_empty());
}

#[test]
fn find_prompt_prefers_exact_name_then_prefix() {
    let prompts = vec![prompt("format-plan-long", &[], true), prompt("format-plan", &[], true)];
    assert_eq!(find_prompt(&prompts, "format-plan"), Some(1));
    assert_eq!(find_prompt(&prompts, "form"), Some(0));
    assert_eq!(find_prompt(&prompts, "does-not-exist-xyz"), None);
}

#[test]
fn suggestions_match_names_and_tags() {
    let prompts = vec![prompt("review-cycle", &["team"], true), prompt("format-plan", &["review"], true)];
    assert_eq!(suggestions(&prompts, "review"), vec!["review-cycle", "format-plan"]);
    assert!(suggestions(&prompts, "zzz").is_empty());
}

#[test]
fn source_summary_counts_builtin_and_custom() {
    let prompts = vec![prompt("a", &[], true), prompt("b", &[], false), prompt("c", &[], false)];
    assert_eq!(source_summary(&prompts), "1 built-in, 2 custom");
    let only_custom = vec![prompt("a", &[], false)];
    assert_eq!(source_summary(&only_custom), "1 custom");
}

// ── Dispatch ────────────────────────────────────────────────────────

#[test]
fn run_dispatch_decisions() {
    assert!(matches!(plan_prompt_run(&["--help"]), PromptAction::Help));
    assert!(matches!(plan_prompt_run(&["-h"]), PromptAction::Help));
    assert!(matches!(plan_prompt_run(&["init"]), PromptAction::Init { json: false }));
    match plan_prompt_run(&[]) {
        PromptAction::List { json, tag } => {
            assert!(!json);
            assert!(tag.is_none());
        }
        _ => panic!("expected a listing"),
    }
    match plan_prompt_run(&["list", "--tag", "Review", "--json"]) {
        PromptAction::List { json, tag } => {
            assert!(json);
            assert_eq!(tag.as_deref(), Some("review"));
        }
        _ => panic!("expected a listing"),
    }
    match plan_prompt_run(&["totally-nonexistent-prompt-xyz"]) {
        PromptAction::Show(name) => assert_eq!(name, "totally-nonexistent-prompt-xyz"),
        _ => panic!("expected a prompt to show"),
    }
}
