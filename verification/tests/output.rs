use repo_cli::output::{
    apply_style, bold, cyan, dim, disable_color, enable_plain_output, green, is_plain_output, red,
    status_color, status_color_inner, use_color, yellow, OutputState,
};

// --- apply_style tests (both branches) ---

#[test]
fn apply_style_with_color_wraps_in_ansi() {
    let result = apply_style("hello", "32", true);
    assert_eq!(result, "\x1b[32mhello\x1b[0m");
}

#[test]
fn apply_style_without_color_returns_plain() {
    let result = apply_style("hello", "32", false);
    assert_eq!(result, "hello");
}

#[test]
fn apply_style_bold_code() {
    assert_eq!(apply_style("x", "1", true), "\x1b[1mx\x1b[0m");
    assert_eq!(apply_style("x", "1", false), "x");
}

#[test]
fn apply_style_dim_code() {
    assert_eq!(apply_style("x", "2", true), "\x1b[2mx\x1b[0m");
    assert_eq!(apply_style("x", "2", false), "x");
}

#[test]
fn apply_style_red_code() {
    assert_eq!(apply_style("x", "31", true), "\x1b[31mx\x1b[0m");
}

#[test]
fn apply_style_yellow_code() {
    assert_eq!(apply_style("x", "33", true), "\x1b[33mx\x1b[0m");
}

#[test]
fn apply_style_cyan_code() {
    assert_eq!(apply_style("x", "36", true), "\x1b[36mx\x1b[0m");
}

// --- Public color functions: the text is present with and without colour ---

#[test]
fn bold_output_contains_text() {
    assert!(bold("test", true).contains("test"));
    assert!(bold("test", false).contains("test"));
}

#[test]
fn dim_output_contains_text() {
    assert!(dim("test", true).contains("test"));
    assert!(dim("test", false).contains("test"));
}

#[test]
fn green_output_contains_text() {
    assert!(green("test", true).contains("test"));
    assert!(green("test", false).contains("test"));
}

#[test]
fn yellow_output_contains_text() {
    assert!(yellow("test", true).contains("test"));
    assert!(yellow("test", false).contains("test"));
}

#[test]
fn red_output_contains_text() {
    assert!(red("test", true).contains("test"));
    assert!(red("test", false).contains("test"));
}

#[test]
fn cyan_output_contains_input_text() {
    assert!(cyan("hello", true).contains("hello"));
    assert!(cyan("hello", false).contains("hello"));
}

// --- status_color_inner tests (both color branches) ---

#[test]
fn status_color_inner_no_color_returns_plain() {
    assert_eq!(status_color_inner("active", false), "active");
    assert_eq!(status_color_inner("proposal", false), "proposal");
    assert_eq!(status_color_inner("draft", false), "draft");
    assert_eq!(status_color_inner("deprecated", false), "deprecated");
    assert_eq!(status_color_inner("unknown", false), "unknown");
}

#[test]
fn status_color_inner_active_statuses_green() {
    for s in &["active", "accepted", "complete"] {
        let result = status_color_inner(s, true);
        assert_eq!(result, format!("\x1b[32m{s}\x1b[0m"));
    }
}

#[test]
fn status_color_inner_proposal_yellow() {
    assert_eq!(status_color_inner("proposal", true), "\x1b[33mproposal\x1b[0m");
}

#[test]
fn status_color_inner_draft_cyan() {
    assert_eq!(status_color_inner("draft", true), "\x1b[36mdraft\x1b[0m");
}

#[test]
fn status_color_inner_deprecated_statuses_dim() {
    for s in &["superseded", "deprecated", "archived", "rejected"] {
        let result = status_color_inner(s, true);
        assert_eq!(result, format!("\x1b[2m{s}\x1b[0m"));
    }
}

#[test]
fn status_color_inner_unknown_with_color_returns_plain() {
    assert_eq!(status_color_inner("foobar", true), "foobar");
}

#[test]
fn status_color_inner_case_insensitive() {
    assert_eq!(status_color_inner("Active", true), "\x1b[32mActive\x1b[0m");
    assert_eq!(status_color_inner("PROPOSAL", true), "\x1b[33mPROPOSAL\x1b[0m");
    assert_eq!(status_color_inner("Draft", true), "\x1b[36mDraft\x1b[0m");
    assert_eq!(status_color_inner("ARCHIVED", true), "\x1b[2mARCHIVED\x1b[0m");
}

// --- Public API tests ---

#[test]
fn status_color_contains_text_for_all_known_statuses() {
    for s in &[
        "active",
        "accepted",
        "complete",
        "proposal",
        "draft",
        "superseded",
        "deprecated",
        "archived",
        "rejected",
    ] {
        assert!(status_color(s, true).contains(s));
        assert!(status_color(s, false).contains(s));
    }
}

#[test]
fn status_color_returns_unknown_statuses_unchanged() {
    assert_eq!(status_color("foobar", true), "foobar");
    assert_eq!(status_color("foobar", false), "foobar");
}

#[test]
fn is_plain_output_defaults_to_false() {
    let state = OutputState::new();
    assert!(!is_plain_output(&state));
}

#[test]
fn use_color_returns_bool() {
    let mut state = OutputState::new();
    assert!(use_color(&mut state, true));
    // The first probe is kept.
    assert!(use_color(&mut state, false));
}

#[test]
fn disable_color_does_not_panic() {
    let mut state = OutputState::new();
    disable_color(&mut state);
    assert!(!use_color(&mut state, true));
}

#[test]
fn enable_plain_output_does_not_panic() {
    let mut state = OutputState::new();
    enable_plain_output(&mut state);
    assert!(is_plain_output(&state));
    assert!(!use_color(&mut state, true));
}

#[test]
fn disabled_color_stays_off_after_a_probe() {
    let mut state = OutputState::new();
    assert!(use_color(&mut state, true));
    disable_color(&mut state);
    assert!(!use_color(&mut state, true));
}

#[test]
fn plain_output_sticks_through_later_calls() {
    let mut state = OutputState::new();
    assert!(!use_color(&mut state, false));
    enable_plain_output(&mut state);
    disable_color(&mut state);
    enable_plain_output(&mut state);
    assert!(is_plain_output(&state));
    assert!(!use_color(&mut state, true));
}

#[test]
fn disabling_color_twice_changes_nothing() {
    let mut state = OutputState::new();
    disable_color(&mut state);
    disable_color(&mut state);
    assert!(!use_color(&mut state, true));
    assert!(!is_plain_output(&state));
}
