use repo_cli::progress::{clear_line, frame_line, is_enabled_inner, spinner_frame};

#[test]
fn is_enabled_inner_all_conditions_met() {
    assert!(is_enabled_inner(false, true, Some("xterm")));
}

#[test]
fn is_enabled_inner_plain_output_disables() {
    assert!(!is_enabled_inner(true, true, Some("xterm")));
}

#[test]
fn is_enabled_inner_not_terminal_disables() {
    assert!(!is_enabled_inner(false, false, Some("xterm")));
}

#[test]
fn is_enabled_inner_dumb_term_disables() {
    assert!(!is_enabled_inner(false, true, Some("dumb")));
}

#[test]
fn is_enabled_inner_no_term_var_enables() {
    assert!(is_enabled_inner(false, true, None));
}

#[test]
fn is_enabled_inner_all_disabled() {
    assert!(!is_enabled_inner(true, false, Some("dumb")));
}

#[test]
fn is_enabled_inner_plain_and_dumb() {
    assert!(!is_enabled_inner(true, true, Some("dumb")));
}

#[test]
fn is_enabled_inner_not_terminal_and_dumb() {
    assert!(!is_enabled_inner(false, false, Some("dumb")));
}

#[test]
fn spinner_frames_cycle_through_four() {
    let frames: Vec<&str> = (0..9).map(spinner_frame).collect();
    assert_eq!(frames, vec!["|", "/", "-", "\\", "|", "/", "-", "\\", "|"]);
    assert_eq!(frame_line(5, "checking"), "\r/ checking");
}

#[test]
fn finish_clears_line_width_matches_message() {
    for len in [0, 1, 10, 100] {
        let msg = "x".repeat(len);
        let line = clear_line(&msg);
        assert_eq!(line, format!("\r{}\r", " ".repeat(len + 4)));
    }
    // Width follows bytes, not characters.
    assert_eq!(clear_line("\u{e9}"), format!("\r{}\r", " ".repeat(6)));
}
