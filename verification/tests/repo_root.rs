use repo_cli::config::{repo_root_index, Markers};

fn m(strong: bool, weak: bool) -> Markers {
    Markers { strong, weak }
}

#[test]
fn outermost_strong_marker_wins_over_nested_ones() {
    // cwd, parent, grandparent, root
    let ms = vec![m(true, true), m(false, false), m(true, false), m(false, false)];
    assert_eq!(repo_root_index(&ms), Some(2));
}

#[test]
fn innermost_weak_marker_is_the_fallback() {
    let ms = vec![m(false, false), m(false, true), m(false, true)];
    assert_eq!(repo_root_index(&ms), Some(1));
}

#[test]
fn without_markers_the_working_directory_is_kept() {
    assert_eq!(repo_root_index(&vec![m(false, false), m(false, false)]), None);
    assert_eq!(repo_root_index(&vec![]), None);
}
