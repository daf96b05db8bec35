use repo_cli::ulid::{generate, parse_count, run, UlidRun};

fn is_ulid(s: &str) -> bool {
    s.len() == 26
        && s.chars().all(|c| "0123456789ABCDEFGHJKMNPQRSTVWXYZ".contains(c))
        && s.as_bytes()[0] <= b'7'
}

#[test]
fn defaults_to_one_without_flag() {
    assert_eq!(parse_count(&[]), 1);
}

#[test]
fn parses_valid_count() {
    assert_eq!(parse_count(&["-n", "5"]), 5);
}

#[test]
fn returns_default_for_non_numeric_argument() {
    assert_eq!(parse_count(&["-n", "abc"]), 1);
}

#[test]
fn ignores_n_at_end_without_value() {
    assert_eq!(parse_count(&["--json", "-n"]), 1);
}

#[test]
fn help_flag_returns_zero() {
    let root = "/tmp";
    assert_eq!(run(root, &["--help"]).exit_code(), 0);
    assert_eq!(run(root, &["-h"]).exit_code(), 0);
}

#[test]
fn default_invocation_returns_zero() {
    let root = "/tmp";
    assert_eq!(run(root, &[]).exit_code(), 0);
}

#[test]
fn json_flag_returns_zero() {
    let root = "/tmp";
    assert_eq!(run(root, &["--json"]).exit_code(), 0);
}

#[test]
fn json_with_count_returns_zero() {
    let root = "/tmp";
    assert_eq!(run(root, &["--json", "-n", "3"]).exit_code(), 0);
}

#[test]
fn zero_count_is_an_error() {
    assert!(matches!(run("/tmp", &["-n", "0"]), UlidRun::ZeroCount));
    assert_eq!(run("/tmp", &["-n", "0"]).exit_code(), 1);
}

#[test]
fn generated_ulids_are_well_formed() {
    let ids = generate(3);
    assert_eq!(ids.len(), 3);
    assert!(ids.iter().all(|id| is_ulid(id)));
    match run("/tmp", &["-n", "2"]) {
        UlidRun::Output(lines) => {
            assert_eq!(lines.len(), 2);
            assert!(lines.iter().all(|id| is_ulid(id)));
        }
        _ => panic!("expected output"),
    }
    match run("/tmp", &["--json", "-n", "3"]) {
        UlidRun::Output(lines) => {
            assert_eq!(lines.len(), 1);
            let values: Vec<String> = serde_json::from_str(&lines[0]).unwrap();
            assert_eq!(values.len(), 3);
            assert!(values.iter().all(|id| is_ulid(id)));
        }
        _ => panic!("expected output"),
    }
}
