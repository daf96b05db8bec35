use repo_cli::health_config::privilege_from;
use repo_cli::health_config::{
    blank_template, extract_version_number, latest_command, latest_from_output,
    snapshot_current, tool_metadata, EnvironmentConfig, HealthConfig, ToolRequirement,
};

fn requirement(latest_cmd: Option<&str>, latest_args: Option<Vec<&str>>) -> ToolRequirement {
    ToolRequirement {
        required: true,
        min_version: None,
        exact_version: None,
        command: None,
        version_args: None,
        url: None,
        install: None,
        latest_cmd: latest_cmd.map(|s| s.to_string()),
        latest_args: latest_args.map(|v| v.into_iter().map(|s| s.to_string()).collect()),
    }
}

#[test]
fn extract_version_number_returns_clean_semver_fragment() {
    assert_eq!(extract_version_number("rustc 1.94.0 (4a4ef493e 2026-03-02)"), "1.94.0");
    assert_eq!(extract_version_number("v20.11.0"), "20.11.0");
    assert_eq!(extract_version_number("Python 3.12.3"), "3.12.3");
    assert_eq!(extract_version_number("no version present"), "");
}

#[test]
fn extract_version_number_skips_words_without_a_dotted_run() {
    assert_eq!(extract_version_number("build 12a.3 then 4.5,"), "4.5");
    assert_eq!(extract_version_number("  "), "");
}

#[test]
fn snapshot_current_captures_versions_and_cage() {
    let cfg = snapshot_current(
        &[
            ("rustc".to_string(), Some("rustc 1.95.1 (abc 2026-03-01)".to_string())),
            ("node".to_string(), Some("v20.11.0".to_string())),
            ("empty".to_string(), Some("nonsense".to_string())),
            ("missing".to_string(), None),
        ],
        "docker",
        "sudo".to_string(),
        Some("/bin/zsh"),
    );

    assert_eq!(cfg.environment.allowed_runtimes, vec!["docker"]);
    assert_eq!(cfg.environment.privilege, "sudo");
    assert_eq!(cfg.environment.required_shell.as_deref(), Some("zsh"));
    assert!(cfg.get_tool("rustc").is_some());
    assert_eq!(cfg.get_tool("rustc").and_then(|t| t.min_version.as_deref()), Some("1.95.1"));
    assert_eq!(cfg.get_tool("rustc").and_then(|t| t.latest_cmd.as_deref()), Some("rustup"));
    assert_eq!(cfg.get_tool("node").and_then(|t| t.min_version.as_deref()), Some("20.11.0"));
    assert_eq!(cfg.get_tool("empty").and_then(|t| t.min_version.as_deref()), None);
    assert!(cfg.get_tool("missing").is_none());
    let keys: Vec<&str> = cfg.tools.iter().map(|(k, _)| k.as_str()).collect();
    assert_eq!(keys, vec!["empty", "node", "rustc"]);
}

#[test]
fn inserting_a_tool_again_replaces_it() {
    let mut cfg = HealthConfig::default();
    cfg.insert_tool("b".into(), requirement(None, None));
    cfg.insert_tool("a".into(), requirement(None, None));
    cfg.insert_tool("b".into(), requirement(Some("npm"), None));
    let keys: Vec<&str> = cfg.tools.iter().map(|(k, _)| k.as_str()).collect();
    assert_eq!(keys, vec!["a", "b"]);
    assert_eq!(cfg.get_tool("b").and_then(|t| t.latest_cmd.as_deref()), Some("npm"));
}

#[test]
fn tool_metadata_knows_common_tools() {
    let m = tool_metadata("node");
    assert_eq!(m.url.as_deref(), Some("https://nodejs.org/en/download"));
    assert_eq!(m.latest_cmd.as_deref(), Some("npm"));
    assert_eq!(m.latest_args, Some(vec!["view".to_string(), "node".to_string(), "version".to_string()]));
    assert!(tool_metadata("unheard-of").url.is_none());
}

#[test]
fn latest_command_prefers_configuration() {
    let mut cfg = HealthConfig::default();
    cfg.insert_tool("demo".into(), requirement(Some("sh"), Some(vec!["latest.sh"])));
    cfg.insert_tool("bare".into(), requirement(Some("tool"), None));
    assert_eq!(
        latest_command("demo", Some(&cfg)),
        Some(("sh".to_string(), vec!["latest.sh".to_string()]))
    );
    assert_eq!(
        latest_command("bare", Some(&cfg)),
        Some(("tool".to_string(), vec!["--version".to_string()]))
    );
    assert_eq!(
        latest_command("rustc", None),
        Some(("rustup".to_string(), vec!["check".to_string()]))
    );
    assert_eq!(latest_command("git", None), None);
}

#[test]
fn latest_version_is_read_from_output() {
    assert_eq!(latest_from_output("npm", "2.3.4\n", ""), Some("2.3.4".to_string()));
    assert_eq!(latest_from_output("sh", "", "3.4.5\n"), Some("3.4.5".to_string()));
    assert_eq!(latest_from_output("sh", "not-a-version\n", ""), None);
    assert_eq!(
        latest_from_output(
            "rustup",
            "stable-x86_64 - Update available : 1.94.0 (abc 2026-03-02) -> 1.95.0 (def 2026-04-01)\n",
            ""
        ),
        Some("1.95.0".to_string())
    );
    assert_eq!(
        latest_from_output("rustup", "stable-x86_64 - Up to date : 1.94.0 (abc 2026-03-02)\n", ""),
        None
    );
}

#[test]
fn environment_defaults_and_template() {
    let env = EnvironmentConfig::default();
    assert_eq!(env.privilege, "auto");
    assert!(env.allowed_runtimes.is_empty());
    assert!(env.required_shell.is_none());
    let t = blank_template();
    assert!(t.contains("[environment]"));
    assert!(t.contains("privilege = \"auto\""));
}

#[test]
fn privilege_prefers_sudo_then_doas_then_pkexec() {
    assert_eq!(privilege_from(true, true, true), "sudo");
    assert_eq!(privilege_from(false, true, true), "doas");
    assert_eq!(privilege_from(false, false, true), "pkexec");
    assert_eq!(privilege_from(false, false, false), "none");
}
