use repo_cli::plugin::{builtin_plugins, executable_plugin, Capability, PluginInfo};
use repo_cli::plugin_table::{config_line, plugin_info_lines, plugin_list_lines, plugins_line};

#[test]
fn plugin_list_of_nothing_says_so() {
    assert_eq!(plugin_list_lines(&vec![], false), vec!["No plugins found.".to_string()]);
}

#[test]
fn plugin_list_pads_columns_and_counts() {
    let plugins = vec![PluginInfo {
        name: "docs".into(),
        version: "0.1.0".into(),
        description: "Browse plans".into(),
        capabilities: vec![Capability::Command, Capability::Hook],
        builtin: true,
        path: None,
    }];
    let lines = plugin_list_lines(&plugins, false);
    assert_eq!(
        lines[0],
        "  NAME  VERSION  TYPE        CAPABILITIES          DESCRIPTION"
    );
    let rule = "\u{2500}";
    assert_eq!(
        lines[1],
        format!(
            "  {}  {}  {}  {}  {}",
            rule.repeat(4),
            rule.repeat(7),
            rule.repeat(10),
            rule.repeat(20),
            rule.repeat(30)
        )
    );
    assert_eq!(
        lines[2],
        "  docs  0.1.0    built-in    command, hook         Browse plans"
    );
    assert_eq!(lines[3], "");
    assert_eq!(lines[4], "  1 plugin(s)");
    assert_eq!(lines.len(), 5);
}

#[test]
fn plugin_info_lists_fields_and_path() {
    let p = executable_plugin("lint".into(), "/usr/bin/repo-lint".into());
    let lines = plugin_info_lines(&p, false);
    assert_eq!(lines[0], "lint");
    assert_eq!(lines[2], "  type: external");
    assert_eq!(lines[4], "  capabilities: command");
    assert_eq!(lines.last().unwrap(), "  path: /usr/bin/repo-lint");
    let b = &builtin_plugins("1.2.3")[0];
    let lines = plugin_info_lines(b, false);
    assert_eq!(lines[1], "  version: 1.2.3");
    assert_eq!(lines.len(), 5);
}

#[test]
fn overview_lines_count_plugins_and_report_config() {
    let mut plugins = builtin_plugins("1.0.0");
    let n = plugins.len();
    plugins.push(executable_plugin("lint".into(), "/x/repo-lint".into()));
    assert_eq!(
        plugins_line(&plugins, false),
        format!("  plugins {n} built-in, 1 external")
    );
    assert_eq!(config_line(true, false), "  config  .repo/config.toml");
    assert_eq!(config_line(false, false), "  config  no .repo/config.toml found");
    assert_eq!(
        config_line(false, true),
        "  \x1b[2mconfig \x1b[0m \x1b[2mno .repo/config.toml found\x1b[0m"
    );
}
