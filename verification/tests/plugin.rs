use repo_cli::manifest::{default_severity, Manifest, PluginMeta};
use repo_cli::plugin::{
    builtin_plugins, capabilities_from, capability_label, capability_labels, capability_of,
    executable_plugin, external_command_found, find_plugin, from_manifest, plugin_counts,
    sort_plugins, Capability,
};

#[test]
fn equality_holds_for_same_variant() {
    assert_eq!(Capability::Command, Capability::Command);
    assert_eq!(Capability::Validation, Capability::Validation);
    assert_eq!(Capability::Hook, Capability::Hook);
}

#[test]
fn inequality_holds_for_different_variants() {
    assert_ne!(Capability::Command, Capability::Validation);
    assert_ne!(Capability::Command, Capability::Hook);
    assert_ne!(Capability::Validation, Capability::Hook);
}

fn manifest(name: &str, provides: &[&str]) -> Manifest {
    Manifest {
        plugin: PluginMeta {
            name: name.into(),
            version: "1.0.0".into(),
            description: "A test plugin".into(),
            command_path: None,
            provides: provides.iter().map(|s| s.to_string()).collect(),
        },
        command: None,
        validation: None,
        hooks: None,
    }
}

#[test]
fn returns_sorted_builtin_plugins_when_no_external_plugins_dir() {
    let plugins = sort_plugins(builtin_plugins("0.1.0"));
    let names: Vec<&str> = plugins.iter().map(|p| p.name.as_str()).collect();
    assert_eq!(names, vec!["docs", "health", "prompt", "skills", "ulid"]);
    assert!(plugins.iter().all(|p| p.builtin && p.path.is_none()));
}

#[test]
fn external_plugin_loaded_from_plugin_toml() {
    let mut plugins = builtin_plugins("0.1.0");
    plugins.push(from_manifest(manifest("my-tool", &["command", "bogus"]), ".repo/plugins/my-tool".into()));
    let plugins = sort_plugins(plugins);
    let ext: Vec<_> = plugins.iter().filter(|p| !p.builtin).collect();
    assert_eq!(ext.len(), 1);
    assert_eq!(ext[0].name, "my-tool");
    assert_eq!(ext[0].version, "1.0.0");
    assert_eq!(ext[0].capabilities, vec![Capability::Command]);
    assert_eq!(plugin_counts(&plugins), (5, 1));
    assert!(external_command_found(&plugins, "my-tool"));
    assert!(!external_command_found(&plugins, "docs"));
    assert_eq!(find_plugin(&plugins, "docs"), Some(0));
    assert_eq!(find_plugin(&plugins, "no-such-plugin"), None);
}

#[test]
fn executable_plugin_without_manifest() {
    let p = executable_plugin("demo".into(), ".repo/plugins/demo/demo".into());
    assert_eq!(p.description, "Plugin at .repo/plugins/demo");
    assert_eq!(p.version, "");
    assert_eq!(p.capabilities, vec![Capability::Command]);
}

#[test]
fn capability_names_round_trip() {
    for c in [Capability::Command, Capability::Validation, Capability::Hook] {
        assert_eq!(capability_of(capability_label(c)), Some(c));
    }
    assert_eq!(capability_of("other"), None);
    assert_eq!(
        capabilities_from(&vec!["hook".to_string(), "validation".to_string()]),
        vec![Capability::Hook, Capability::Validation]
    );
    assert_eq!(capability_labels(&vec![Capability::Command, Capability::Hook]), vec!["command", "hook"]);
    assert_eq!(default_severity(), "error");
}
