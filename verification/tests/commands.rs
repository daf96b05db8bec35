use repo_cli::cli::{
    DeployArgs, DocsArgs, DocsCommand, DocsDetails, DocsListArgs, DocsSort, HealthArgs,
    HealthCommand, PluginsArgs, PluginsCommand, PromptArgs, PromptCommand, PromptListArgs,
    SkillsArgs, SkillsCommand, UlidArgs,
};
use repo_cli::commands::{
    docs_args, health_args, list_args, plugins_command, prompt_args, prompt_list_args,
    skills_args, ulid_args, with_json,
};
use repo_cli::config::{display_name, RepoConfig};
use repo_cli::docs::select::{parse_list_options, DetailsMode, SortMode};
use repo_cli::ulid::parse_count;

fn flags() -> DocsListArgs {
    DocsListArgs {
        query: None,
        status: None,
        sort: None,
        limit: None,
        details: None,
        interactive: false,
        json: false,
    }
}

#[test]
fn list_args_pass_every_flag() {
    let f = DocsListArgs {
        query: Some("release".into()),
        status: Some("Draft".into()),
        sort: Some(DocsSort::Progress),
        limit: Some(12),
        details: Some(DocsDetails::Off),
        interactive: false,
        json: false,
    };
    let args = list_args("plans", f, true);
    assert_eq!(
        args,
        vec![
            "plans", "release", "--status", "Draft", "--sort", "progress", "--limit", "12",
            "--details", "none", "--json"
        ]
    );
    let rest: Vec<&str> = args[1..].iter().map(String::as_str).collect();
    let options = parse_list_options(&rest).unwrap();
    assert_eq!(options.query.as_deref(), Some("release"));
    assert_eq!(options.status_filter.as_deref(), Some("draft"));
    assert_eq!(options.sort, SortMode::Progress);
    assert_eq!(options.limit, Some(12));
    assert_eq!(options.details, DetailsMode::Off);
    assert!(options.json_output);
}

#[test]
fn docs_args_for_overview_and_kinds() {
    assert!(docs_args(DocsArgs { command: None }, false).is_empty());
    assert_eq!(docs_args(DocsArgs { command: None }, true), vec!["--json"]);
    let refs = docs_args(DocsArgs { command: Some(DocsCommand::References(flags())) }, false);
    assert_eq!(refs, vec!["references"]);
    let adrs = docs_args(DocsArgs { command: Some(DocsCommand::Adrs(flags())) }, true);
    assert_eq!(adrs, vec!["adrs", "--json"]);
}

#[test]
fn health_args_cover_subcommands_and_flags() {
    let check = HealthArgs { command: None, verbose: true, check_updates: true };
    assert_eq!(health_args(&check, true), vec!["--verbose", "--check-updates", "--json"]);
    let init = HealthArgs { command: Some(HealthCommand::Init), verbose: true, check_updates: false };
    assert_eq!(health_args(&init, true), vec!["init"]);
}

#[test]
fn prompt_args_cover_subcommands() {
    let list = PromptArgs { tag: None, command: Some(PromptCommand::List(PromptListArgs { tag: Some("review".into()) })) };
    assert_eq!(prompt_args(list, true), vec!["list", "--tag", "review", "--json"]);
    let show = PromptArgs { tag: None, command: Some(PromptCommand::Show(vec!["format-plan".into()])) };
    assert_eq!(prompt_args(show, false), vec!["format-plan"]);
    let init = PromptArgs { tag: None, command: Some(PromptCommand::Init) };
    assert_eq!(prompt_args(init, true), vec!["init", "--json"]);
    let bare = PromptArgs { tag: None, command: None };
    assert!(prompt_args(bare, false).is_empty());
    let tagged = PromptArgs { tag: Some("plan".into()), command: None };
    assert_eq!(prompt_args(tagged, false), vec!["list", "--tag", "plan"]);
    assert_eq!(prompt_list_args(PromptListArgs { tag: None }, false), vec!["list"]);
}

#[test]
fn skills_args_cover_subcommands() {
    assert_eq!(skills_args(SkillsArgs { command: Some(SkillsCommand::Init) }, true), vec!["init"]);
    assert_eq!(skills_args(SkillsArgs { command: Some(SkillsCommand::Sync) }, true), vec!["sync", "--json"]);
    let deploy = SkillsArgs { command: Some(SkillsCommand::Deploy(DeployArgs { force: true })) };
    assert_eq!(skills_args(deploy, false), vec!["deploy", "--force"]);
    assert_eq!(skills_args(SkillsArgs { command: None }, true), vec!["--json"]);
    assert_eq!(with_json("export", false), vec!["export"]);
}

#[test]
fn ulid_args_round_trip_through_the_count_parser() {
    assert!(ulid_args(&UlidArgs { count: 1 }, false).is_empty());
    let args = ulid_args(&UlidArgs { count: 7 }, true);
    assert_eq!(args, vec!["-n", "7", "--json"]);
    let refs: Vec<&str> = args.iter().map(String::as_str).collect();
    assert_eq!(parse_count(&refs), 7);
}

#[test]
fn plugins_default_to_listing() {
    assert!(matches!(plugins_command(PluginsArgs { command: None }), PluginsCommand::List));
    match plugins_command(PluginsArgs { command: Some(PluginsCommand::Info { name: "docs".into() }) }) {
        PluginsCommand::Info { name } => assert_eq!(name, "docs"),
        _ => panic!("expected info"),
    }
}

#[test]
fn returns_defaults_when_file_missing() {
    let cfg = RepoConfig::default();
    assert!(cfg.repo.name.is_none());
    assert!(cfg.hooks.enabled);
    assert_eq!(cfg.hooks.timeout, 30);
    assert_eq!(cfg.check.fail_on, "error");
}

#[test]
fn display_name_prefers_configuration() {
    let mut cfg = RepoConfig::default();
    assert_eq!(display_name(&cfg, "/home/me/projects/therepo"), "therepo");
    assert_eq!(display_name(&cfg, "/"), "repo");
    cfg.repo.name = Some("my-project".into());
    assert_eq!(display_name(&cfg, "/home/me/projects/therepo"), "my-project");
}
