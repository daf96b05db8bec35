use std::io::Write;

use repo_cli::skills::{
    build_install_cmd, check_item, description_cut_ok, fix_reason, install_item, installed_entry,
    needs_fix, outcome_of_run, parse_skill_description, parse_skill_name, plan_skills_run,
    part_counts, skill_name_from_bundle, skill_name_from_zip, sort_entries, symlink_target,
    sync_skills, zip_deploy_name, zip_entry_at, zip_entry_count, zip_step, BundlePart,
    InstallOutcome, RunResult, SkillEntry, SkillSource, SkillsAction, ZipStep,
};

fn entry(name: &str, source: &str) -> SkillEntry {
    SkillEntry {
        name: name.into(),
        source: source.into(),
        skill: None,
        agents: Vec::new(),
        scope: "project".into(),
        description: None,
    }
}

// ── build_install_cmd ───────────────────────────────────────────────

#[test]
fn returns_none_when_source_is_empty() {
    let entry = SkillEntry {
        name: "testing-standards".into(),
        source: String::new(),
        skill: None,
        agents: Vec::new(),
        scope: "project".into(),
        description: None,
    };

    assert_eq!(build_install_cmd(&entry), None);
}

#[test]
fn includes_skill_agents_global_and_non_interactive_flags() {
    let entry = SkillEntry {
        name: "testing-standards".into(),
        source: "supercent-io/skills-template".into(),
        skill: Some("testing-standards".into()),
        agents: vec!["cursor".into(), "codex".into()],
        scope: "global".into(),
        description: None,
    };

    assert_eq!(
        build_install_cmd(&entry).as_deref(),
        Some(
            "npx skills add supercent-io/skills-template --skill testing-standards -a cursor -a codex -g -y"
        )
    );
}

#[test]
fn source_only_produces_minimal_command() {
    let entry = SkillEntry {
        name: "my-skill".into(),
        source: "owner/repo".into(),
        skill: None,
        agents: vec![],
        scope: "project".into(),
        description: None,
    };
    assert_eq!(build_install_cmd(&entry).as_deref(), Some("npx skills add owner/repo -y"));
}

// ── SKILL.md headers ────────────────────────────────────────────────

#[test]
fn skills_returns_none_without_frontmatter() {
    assert_eq!(parse_skill_name("# no frontmatter"), None);
}

#[test]
fn returns_name_from_frontmatter() {
    assert_eq!(
        parse_skill_name("---\nname: testing-standards\n---\nbody").as_deref(),
        Some("testing-standards")
    );
}

#[test]
fn description_returns_none_without_frontmatter() {
    assert_eq!(parse_skill_description("# no frontmatter\n"), None);
}

#[test]
fn strips_quotes_and_truncates_long_descriptions() {
    let description = "x".repeat(90);
    let content = format!("---\ndescription: \"{description}\"\n---\nbody\n");
    assert!(description_cut_ok(&content));
    let parsed = parse_skill_description(&content).unwrap();
    assert_eq!(parsed.len(), 80);
    assert!(parsed.ends_with("..."));
}

#[test]
fn returns_none_when_no_description_field() {
    assert_eq!(parse_skill_description("---\nname: my-skill\nauthor: Alice\n---\nbody\n"), None);
}

#[test]
fn returns_unquoted_description() {
    assert_eq!(
        parse_skill_description("---\nname: my-skill\ndescription: A short description\n---\nbody\n")
            .as_deref(),
        Some("A short description")
    );
}

#[test]
fn a_cut_inside_a_character_is_refused() {
    let description = format!("{}é{}", "x".repeat(76), "y".repeat(20));
    let content = format!("---\ndescription: {description}\n---\n");
    assert!(!description_cut_ok(&content));
}

// ── symlink_target ──────────────────────────────────────────────────

#[test]
fn computes_depth_for_single_segment_config_dir() {
    assert_eq!(
        symlink_target(".cursor", "testing-standards"),
        "../../.agents/skills/testing-standards"
    );
}

#[test]
fn computes_depth_for_nested_config_dir() {
    assert_eq!(
        symlink_target(".config/opencode", "testing-standards"),
        "../../../.agents/skills/testing-standards"
    );
}

// ── ZIP-packaged skills ─────────────────────────────────────────────

fn zip_with(files: &[(&str, &str)]) -> Vec<u8> {
    let mut buffer = std::io::Cursor::new(Vec::new());
    {
        let mut writer = zip::ZipWriter::new(&mut buffer);
        let options = zip::write::SimpleFileOptions::default()
            .compression_method(zip::CompressionMethod::Stored);
        for (name, content) in files {
            writer.start_file(*name, options).unwrap();
            writer.write_all(content.as_bytes()).unwrap();
        }
        writer.finish().unwrap();
    }
    buffer.into_inner()
}

#[test]
fn returns_name_from_zip_bundle() {
    let bytes = zip_with(&[
        ("SKILL.md", "---\nname: cli-ux-patterns\ndescription: d\n---\nbody"),
        ("references/guide.md", "guide"),
    ]);
    assert_eq!(skill_name_from_zip(&bytes).as_deref(), Some("cli-ux-patterns"));
}

#[test]
fn returns_name_from_plain_bundle() {
    let plain = SkillSource::Plain(
        "---\nname: cli-ux-patterns\ndescription: Terminal UX patterns\n---\n# Body\n".to_string(),
    );
    let name = skill_name_from_bundle(&plain);
    assert!(name.is_some(), "expected name from plain bundle frontmatter");
    assert_eq!(name.as_deref(), Some("cli-ux-patterns"));
}

#[test]
fn zip_bundle_name_comes_from_its_skill_md() {
    let bytes = zip_with(&[("SKILL.md", "---\nname: zipped\n---\n")]);
    assert_eq!(skill_name_from_bundle(&SkillSource::Zip(bytes)).as_deref(), Some("zipped"));
    let bare = SkillSource::Plain("no frontmatter".to_string());
    assert_eq!(skill_name_from_bundle(&bare), None);
}

#[test]
fn zip_without_skill_md_has_no_name() {
    let bytes = zip_with(&[("README.md", "no skill here")]);
    assert_eq!(skill_name_from_zip(&bytes), None);
    assert_eq!(skill_name_from_zip(b"not a zip archive"), None);
}

// ── Scan and sync ───────────────────────────────────────────────────

#[test]
fn installed_skills_sort_by_name() {
    let scanned = vec![
        installed_entry("beta".into(), Some("Beta skill".into())),
        installed_entry("alpha".into(), Some("Alpha skill".into())),
    ];
    let entries = sort_entries(scanned);
    assert_eq!(entries.len(), 2);
    assert_eq!(entries[0].name, "alpha");
    assert_eq!(entries[0].description.as_deref(), Some("Alpha skill"));
    assert_eq!(entries[0].scope, "project");
    assert_eq!(entries[0].source, "");
    assert_eq!(entries[1].name, "beta");
}

#[test]
fn sync_keeps_declarations_adds_new_and_reports_gone() {
    let installed = vec![
        installed_entry("beta".into(), Some("Beta from disk".into())),
        installed_entry("alpha".into(), None),
    ];
    let mut declared_beta = entry("beta", "owner/beta");
    declared_beta.description = Some(String::new());
    let existing = vec![declared_beta, entry("gone", "owner/gone")];
    let r = sync_skills(&installed, &existing);
    assert_eq!(r.kept, 1);
    assert_eq!(r.added, 1);
    assert_eq!(r.removed, vec!["gone".to_string()]);
    let names: Vec<&str> = r.merged.iter().map(|e| e.name.as_str()).collect();
    assert_eq!(names, vec!["alpha", "beta"]);
    assert_eq!(r.merged[1].source, "owner/beta");
    assert_eq!(r.merged[1].description.as_deref(), Some("Beta from disk"));
    assert_eq!(r.empty_sources, vec!["alpha".to_string()]);
}

// ── check, install, fix ─────────────────────────────────────────────

#[test]
fn check_item_reports_missing_skills() {
    let ok = check_item(&entry("a", "owner/a"), true);
    assert!(ok.installed && ok.install_command.is_none() && ok.message.is_none());
    let missing = check_item(&entry("a", "owner/a"), false);
    assert_eq!(missing.install_command.as_deref(), Some("npx skills add owner/a -y"));
    assert_eq!(missing.message.as_deref(), Some("not installed"));
    let no_source = check_item(&entry("a", ""), false);
    assert!(no_source.install_command.is_none());
    assert_eq!(
        no_source.message.as_deref(),
        Some("fill in 'source' in .repo/skills.toml to enable install")
    );
}

#[test]
fn install_outcomes_are_classified() {
    let e = entry("a", "owner/a");
    assert!(matches!(outcome_of_run(&e, RunResult::Succeeded), InstallOutcome::Installed));
    match outcome_of_run(
        &e,
        RunResult::Exited {
            stdout: String::new(),
            stderr: "No matching skills found".into(),
            status: "exit status: 1".into(),
        },
    ) {
        InstallOutcome::NotFound { source } => assert_eq!(source, "owner/a"),
        _ => panic!("expected not found"),
    }
    match outcome_of_run(
        &e,
        RunResult::Exited { stdout: "boom".into(), stderr: String::new(), status: "exit status: 2".into() },
    ) {
        InstallOutcome::Failed { exit_status } => assert_eq!(exit_status, "exit status: 2"),
        _ => panic!("expected a failure"),
    }
    match outcome_of_run(&e, RunResult::NotRun { message: "no sh".into() }) {
        InstallOutcome::Error { message } => assert_eq!(message, "no sh"),
        _ => panic!("expected an error"),
    }
}

#[test]
fn install_items_and_fix_reasons() {
    let e = entry("a", "owner/a");
    let nf = InstallOutcome::NotFound { source: "owner/a".into() };
    let item = install_item(&e, &nf);
    assert_eq!(item.outcome, "not_found");
    assert_eq!(item.message.as_deref(), Some("skill not found in owner/a"));
    assert!(needs_fix(&nf));
    assert_eq!(fix_reason(&nf), Some("skill not found at source"));
    let failed = InstallOutcome::Failed { exit_status: "exit status: 2".into() };
    assert_eq!(install_item(&e, &failed).message.as_deref(), Some("install failed (exit status: 2)"));
    assert!(!needs_fix(&failed));
    assert_eq!(fix_reason(&failed), None);
    assert_eq!(fix_reason(&InstallOutcome::NoSource), Some("no source"));
}

#[test]
fn skills_dispatch_decisions() {
    assert!(matches!(plan_skills_run(&[]), SkillsAction::Check { json: false }));
    assert!(matches!(plan_skills_run(&["--json"]), SkillsAction::Check { json: true }));
    assert!(matches!(plan_skills_run(&["sync", "--json"]), SkillsAction::Sync { json: true }));
    assert!(matches!(plan_skills_run(&["deploy", "-f"]), SkillsAction::Deploy { force: true }));
    assert!(matches!(plan_skills_run(&["init", "--help"]), SkillsAction::Help));
    match plan_skills_run(&["bogus"]) {
        SkillsAction::Unknown(s) => assert_eq!(s, "bogus"),
        _ => panic!("expected an unknown subcommand"),
    }
}

fn zip_with_dir(dir: &str, files: &[(&str, &str)]) -> Vec<u8> {
    let mut buffer = std::io::Cursor::new(Vec::new());
    {
        let mut writer = zip::ZipWriter::new(&mut buffer);
        let options = zip::write::SimpleFileOptions::default()
            .compression_method(zip::CompressionMethod::Stored);
        writer.add_directory(dir, options).unwrap();
        for (name, content) in files {
            writer.start_file(*name, options).unwrap();
            writer.write_all(content.as_bytes()).unwrap();
        }
        writer.finish().unwrap();
    }
    buffer.into_inner()
}

#[test]
fn zip_deploy_name_reports_each_failure() {
    let bad = zip_deploy_name("demo.skill", b"not a zip archive").unwrap_err();
    assert!(bad.starts_with("invalid ZIP in demo.skill: "), "{bad}");
    let missing = zip_with(&[("README.md", "no skill here")]);
    assert_eq!(
        zip_deploy_name("demo.skill", &missing),
        Err("demo.skill: no SKILL.md found in ZIP".to_string())
    );
    let nameless = zip_with(&[("SKILL.md", "---\ndescription: d\n---\n")]);
    assert_eq!(
        zip_deploy_name("demo.skill", &nameless),
        Err("demo.skill: no name: field in SKILL.md frontmatter".to_string())
    );
    let good = zip_with(&[("SKILL.md", "---\nname: zipped\n---\n")]);
    assert_eq!(zip_deploy_name("demo.skill", &good), Ok("zipped".to_string()));
}

#[test]
fn zip_steps_skip_directories_and_sort_files_by_part() {
    let bytes = zip_with_dir(
        "assets/",
        &[
            ("SKILL.md", "---\nname: demo\n---\n"),
            ("references/guide.md", "guide"),
            ("scripts/run.sh", "#!/bin/sh"),
            ("examples/one.md", "one"),
        ],
    );
    assert_eq!(zip_entry_count(&bytes), Some(5));
    let mut parts = Vec::new();
    let mut paths = Vec::new();
    for i in 0..5 {
        let entry = zip_entry_at(&bytes, i);
        match zip_step("demo", i, &entry) {
            ZipStep::Skip => paths.push("<dir>".to_string()),
            ZipStep::Extract { path, part } => {
                paths.push(path);
                parts.push(part);
            }
            ZipStep::Fail(m) => panic!("unexpected failure: {m}"),
        }
    }
    assert_eq!(paths, vec!["<dir>", "SKILL.md", "references/guide.md", "scripts/run.sh", "examples/one.md"]);
    assert_eq!(
        parts,
        vec![BundlePart::Other, BundlePart::Reference, BundlePart::Script, BundlePart::Example]
    );
    assert_eq!(part_counts(&parts), (1, 1, 1));
    let script = zip_entry_at(&bytes, 3).unwrap();
    assert_eq!(script.content, Ok(b"#!/bin/sh".to_vec()));
}

#[test]
fn zip_step_refuses_paths_that_leave_the_skill() {
    let bytes = zip_with(&[("../evil.txt", "x")]);
    let entry = zip_entry_at(&bytes, 0);
    assert!(matches!(zip_step("demo", 0, &entry), ZipStep::Fail(m) if m == "demo: unsafe path in ZIP"));
}

#[test]
fn zip_step_reports_unreadable_entries_by_index() {
    let entry = Err("boom".to_string());
    assert!(matches!(zip_step("demo", 7, &entry), ZipStep::Fail(m) if m == "demo: zip entry 7: boom"));
    assert_eq!(zip_entry_count(b"junk"), None);
    assert!(zip_entry_at(b"junk", 0).is_err());
}

#[test]
fn part_counts_count_each_part() {
    let parts = vec![
        BundlePart::Script,
        BundlePart::Reference,
        BundlePart::Script,
        BundlePart::Other,
        BundlePart::Example,
    ];
    assert_eq!(part_counts(&parts), (1, 2, 1));
}
