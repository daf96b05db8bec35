use repo_cli::skills::{
    build_install_cmd, check_item, installed_entry, needs_fix, sync_skills, InstallOutcome,
    SkillEntry,
};
use repo_cli::skills_report::{
    check_block, check_exit_code, check_report, deploy_heading, deploy_ok_line, deploy_skip_line,
    deploy_skips, deploy_summary, widest, export_report, export_text, fix_after_probe,
    fix_needs_probe, fix_summary, fix_unsourced, init_group_lines, install_block,
    install_heading, install_summary, manifest_header, manifest_text, names_width, sync_report,
    sync_summary,
};

fn entry(name: &str, source: &str, description: Option<&str>) -> SkillEntry {
    SkillEntry {
        name: name.into(),
        source: source.into(),
        skill: None,
        agents: Vec::new(),
        scope: "project".into(),
        description: description.map(|d| d.to_string()),
    }
}

#[test]
fn name_width_is_widest_name_at_least_four() {
    assert_eq!(names_width(&vec![]), 4);
    assert_eq!(names_width(&vec!["ab".into(), "abcdef".into()]), 6);
}

#[test]
fn check_report_lists_each_skill_and_the_counts() {
    let es = vec![
        entry("alpha", "org/alpha", Some("Alpha")),
        entry("beta", "", None),
        entry("gamma", "org/g", None),
    ];
    let lines = check_report(&es, &vec![true, false, false], false);
    assert_eq!(
        lines,
        vec![
            "Agent skills".to_string(),
            "  validating against .repo/skills.toml".to_string(),
            String::new(),
            "  ok alpha  Alpha".to_string(),
            "  !! beta   not installed".to_string(),
            "           fill in 'source' in .repo/skills.toml to enable install".to_string(),
            "  !! gamma  not installed".to_string(),
            "           install: npx skills add org/g -y".to_string(),
            String::new(),
            "  1 installed, 2 missing".to_string(),
            String::new(),
            "  Run repo skills install to install missing skills.".to_string(),
        ]
    );
    assert_eq!(check_exit_code(&vec![true, false, false]), 1);
    assert_eq!(check_exit_code(&vec![true, true]), 0);
}

#[test]
fn check_report_when_all_installed_has_no_hint() {
    let es = vec![entry("alpha", "org/alpha", None)];
    let lines = check_report(&es, &vec![true], false);
    assert_eq!(lines.last().unwrap(), "  1 installed, 0 missing");
}

#[test]
fn check_block_colours_when_asked() {
    let e = entry("beta", "org/b", None);
    let lines = check_block(&e, false, 4, true);
    assert_eq!(lines[0], "  \x1b[31m!!\x1b[0m beta  \x1b[31mnot installed\x1b[0m");
}

#[test]
fn install_blocks_by_outcome() {
    let e = entry("alpha", "org/a", None);
    let show = |o: InstallOutcome| -> Vec<(bool, String)> {
        install_block(&e, &o, 6, false).into_iter().map(|l| (l.to_stderr, l.text)).collect()
    };
    assert_eq!(show(InstallOutcome::Installed), vec![(false, "  ok alpha".into()), (false, String::new())]);
    assert_eq!(
        show(InstallOutcome::NoSource)[0].1,
        "  !! alpha   no source \u{2014} set 'source' in .repo/skills.toml or run: repo skills fix"
    );
    let nf = show(InstallOutcome::NotFound { source: "org/a".into() });
    assert_eq!(nf[0].1, "  !! alpha   skill not found in org/a");
    assert_eq!(
        nf[1].1,
        format!(
            "    {}  fix: correct the 'source'/'skill' fields in .repo/skills.toml, or run: repo skills fix",
            " ".repeat(6)
        )
    );
    let failed = show(InstallOutcome::Failed { exit_status: "exit status: 1".into() });
    assert_eq!(failed[0], (true, "  !! alpha   install failed (exit status: 1)".to_string()));
    assert_eq!(failed[1], (false, String::new()));
    let err = show(InstallOutcome::Error { message: "no sh".into() });
    assert_eq!(err[0], (true, "  !! alpha   could not run install: no sh".to_string()));
}

#[test]
fn install_heading_and_summary() {
    assert_eq!(install_heading(2, false), vec!["Installing 2 missing skill(s)".to_string(), String::new()]);
    assert!(install_summary(0, false).is_empty());
    assert_eq!(
        install_summary(1, false),
        vec![
            "  !! 1 entry/entries cannot be installed as configured.".to_string(),
            "  Run repo skills fix to remove them from .repo/skills.toml.".to_string(),
        ]
    );
}

#[test]
fn fix_removes_unsourced_and_not_found_and_keeps_the_rest() {
    let bare = entry("bare", "", None);
    assert!(!fix_needs_probe(&bare));
    assert!(fix_needs_probe(&entry("x", "org/x", None)));
    let step = fix_unsourced(&bare, 4, false);
    assert!(!step.keep);
    assert_eq!(step.reason.as_deref(), Some("no source"));
    assert_eq!(step.lines, vec!["  rm bare  no source field \u{2014} cannot install".to_string()]);

    let nf = fix_after_probe(&InstallOutcome::NotFound { source: "org/x".into() }, 4, false);
    assert!(!nf.keep);
    assert_eq!(nf.reason.as_deref(), Some("skill not found at source"));
    assert_eq!(nf.lines[0], "skill not found in org/x");

    let ok = fix_after_probe(&InstallOutcome::Installed, 4, false);
    assert!(ok.keep);
    assert_eq!(ok.reason, None);
    assert_eq!(ok.lines, vec!["ok (now installed)".to_string()]);

    let failed = fix_after_probe(&InstallOutcome::Failed { exit_status: "exit status: 2".into() }, 4, false);
    assert!(failed.keep);
    assert_eq!(failed.lines[0], "install failed (exit status: 2) \u{2014} kept");

    let err = fix_after_probe(&InstallOutcome::Error { message: "boom".into() }, 4, false);
    assert!(err.keep);
    assert_eq!(err.lines, vec!["could not run install: boom \u{2014} kept".to_string()]);
}

#[test]
fn fix_summary_reports_removals() {
    assert_eq!(
        fix_summary(&vec![], false),
        vec![String::new(), "  ok nothing to fix \u{2014} all entries look valid".to_string()]
    );
    let lines = fix_summary(&vec![("bare".into(), "no source".into())], false);
    assert_eq!(
        lines,
        vec![
            String::new(),
            "  ok removed 1 entry/entries from .repo/skills.toml:".to_string(),
            "    bare \u{2014} no source".to_string(),
            String::new(),
            "  Add corrected entries back manually, or re-run repo skills install after editing."
                .to_string(),
        ]
    );
}

#[test]
fn sync_report_tags_kept_added_and_gone() {
    let existing = vec![entry("alpha", "org/a", Some("A")), entry("old-one", "org/o", None)];
    let installed = vec![
        installed_entry("beta".into(), Some("B".into())),
        installed_entry("alpha".into(), Some("disk".into())),
    ];
    let result = sync_skills(&installed, &existing);
    let lines = sync_report(&result, &existing, false);
    assert_eq!(
        lines,
        vec![
            "Syncing skills".to_string(),
            String::new(),
            "  kept alpha    A".to_string(),
            "  added beta     B".to_string(),
            "  gone old-one  no longer installed \u{2014} removed from config".to_string(),
        ]
    );
    let summary = sync_summary(&result, false);
    assert_eq!(
        summary,
        vec![
            String::new(),
            "  1 kept, 1 added, 1 removed".to_string(),
            "  ok wrote .repo/skills.toml".to_string(),
            String::new(),
            "  !! 1 skill(s) have empty source \u{2014} fill in so teammates can install:".to_string(),
            "    beta".to_string(),
        ]
    );
}

#[test]
fn manifest_text_has_header_comments_and_body() {
    let t = manifest_text(manifest_header(false), "[[skills]]\nname = \"a\"\n");
    assert_eq!(
        t,
        "# .repo/skills.toml \u{2014} Created by repo skills sync\n\
         # Run `repo skills` to check, `repo skills install` to install missing.\n\
         # Fill in empty `source` fields so teammates can install too.\n\n\
         [[skills]]\nname = \"a\"\n\n"
    );
    assert!(manifest_header(true).contains("Synced with installed skills"));
}

#[test]
fn deploy_heading_names_detected_agents() {
    let h = deploy_heading(&vec!["Codex".into(), "Cursor".into()], false);
    assert_eq!(h[2], "  agents :  Codex, Cursor");
    assert_eq!(h[3], "  install:  ~/.agents/skills/");
    let none = deploy_heading(&vec![], false);
    assert_eq!(
        none[2],
        "  !! no agent config dirs found \u{2014} writing to ~/.agents/skills/ only"
    );
}

#[test]
fn deploy_lines_and_summary() {
    assert!(deploy_skips(true, false));
    assert!(!deploy_skips(true, true));
    assert!(!deploy_skips(false, false));
    assert_eq!(widest(&vec!["ab".into(), "abcd".into()]), 4);
    assert_eq!(widest(&vec![]), 0);
    assert_eq!(deploy_skip_line("ab", 4, false), "  -- ab    already installed");
    assert_eq!(
        deploy_ok_line("ab", 4, &vec!["Codex".into()], 2, 0, 1, false),
        "  ok ab    Codex  [2ref 1example]"
    );
    assert_eq!(deploy_ok_line("ab", 2, &vec![], 0, 0, 0, false), "  ok ab  ");
    assert_eq!(
        deploy_summary(3, 1, 2, false),
        vec![
            String::new(),
            "  3 installed, 1, 2 failed".to_string(),
            "  Run `repo skills deploy --force` to overwrite.".to_string(),
        ]
    );
    assert_eq!(deploy_summary(3, 0, 0, false), vec![String::new(), "  3 installed, 0".to_string()]);
}

#[test]
fn init_and_export_lines() {
    assert_eq!(
        init_group_lines("skills", 2, 1, false),
        vec![
            "  ok wrote 2 built-in skills".to_string(),
            "  -- 1 skills already existed (not overwritten)".to_string(),
        ]
    );
    assert!(init_group_lines("schemas", 0, 0, false).is_empty());
    let es = vec![entry("a", "", Some("Alpha")), entry("b", "", None)];
    assert_eq!(
        export_report(&es, false),
        vec![
            "  ok wrote .repo/skills.toml".to_string(),
            String::new(),
            "  ok a  Alpha".to_string(),
            "  ok b  ".to_string(),
            String::new(),
            "  2 skill(s) exported".to_string(),
        ]
    );
    assert!(export_text("x").starts_with("# .repo/skills.toml \u{2014} Exported from installed skills\n"));
    assert!(export_text("x").ends_with("\n\nx\n"));
}

#[test]
fn install_flags_exactly_what_fix_removes() {
    let outcomes = vec![
        InstallOutcome::Installed,
        InstallOutcome::NoSource,
        InstallOutcome::NotFound { source: "org/x".into() },
        InstallOutcome::Failed { exit_status: "exit status: 1".into() },
        InstallOutcome::Error { message: "boom".into() },
    ];
    for o in &outcomes {
        assert_eq!(needs_fix(o), !fix_after_probe(o, 4, false).keep);
    }
}

#[test]
fn install_command_exists_iff_source_does() {
    let bare = entry("bare", "", None);
    let sourced = entry("x", "org/x", None);
    assert!(build_install_cmd(&bare).is_none());
    assert!(build_install_cmd(&sourced).is_some());
    assert_eq!(
        check_item(&bare, false).message.as_deref(),
        Some("fill in 'source' in .repo/skills.toml to enable install")
    );
    assert_eq!(check_item(&sourced, false).message.as_deref(), Some("not installed"));
    assert_eq!(fix_needs_probe(&bare), build_install_cmd(&bare).is_some());
    assert_eq!(fix_needs_probe(&sourced), build_install_cmd(&sourced).is_some());
}
