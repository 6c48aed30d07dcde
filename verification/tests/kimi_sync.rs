use dev_skills::kimi::{
    add_candidate, describe_source_kind, forced_exclusion_reason, project_hash, resolve_collisions,
    skill_enabled, sync_summary, KimiSyncDiagnostic, KimiSyncDiagnosticSeverity, KimiSyncScope,
    KimiSyncSourceKind, SkillCandidate, SkillConfigRule,
};

fn candidate(name: &str, kind: KimiSyncSourceKind, plugin: Option<&str>, path: &str, priority: u8) -> SkillCandidate {
    SkillCandidate {
        name: name.to_string(),
        source_kind: kind,
        plugin: plugin.map(str::to_string),
        source_path: path.to_string(),
        priority,
    }
}

#[test]
fn scope_names() {
    assert_eq!(KimiSyncScope::Focused.as_str(), "focused");
    assert_eq!(KimiSyncScope::AllEnabled.as_str(), "all-enabled");
    assert_eq!(KimiSyncScope::GlobalOnly.as_str(), "global-only");
    assert_eq!(describe_source_kind(KimiSyncSourceKind::ProjectSkill), "project");
}

#[test]
fn path_rule_after_name_rule_disables_skill_by_last_match() {
    let c = candidate("clerk-setup", KimiSyncSourceKind::PluginSkill, Some("clerk-skills"), "/p/clerk-setup", 10);
    let rules = vec![
        SkillConfigRule { name: Some("clerk-skills:clerk-setup".to_string()), path: None, enabled: true },
        SkillConfigRule { name: None, path: Some("/p/clerk-setup/SKILL.md".to_string()), enabled: false },
    ];
    assert!(!skill_enabled(&rules, &vec![false, true], &c));
    assert!(skill_enabled(&rules, &vec![false, false], &c));
    assert!(skill_enabled(&vec![], &vec![], &c));
}

#[test]
fn plain_name_rule_disables_candidate_and_records_exclusion() {
    let rules = vec![SkillConfigRule { name: Some("disabled-global".to_string()), path: None, enabled: false }];
    let mut candidates = Vec::new();
    let mut excluded = Vec::new();
    add_candidate(
        candidate("disabled-global", KimiSyncSourceKind::GlobalSkill, None, "/a/disabled-global", 20),
        &rules,
        &vec![false],
        &mut candidates,
        &mut excluded,
    );
    add_candidate(
        candidate("enabled-global", KimiSyncSourceKind::GlobalSkill, None, "/a/enabled-global", 20),
        &rules,
        &vec![false],
        &mut candidates,
        &mut excluded,
    );
    assert_eq!(candidates.len(), 1);
    assert_eq!(candidates[0].name, "enabled-global");
    assert_eq!(excluded.len(), 1);
    assert_eq!(excluded[0].name, "disabled-global");
    assert_eq!(excluded[0].reason, "disabled by Codex skills.config");
}

#[test]
fn forced_exclusion_only_for_vercel_shadcn() {
    assert_eq!(
        forced_exclusion_reason("vercel", "shadcn").as_deref(),
        Some("excluded because the global official shadcn skill is preferred")
    );
    assert_eq!(forced_exclusion_reason("expo", "shadcn"), None);
}

#[test]
fn collisions_keep_highest_priority_first_on_ties() {
    let mut excluded = Vec::new();
    let kept = resolve_collisions(
        vec![
            candidate("shadcn", KimiSyncSourceKind::PluginSkill, Some("vercel"), "/plugin/shadcn", 10),
            candidate("shadcn", KimiSyncSourceKind::GlobalSkill, None, "/global/shadcn", 20),
            candidate("deploy", KimiSyncSourceKind::GlobalSkill, None, "/global/deploy", 20),
            candidate("deploy", KimiSyncSourceKind::ProjectSkill, None, "/project/deploy", 20),
        ],
        &mut excluded,
    );
    assert_eq!(kept.len(), 2);
    assert_eq!(kept[0].source_path, "/global/shadcn");
    assert_eq!(kept[1].source_path, "/global/deploy");
    assert_eq!(excluded.len(), 2);
    assert_eq!(excluded[0].source_path, "/plugin/shadcn");
    assert_eq!(excluded[0].reason, "shadowed by higher-priority global skill");
    assert_eq!(excluded[1].source_path, "/project/deploy");
    assert_eq!(excluded[1].reason, "shadowed by higher-priority global skill");
}

#[test]
fn summary_counts_errors_and_warnings() {
    let diag = |severity| KimiSyncDiagnostic {
        severity,
        code: "c".to_string(),
        message: "m".to_string(),
        path: None,
    };
    let diagnostics = vec![
        diag(KimiSyncDiagnosticSeverity::Warning),
        diag(KimiSyncDiagnosticSeverity::Error),
        diag(KimiSyncDiagnosticSeverity::Warning),
    ];
    let summary = sync_summary(4, 1, &diagnostics);
    assert_eq!(summary.included, 4);
    assert_eq!(summary.excluded, 1);
    assert_eq!(summary.diagnostics, 3);
    assert_eq!(summary.errors, 1);
    assert_eq!(summary.warnings, 2);
}

#[test]
fn project_hash_is_sixteen_hex_digits_or_global() {
    assert_eq!(project_hash(None), "global");
    let h = project_hash(Some("/work/repo"));
    assert_eq!(h.len(), 16);
    assert!(h.chars().all(|c| c.is_ascii_hexdigit() && !c.is_ascii_uppercase()));
    assert_eq!(project_hash(Some("abc")), "ba7816bf8f01cfea");
}

fn found(c: SkillCandidate, matches: Vec<bool>) -> dev_skills::kimi::FoundSkill {
    dev_skills::kimi::FoundSkill { candidate: c, path_matches: matches }
}

#[test]
fn codex_config_reads_rules_and_plugins() {
    let text = r#"
[[skills.config]]
name = "clerk-skills:clerk-setup"
enabled = true

[[skills.config]]
path = "~/skills/clerk-setup/SKILL.md"
enabled = false

[[skills.config]]
name = "plain"

[plugins."clerk-skills@clerk"]
enabled = true

[plugins."vercel@vercel"]
enabled = false

[plugins.nosource]
enabled = true
"#;
    let config = dev_skills::kimi::read_codex_config(text, Some("/home/u")).expect("toml");
    assert_eq!(config.rules.len(), 3);
    assert_eq!(config.rules[0].name.as_deref(), Some("clerk-skills:clerk-setup"));
    assert!(config.rules[0].enabled);
    assert_eq!(config.rules[1].path.as_deref(), Some("/home/u/skills/clerk-setup/SKILL.md"));
    assert!(!config.rules[1].enabled);
    assert!(config.rules[2].enabled);
    assert_eq!(
        config.plugins,
        vec![
            ("clerk-skills".to_string(), "clerk".to_string(), true),
            ("vercel".to_string(), "vercel".to_string(), false),
        ]
    );
}

#[test]
fn codex_config_rejects_invalid_toml_and_keeps_tilde_without_home() {
    assert!(dev_skills::kimi::read_codex_config("[[skills.config", None).is_none());
    let config = dev_skills::kimi::read_codex_config("[[skills.config]]\npath = \"~/a\"\n", None).expect("toml");
    assert_eq!(config.rules[0].path.as_deref(), Some("~/a"));
    let empty = dev_skills::kimi::read_codex_config("", None).expect("empty config");
    assert!(empty.rules.is_empty() && empty.plugins.is_empty());
}

fn probe(root: &[&str], path: &[&str], symlink: bool, canonical: Option<(&[&str], &[&str])>) -> dev_skills::kimi::SyncPathProbe {
    let v = |xs: &[&str]| xs.iter().map(|s| s.to_string()).collect::<Vec<_>>();
    dev_skills::kimi::SyncPathProbe {
        sync_root: v(root),
        sync_root_text: root.join("/"),
        path: v(path),
        path_text: path.join("/"),
        root_is_symlink: symlink,
        canonical: canonical.map(|(r, a)| (v(r), r.join("/"), v(a), a.join("/"))),
    }
}

#[test]
fn sync_path_safety_refusals() {
    let ok = probe(&["k", "sync"], &["k", "sync", "x"], false, Some((&["r", "sync"], &["r", "sync", "x"])));
    assert!(dev_skills::kimi::sync_path_safe(&ok).is_ok());
    let up = probe(&["k", "sync"], &["k", "sync", "..", "x"], false, None);
    assert_eq!(dev_skills::kimi::sync_path_safe(&up).unwrap_err(), "refusing unsafe generated mirror path: k/sync/../x");
    let outside = probe(&["k", "sync"], &["k", "other"], false, None);
    assert_eq!(dev_skills::kimi::sync_path_safe(&outside).unwrap_err(), "refusing to write outside Kimi sync root: k/other is not under k/sync");
    let linked = probe(&["k", "sync"], &["k", "sync", "x"], true, None);
    assert_eq!(dev_skills::kimi::sync_path_safe(&linked).unwrap_err(), "refusing symlinked Kimi sync root: k/sync");
    let unresolved = probe(&["k", "sync"], &["k", "sync", "x"], false, None);
    assert_eq!(dev_skills::kimi::sync_path_safe(&unresolved).unwrap_err(), "failed to canonicalize k/sync");
    let escaped = probe(&["k", "sync"], &["k", "sync", "x"], false, Some((&["r", "sync"], &["elsewhere"])));
    assert_eq!(
        dev_skills::kimi::sync_path_safe(&escaped).unwrap_err(),
        "refusing generated mirror path outside canonical Kimi sync root: elsewhere is not under r/sync"
    );
}

#[test]
fn sync_report_applies_rules_forced_exclusions_and_collisions() {
    let rules = vec![SkillConfigRule { name: None, path: Some("/p/clerk-setup/SKILL.md".to_string()), enabled: false }];
    let skills = vec![
        found(candidate("shadcn", KimiSyncSourceKind::GlobalSkill, None, "/g/shadcn", 30), vec![false]),
        found(candidate("shadcn", KimiSyncSourceKind::PluginSkill, Some("vercel"), "/v/shadcn", 10), vec![false]),
        found(candidate("clerk-setup", KimiSyncSourceKind::PluginSkill, Some("clerk-skills"), "/p/clerk-setup", 10), vec![true]),
        found(candidate("alpha", KimiSyncSourceKind::ProjectSkill, None, "/q/alpha", 20), vec![false]),
        found(candidate("alpha", KimiSyncSourceKind::GlobalSkill, None, "/g/alpha", 30), vec![false]),
    ];
    let report = dev_skills::kimi::kimi_sync_report(&rules, &skills, Vec::new(), KimiSyncScope::Focused, false, "/k", None)
        .expect("dry run");
    assert!(report.dry_run && report.ok);
    assert_eq!(report.skills_root, "/k/codex-sync/effective/global/skills");
    let names: Vec<_> = report.included.iter().map(|s| (s.name.as_str(), s.source_path.as_str())).collect();
    assert_eq!(names, vec![("alpha", "/g/alpha"), ("shadcn", "/g/shadcn")]);
    assert_eq!(report.included[1].mirror_path, "/k/codex-sync/effective/global/skills/shadcn");
    let excluded: Vec<_> = report.excluded.iter().map(|x| (x.name.as_str(), x.source_path.as_str())).collect();
    assert_eq!(excluded, vec![("alpha", "/q/alpha"), ("clerk-setup", "/p/clerk-setup"), ("shadcn", "/v/shadcn")]);
    assert_eq!(report.excluded[1].reason, "disabled by Codex skills.config");
    assert_eq!(report.excluded[2].reason, "excluded because the global official shadcn skill is preferred");
    assert_eq!(report.summary.included, 2);
    assert_eq!(report.summary.excluded, 3);
    assert_eq!(report.launch_command, vec!["kimi", "--skills-dir", "/k/codex-sync/effective/global/skills"]);
}

#[test]
fn sync_report_refuses_apply_with_errors() {
    let diag = KimiSyncDiagnostic {
        severity: KimiSyncDiagnosticSeverity::Error,
        code: "plugin_manifest_invalid".to_string(),
        message: "bad".to_string(),
        path: None,
    };
    let err = dev_skills::kimi::kimi_sync_report(&Vec::new(), &Vec::new(), vec![diag.clone()], KimiSyncScope::Focused, true, "/k", None)
        .unwrap_err();
    assert_eq!(err, "refusing to apply Kimi sync with error diagnostics");
    let dry = dev_skills::kimi::kimi_sync_report(&Vec::new(), &Vec::new(), vec![diag], KimiSyncScope::Focused, false, "/k", None)
        .expect("dry run");
    assert!(!dry.ok && dry.summary.errors == 1);
}
