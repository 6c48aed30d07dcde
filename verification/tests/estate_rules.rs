use dev_skills::estate::{
    agent_description_findings, agent_duplicate_findings, broken_link_finding, classify_marketplace_skills,
    count_by_severity, doctor_text, exit_status, farm_duplicate_findings, first_tree_difference, guide_findings,
    is_generated_noise, listing_summary, mirror_drift_finding, override_findings, parse_frontmatter,
    plugin_disabled, plugin_key_for, reasoning_check_possible, render_markdown, rule_catalog, skill_findings,
    sort_findings, Finding, Severity,
};

fn skill_text(frontmatter: &str, body: &str) -> String {
    format!("---\n{frontmatter}\n---\n\n{body}\n")
}

fn scan_skill(name: &str, text: &str) -> Vec<Finding> {
    assert!(reasoning_check_possible(text));
    skill_findings(name, text, text.len() as u64).0
}

fn has(findings: &[Finding], id: &str) -> bool {
    findings.iter().any(|f| f.id == id)
}

fn strings(items: &[&str]) -> Vec<String> {
    items.iter().map(|s| s.to_string()).collect()
}

#[test]
fn clean_skill_reports_nothing_and_is_listed() {
    let text = skill_text("name: alpha\ndescription: A short, honest description.", "body");
    let (findings, listing) = skill_findings("alpha", &text, text.len() as u64);
    assert!(findings.is_empty());
    assert_eq!(listing, Some((5, 28)));
}

#[test]
fn description_over_cap_fires_even_when_model_invocation_is_disabled() {
    let long = "x".repeat(1200);
    let text = skill_text(&format!("name: hog\ndisable-model-invocation: true\ndescription: {long}"), "body");
    let (findings, listing) = skill_findings("hog", &text, text.len() as u64);
    assert!(has(&findings, "skill.description-over-cap"));
    assert!(!has(&findings, "skill.description-listing-hog"));
    assert_eq!(listing, None);
    let cap = findings.iter().find(|f| f.id == "skill.description-over-cap").unwrap();
    assert_eq!(cap.message, "description is 1200 chars, above the 1024 cap");
    assert_eq!(cap.severity, Severity::High);
}

#[test]
fn description_length_counts_characters_not_bytes() {
    let accented = "é".repeat(900);
    let text = skill_text(&format!("name: accents\ndescription: {accented}"), "body");
    let findings = scan_skill("accents", &text);
    assert!(!has(&findings, "skill.description-over-cap"));
    let hog = findings.iter().find(|f| f.id == "skill.description-listing-hog").unwrap();
    assert_eq!(hog.message, "description is 900 chars (~225 tokens), above the ~280-char target");
}

#[test]
fn negated_reasoning_guidance_is_not_a_risk() {
    let safe = skill_text("name: safe\ndescription: Short description.", "Do not show your reasoning; return only conclusions.");
    let risky = skill_text("name: risky\ndescription: Short description.", "Always show your reasoning in the final answer.");
    assert!(!has(&scan_skill("safe", &safe), "model.reasoning-extraction-risk"));
    let f = scan_skill("risky", &risky);
    assert!(has(&f, "model.reasoning-extraction-risk"));
    assert_eq!(f[0].subject, "risky");
}

#[test]
fn missing_frontmatter_and_name_mismatch_are_reported() {
    let f = scan_skill("bare", "just a body\n");
    assert_eq!(f.len(), 1);
    assert_eq!(f[0].id, "skill.missing-frontmatter");
    let text = skill_text("name: other\ndescription: Short.", "body");
    let f = scan_skill("dir", &text);
    assert_eq!(f.len(), 1);
    assert_eq!(f[0].message, "frontmatter name is `other` but the directory is `dir`");
}

#[test]
fn frontmatter_fields_are_read() {
    let fm = parse_frontmatter("---\nname: alpha\ndescription: Says hi.\ndisable-model-invocation: true\n---\nbody\n").unwrap();
    assert_eq!(fm.name.as_deref(), Some("alpha"));
    assert_eq!(fm.description.as_deref(), Some("Says hi."));
    assert!(fm.disable_model_invocation);
    assert!(parse_frontmatter("no frontmatter").is_none());
}

#[test]
fn stale_override_is_reported_but_a_live_one_is_not() {
    let known = strings(&["alpha"]);
    let entries = vec![
        ("alpha".to_string(), "off".to_string()),
        ("ghost".to_string(), "off".to_string()),
    ];
    let f = override_findings(&known, &vec![], "settings.json", &entries);
    assert_eq!(f.len(), 1);
    assert_eq!(f[0].id, "overrides.stale");
    assert_eq!(f[0].subject, "ghost = off");
    assert_eq!(f[0].message, "override in settings.json targets a skill that does not exist");
}

#[test]
fn override_targeting_a_disabled_plugin_is_distinguished_from_stale() {
    let parts = strings(&["mymarket", "plugins", "myplug", "skills", "ghost-skill"]);
    let key = plugin_key_for(&parts).unwrap();
    assert_eq!(key, "myplug@mymarket");
    let settings = vec![("myplug@mymarket".to_string(), false)];
    assert!(plugin_disabled(&settings, &key));
    let (known, only) = classify_marketplace_skills(&vec![("ghost-skill".to_string(), Some(key))], &settings);
    assert!(known.is_empty());
    let f = override_findings(&known, &only, "settings.json", &vec![("ghost-skill".to_string(), "on".to_string())]);
    assert_eq!(f.len(), 1);
    assert_eq!(f[0].id, "overrides.targets-disabled-plugin");
    assert_eq!(
        f[0].message,
        "override in settings.json targets a skill supplied only by `myplug@mymarket`, which is disabled"
    );
}

#[test]
fn override_on_an_enabled_plugin_skill_is_clean() {
    let settings = vec![("myplug@mymarket".to_string(), true)];
    let (known, only) = classify_marketplace_skills(
        &vec![("real-skill".to_string(), Some("myplug@mymarket".to_string()))],
        &settings,
    );
    assert_eq!(known, strings(&["real-skill"]));
    let f = override_findings(&known, &only, "settings.json", &vec![("real-skill".to_string(), "on".to_string())]);
    assert!(f.is_empty());
}

#[test]
fn later_plugin_setting_wins() {
    let settings = vec![("p@m".to_string(), false), ("p@m".to_string(), true)];
    assert!(!plugin_disabled(&settings, "p@m"));
    assert!(!plugin_disabled(&settings, "q@m"));
    assert_eq!(plugin_key_for(&strings(&["m", "other", "p"])), None);
}

#[test]
fn mirror_drift_reports_only_skills_that_actually_differ() {
    let files = strings(&["SKILL.md"]);
    let same = vec![(Some(b"identical".to_vec()), Some(b"identical".to_vec()))];
    assert_eq!(first_tree_difference(&files, &files, &same), None);
    let drifted = vec![(Some(b"old body".to_vec()), Some(b"new body".to_vec()))];
    assert_eq!(first_tree_difference(&files, &files, &drifted).as_deref(), Some("SKILL.md differs"));
    let f = mirror_drift_finding("drifted", "mirror/drifted", "SKILL.md differs");
    assert_eq!(f.id, "mirror.drift");
    assert_eq!(f.message, "mirror/drifted differs from the installed copy: SKILL.md differs");
}

#[test]
fn mirror_drift_covers_the_whole_skill_directory() {
    let left = strings(&["SKILL.md", "references/guide.md"]);
    let contents = vec![
        (Some(b"same".to_vec()), Some(b"same".to_vec())),
        (Some(b"old guidance\n".to_vec()), Some(b"new guidance\n".to_vec())),
    ];
    assert_eq!(
        first_tree_difference(&left, &left, &contents).as_deref(),
        Some("references/guide.md differs")
    );
    let right = strings(&["SKILL.md"]);
    let short = vec![(Some(b"same".to_vec()), Some(b"same".to_vec()))];
    assert_eq!(
        first_tree_difference(&left, &right, &short).as_deref(),
        Some("references/guide.md is not installed")
    );
}

#[test]
fn broken_links_are_high_in_roots_and_medium_in_farms() {
    let f = broken_link_finding("skills/dangling", "skills/does-not-exist", false);
    assert_eq!(f.id, "links.broken-skill-symlink");
    assert_eq!(f.severity, Severity::High);
    assert_eq!(f.message, "symlink target does not resolve: skills/does-not-exist");
    let g = broken_link_finding("farm/dangling", "shared/gone", true);
    assert_eq!(g.id, "farm.broken-symlink");
    assert_eq!(g.severity, Severity::Medium);
}

#[test]
fn farm_dangling_and_duplicate_links_are_reported() {
    let items = vec![
        (strings(&["shared", "alpha"]), "alpha".to_string()),
        (strings(&["shared", "alpha"]), "alpha-old-name".to_string()),
        (strings(&["shared", "beta"]), "beta".to_string()),
    ];
    let f = farm_duplicate_findings("farm", &items);
    assert_eq!(f.len(), 1);
    assert_eq!(f[0].id, "farm.duplicate-target");
}

#[test]
fn agent_shadowing_across_scopes_is_allowed_but_within_a_scope_is_not() {
    let items = vec![
        (strings(&["user", "dup"]), "a.md".to_string()),
        (strings(&["user", "dup"]), "b.md".to_string()),
        (strings(&["project", "dup"]), "shadow.md".to_string()),
    ];
    let f = agent_duplicate_findings(&items);
    assert_eq!(f.len(), 1);
    assert_eq!(f[0].id, "agent.duplicate-name");
    assert!(f[0].subject.contains("user"));
}

#[test]
fn agent_descriptions_and_guides_have_budgets() {
    assert!(agent_description_findings("agents/a.md", &Some("x".to_string())).is_empty());
    let f = agent_description_findings("agents/a.md", &Some("y".repeat(1100)));
    assert_eq!(f.len(), 1);
    assert_eq!(f[0].id, "agent.description-bloat");
    let long_guide = "line\n".repeat(201);
    let g = guide_findings("GUIDE.md", &long_guide);
    assert_eq!(g.len(), 1);
    assert_eq!(g[0].message, "201 lines, above the 200-line guidance");
    assert!(guide_findings("GUIDE.md", &"line\n".repeat(200)).is_empty());
}

#[test]
fn generated_noise_is_skipped() {
    assert!(is_generated_noise(&strings(&["skill", "node_modules", "x.js"])));
    assert!(is_generated_noise(&strings(&["__pycache__"])));
    assert!(!is_generated_noise(&strings(&["skill", "references", "guide.md"])));
}

#[test]
fn findings_sort_by_severity_and_count_and_gate_the_exit() {
    let f = vec![
        broken_link_finding("b", "t", true),
        broken_link_finding("a", "t", false),
        mirror_drift_finding("m", "d", "x"),
    ];
    let sorted = sort_findings(&f);
    assert_eq!(sorted[0].severity, Severity::High);
    assert_eq!(sorted[1].id, "farm.broken-symlink");
    let counts = count_by_severity(&f);
    assert_eq!(counts, vec![("high".to_string(), 1), ("medium".to_string(), 2)]);
    assert_eq!(exit_status(&f, Severity::High), 2);
    assert_eq!(exit_status(&vec![mirror_drift_finding("m", "d", "x")], Severity::High), 0);
    assert_eq!(exit_status(&vec![], Severity::Low), 0);
}

#[test]
fn listing_summary_adds_up_names_and_descriptions() {
    let entries = vec![("a".to_string(), 5, 29), ("b".to_string(), 3, 10)];
    let (_, count) = listing_summary(&entries).unwrap();
    assert_eq!(count, 2);
    assert_eq!(listing_summary(&vec![]), Some((0, 0)));
}

#[test]
fn markdown_report_names_the_tool() {
    let text = render_markdown("Agent", 0, 0, 0, &vec![]);
    assert_eq!(text, "# Agent\n\n0 finding(s). Listing: ~0 tokens across 0 skills.\n\nNo drift detected.\n");
}

#[test]
fn doctor_lists_every_rule_the_scanner_can_emit() {
    let all = [
        "links.broken-skill-symlink",
        "skill.oversized-skipped",
        "skill.body-too-long",
        "skill.missing-frontmatter",
        "skill.name-mismatch",
        "skill.description-over-cap",
        "skill.description-listing-hog",
        "model.reasoning-extraction-risk",
        "overrides.stale",
        "overrides.targets-disabled-plugin",
        "mirror.drift",
        "farm.broken-symlink",
        "farm.duplicate-target",
        "agent.duplicate-name",
        "agent.description-bloat",
        "guide.over-line-budget",
    ];
    let text = doctor_text("GUIDE.md");
    for id in all {
        assert!(text.contains(id), "doctor is missing {id}");
    }
    let listed = text
        .lines()
        .filter(|line| !line.starts_with(' ') && line.contains('.') && !line.trim().is_empty())
        .count();
    assert_eq!(listed, all.len());
    assert_eq!(rule_catalog("GUIDE.md").len(), all.len());
}
