use dev_skills::audit_gate::{
    fingerprints, glob_matches, is_excluded, Baseline, GateFinding, GateSeverity, BASELINE_SCHEMA,
};

fn finding(id: &str, file: &str, line: u32) -> GateFinding {
    GateFinding {
        id: id.to_string(),
        severity: GateSeverity::Medium,
        file: file.to_string(),
        line,
        message: "message".to_string(),
    }
}

#[test]
fn bare_pattern_matches_any_path_component() {
    assert!(glob_matches("node_modules", "a/node_modules/b.ts"));
    assert!(glob_matches("node_modules", "node_modules/b.ts"));
    assert!(!glob_matches("node_modules", "src/node_modules_helper.ts"));
}

#[test]
fn single_star_does_not_cross_a_separator() {
    assert!(glob_matches("src/*.ts", "src/a.ts"));
    assert!(!glob_matches("src/*.ts", "src/nested/a.ts"));
}

#[test]
fn double_star_crosses_separators() {
    assert!(glob_matches("src/**/*.ts", "src/a/b/c.ts"));
    assert!(glob_matches("**/vendor/**", "apps/web/vendor/x/y.js"));
    assert!(!glob_matches("src/**/*.ts", "lib/a.ts"));
}

#[test]
fn question_mark_matches_one_non_separator_character() {
    assert!(glob_matches("a?.ts", "ab.ts"));
    assert!(!glob_matches("a?.ts", "a/.ts"));
}

#[test]
fn double_star_keeps_the_separator_boundary() {
    assert!(glob_matches("**/vendor/**", "apps/web/vendor/x.js"));
    assert!(!glob_matches("**/vendor/**", "apps/web/myvendor/x.js"));
    assert!(glob_matches("a/**/b", "a/x/b"));
    assert!(!glob_matches("a/**/b", "a/xb"));
}

#[test]
fn exclusion_normalizes_windows_separators() {
    let patterns = vec!["**/vendor/**".to_string()];
    assert!(is_excluded(r"apps\web\vendor\x.js", &patterns));
}

#[test]
fn fingerprints_survive_a_line_move_but_not_a_file_move() {
    let moved = fingerprints(&[finding("rule.one", "src/a.ts", 90)]);
    let original = fingerprints(&[finding("rule.one", "src/a.ts", 10)]);
    let other_file = fingerprints(&[finding("rule.one", "src/b.ts", 10)]);
    assert_eq!(
        original, moved,
        "a finding that moved down is the same finding"
    );
    assert_ne!(original, other_file);
}

#[test]
fn a_second_occurrence_in_one_file_is_not_baselined_by_the_first() {
    let one = vec![finding("rule.one", "src/a.ts", 10)];
    let two = vec![
        finding("rule.one", "src/a.ts", 10),
        finding("rule.one", "src/a.ts", 40),
    ];
    let baseline = Baseline::from_findings(&one);
    assert_eq!(
        baseline.unseen(&two),
        vec![false, true],
        "the second occurrence must still be reported"
    );
}

#[test]
fn fingerprint_values_carry_site_and_ordinal() {
    let prints = fingerprints(&[
        finding("rule.one", "src/a.ts", 1),
        finding("rule.two", "src/a.ts", 2),
        finding("rule.one", "src/a.ts", 3),
    ]);
    assert_eq!(
        prints,
        vec![
            "rule.one::src/a.ts::0".to_string(),
            "rule.two::src/a.ts::0".to_string(),
            "rule.one::src/a.ts::1".to_string(),
        ]
    );
}

#[test]
fn ordinals_render_past_nine() {
    let many: Vec<GateFinding> = (0..12).map(|i| finding("r", "f", i)).collect();
    let prints = fingerprints(&many);
    assert_eq!(prints[11], "r::f::11");
    assert_eq!(prints[10], "r::f::10");
}

#[test]
fn baseline_accepts_every_finding_it_was_built_from() {
    let fs = vec![
        finding("rule.one", "src/a.ts", 1),
        finding("rule.one", "src/a.ts", 5),
        finding("rule.two", "src/b.ts", 9),
    ];
    let baseline = Baseline::from_findings(&fs);
    assert_eq!(baseline.schema, BASELINE_SCHEMA);
    assert_eq!(baseline.findings.len(), 3);
    assert_eq!(baseline.unseen(&fs), vec![false, false, false]);
    assert_eq!(
        baseline.unseen(&[finding("rule.three", "src/a.ts", 1)]),
        vec![true]
    );
}

#[test]
fn severity_names_and_levels() {
    assert_eq!(GateSeverity::parse("low"), Some(GateSeverity::Low));
    assert_eq!(GateSeverity::parse("medium"), Some(GateSeverity::Medium));
    assert_eq!(GateSeverity::parse("high"), Some(GateSeverity::High));
    assert_eq!(GateSeverity::parse("High"), None);
    assert_eq!(GateSeverity::Medium.as_str(), "medium");
    assert_eq!(GateSeverity::High.sarif_level(), "error");
    assert_eq!(GateSeverity::Medium.sarif_level(), "warning");
    assert_eq!(GateSeverity::Low.sarif_level(), "note");
}

#[test]
fn glob_edge_cases() {
    assert!(glob_matches("", "a//b"));
    assert!(!glob_matches("", "a/b"));
    assert!(glob_matches("**", "any/thing"));
    assert!(glob_matches("*", "file"));
    assert!(!glob_matches("*", "dir/file"));
    assert!(glob_matches("src/**", "src/"));
    assert!(!is_excluded("src/a.ts", &[]));
}

#[test]
fn baseline_holds_fingerprints_sorted_and_once() {
    let fs = vec![finding("rule.b", "z.ts", 1), finding("rule.a", "a.ts", 2), finding("rule.b", "z.ts", 3)];
    let baseline = Baseline::from_findings(&fs);
    assert_eq!(
        baseline.findings,
        vec!["rule.a::a.ts::0".to_string(), "rule.b::z.ts::0".to_string(), "rule.b::z.ts::1".to_string()]
    );
}

#[test]
fn fingerprints_stay_distinct_when_sites_contain_separators() {
    let fs = vec![finding("a::b", "c", 1), finding("a", "b::c", 2)];
    let prints = dev_skills::audit_gate::fingerprints(&fs);
    assert_eq!(prints, vec!["a::b::c::0".to_string(), "a::b::c::1".to_string()]);
}
