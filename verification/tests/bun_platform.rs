use dev_skills::bun::adapters::{run_adapters, run_monorepo_adapter};
use dev_skills::bun::audit::{dedup_strings, get_rule_category, is_dockerfile, resolve_adapter_ids, RepoSignals};
use dev_skills::bun::config::{merge_audit_config, CliOverrides, FileConfig};
use dev_skills::bun::detect::{
    audit_root_files, contains_text, detect_vercel_bun_enabled, eq_ignore_ascii_case, infer_signals,
    toml_table_has_bool, toml_table_has_positive_integer, toml_table_value, vercel_ts_has_bun_runtime, PackageJsonFacts,
    RootFiles,
};
use dev_skills::bun::normalize::normalize_findings;
use dev_skills::bun::release_sync::{
    build_references_index_content, build_rules_index_content, check_skill_integrity, create_release_sync_report,
    ReleaseSyncSources,
};
use dev_skills::bun::fixes::{fix_allows, plan_safe_fixes};
use dev_skills::bun::types::{Finding, FixKind, Severity};
use dev_skills::json::{render_json, render_json_pretty, Json};

fn no_files() -> RootFiles {
    RootFiles { bun_lockb: false, bun_lock: false, package_lock: false, pnpm_lock: false, yarn_lock: false, nvmrc: false }
}

fn bun_files() -> RootFiles {
    RootFiles { bun_lock: true, ..no_files() }
}

fn package(scripts: &[(&str, &str)]) -> PackageJsonFacts {
    PackageJsonFacts {
        package_manager: Some("bun@1.3.14".to_string()),
        scripts: scripts.iter().map(|(a, b)| (a.to_string(), b.to_string())).collect(),
        dev_dependencies: vec![],
        has_workspaces: false,
    }
}

fn signals(bun_first: bool, vercel: bool, workspaces: bool) -> RepoSignals {
    RepoSignals { bun_first, vercel_bun_enabled: vercel, has_workspaces: workspaces }
}

fn has(findings: &[Finding], id: &str) -> bool {
    findings.iter().any(|f| f.rule_id == id)
}

fn default_config() -> dev_skills::bun::config::AuditConfig {
    let cli = CliOverrides {
        baseline_path: None,
        include_paths: vec![],
        exclude_dirs: vec![],
        adapters: vec![],
        max_files: None,
        max_bytes: None,
        write_cache: false,
    };
    merge_audit_config("/repo", &None, &cli, vec![])
}

#[test]
fn reports_mixed_lockfiles_as_an_error() {
    let files = RootFiles { package_lock: true, ..bun_files() };
    let f = audit_root_files("/repo", &signals(true, false, false), &files, &None, &None, &None, &None);
    let mixed = f.iter().find(|x| x.rule_id == "pm-no-mixed-lockfiles").expect("mixed lockfiles");
    assert_eq!(mixed.severity, Severity::Error);
    assert_eq!(mixed.file, "/repo/bun.lock");
    assert_eq!(
        mixed.message,
        "Multiple lockfiles detected: bun.lock, package-lock.json. Pick one package manager and delete the others."
    );
    let single = audit_root_files("/repo", &signals(true, false, false), &bun_files(), &None, &None, &None, &None);
    assert!(!has(&single, "pm-no-mixed-lockfiles"));
}

#[test]
fn script_checks_prefer_bun_tools() {
    let p = package(&[("gen", "npx prisma generate"), ("ci", "npm install"), ("dev", "nodemon src/index.ts")]);
    let f = audit_root_files("/repo", &signals(true, false, false), &bun_files(), &Some(p), &None, &None, &None);
    assert!(has(&f, "pm-bunx-vs-npx"));
    assert!(has(&f, "scripts-no-npm-in-bun-repos"));
    assert!(has(&f, "runtime-watch-and-hot-reload"));
    let npx = f.iter().find(|x| x.rule_id == "pm-bunx-vs-npx").unwrap();
    assert_eq!(npx.message, "Script \"gen\" uses npx. Prefer bunx.");
}

#[test]
fn normalizes_next_scripts_when_vercel_bun_runtime_is_enabled() {
    let p = package(&[("dev", "next dev"), ("build", " next build ")]);
    let f = audit_root_files("/repo", &signals(true, true, false), &bun_files(), &Some(p), &None, &None, &None);
    let hits: Vec<_> = f.iter().filter(|x| x.rule_id == "vercel-nextjs-bun-runtime-scripts").collect();
    assert_eq!(hits.len(), 2);
    assert_eq!(hits[0].suggested_fix.as_deref(), Some("Use `bun run --bun next dev`."));
}

#[test]
fn reports_adapter_findings() {
    let sources = vec![
        (
            ".github/workflows/ci.yml".to_string(),
            Some("steps:\n  - run: npm ci\n  - run: bun install\n".to_string()),
        ),
        ("Dockerfile".to_string(), Some("FROM node:20\nRUN bun install --frozen-lockfile\n".to_string())),
    ];
    let f = run_adapters(
        "/repo",
        &signals(true, false, false),
        &bun_files(),
        &vec![],
        &None,
        &None,
        true,
        &sources,
        &vec![],
    );
    assert!(has(&f, "scripts-no-npm-in-bun-repos"));
    assert!(has(&f, "pm-bun-install-ci-frozen-lockfile"));
    assert!(has(&f, "runtime-bun-vs-node-choose"));
    let frozen = f.iter().find(|x| x.rule_id == "pm-bun-install-ci-frozen-lockfile").unwrap();
    assert_eq!(frozen.line, 3);

    let scripts = vec![("build".to_string(), "bun run build:all".to_string())];
    let m = run_adapters("/repo", &signals(true, false, true), &bun_files(), &vec![], &None, &None, false, &vec![], &scripts);
    assert!(has(&m, "scripts-bun-filter-and-workspaces"));
    let direct = run_monorepo_adapter("/repo", &vec![("test".to_string(), "bun run --workspaces test".to_string())]);
    assert!(direct.is_empty());
}

#[test]
fn adapters_resolve_from_signals_or_configuration() {
    let auto = resolve_adapter_ids(&signals(true, true, true), &vec![]);
    assert!(auto.contains(&"vercel".to_string()));
    assert!(auto.contains(&"monorepo".to_string()));
    let chosen = resolve_adapter_ids(&signals(true, true, true), &vec!["docker".to_string(), "docker".to_string()]);
    assert_eq!(chosen, vec!["docker".to_string()]);
    assert_eq!(dedup_strings(&vec!["a".to_string(), "b".to_string(), "a".to_string()]), vec!["a", "b"]);
}

#[test]
fn respects_disabled_rules_and_baseline_suppressions() {
    let p = package(&[("gen", "npx prisma generate")]);
    let mut p2 = p.clone();
    p2.package_manager = None;
    let f = audit_root_files("/repo", &signals(true, false, false), &bun_files(), &Some(p2), &None, &None, &None);
    assert!(has(&f, "pm-package-manager-field"));
    assert!(has(&f, "pm-bunx-vs-npx"));
    let file = FileConfig { disabled_rules: Some(vec!["pm-bunx-vs-npx".to_string()]), ..FileConfig::default() };
    let cli = CliOverrides {
        baseline_path: None,
        include_paths: vec![],
        exclude_dirs: vec![],
        adapters: vec![],
        max_files: None,
        max_bytes: None,
        write_cache: false,
    };
    let config = merge_audit_config("/repo", &Some(file), &cli, vec!["pm-package-manager-field:package.json".to_string()]);
    let kept = normalize_findings(f, &config);
    assert!(!has(&kept, "pm-package-manager-field"));
    assert!(!has(&kept, "pm-bunx-vs-npx"));
}

#[test]
fn normalizing_removes_duplicates() {
    let p = package(&[("gen", "npx a")]);
    let f = audit_root_files("/repo", &signals(true, false, false), &bun_files(), &Some(p), &None, &None, &None);
    let mut twice = f.clone();
    twice.extend(f.clone());
    let kept = normalize_findings(twice, &default_config());
    assert_eq!(kept.len(), f.len());
}

#[test]
fn bunfig_tables_are_read_by_key() {
    let bunfig = "[install]\nfrozenLockfile = true\nconcurrentScripts = 4\n\n[test]\nretry = 0\n";
    assert_eq!(toml_table_value(bunfig, "install", "concurrentScripts").as_deref(), Some("4"));
    assert!(toml_table_has_positive_integer(bunfig, "install", "concurrentScripts"));
    assert!(!toml_table_has_positive_integer(bunfig, "test", "retry"));
    assert!(toml_table_has_bool(bunfig, "install", "frozenLockfile", true));
    assert_eq!(toml_table_value(bunfig, "missing", "key"), None);
}

#[test]
fn vercel_bun_runtime_is_detected_from_json_or_ts() {
    let json = Json::Object(vec![(
        "functions".to_string(),
        Json::Object(vec![("api/*.ts".to_string(), Json::Object(vec![("runtime".to_string(), Json::Str("bun@1".to_string()))]))]),
    )]);
    assert!(detect_vercel_bun_enabled(&Some(json), &None));
    assert!(vercel_ts_has_bun_runtime("export const config = { bunVersion: \"1.x\" };"));
    assert!(!vercel_ts_has_bun_runtime("const config = { bunVersion: \"1.x\" };"));
    assert!(!detect_vercel_bun_enabled(&None, &Some("export default {}".to_string())));
}

#[test]
fn signals_follow_lockfiles_and_package_facts() {
    let s = infer_signals(&bun_files(), &None, false);
    assert!(s.bun_first);
    let mut p = package(&[]);
    p.package_manager = Some("npm@10".to_string());
    p.has_workspaces = true;
    let s = infer_signals(&no_files(), &Some(p.clone()), false);
    assert!(!s.bun_first);
    assert!(s.has_workspaces);
    let v = infer_signals(&no_files(), &Some(p), true);
    assert!(v.bun_first);
    assert!(v.vercel_bun_enabled);
}

#[test]
fn small_text_helpers() {
    assert!(eq_ignore_ascii_case("Bun.Lock", "bun.lock"));
    assert!(!eq_ignore_ascii_case("bun", "bun.lock"));
    assert!(contains_text("run bun install", "bun"));
    assert!(is_dockerfile("docker/Dockerfile.prod"));
    assert!(!is_dockerfile("src/main.ts"));
    assert_eq!(get_rule_category("pm-bunx-vs-npx"), "package-manager");
}

fn sources() -> ReleaseSyncSources {
    ReleaseSyncSources {
        bun_release_notes: "Bun now renders markdown with ANSI colors; Bun.markdown.ansi() is new.".to_string(),
        capabilities: "".to_string(),
        vercel_runtime: "".to_string(),
        bun_release_notes_bytes: Some(b"abc".to_vec()),
        capabilities_bytes: None,
        vercel_runtime_bytes: None,
        rule_ids: vec!["runtime-bun-markdown-ansi".to_string()],
    }
}

#[test]
fn creates_release_sync_report_from_current_skill_refs() {
    let report = create_release_sync_report(&sources(), "2024-01-02T03:04:05Z");
    assert!(!report.references.is_empty());
    assert!(report.capability_map.iter().any(|entry| entry.topic == "bun markdown ansi"));
    assert_eq!(report.synced_at, "2024-01-02T03:04:05Z");
    let refs: Vec<_> = report.references.iter().map(|r| (r.file.as_str(), r.hash.as_str())).collect();
    assert!(refs.contains(&("ref-bun-release-notes-latest.md", "ba7816bf8f01cfea414140de5dae2223b00361a396177a9cb410ff61f20015ad")));
    assert!(refs.iter().any(|(_, h)| *h == "missing"));
}

#[test]
fn skill_integrity_names_the_first_problem() {
    let ids = vec!["pm-bunx-vs-npx".to_string()];
    assert_eq!(check_skill_integrity("Use `pm-bunx-vs-npx`.", &ids, true, true, true), Ok(()));
    assert_eq!(
        check_skill_integrity("Use `pm-unknown-rule`.", &ids, true, true, true),
        Err("missing rule files for ids:\n- pm-unknown-rule".to_string())
    );
    assert_eq!(
        check_skill_integrity("", &ids, false, true, true),
        Err("missing rules/_index.md".to_string())
    );
    assert_eq!(check_skill_integrity("", &ids, true, false, true), Err("missing references/index.md".to_string()));
    assert_eq!(check_skill_integrity("", &ids, true, true, false), Err("references/ must be flat".to_string()));
}

#[test]
fn index_files_list_rules_and_references() {
    let rules = build_rules_index_content(&vec!["pm-bunx-vs-npx".to_string()]);
    assert!(rules.contains("pm-bunx-vs-npx"));
    let refs = build_references_index_content();
    assert!(refs.ends_with('\n'));
}

#[test]
fn json_renders_compactly_with_escapes() {
    let v = Json::Object(vec![
        ("a".to_string(), Json::Array(vec![Json::Number("1".to_string()), Json::Null, Json::Bool(true)])),
        ("b".to_string(), Json::Str("x\"y\n\u{1}".to_string())),
    ]);
    assert_eq!(render_json(&v), "{\"a\":[1,null,true],\"b\":\"x\\\"y\\n\\u0001\"}");
}

fn scripts_doc(scripts: Vec<(&str, &str)>) -> Json {
    Json::Object(vec![
        ("name".to_string(), Json::Str("app".to_string())),
        (
            "scripts".to_string(),
            Json::Object(scripts.into_iter().map(|(k, v)| (k.to_string(), Json::Str(v.to_string()))).collect()),
        ),
    ])
}

#[test]
fn plans_and_applies_safe_package_json_fixes() {
    let before = "{\"name\":\"app\",\"scripts\":{\"gen\":\"npx prisma generate\"}}";
    let planned = plan_safe_fixes(
        "/repo/package.json",
        before,
        scripts_doc(vec![("gen", "npx prisma generate")]),
        &bun_files(),
        false,
        &default_config(),
    );
    assert_eq!(planned.len(), 1);
    let fix = &planned[0];
    assert_eq!(fix.rule_ids, vec!["pm-package-manager-field".to_string(), "pm-bunx-vs-npx".to_string()]);
    assert_eq!(fix.rule_id, "pm-package-manager-field");
    assert_eq!(fix.kind, FixKind::Safe);
    assert_eq!(fix.description, "Update package.json to add packageManager bun@1.3.14; rewrite npx invocations to bunx.");
    assert_eq!(fix.before.as_deref(), Some(before));
    assert_eq!(
        fix.after.as_deref(),
        Some("{\n  \"name\": \"app\",\n  \"packageManager\": \"bun@1.3.14\",\n  \"scripts\": {\n    \"gen\": \"bunx prisma generate\"\n  }\n}\n")
    );
}

#[test]
fn safe_fixes_rewrite_next_scripts_for_the_bun_runtime() {
    let mut doc = scripts_doc(vec![("build", " next build "), ("dev", "next dev")]);
    if let Json::Object(es) = &mut doc {
        es.push(("packageManager".to_string(), Json::Str("bun@1.3.14".to_string())));
    }
    let planned = plan_safe_fixes("/repo/package.json", "{}", doc, &no_files(), true, &default_config());
    assert_eq!(planned.len(), 1);
    assert_eq!(planned[0].rule_ids, vec!["vercel-nextjs-bun-runtime-scripts".to_string()]);
    let after = planned[0].after.clone().unwrap();
    assert!(after.contains("\"dev\": \"bun run --bun next dev\""));
    assert!(after.contains("\"build\": \"bun run --bun next build\""));
}

#[test]
fn safe_fixes_respect_the_configuration() {
    let cli = CliOverrides {
        baseline_path: None,
        include_paths: vec![],
        exclude_dirs: vec![],
        adapters: vec![],
        max_files: None,
        max_bytes: None,
        write_cache: false,
    };
    let file = FileConfig { disabled_rules: Some(vec!["pm-bunx-vs-npx".to_string()]), ..FileConfig::default() };
    let config = merge_audit_config("/repo", &Some(file), &cli, vec!["pm-package-manager-field:package.json".to_string()]);
    assert!(!fix_allows(&config, "pm-bunx-vs-npx"));
    assert!(!fix_allows(&config, "pm-package-manager-field"));
    assert!(fix_allows(&config, "vercel-nextjs-bun-runtime-scripts"));
    let planned = plan_safe_fixes(
        "/repo/package.json",
        "{}",
        scripts_doc(vec![("gen", "npx prisma generate")]),
        &bun_files(),
        false,
        &config,
    );
    assert!(planned.is_empty());
    assert!(plan_safe_fixes("/repo/package.json", "[]", Json::Array(vec![]), &bun_files(), false, &default_config()).is_empty());
}

#[test]
fn pretty_json_matches_the_two_space_layout() {
    let v = Json::Object(vec![
        ("a".to_string(), Json::Array(vec![])),
        ("b".to_string(), Json::Array(vec![Json::Number("1".to_string()), Json::Object(vec![])])),
    ]);
    assert_eq!(render_json_pretty(&v), "{\n  \"a\": [],\n  \"b\": [\n    1,\n    {}\n  ]\n}");
}
