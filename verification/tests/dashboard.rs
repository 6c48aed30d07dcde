use dev_skills::dashboard::{
    capsule_before, fallback_dashboard_title, help_text, map_key, sort_dashboard_capsules, AppAction, AppState,
    DashboardCapsule, DashboardState, Key, LineStyle, WorkbenchState,
};
use dev_skills::dev::capsule::{EvidenceSummary, GateRecord, StatusResult, ValidationResult, Verification};
use dev_skills::dev::kinds::CapsuleStatus;
use dev_skills::dev::pr::{CheckRecord, PrEvidence, ReviewThreadSummary, PR_SCHEMA};
use dev_skills::tui::{DashboardFilter, DashboardSort, Panel, WorkbenchEvent};

fn status(title: &str, status: CapsuleStatus, updated: &str, evidence: u64) -> StatusResult {
    StatusResult {
        path: format!("/tasks/{title}"),
        id: title.to_string(),
        title: title.to_string(),
        status,
        objective: "objective".to_string(),
        branch: "feat".to_string(),
        base_branch: "main".to_string(),
        issues: vec![22],
        pull_requests: vec![],
        updated_at: updated.to_string(),
        evidence: EvidenceSummary { total: evidence, by_kind: vec![] },
    }
}

fn valid() -> ValidationResult {
    ValidationResult { path: "/tasks/x".to_string(), valid: true, errors: vec![] }
}

fn capsule(name: &str, s: CapsuleStatus, updated: &str) -> DashboardCapsule {
    DashboardCapsule::from_reads(
        &format!("/tasks/{name}"),
        valid(),
        Ok(status(name, s, updated, 2)),
        Err("missing".to_string()),
        Err("missing".to_string()),
        Err("missing".to_string()),
    )
}

fn invalid(name: &str) -> DashboardCapsule {
    DashboardCapsule::from_reads(
        &format!("/tasks/{name}"),
        ValidationResult { path: format!("/tasks/{name}"), valid: false, errors: vec!["bad capsule.json".to_string()] },
        Err("x".to_string()),
        Err("x".to_string()),
        Err("x".to_string()),
        Err("x".to_string()),
    )
}

fn dashboard() -> DashboardState {
    DashboardState::from_capsules(
        "/tasks".to_string(),
        vec![
            capsule("alpha", CapsuleStatus::Active, "2026-05-09T04:00:00Z"),
            invalid("broken"),
            capsule("beta", CapsuleStatus::InReview, "2026-05-09T06:00:00Z"),
        ],
        DashboardFilter::All,
        DashboardSort::UpdatedDesc,
        None,
        vec![],
    )
}

#[test]
fn dashboard_sorts_newest_first_and_invalid_last() {
    let d = dashboard();
    let titles: Vec<_> = d.capsules.iter().map(|c| c.display_title.as_str()).collect();
    assert_eq!(titles, vec!["beta", "alpha", "broken"]);
    assert!(capsule_before(&d.capsules[0], &d.capsules[1], DashboardSort::UpdatedDesc));
    let mut cs = d.capsules.clone();
    sort_dashboard_capsules(&mut cs, DashboardSort::TitleAsc);
    let titles: Vec<_> = cs.iter().map(|c| c.display_title.as_str()).collect();
    assert_eq!(titles, vec!["alpha", "beta", "broken"]);
    sort_dashboard_capsules(&mut cs, DashboardSort::StatusAsc);
    let labels: Vec<_> = cs.iter().map(|c| c.status_label.as_str()).collect();
    assert_eq!(labels, vec!["active", "in_review", "invalid"]);
}

#[test]
fn dashboard_surfaces_invalid_capsules_without_panics() {
    let c = invalid("broken");
    assert_eq!(c.display_title, "broken");
    assert_eq!(c.status_label, "invalid");
    assert_eq!(c.updated_label, "unknown");
    assert_eq!(c.diagnostics, vec!["bad capsule.json".to_string()]);
    let mut d = dashboard();
    d.cycle_filter();
    d.cycle_filter();
    d.cycle_filter();
    assert_eq!(d.filter, DashboardFilter::Invalid);
    assert_eq!(d.filtered_indices(), vec![2]);
    let items = d.dashboard_items(5);
    assert_eq!(items.len(), 1);
    assert_eq!(items[0].0, "> broken [invalid] ev:0 pr:none sa:0/0");
    assert_eq!(items[0].1, LineStyle::Red);
}

#[test]
fn dashboard_navigation_filter_and_open_single_capsule() {
    let mut app = AppState { dashboard: dashboard(), capsule: None };
    assert_eq!(app.apply(WorkbenchEvent::NextItem), AppAction::Stay);
    assert_eq!(app.dashboard.selected, 1);
    assert_eq!(app.dashboard.selected_capsule().unwrap().display_title, "alpha");
    assert_eq!(app.apply(WorkbenchEvent::OpenSelected), AppAction::OpenSelected);
    app.apply(WorkbenchEvent::NextItem);
    app.apply(WorkbenchEvent::NextItem);
    assert_eq!(app.dashboard.selected, 2);
    assert_eq!(app.apply(WorkbenchEvent::OpenSelected), AppAction::Stay);
    assert_eq!(app.apply(WorkbenchEvent::Refresh), AppAction::RefreshDashboard);
    assert_eq!(app.apply(WorkbenchEvent::Quit), AppAction::Quit);
}

#[test]
fn dashboard_refresh_preserves_filtered_selection() {
    let mut d = dashboard();
    d.selected = 1;
    let path = d.selected_capsule().unwrap().path.clone();
    let again = DashboardState::from_capsules(d.root.clone(), d.capsules.clone(), d.filter, d.sort, Some(path.as_str()), vec![]);
    assert_eq!(again.selected, 1);
    let gone = DashboardState::from_capsules(d.root.clone(), d.capsules.clone(), d.filter, d.sort, Some("/elsewhere"), vec![]);
    assert_eq!(gone.selected, 0);
    d.cycle_sort();
    assert_eq!(d.sort, DashboardSort::TitleAsc);
    assert_eq!(d.selected_capsule().unwrap().path, path);
}

#[test]
fn dashboard_window_keeps_selected_capsule_visible() {
    let mut d = dashboard();
    d.selected = 2;
    let items = d.dashboard_items(2);
    assert_eq!(items.len(), 2);
    assert!(items[1].0.starts_with("> broken"));
    assert!(items[0].0.starts_with("  alpha [active] ev:2 pr:none sa:0/0"));
    assert_eq!(items[0].1, LineStyle::Cyan);
}

#[test]
fn dashboard_detail_redacts_the_root() {
    let mut d = dashboard();
    d.diagnostics = vec!["failed to inspect /tasks/x: denied".to_string()];
    d.selected = 2;
    let text = d.dashboard_detail_text();
    assert_eq!(
        text,
        "dashboard diagnostics:\n- failed to inspect <tasks-root>/x: denied\n\ntitle: broken\npath: <tasks-root>/broken\nvalidation: invalid (1 error(s))\nupdated: unknown\nevidence: 0\nsubagents: none\npr: none\ncapsule diagnostics:\n- bad capsule.json"
    );
    let empty = DashboardState::from_capsules("/t".to_string(), vec![], DashboardFilter::All, DashboardSort::TitleAsc, None, vec![]);
    assert_eq!(empty.dashboard_detail_text(), "No capsule selected.");
    assert_eq!(empty.dashboard_items(3)[0].0, "no capsules match current filter");
}

#[test]
fn dashboard_missing_contracts_become_diagnostics() {
    let c = capsule("alpha", CapsuleStatus::Active, "2026-05-09T04:00:00Z");
    assert_eq!(c.diagnostics, vec![
        "verification.json: missing".to_string(),
        "subagents.json: missing".to_string(),
        "pr.json: missing".to_string(),
    ]);
    assert_eq!(c.updated_label, "2026-05-09T04:00:00+00:00");
    assert_eq!(fallback_dashboard_title("/tasks/zeta"), "zeta");
}

fn workbench() -> WorkbenchState {
    WorkbenchState {
        capsule_path: "/tasks/alpha".to_string(),
        validation: valid(),
        capsule: Some(status("alpha", CapsuleStatus::InReview, "2026-05-09T04:00:00Z", 1)),
        verification: Some(Verification {
            schema: "v".to_string(),
            required: vec![GateRecord { name: "tests".to_string(), command: "cargo test".to_string(), status: "passed".to_string() }],
            optional: vec![],
            last_checked_at: "2026-05-09T05:00:00Z".to_string(),
        }),
        pr: Some(PrEvidence {
            schema: PR_SCHEMA.to_string(),
            repository: Some("o/r".to_string()),
            number: Some(46),
            url: None,
            state: "open".to_string(),
            is_draft: None,
            mergeable: None,
            merge_state_status: None,
            review_decision: None,
            head_sha: None,
            head_ref_name: None,
            base_ref_name: None,
            base_ref_oid: None,
            checks: vec![CheckRecord {
                name: "ci".to_string(),
                status: "completed".to_string(),
                conclusion: None,
                url: None,
                checked_at: "2026-05-09T05:00:00Z".to_string(),
            }],
            review_threads: ReviewThreadSummary {
                unresolved: 0,
                total: 0,
                resolved: 0,
                outdated: 0,
                authoritative: false,
                last_checked_at: "2026-05-09T05:00:00Z".to_string(),
            },
            sources: vec![],
        }),
        active_panel: Panel::Overview,
        last_error: None,
    }
}

#[test]
fn render_snapshot_contains_contract_summaries() {
    let w = workbench();
    assert_eq!(
        w.overview_items(),
        vec![
            "id: alpha".to_string(),
            "branch: feat".to_string(),
            "base: main".to_string(),
            "issues: 22".to_string(),
            "prs: none".to_string(),
            "updated: 2026-05-09T04:00:00+00:00".to_string(),
            "validation: valid".to_string(),
        ]
    );
    assert_eq!(
        w.validation_text(),
        "last checked: 2026-05-09T05:00:00+00:00\nrequired gates:\n- tests [passed]"
    );
    assert_eq!(
        w.pr_text(),
        "target: o/r#46\nstate: open\nunresolved threads: not checked\nthreads checked: 2026-05-09T05:00:00+00:00\nchecks:\n- ci: completed / unknown at 2026-05-09T05:00:00+00:00"
    );
    assert_eq!(w.status_style(), LineStyle::Yellow);
    assert_eq!(w.header_status(), "in_review");
    assert!(w.footer_text().ends_with("active: Overview"));
    assert!(help_text().starts_with("Open a capsule"));
}

#[test]
fn refresh_error_replaces_visible_contract_state() {
    let mut w = workbench();
    w.next_panel();
    w.replace_contracts_with_error("failed to read /tasks/alpha/capsule.json".to_string());
    assert!(!w.validation.valid);
    assert!(w.capsule.is_none() && w.pr.is_none() && w.verification.is_none());
    assert_eq!(w.validation_text(), "failed to read <capsule>/capsule.json");
    assert_eq!(w.footer_text(), "refresh failed: failed to read /tasks/alpha/capsule.json");
    assert_eq!(w.active_panel, Panel::Validation);
    assert_eq!(w.header_title(), "Invalid capsule");
    assert_eq!(w.status_style(), LineStyle::Red);
}

#[test]
fn keys_map_to_events() {
    assert_eq!(map_key(Key::Char('q'), false), Some(WorkbenchEvent::Quit));
    assert_eq!(map_key(Key::Char('c'), true), Some(WorkbenchEvent::Quit));
    assert_eq!(map_key(Key::Char('c'), false), None);
    assert_eq!(map_key(Key::BackTab, false), Some(WorkbenchEvent::PreviousPanel));
    assert_eq!(map_key(Key::Enter, false), Some(WorkbenchEvent::OpenSelected));
    assert_eq!(map_key(Key::Char('s'), false), Some(WorkbenchEvent::CycleSort));
    assert_eq!(map_key(Key::Other, false), None);
}

#[test]
fn workbench_panels_follow_the_open_capsule() {
    let mut app = AppState { dashboard: dashboard(), capsule: Some(workbench()) };
    assert_eq!(app.apply(WorkbenchEvent::NextPanel), AppAction::Stay);
    assert_eq!(app.capsule.as_ref().unwrap().active_panel, Panel::Validation);
    assert_eq!(app.apply(WorkbenchEvent::NextItem), AppAction::Stay);
    assert_eq!(app.dashboard.selected, 0);
    assert_eq!(app.apply(WorkbenchEvent::Refresh), AppAction::RefreshCapsule);
    assert_eq!(app.apply(WorkbenchEvent::Dashboard), AppAction::ReloadDashboard);
    assert!(app.capsule.is_none());
}
