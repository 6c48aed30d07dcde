use std::cell::RefCell;
use std::rc::Rc;
use std::time::Duration;

use dev_skills::dev::pr::ReviewThreadSummary;
use dev_skills::tui::{
    clamp_selection, dashboard_window_start, ensure_render_dimensions, interactive_tick_rate,
    join_numbers, next_selection, previous_selection, redact_path_text,
    redact_path_text_with_placeholder, review_thread_unresolved_label, sanitized_cli_error,
    DashboardFilter, DashboardSort, Panel, RestoreGuard,
};

#[test]
fn interactive_tick_rate_rejects_zero_delay() {
    let error = interactive_tick_rate(0).expect_err("zero tick rate fails");
    assert!(format!("{error:#}").contains("--tick-ms must be greater than 0"));
    assert_eq!(
        interactive_tick_rate(1).expect("positive tick"),
        Duration::from_millis(1)
    );
}

#[test]
fn restore_guard_runs_cleanup_once() {
    let calls = Rc::new(RefCell::new(0usize));
    {
        let calls = Rc::clone(&calls);
        let mut guard = RestoreGuard::new(move || {
            *calls.borrow_mut() += 1;
        });
        guard.restore_now();
    }

    assert_eq!(*calls.borrow(), 1);
}

#[test]
fn restore_guard_second_restore_is_a_no_op() {
    let calls = Rc::new(RefCell::new(0usize));
    {
        let calls = Rc::clone(&calls);
        let mut guard = RestoreGuard::new(move || {
            *calls.borrow_mut() += 1;
        });
        guard.restore_now();
        guard.restore_now();
    }
    assert_eq!(*calls.borrow(), 1);
}

#[test]
fn panel_navigation_wraps() {
    let mut panel = Panel::Overview;
    panel = panel.next();
    assert_eq!(panel, Panel::Validation);
    panel = panel.next();
    assert_eq!(panel, Panel::Pr);
    panel = panel.previous();
    assert_eq!(panel, Panel::Validation);
}

#[test]
fn panel_cycle_returns_to_start_and_titles() {
    let start = Panel::Help;
    assert_eq!(start.next(), Panel::Overview);
    assert_eq!(Panel::Overview.previous(), Panel::Help);
    assert_eq!(start.next().next().next().next(), start);
    assert_eq!(Panel::Pr.title(), "PR");
    assert_eq!(Panel::Validation.title(), "Validation");
}

#[test]
fn dashboard_filter_and_sort_cycle() {
    let f = DashboardFilter::All;
    assert_eq!(f.next(), DashboardFilter::Active);
    assert_eq!(f.next().next().next().next().next(), f);
    assert_eq!(DashboardFilter::HasPr.title(), "has-pr");
    assert_eq!(DashboardFilter::InReview.title(), "review");
    let s = DashboardSort::UpdatedDesc;
    assert_eq!(s.next(), DashboardSort::TitleAsc);
    assert_eq!(s.next().next().next(), s);
    assert_eq!(DashboardSort::StatusAsc.title(), "status");
}

#[test]
fn selection_moves_within_bounds() {
    assert_eq!(next_selection(0, 3), 1);
    assert_eq!(next_selection(2, 3), 2);
    assert_eq!(next_selection(5, 0), 5);
    assert_eq!(previous_selection(0), 0);
    assert_eq!(previous_selection(4), 3);
    assert_eq!(clamp_selection(7, 3), 2);
    assert_eq!(clamp_selection(1, 3), 1);
    assert_eq!(clamp_selection(1, 0), 0);
}

#[test]
fn dashboard_window_keeps_selection_visible_with_values() {
    assert_eq!(dashboard_window_start(11, 12, 8), 4);
    assert_eq!(dashboard_window_start(3, 12, 8), 0);
    assert_eq!(dashboard_window_start(11, 5, 8), 0);
    let start = dashboard_window_start(9, 20, 4);
    assert!(start <= 9 && 9 < start + 4);
}

#[test]
fn render_dimensions_must_be_positive() {
    assert!(ensure_render_dimensions(100, 24).is_ok());
    for (width, height) in [(0, 24), (100, 0)] {
        let error = ensure_render_dimensions(width, height).expect_err("zero dimension fails");
        assert!(error.contains("--width and --height must be greater than 0"));
    }
}

#[test]
fn cli_error_sanitizer_redacts_capsule_path() {
    let capsule = "/tmp/work/private-task-name";
    let message = sanitized_cli_error(&format!("failed to read {capsule}"), capsule);
    assert!(message.contains("<capsule>"));
    assert!(!message.contains(capsule));
}

#[test]
fn redaction_replaces_every_occurrence_and_ignores_empty_paths() {
    assert_eq!(
        redact_path_text_with_placeholder("/r/a and /r/a/b", "/r/a", "<tasks-root>"),
        "<tasks-root> and <tasks-root>/b"
    );
    assert_eq!(redact_path_text("nothing here", ""), "nothing here");
    assert_eq!(redact_path_text("aaa", "aa"), "<capsule>a");
}

#[test]
fn join_numbers_lists_or_says_none() {
    assert_eq!(join_numbers(&vec![]), "none");
    assert_eq!(join_numbers(&vec![7]), "7");
    assert_eq!(join_numbers(&vec![1, 22, 333]), "1, 22, 333");
}

#[test]
fn non_authoritative_review_threads_are_not_reported_as_zero() {
    let summary = ReviewThreadSummary {
        unresolved: 0,
        total: 0,
        resolved: 0,
        outdated: 0,
        authoritative: false,
        last_checked_at: "2026-05-09T06:05:00Z".to_string(),
    };
    assert_eq!(review_thread_unresolved_label(&summary), "not checked");
    let checked = ReviewThreadSummary { authoritative: true, unresolved: 3, ..summary };
    assert_eq!(review_thread_unresolved_label(&checked), "3");
}
