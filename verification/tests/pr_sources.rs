use dev_skills::dev::gh::{
    array_or_paginated_arrays, check_from_github_value, normalize_gh_pr_checks, normalize_gh_review_comments,
    normalize_gh_review_threads, normalize_gh_reviews, normalize_pr_record_source, normalize_review_pack_remaining,
    pr_document_fits, review_thread_counts_fit, CheckSnapshotInput, PrRecordDocument, PrSnapshotInput,
    ReviewThreadSnapshotInput,
};
use dev_skills::dev::pr::PR_SCHEMA;
use dev_skills::json::Json;

const CHECKED_AT: &str = "2026-05-09T06:05:00Z";

fn obj(members: &[(&str, Json)]) -> Json {
    Json::Object(members.iter().map(|(k, v)| (k.to_string(), clone(v))).collect())
}

fn clone(v: &Json) -> Json {
    match v {
        Json::Null => Json::Null,
        Json::Bool(b) => Json::Bool(*b),
        Json::Number(n) => Json::Number(n.clone()),
        Json::Str(s) => Json::Str(s.clone()),
        Json::Array(items) => Json::Array(items.iter().map(clone).collect()),
        Json::Object(es) => Json::Object(es.iter().map(|(k, v)| (k.clone(), clone(v))).collect()),
    }
}

fn s(text: &str) -> Json {
    Json::Str(text.to_string())
}

fn n(value: u64) -> Json {
    Json::Number(value.to_string())
}

fn review(id: u64, login: &str, state: &str, at: &str) -> Json {
    obj(&[("id", n(id)), ("user", obj(&[("login", s(login))])), ("state", s(state)), ("submitted_at", s(at))])
}

fn thread(id: &str, resolved: bool, outdated: bool) -> Json {
    obj(&[("id", s(id)), ("isResolved", Json::Bool(resolved)), ("isOutdated", Json::Bool(outdated))])
}

#[test]
fn gh_reviews_collapse_latest_state_per_reviewer() {
    let reviews = Json::Array(vec![
        review(1, "alice", "CHANGES_REQUESTED", "2026-05-09T04:00:00Z"),
        review(2, "alice", "APPROVED", "2026-05-09T05:00:00Z"),
        review(3, "alice", "COMMENTED", "2026-05-09T06:00:00Z"),
        review(4, "bob", "COMMENTED", "2026-05-09T07:00:00Z"),
    ]);
    let pr = normalize_gh_reviews(&reviews, CHECKED_AT).expect("reviews");
    assert_eq!(pr.review_decision.as_deref(), Some("approved"));
    assert_eq!(pr.state, "unknown");
    assert_eq!(pr.schema, PR_SCHEMA);
}

#[test]
fn gh_reviews_keep_change_request_across_later_comment() {
    let reviews = Json::Array(vec![
        review(1, "alice", "CHANGES_REQUESTED", "2026-05-09T04:00:00Z"),
        review(2, "alice", "COMMENTED", "2026-05-09T05:00:00Z"),
    ]);
    let pr = normalize_gh_reviews(&reviews, CHECKED_AT).expect("reviews");
    assert_eq!(pr.review_decision.as_deref(), Some("changes_requested"));
}

#[test]
fn older_reviews_do_not_replace_newer_ones() {
    let reviews = Json::Array(vec![Json::Array(vec![
        review(1, "alice", "APPROVED", "2026-05-09T05:00:00Z"),
        review(2, "alice", "CHANGES_REQUESTED", "2026-05-09T04:00:00Z"),
    ])]);
    let pr = normalize_gh_reviews(&reviews, CHECKED_AT).expect("paged reviews");
    assert_eq!(pr.review_decision.as_deref(), Some("approved"));
    let missing = Json::Array(vec![obj(&[("id", n(9))])]);
    assert_eq!(
        normalize_gh_reviews(&missing, CHECKED_AT).unwrap_err(),
        "GitHub review is missing state: {\"id\":9}"
    );
    assert_eq!(
        normalize_gh_reviews(&obj(&[]), CHECKED_AT).unwrap_err(),
        "GitHub reviews source must be a JSON array"
    );
    assert_eq!(normalize_gh_reviews(&Json::Array(vec![]), CHECKED_AT).unwrap().review_decision, None);
}

#[test]
fn gh_review_threads_require_complete_page_for_authority() {
    let doc = obj(&[(
        "reviewThreads",
        obj(&[
            ("nodes", Json::Array(vec![thread("current", false, false)])),
            ("pageInfo", obj(&[("hasNextPage", Json::Bool(true))])),
        ]),
    )]);
    assert!(review_thread_counts_fit(&doc));
    let pr = normalize_gh_review_threads(&doc, CHECKED_AT).expect("threads");
    assert_eq!(pr.review_threads.unresolved, 1);
    assert!(!pr.review_threads.authoritative);
}

fn page(nodes: Vec<Json>, next: bool) -> Json {
    obj(&[(
        "data",
        obj(&[(
            "repository",
            obj(&[(
                "pullRequest",
                obj(&[(
                    "reviewThreads",
                    obj(&[
                        ("nodes", Json::Array(nodes)),
                        ("pageInfo", obj(&[("hasNextPage", Json::Bool(next)), ("endCursor", Json::Null)])),
                    ]),
                )]),
            )]),
        )]),
    )])
}

#[test]
fn gh_review_threads_support_slurped_paginated_graphql_pages() {
    let doc = Json::Array(vec![
        page(vec![thread("resolved", true, false)], true),
        page(vec![thread("current", false, false), thread("stale", false, true)], false),
    ]);
    assert!(review_thread_counts_fit(&doc));
    let pr = normalize_gh_review_threads(&doc, CHECKED_AT).expect("paginated threads");
    assert_eq!(pr.review_threads.total, 3);
    assert_eq!(pr.review_threads.resolved, 1);
    assert_eq!(pr.review_threads.unresolved, 1);
    assert_eq!(pr.review_threads.outdated, 1);
    assert!(pr.review_threads.authoritative);
    assert_eq!(pr.review_threads.last_checked_at, CHECKED_AT);
}

#[test]
fn review_thread_sources_report_what_is_missing() {
    assert_eq!(
        normalize_gh_review_threads(&obj(&[]), CHECKED_AT).unwrap_err(),
        "GitHub review-thread source is missing reviewThreads.nodes"
    );
    let bad = obj(&[("nodes", Json::Array(vec![obj(&[("id", s("x"))])]))]);
    assert_eq!(
        normalize_gh_review_threads(&bad, CHECKED_AT).unwrap_err(),
        "GitHub review thread is missing isResolved: {\"id\":\"x\"}"
    );
    let pages = Json::Array(vec![obj(&[("other", Json::Null)])]);
    assert_eq!(
        normalize_gh_review_threads(&pages, CHECKED_AT).unwrap_err(),
        "GitHub review-thread page is missing reviewThreads.nodes"
    );
}

#[test]
fn pr_record_normalizes_gh_pr_checks_failing_statuses() {
    let checks = Json::Array(vec![
        obj(&[
            ("bucket", s("fail")),
            ("completedAt", s("2026-05-09T05:02:00Z")),
            ("link", s("https://example.test/check/fail")),
            ("name", s("lint")),
            ("state", s("FAILURE")),
            ("workflow", s("ci")),
        ]),
        obj(&[
            ("bucket", s("pending")),
            ("completedAt", s("0001-01-01T00:00:00Z")),
            ("link", s("")),
            ("name", s("test")),
            ("startedAt", s("0001-01-01T00:00:00Z")),
            ("state", s("PENDING")),
            ("workflow", s("ci")),
        ]),
    ]);
    let pr = normalize_gh_pr_checks(&checks, "2026-05-09T05:00:00Z").expect("checks");
    assert_eq!(pr.state, "unknown");
    assert_eq!(pr.checks.len(), 2);
    assert_eq!(pr.checks[0].status, "completed");
    assert_eq!(pr.checks[0].conclusion.as_deref(), Some("failure"));
    assert_eq!(pr.checks[0].url.as_deref(), Some("https://example.test/check/fail"));
    assert_eq!(pr.checks[0].checked_at, "2026-05-09T05:02:00Z");
    assert_eq!(pr.checks[1].status, "pending");
    assert_eq!(pr.checks[1].conclusion, None);
    assert_eq!(pr.checks[1].url, None);
    assert_eq!(pr.checks[1].checked_at, "2026-05-09T05:00:00Z");
    assert!(!pr.review_threads.authoritative);
}

#[test]
fn check_values_fall_back_field_by_field() {
    let c = check_from_github_value(&obj(&[("context", s("ci/legacy")), ("state", s("success"))]), CHECKED_AT).unwrap();
    assert_eq!(c.name, "ci/legacy");
    assert_eq!(c.status, "completed");
    assert_eq!(c.conclusion.as_deref(), Some("success"));
    let b = check_from_github_value(&obj(&[("name", s("x")), ("bucket", s("skipping"))]), CHECKED_AT).unwrap();
    assert_eq!(b.status, "completed");
    assert_eq!(b.conclusion.as_deref(), Some("skipped"));
    let r = check_from_github_value(&obj(&[("name", s("y")), ("status", s("In Progress"))]), CHECKED_AT).unwrap();
    assert_eq!(r.status, "in_progress");
    assert_eq!(
        check_from_github_value(&obj(&[("name", s("z"))]), CHECKED_AT).unwrap_err(),
        "GitHub check z is missing status/state/bucket"
    );
    assert_eq!(
        check_from_github_value(&obj(&[("status", s("queued"))]), CHECKED_AT).unwrap_err(),
        "GitHub check is missing name/context: {\"status\":\"queued\"}"
    );
}

fn pr_view(is_draft: bool, mergeable: &str, review_decision: &str) -> Json {
    obj(&[
        ("number", n(46)),
        ("url", s("https://github.com/BjornMelin/dev-skills/pull/46")),
        ("state", s("OPEN")),
        ("isDraft", Json::Bool(is_draft)),
        ("mergeable", s(mergeable)),
        ("mergeStateStatus", s("CLEAN")),
        ("reviewDecision", s(review_decision)),
        ("headRefOid", s("abc123")),
        ("headRefName", s("feature")),
        ("baseRefName", s("main")),
        ("baseRefOid", s("base123")),
        (
            "statusCheckRollup",
            Json::Array(vec![obj(&[
                ("__typename", s("CheckRun")),
                ("name", s("GitGuardian Security Checks")),
                ("status", s("COMPLETED")),
                ("conclusion", s("SUCCESS")),
                ("detailsUrl", s("https://example.test/check")),
                ("completedAt", s("2026-05-09T05:01:00Z")),
            ])]),
        ),
    ])
}

#[test]
fn pr_record_normalizes_gh_pr_view_open_draft_and_mergeable_cases() {
    let cases = [(false, "MERGEABLE", "APPROVED", "open"), (true, "CONFLICTING", "REVIEW_REQUIRED", "draft")];
    for (is_draft, mergeable, review_decision, expected_state) in cases {
        let doc = PrRecordDocument::GhPrView(pr_view(is_draft, mergeable, review_decision));
        assert!(pr_document_fits(&doc));
        let pr = normalize_pr_record_source(
            doc,
            "source.json",
            "2026-05-09T05:00:00Z",
            None,
            None,
            None,
            Some("gh pr view 46 --json ...".to_string()),
        )
        .expect("record pr");
        assert_eq!(pr.repository.as_deref(), Some("BjornMelin/dev-skills"));
        assert_eq!(pr.number, Some(46));
        assert_eq!(pr.state, expected_state);
        assert_eq!(pr.mergeable.as_deref(), Some(mergeable.to_ascii_lowercase().as_str()));
        assert_eq!(pr.review_decision.as_deref(), Some(review_decision.to_ascii_lowercase().as_str()));
        assert_eq!(pr.head_sha.as_deref(), Some("abc123"));
        assert_eq!(pr.merge_state_status.as_deref(), Some("clean"));
        assert_eq!(pr.head_ref_name.as_deref(), Some("feature"));
        assert_eq!(pr.base_ref_name.as_deref(), Some("main"));
        assert_eq!(pr.base_ref_oid.as_deref(), Some("base123"));
        assert_eq!(pr.checks[0].conclusion.as_deref(), Some("success"));
        assert!(!pr.review_threads.authoritative);
        assert_eq!(pr.sources.len(), 1);
        assert_eq!(pr.sources[0].kind, "gh-pr-view");
        assert_eq!(pr.sources[0].command.as_deref(), Some("gh pr view 46 --json ..."));
        assert_eq!(pr.sources[0].parser_version, "codex-dev.pr-source-parser.v1");
        assert_eq!(pr.sources[0].retrieved_at, "2026-05-09T05:00:00Z");
        assert_eq!(pr.sources[0].path.as_deref(), Some("source.json"));
    }
}

#[test]
fn pr_record_normalizes_review_pack_zero_thread_output() {
    let pr = normalize_review_pack_remaining("0 unresolved threads\n", "remaining.txt", CHECKED_AT).expect("pack");
    assert_eq!(pr.review_threads.unresolved, 0);
    assert_eq!(pr.review_threads.total, 0);
    assert!(pr.review_threads.authoritative);
    assert_eq!(
        normalize_review_pack_remaining("nothing useful", "remaining.txt", CHECKED_AT).unwrap_err(),
        "failed to parse remaining.txt"
    );
}

#[test]
fn provider_sources_need_an_identity() {
    let doc = PrRecordDocument::GhReviewThreads(obj(&[("nodes", Json::Array(vec![]))]));
    assert_eq!(
        normalize_pr_record_source(doc, "t.json", CHECKED_AT, None, None, None, None).unwrap_err(),
        "PR evidence source kind gh-review-threads requires explicit PR identity; pass --repo and --number or provide a GitHub pull request URL"
    );
    let doc = PrRecordDocument::GhReviewThreads(obj(&[("nodes", Json::Array(vec![]))]));
    let pr = normalize_pr_record_source(
        doc,
        "t.json",
        CHECKED_AT,
        Some("2026-05-09T06:00:00Z".to_string()),
        Some("o/r".to_string()),
        Some(7),
        None,
    )
    .unwrap();
    assert_eq!(pr.repository.as_deref(), Some("o/r"));
    assert_eq!(pr.number, Some(7));
    assert_eq!(pr.sources[0].retrieved_at, "2026-05-09T06:00:00Z");
    assert!(!pr.review_threads.authoritative);
}

#[test]
fn rest_comments_group_into_threads() {
    let comments = Json::Array(vec![
        obj(&[("id", n(1)), ("position", Json::Null), ("original_position", n(3))]),
        obj(&[("id", n(2)), ("in_reply_to_id", n(1)), ("position", n(4))]),
        obj(&[("id", n(5)), ("position", Json::Null), ("original_line", n(9))]),
        obj(&[("body", s("no id"))]),
    ]);
    let pr = normalize_gh_review_comments(&comments, CHECKED_AT).expect("comments");
    assert_eq!(pr.review_threads.total, 3);
    assert_eq!(pr.review_threads.outdated, 1);
    assert!(!pr.review_threads.authoritative);
    let pages = Json::Array(vec![Json::Array(vec![n(1)]), Json::Array(vec![n(2)])]);
    let listed = array_or_paginated_arrays(&pages, "x").unwrap();
    assert_eq!(listed.len(), 2);
}

#[test]
fn normalized_snapshots_lower_their_vocabulary() {
    let snapshot = PrSnapshotInput {
        schema: None,
        repository: Some("o/r".to_string()),
        number: Some(3),
        url: None,
        state: "OPEN".to_string(),
        is_draft: None,
        mergeable: Some("MERGEABLE".to_string()),
        merge_state_status: None,
        review_decision: Some("APPROVED".to_string()),
        head_sha: None,
        head_ref_name: None,
        base_ref_name: None,
        base_ref_oid: None,
        checks: vec![CheckSnapshotInput {
            name: "ci".to_string(),
            status: "COMPLETED".to_string(),
            conclusion: Some("SUCCESS".to_string()),
            url: None,
            checked_at: None,
        }],
        review_threads: ReviewThreadSnapshotInput {
            unresolved: 2,
            total: 2,
            resolved: 0,
            outdated: 0,
            authoritative: None,
            last_checked_at: None,
        },
        sources: vec![],
    };
    let pr = snapshot.into_pr_evidence(CHECKED_AT);
    assert_eq!(pr.state, "open");
    assert_eq!(pr.mergeable.as_deref(), Some("mergeable"));
    assert_eq!(pr.checks[0].status, "completed");
    assert_eq!(pr.checks[0].conclusion.as_deref(), Some("success"));
    assert_eq!(pr.checks[0].checked_at, CHECKED_AT);
    assert!(pr.review_threads.authoritative);
    assert_eq!(pr.review_threads.last_checked_at, CHECKED_AT);
}
