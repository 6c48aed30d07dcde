use dev_skills::dev::agent::recommend_pr_agent_actions;
use dev_skills::dev::checks::{
    validate_capsule_id, validate_prompt_hash, validate_role_name, validate_stable_id,
};
use dev_skills::dev::digest::stable_prompt_hash;
use dev_skills::dev::identity::{
    apply_pr_record_identity, merge_provider_pr_evidence, number_from_pr_url, repository_from_pr_url,
};
use dev_skills::dev::kinds::{
    CapsuleStatus, EvidenceKind, PolicyProfile, PrAgentActionPriority, PrAgentSeverity,
    PrRecordSourceKind, SubagentDisposition, SubagentOutcomeStatus, SubagentSynthesisStatus,
};
use dev_skills::dev::ledger::validate_subagents_value;
use dev_skills::dev::numbers::{
    leading_u64_after_key, parse_review_pack_remaining, parse_u64, review_pack_count_from_line,
    trailing_u64,
};
use dev_skills::dev::plan::{subspawn_plan_to_batch, SubspawnPlanInput, SubspawnPlanPrompt, SubspawnPlanRole};
use dev_skills::dev::pr::{
    merge_pr_number_field, merge_pr_string_field, render_pr_label, render_pr_status, CheckRecord,
    PrAgentDiagnostic, PrEvidence, ReviewThreadSummary, PR_SCHEMA,
};
use dev_skills::dev::render::{render_command, render_numbers, shell_quote};
use dev_skills::dev::subagents::{
    apply_synthesis_status, ensure_completed_synthesis_ready, refresh_batch_status,
    subagent_source_ids, validate_outcome_disposition, SubagentBatch, SubagentPromptRecord,
    SubagentRecord, SubagentSynthesisRecord, Subagents, SUBAGENTS_SCHEMA,
};

const CHECKED_AT: &str = "2026-05-09T06:05:00Z";

fn check(status: &str, conclusion: Option<&str>) -> CheckRecord {
    CheckRecord {
        name: "ci".to_string(),
        status: status.to_string(),
        conclusion: conclusion.map(str::to_string),
        url: None,
        checked_at: CHECKED_AT.to_string(),
    }
}

fn threads(unresolved: u64, total: u64, resolved: u64, authoritative: bool) -> ReviewThreadSummary {
    ReviewThreadSummary {
        unresolved,
        total,
        resolved,
        outdated: 0,
        authoritative,
        last_checked_at: CHECKED_AT.to_string(),
    }
}

fn pr_fixture(
    mergeable: Option<&str>,
    merge_state: &str,
    decision: Option<&str>,
    checks: Vec<CheckRecord>,
    review_threads: ReviewThreadSummary,
) -> PrEvidence {
    PrEvidence {
        schema: PR_SCHEMA.to_string(),
        repository: Some("BjornMelin/dev-skills".to_string()),
        number: Some(46),
        url: Some("https://github.com/BjornMelin/dev-skills/pull/46".to_string()),
        state: "open".to_string(),
        is_draft: Some(false),
        mergeable: mergeable.map(str::to_string),
        merge_state_status: Some(merge_state.to_string()),
        review_decision: decision.map(str::to_string),
        head_sha: Some("abc123".to_string()),
        head_ref_name: Some("feature".to_string()),
        base_ref_name: Some("main".to_string()),
        base_ref_oid: Some("base123".to_string()),
        checks,
        review_threads,
        sources: Vec::new(),
    }
}

fn ids(pr: &PrEvidence, diagnostics: &Vec<PrAgentDiagnostic>) -> Vec<String> {
    recommend_pr_agent_actions(pr, diagnostics).into_iter().map(|a| a.id).collect()
}

#[test]
fn command_rendering_preserves_argument_boundaries() {
    let command = vec![
        "fixture-command".to_string(),
        "-c".to_string(),
        "print('hello world')".to_string(),
    ];

    assert_eq!(
        render_command(&command),
        "fixture-command -c 'print('\\''hello world'\\'')'"
    );
}

#[test]
fn shell_quote_keeps_safe_words_and_quotes_the_rest() {
    assert_eq!(shell_quote(""), "''");
    assert_eq!(shell_quote("a/b-c.d:e@f%g+h=i,j_k"), "a/b-c.d:e@f%g+h=i,j_k");
    assert_eq!(shell_quote("two words"), "'two words'");
    assert_eq!(shell_quote("café"), "'café'");
    assert_eq!(render_command(&vec![]), "");
}

#[test]
fn render_numbers_lists_issues() {
    assert_eq!(render_numbers(&vec![]), "none");
    assert_eq!(render_numbers(&vec![4]), "#4");
    assert_eq!(render_numbers(&vec![4, 15]), "#4, #15");
}

#[test]
fn pr_agent_recommendations_block_on_failures_and_reviews() {
    let pr = pr_fixture(
        Some("mergeable"),
        "unstable",
        Some("changes_requested"),
        vec![check("completed", Some("failure"))],
        threads(2, 2, 0, true),
    );
    let diagnostics = vec![PrAgentDiagnostic {
        source: "gh-pr-view".to_string(),
        severity: PrAgentSeverity::Error,
        message: "missing permission".to_string(),
        command: None,
        exit_code: Some(1),
        at: CHECKED_AT.to_string(),
    }];

    let action_ids = ids(&pr, &diagnostics);
    assert!(action_ids.iter().any(|id| id == "resolve_state_collection_errors"));
    assert!(action_ids.iter().any(|id| id == "diagnose_failed_checks"));
    assert!(action_ids.iter().any(|id| id == "process_review_threads"));
    assert!(action_ids.iter().any(|id| id == "process_requested_changes"));
}

#[test]
fn pr_agent_recommendations_identify_clean_merge_ready_state() {
    let pr = pr_fixture(
        Some("mergeable"),
        "clean",
        Some("approved"),
        vec![check("completed", Some("success"))],
        threads(0, 1, 1, true),
    );

    let actions = recommend_pr_agent_actions(&pr, &vec![]);
    assert_eq!(actions.len(), 1);
    assert_eq!(actions[0].id, "merge_when_policy_allows");
    assert_eq!(actions[0].priority, PrAgentActionPriority::Ready);
}

#[test]
fn pr_agent_recommendations_do_not_mark_review_required_or_unknown_merge_ready() {
    let mut pr = pr_fixture(
        Some("unknown"),
        "unknown",
        Some("review_required"),
        vec![check("completed", Some("success"))],
        threads(0, 1, 1, true),
    );

    let action_ids = ids(&pr, &vec![]);
    assert!(action_ids.iter().any(|id| id == "wait_for_required_review"));
    assert!(action_ids.iter().any(|id| id == "wait_for_mergeability"));
    assert!(!action_ids.iter().any(|id| id == "merge_when_policy_allows"));

    pr.review_decision = Some("approved".to_string());
    pr.mergeable = None;
    let action_ids = ids(&pr, &vec![]);
    assert!(action_ids.iter().any(|id| id == "wait_for_mergeability"));
    assert!(!action_ids.iter().any(|id| id == "merge_when_policy_allows"));

    pr.review_decision = None;
    pr.mergeable = Some("mergeable".to_string());
    let action_ids = ids(&pr, &vec![]);
    assert!(action_ids.iter().any(|id| id == "refresh_review_decision"));
    assert!(!action_ids.iter().any(|id| id == "merge_when_policy_allows"));
}

#[test]
fn pr_agent_recommendations_require_explicit_check_conclusions() {
    let pr = pr_fixture(
        Some("mergeable"),
        "clean",
        Some("approved"),
        vec![check("completed", None)],
        threads(0, 1, 1, true),
    );

    let action_ids = ids(&pr, &vec![]);
    assert!(action_ids.iter().any(|id| id == "inspect_check_outcomes"));
    assert!(!action_ids.iter().any(|id| id == "merge_when_policy_allows"));
}

#[test]
fn pr_agent_summaries_count_checks_and_threads() {
    let pr = pr_fixture(
        Some("dirty"),
        "dirty",
        Some("commented"),
        vec![
            check("completed", Some("failure")),
            check("completed", Some("timed_out")),
            check("queued", None),
        ],
        threads(0, 0, 0, false),
    );
    let actions = recommend_pr_agent_actions(&pr, &vec![]);
    let summaries: Vec<(String, String)> = actions.iter().map(|a| (a.id.clone(), a.summary.clone())).collect();
    assert_eq!(
        summaries,
        vec![
            ("diagnose_failed_checks".to_string(), "Inspect 2 failed PR check(s)".to_string()),
            ("refresh_review_threads".to_string(), "Refresh authoritative review-thread state".to_string()),
            ("inspect_review_decision".to_string(), "Inspect review decision commented".to_string()),
            ("resolve_merge_conflict".to_string(), "Resolve merge conflict before merge".to_string()),
        ]
    );
}

#[test]
fn review_pack_remaining_text_parser_uses_review_count_not_exit_code() {
    assert_eq!(
        parse_review_pack_remaining("exit 0; unresolved_threads: 5").expect("parse count"),
        5
    );
    assert_eq!(
        parse_review_pack_remaining("0 unresolved threads").expect("parse prefix count"),
        0
    );
    assert!(
        parse_review_pack_remaining("exit 0; no review count").is_err(),
        "wrapper status without a review count must be rejected"
    );
}

#[test]
fn review_pack_remaining_reads_json_and_bare_counts() {
    assert_eq!(parse_review_pack_remaining("{\"unresolved\": 3}").unwrap(), 3);
    assert_eq!(parse_review_pack_remaining("{\"result\": {\"unresolved_threads\": 9}}").unwrap(), 9);
    assert_eq!(parse_review_pack_remaining("  42\n").unwrap(), 42);
    assert_eq!(
        parse_review_pack_remaining("nothing\nRemaining = 7 threads\n").unwrap(),
        7
    );
    assert_eq!(
        parse_review_pack_remaining("x").unwrap_err(),
        "review-pack remaining output did not include an unresolved count"
    );
}

#[test]
fn count_helpers_follow_str_parse() {
    assert_eq!(parse_u64("+12"), Some(12));
    assert_eq!(parse_u64("18446744073709551615"), Some(u64::MAX));
    assert_eq!(parse_u64("18446744073709551616"), None);
    assert_eq!(parse_u64(""), None);
    assert_eq!(parse_u64("1a"), None);
    assert_eq!(trailing_u64(" 12 "), Some(12));
    assert_eq!(trailing_u64("a 12"), None);
    assert_eq!(leading_u64_after_key(": - 8 left"), Some(8));
    assert_eq!(leading_u64_after_key(" none"), None);
    assert_eq!(review_pack_count_from_line("UNRESOLVED: 4"), Some(4));
    assert_eq!(review_pack_count_from_line("3 remaining"), Some(3));
    assert_eq!(review_pack_count_from_line("status ok"), None);
}

#[test]
fn pr_urls_give_repository_and_number() {
    let url = "https://github.com/BjornMelin/dev-skills/pull/46";
    assert_eq!(repository_from_pr_url(url).as_deref(), Some("BjornMelin/dev-skills"));
    assert_eq!(number_from_pr_url(url), Some(46));
    assert_eq!(repository_from_pr_url("https://github.com/o/r/issues/4"), None);
    assert_eq!(number_from_pr_url("https://github.com/o/r/pull/x"), None);
    assert_eq!(repository_from_pr_url("https://example.com/o/r/pull/4"), None);
    assert_eq!(repository_from_pr_url("https://github.com//r/pull/4"), None);
}

#[test]
fn merge_fields_refuse_conflicts() {
    let mut existing = Some("a/b".to_string());
    assert!(merge_pr_string_field(&mut existing, None, "repository").is_ok());
    assert_eq!(existing.as_deref(), Some("a/b"));
    assert_eq!(
        merge_pr_string_field(&mut existing, Some("c/d".to_string()), "repository").unwrap_err(),
        "conflicting PR repository: existing a/b, incoming c/d"
    );
    let mut number = None;
    assert!(merge_pr_number_field(&mut number, Some(5), "number").is_ok());
    assert_eq!(number, Some(5));
    assert_eq!(
        merge_pr_number_field(&mut number, Some(6), "number").unwrap_err(),
        "conflicting PR number: existing 5, incoming 6"
    );
}

#[test]
fn identity_is_taken_from_the_url_and_required_for_provider_sources() {
    let mut pr = pr_fixture(None, "clean", None, vec![], threads(0, 0, 0, false));
    pr.repository = None;
    pr.number = None;
    assert!(apply_pr_record_identity(&mut pr, PrRecordSourceKind::GhPrView, None, None).is_ok());
    assert_eq!(pr.repository.as_deref(), Some("BjornMelin/dev-skills"));
    assert_eq!(pr.number, Some(46));

    let mut bare = pr_fixture(None, "clean", None, vec![], threads(0, 0, 0, false));
    bare.url = None;
    bare.repository = None;
    bare.number = None;
    let error = apply_pr_record_identity(&mut bare, PrRecordSourceKind::GhReviews, None, None).unwrap_err();
    assert_eq!(
        error,
        "PR evidence source kind gh-reviews requires explicit PR identity; pass --repo and --number or provide a GitHub pull request URL"
    );
    assert!(apply_pr_record_identity(&mut bare, PrRecordSourceKind::Normalized, None, None).is_ok());
}

#[test]
fn provider_merge_keeps_stronger_evidence() {
    let existing = pr_fixture(Some("mergeable"), "clean", Some("approved"), vec![check("completed", Some("success"))], threads(1, 3, 2, true));
    let mut incoming = pr_fixture(None, "clean", Some("changes_requested"), vec![], threads(0, 0, 0, false));
    incoming.state = "unknown".to_string();
    incoming.mergeable = None;
    let merged = merge_provider_pr_evidence(existing.clone(), incoming.clone(), PrRecordSourceKind::GhReviews).unwrap();
    assert_eq!(merged.review_decision.as_deref(), Some("approved"));
    assert_eq!(merged.state, "open");
    assert_eq!(merged.checks.len(), 1);
    let merged = merge_provider_pr_evidence(existing.clone(), incoming.clone(), PrRecordSourceKind::GhPrView).unwrap();
    assert_eq!(merged.review_decision.as_deref(), Some("changes_requested"));
    assert_eq!(merged.checks.len(), 1);
    assert!(merged.review_threads.authoritative);
    let replaced = merge_provider_pr_evidence(existing.clone(), incoming.clone(), PrRecordSourceKind::Normalized).unwrap();
    assert_eq!(replaced, incoming);
    let mut other = incoming.clone();
    other.number = Some(47);
    assert_eq!(
        merge_provider_pr_evidence(existing, other, PrRecordSourceKind::GhPrChecks).unwrap_err(),
        "conflicting PR number: existing 46, incoming 47"
    );
}

#[test]
fn review_pack_merge_makes_threads_authoritative() {
    let existing = pr_fixture(None, "clean", None, vec![], threads(0, 4, 4, false));
    let mut incoming = pr_fixture(None, "clean", None, vec![], threads(2, 2, 0, true));
    incoming.state = "unknown".to_string();
    let merged = merge_provider_pr_evidence(existing, incoming, PrRecordSourceKind::ReviewPackRemaining).unwrap();
    assert_eq!(merged.review_threads.unresolved, 2);
    assert_eq!(merged.review_threads.total, 6);
    assert!(merged.review_threads.authoritative);
}

#[test]
fn pr_status_line_names_label_state_and_threads() {
    let pr = pr_fixture(None, "clean", None, vec![check("completed", None)], threads(3, 3, 0, true));
    assert_eq!(render_pr_label(&pr), "BjornMelin/dev-skills#46");
    assert_eq!(render_pr_status(&pr), "BjornMelin/dev-skills#46 open: 3 unresolved review thread(s), 1 check(s)");
    let mut unlinked = pr.clone();
    unlinked.repository = None;
    unlinked.number = None;
    assert_eq!(render_pr_label(&unlinked), "unlinked PR");
}

#[test]
fn status_names_round_trip() {
    for status in [
        CapsuleStatus::Active,
        CapsuleStatus::Blocked,
        CapsuleStatus::ReadyForPr,
        CapsuleStatus::InReview,
        CapsuleStatus::Merged,
        CapsuleStatus::Closed,
    ] {
        assert_eq!(CapsuleStatus::parse(status.as_str()), Some(status));
    }
    assert_eq!(CapsuleStatus::parse("ready-for-pr"), None);
    assert_eq!(PolicyProfile::parse("codex_dev_tui"), Some(PolicyProfile::CodexDevTui));
    assert_eq!(EvidenceKind::Ci.as_str(), "ci");
    assert_eq!(SubagentOutcomeStatus::parse("timed_out"), Some(SubagentOutcomeStatus::TimedOut));
    assert_eq!(SubagentDisposition::parse("maybe"), None);
    assert_eq!(SubagentSynthesisStatus::Partial.as_str(), "partial");
    assert_eq!(PrRecordSourceKind::ReviewPackRemaining.as_str(), "review-pack-remaining");
    assert_eq!(PrRecordSourceKind::default(), PrRecordSourceKind::Normalized);
}

#[test]
fn id_and_hash_rules_report_their_messages() {
    assert!(validate_stable_id("batch id", "batch-1.a:b_c").is_ok());
    assert_eq!(
        validate_stable_id("batch id", "bad id").unwrap_err(),
        "batch id may contain only ASCII letters, numbers, '.', ':', '_' or '-'"
    );
    assert_eq!(
        validate_stable_id("batch id", " ").unwrap_err(),
        "batch id must not be empty; batch id may contain only ASCII letters, numbers, '.', ':', '_' or '-'"
    );
    assert!(validate_role_name("code_critic2").is_ok());
    assert_eq!(validate_role_name("").unwrap_err(), "role must not be empty");
    assert_eq!(
        validate_role_name("Critic").unwrap_err(),
        "role \"Critic\" must start with a lowercase ASCII letter"
    );
    assert_eq!(validate_role_name("code-critic").unwrap_err(), "role \"code-critic\" must be snake_case");
    assert!(validate_capsule_id("2026-task_1").is_ok());
    assert_eq!(validate_capsule_id("").unwrap_err(), "capsule id must not be empty");
    assert_eq!(
        validate_capsule_id("../x").unwrap_err(),
        "capsule id must contain only ASCII letters, numbers, '-' or '_': ../x"
    );
    let mut errors = Vec::new();
    validate_prompt_hash("p", &stable_prompt_hash("hello"), &mut errors);
    assert!(errors.is_empty());
    validate_prompt_hash("p", "md5:abc", &mut errors);
    validate_prompt_hash("p", "sha256:ABC", &mut errors);
    assert_eq!(
        errors,
        vec![
            "p prompt_hash must start with sha256:".to_string(),
            "p prompt_hash must be sha256: followed by 64 lowercase hex characters".to_string(),
        ]
    );
}

#[test]
fn prompt_hash_is_sha256_of_the_prompt() {
    assert_eq!(
        stable_prompt_hash("abc"),
        "sha256:ba7816bf8f01cfea414140de5dae2223b00361a396177a9cb410ff61f20015ad"
    );
}

fn agent(role: &str, status: &str, disposition: Option<&str>, verified: bool, batch: &str, hash: &str) -> SubagentRecord {
    SubagentRecord {
        role: role.to_string(),
        task: "review".to_string(),
        status: status.to_string(),
        summary: "done".to_string(),
        prompt_id: Some(format!("{batch}:{role}")),
        prompt_hash: Some(hash.to_string()),
        disposition: disposition.map(str::to_string),
        human_verified: verified,
        source_ids: Vec::new(),
        artifacts: Vec::new(),
        updated_at: None,
    }
}

fn batch_fixture() -> SubagentBatch {
    let hash = stable_prompt_hash("review the code");
    SubagentBatch {
        id: "batch-1".to_string(),
        status: "completed".to_string(),
        task: Some("review".to_string()),
        mode: None,
        scope: None,
        wait_policy: None,
        rendezvous_required: None,
        registry_issues: Vec::new(),
        duplicate_roles_ignored: Vec::new(),
        prompts: vec![SubagentPromptRecord {
            role: "critic".to_string(),
            prompt_id: "batch-1:critic".to_string(),
            prompt_hash: hash.clone(),
        }],
        agents: vec![agent("critic", "completed", Some("accepted"), true, "batch-1", &hash)],
        synthesis: None,
        recorded_at: None,
        updated_at: None,
    }
}

#[test]
fn valid_subagents_ledger_has_no_errors() {
    let ledger = Subagents { schema: SUBAGENTS_SCHEMA.to_string(), batches: vec![batch_fixture()] };
    assert_eq!(validate_subagents_value(&ledger), Vec::<String>::new());
}

#[test]
fn subagents_ledger_errors_name_each_broken_rule() {
    let mut batch = batch_fixture();
    batch.agents[0].disposition = None;
    batch.agents[0].human_verified = false;
    batch.synthesis = Some(SubagentSynthesisRecord {
        status: "completed".to_string(),
        summary: "s".to_string(),
        human_verified: false,
        source_ids: Vec::new(),
        artifacts: vec!["out.md".to_string()],
        updated_at: CHECKED_AT.to_string(),
    });
    let ledger = Subagents { schema: "other".to_string(), batches: vec![batch.clone(), batch] };
    let errors = validate_subagents_value(&ledger);
    assert!(errors.contains(&"subagents.json schema must be codex-dev.subagents.v1".to_string()));
    assert!(errors.contains(&"subagents.json batches[1] duplicate batch id batch-1".to_string()));
    assert!(errors.contains(
        &"subagents.json batches[0] agents[0] terminal status requires a final human-verified disposition".to_string()
    ));
    assert!(errors.contains(&"subagents.json batches[0] completed batch has incomplete agent critic".to_string()));
    assert!(errors.contains(&"subagents.json batches[0] synthesis requires human_verified=true".to_string()));
    assert!(errors.contains(&"subagents.json batches[0] synthesis source_ids must include at least one value".to_string()));
    assert!(errors.contains(&"subagents.json batches[0] synthesis completed with incomplete agent critic".to_string()));
}

#[test]
fn subagents_ledger_reports_unpaired_roles() {
    let mut batch = batch_fixture();
    batch.prompts[0].role = "writer".to_string();
    batch.prompts[0].prompt_id = "batch-1:writer".to_string();
    let ledger = Subagents { schema: SUBAGENTS_SCHEMA.to_string(), batches: vec![batch] };
    let errors = validate_subagents_value(&ledger);
    assert!(errors.contains(&"subagents.json batches[0] prompt role writer has no matching agent".to_string()));
    assert!(errors.contains(&"subagents.json batches[0] agent role critic has no matching prompt".to_string()));
}

#[test]
fn batch_status_follows_agents() {
    let mut batch = batch_fixture();
    batch.agents.push(agent("writer", "running", None, false, "batch-1", "h"));
    refresh_batch_status(&mut batch);
    assert_eq!(batch.status, "active");
    batch.agents[1].status = "blocked".to_string();
    refresh_batch_status(&mut batch);
    assert_eq!(batch.status, "blocked");
    batch.agents[1].status = "completed".to_string();
    refresh_batch_status(&mut batch);
    assert_eq!(batch.status, "completed");
    apply_synthesis_status(&mut batch, SubagentSynthesisStatus::Partial);
    assert_eq!(batch.status, "partial");
    apply_synthesis_status(&mut batch, SubagentSynthesisStatus::Blocked);
    assert_eq!(batch.status, "blocked");
    batch.agents.clear();
    refresh_batch_status(&mut batch);
    assert_eq!(batch.status, "partial");
}

#[test]
fn outcome_and_synthesis_preconditions() {
    assert_eq!(
        validate_outcome_disposition(SubagentOutcomeStatus::Completed, SubagentDisposition::Pending).unwrap_err(),
        "terminal subagent outcomes require a final disposition"
    );
    assert!(validate_outcome_disposition(SubagentOutcomeStatus::Running, SubagentDisposition::Pending).is_ok());
    let mut batch = batch_fixture();
    assert!(ensure_completed_synthesis_ready(&batch).is_ok());
    batch.agents.push(agent("writer", "running", None, false, "batch-1", "h"));
    assert_eq!(
        ensure_completed_synthesis_ready(&batch).unwrap_err(),
        "completed synthesis requires terminal human-verified outcomes for every agent; incomplete roles: writer"
    );
    batch.agents.clear();
    assert_eq!(
        ensure_completed_synthesis_ready(&batch).unwrap_err(),
        "completed synthesis requires at least one planned agent"
    );
    assert_eq!(
        subagent_source_ids("b", "r", &vec!["x".to_string()]),
        vec!["subagents:b".to_string(), "subagent:b:r".to_string(), "x".to_string()]
    );
}

fn plan_role(name: &str) -> SubspawnPlanRole {
    SubspawnPlanRole {
        name: name.to_string(),
        description: None,
        model: None,
        path: None,
        reasoning: None,
        return_headings: Vec::new(),
        sandbox: None,
        source: None,
    }
}

#[test]
fn subspawn_plan_becomes_a_planned_batch() {
    let plan = SubspawnPlanInput {
        task: "Review the change".to_string(),
        mode: Some("parallel".to_string()),
        scope: None,
        scope_items: Vec::new(),
        wait_policy: None,
        rendezvous_required: Some(true),
        roles: vec![plan_role("critic"), plan_role("tester")],
        prompts: vec![
            SubspawnPlanPrompt { role: "tester".to_string(), prompt: "Run tests".to_string() },
            SubspawnPlanPrompt { role: "critic".to_string(), prompt: "Read diff".to_string() },
        ],
        registry_issues: Vec::new(),
        duplicate_roles_ignored: Vec::new(),
        synthesis_checklist: Vec::new(),
    };
    let batch = subspawn_plan_to_batch(plan, "b1", CHECKED_AT).expect("batch");
    assert_eq!(batch.status, "planned");
    assert_eq!(batch.prompts.len(), 2);
    assert_eq!(batch.prompts[0].role, "critic");
    assert_eq!(batch.prompts[0].prompt_id, "b1:critic");
    assert_eq!(batch.prompts[0].prompt_hash, stable_prompt_hash("Read diff"));
    assert_eq!(batch.agents[1].prompt_hash.as_deref(), Some(stable_prompt_hash("Run tests").as_str()));
    assert_eq!(batch.agents[1].summary, "planned by subspawn");
    assert_eq!(batch.recorded_at.as_deref(), Some(CHECKED_AT));
    let ledger = Subagents { schema: SUBAGENTS_SCHEMA.to_string(), batches: vec![batch] };
    let errors = validate_subagents_value(&ledger);
    assert!(errors.iter().all(|e| !e.contains("prompt")));
}

#[test]
fn subspawn_plan_refuses_invalid_and_incomplete_plans() {
    let invalid = SubspawnPlanInput {
        task: " ".to_string(),
        mode: None,
        scope: None,
        scope_items: Vec::new(),
        wait_policy: None,
        rendezvous_required: None,
        roles: Vec::new(),
        prompts: Vec::new(),
        registry_issues: Vec::new(),
        duplicate_roles_ignored: Vec::new(),
        synthesis_checklist: Vec::new(),
    };
    assert_eq!(
        subspawn_plan_to_batch(invalid, "b", CHECKED_AT).unwrap_err(),
        "invalid subspawn plan: task must not be empty; roles must not be empty"
    );
    let incomplete = SubspawnPlanInput {
        task: "t".to_string(),
        mode: None,
        scope: None,
        scope_items: Vec::new(),
        wait_policy: None,
        rendezvous_required: None,
        roles: vec![plan_role("critic")],
        prompts: Vec::new(),
        registry_issues: Vec::new(),
        duplicate_roles_ignored: Vec::new(),
        synthesis_checklist: Vec::new(),
    };
    assert_eq!(
        subspawn_plan_to_batch(incomplete, "b", CHECKED_AT).unwrap_err(),
        "missing prompt for role critic"
    );
}
