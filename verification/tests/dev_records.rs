use dev_skills::dev::capsule::{
    Capsule, EvidenceRecord, EvidenceSummary, PolicyGate, PolicyManifest, StatusResult, POLICY_GATES_SCHEMA,
};
use dev_skills::dev::init::{init_target, plan_init_capsule, slugify, InitArgs, InitTarget};
use dev_skills::dev::kinds::{
    CapsuleStatus, EvidenceKind, PolicyProfile, SubagentDisposition, SubagentOutcomeStatus, SubagentSynthesisStatus,
};
use dev_skills::dev::plan::{subspawn_plan_to_batch, SubspawnPlanInput, SubspawnPlanPrompt, SubspawnPlanRole};
use dev_skills::dev::record::{
    record_evidence, record_subagent_outcome, record_subagent_plan, record_subagent_synthesis, touch_capsule,
    SubagentOutcome, SubagentSynthesis,
};
use dev_skills::dev::subagents::{Subagents, SUBAGENTS_SCHEMA};
use dev_skills::dev::summary::summarize_evidence;
use dev_skills::dev::tasks::{
    task_export_check, task_index_entry, task_index_report, task_root_problem, validate_task_root_for_selector,
    PathState, TaskEntryProbe, TASK_INDEX_SCHEMA,
};

const CREATED_AT: &str = "2026-05-09T04:00:00Z";

fn policy() -> PolicyManifest {
    PolicyManifest {
        schema: POLICY_GATES_SCHEMA.to_string(),
        profile: PolicyProfile::CodexDev,
        generated_at: CREATED_AT.to_string(),
        gates: vec![PolicyGate {
            id: "test-gate".to_string(),
            name: "Test gate".to_string(),
            command: vec!["cargo".to_string(), "test".to_string()],
            source: "fixture".to_string(),
            working_directory: ".".to_string(),
            required_tools: vec!["cargo".to_string()],
            required: true,
            network: false,
            secrets: false,
            failure_interpretation: "tests failed".to_string(),
        }],
    }
}

fn init_args(root: &str) -> InitArgs {
    InitArgs {
        title: "Build capsule CLI".to_string(),
        objective: "Create task capsules".to_string(),
        branch: "feat/codex-dev-task-capsules".to_string(),
        base_branch: "main".to_string(),
        issues: vec![22],
        pull_requests: Vec::new(),
        root: root.to_string(),
        slug: Some("capsule-cli".to_string()),
        id: Some("20260509-040000-capsule-cli".to_string()),
        status: CapsuleStatus::Active,
        created_at: CREATED_AT.to_string(),
        policy_manifest: policy(),
        force: false,
    }
}

#[test]
fn init_rejects_unsafe_capsule_ids() {
    let mut args = init_args("/tmp/root");
    args.id = Some("../escape".to_string());
    let error = plan_init_capsule(args).expect_err("unsafe id rejected");
    assert!(error.contains("capsule id"), "{error}");
}

#[test]
fn init_creates_valid_capsule_layout() {
    let plan = plan_init_capsule(init_args("/tmp/root")).expect("plan");
    assert_eq!(plan.path, "/tmp/root/20260509-040000-capsule-cli");
    assert_eq!(plan.capsule.id, "20260509-040000-capsule-cli");
    assert_eq!(plan.capsule.status, CapsuleStatus::Active);
    assert_eq!(plan.capsule.issues, vec![22]);
    assert_eq!(plan.capsule.created_at, CREATED_AT);
    assert_eq!(plan.evidence.kind, EvidenceKind::Manual);
    assert_eq!(plan.pr.state, "not_created");
    assert_eq!(plan.subagents.schema, SUBAGENTS_SCHEMA);
    assert!(plan.files.iter().any(|f| f == "capsule.json"));
    assert!(plan.files.iter().any(|f| f == "evidence.jsonl"));
}

#[test]
fn init_ids_come_from_the_time_and_slug() {
    let mut args = init_args("/r");
    args.id = None;
    args.slug = None;
    let plan = plan_init_capsule(args).expect("plan");
    assert_eq!(plan.capsule.id, "20260509-040000-build-capsule-cli");
    assert_eq!(slugify("  Hello, World!  "), "hello-world");
    assert_eq!(slugify("***"), "task");
}

#[test]
fn init_target_refuses_existing_paths_without_force() {
    assert_eq!(init_target("/r/x", false, false, false, false), Ok(InitTarget::Fresh));
    assert_eq!(init_target("/r/x", true, false, false, true), Err("capsule already exists: /r/x".to_string()));
    assert_eq!(init_target("/r/x", true, true, false, true), Ok(InitTarget::ReplaceDirectory));
    assert_eq!(init_target("/r/x", true, true, false, false), Ok(InitTarget::ReplaceFile));
    assert!(init_target("/r/x", true, true, true, false).is_err());
}

fn capsule() -> Capsule {
    Capsule {
        schema: "codex-dev.capsule.v1".to_string(),
        id: "c1".to_string(),
        title: "T".to_string(),
        status: CapsuleStatus::Active,
        objective: "O".to_string(),
        branch: "b".to_string(),
        base_branch: "main".to_string(),
        issues: vec![],
        pull_requests: vec![],
        created_at: CREATED_AT.to_string(),
        updated_at: "2026-05-09T05:00:00Z".to_string(),
    }
}

#[test]
fn append_evidence_keeps_capsule_updated_at_monotonic() {
    let mut c = capsule();
    touch_capsule(&mut c, "2026-05-09T04:30:00Z").unwrap();
    assert_eq!(c.updated_at, "2026-05-09T05:00:00Z");
    touch_capsule(&mut c, "2026-05-09T06:00:00Z").unwrap();
    assert_eq!(c.updated_at, "2026-05-09T06:00:00Z");
    assert_eq!(touch_capsule(&mut c, "not a time"), Err("invalid timestamp: not a time".to_string()));
}

fn evidence(kind: EvidenceKind, at: &str, summary: &str) -> EvidenceRecord {
    EvidenceRecord {
        schema: "codex-dev.evidence.v1".to_string(),
        kind,
        at: at.to_string(),
        summary: summary.to_string(),
        command: None,
        exit_code: None,
        source_ids: vec![],
        actor: None,
        tool: None,
        confidence: None,
        residual_risk: None,
        artifacts: vec![],
    }
}

#[test]
fn append_evidence_rejects_invalid_records_before_writing() {
    let bad = evidence(EvidenceKind::Command, "2026-05-09T06:00:00Z", " ");
    assert!(record_evidence(capsule(), &bad).is_err());
    let good = evidence(EvidenceKind::Command, "2026-05-09T06:00:00Z", "tests passed");
    let c = record_evidence(capsule(), &good).expect("recorded");
    assert_eq!(c.updated_at, "2026-05-09T06:00:00Z");
}

#[test]
fn evidence_summary_counts_per_kind() {
    let records = vec![
        evidence(EvidenceKind::Command, "2026-05-09T06:00:00Z", "first"),
        evidence(EvidenceKind::Decision, "2026-05-09T05:00:00Z", "plan"),
        evidence(EvidenceKind::Command, "2026-05-09T07:00:00Z", "second"),
    ];
    let s: EvidenceSummary = summarize_evidence(&records);
    assert_eq!(s.total, 3);
    let test = s.by_kind.iter().find(|k| k.kind == EvidenceKind::Command).unwrap();
    assert_eq!(test.count, 2);
    assert_eq!(test.latest_summary, "second");
}

fn planned_ledger() -> Subagents {
    let role = SubspawnPlanRole {
        name: "critic".to_string(),
        description: None,
        model: None,
        path: None,
        reasoning: None,
        return_headings: Vec::new(),
        sandbox: None,
        source: None,
    };
    let plan = SubspawnPlanInput {
        task: "review batch".to_string(),
        mode: None,
        scope: None,
        scope_items: Vec::new(),
        wait_policy: None,
        rendezvous_required: None,
        roles: vec![role],
        prompts: vec![SubspawnPlanPrompt { role: "critic".to_string(), prompt: "Review it".to_string() }],
        registry_issues: Vec::new(),
        duplicate_roles_ignored: Vec::new(),
        synthesis_checklist: Vec::new(),
    };
    let batch = subspawn_plan_to_batch(plan, "review", "2026-05-09T05:00:00Z").expect("batch");
    let empty = Subagents { schema: SUBAGENTS_SCHEMA.to_string(), batches: vec![] };
    let (ledger, record) = record_subagent_plan(empty, batch, None, "plan.json", "2026-05-09T05:00:00Z").expect("plan");
    assert_eq!(record.kind, EvidenceKind::Subagent);
    ledger
}

fn outcome(status: SubagentOutcomeStatus, disposition: SubagentDisposition, verified: bool) -> SubagentOutcome {
    SubagentOutcome {
        batch_id: "review".to_string(),
        role: "critic".to_string(),
        status,
        disposition,
        human_verified: verified,
        summary: "looks good".to_string(),
        source_ids: vec!["critic:1".to_string()],
        artifacts: vec!["review-notes.md".to_string()],
        recorded_at: "2026-05-09T05:10:00Z".to_string(),
    }
}

#[test]
fn record_subagent_outcome_rejects_pending_terminal_disposition() {
    let error = record_subagent_outcome(
        planned_ledger(),
        &outcome(SubagentOutcomeStatus::Completed, SubagentDisposition::Pending, true),
    )
    .err()
    .expect("rejected");
    assert!(error.contains("terminal subagent outcomes require a final disposition"), "{error}");
}

#[test]
fn record_subagent_outcome_requires_human_verified_disposition() {
    let error = record_subagent_outcome(
        planned_ledger(),
        &outcome(SubagentOutcomeStatus::Completed, SubagentDisposition::Accepted, false),
    )
    .err()
    .expect("rejected");
    assert!(error.contains("human_verified must be set"), "{error}");
}

#[test]
fn record_subagent_blocked_outcome_marks_batch_blocked() {
    let done = record_subagent_outcome(
        planned_ledger(),
        &outcome(SubagentOutcomeStatus::Blocked, SubagentDisposition::Pending, true),
    )
    .ok()
    .expect("recorded");
    assert_eq!(done.subagents.batches[done.batch].status, "blocked");
    let synthesis = SubagentSynthesis {
        batch_id: "review".to_string(),
        status: SubagentSynthesisStatus::Partial,
        human_verified: true,
        summary: "blocked agent still needs user input".to_string(),
        source_ids: vec!["synthesis:review".to_string()],
        artifacts: vec!["review-summary.md".to_string()],
        recorded_at: "2026-05-09T05:20:00Z".to_string(),
    };
    let s = record_subagent_synthesis(done.subagents, &synthesis).ok().expect("synthesis");
    assert_eq!(s.subagents.batches[s.batch].status, "blocked");
}

#[test]
fn record_subagent_completed_synthesis_requires_verified_terminal_outcomes() {
    let synthesis = SubagentSynthesis {
        batch_id: "review".to_string(),
        status: SubagentSynthesisStatus::Completed,
        human_verified: true,
        summary: "all done".to_string(),
        source_ids: vec!["synthesis:review".to_string()],
        artifacts: vec![],
        recorded_at: "2026-05-09T05:20:00Z".to_string(),
    };
    assert!(record_subagent_synthesis(planned_ledger(), &synthesis).is_err());
}

fn status() -> StatusResult {
    StatusResult {
        path: "/tasks/a".to_string(),
        id: "a".to_string(),
        title: "A".to_string(),
        status: CapsuleStatus::Active,
        objective: "o".to_string(),
        branch: "b".to_string(),
        base_branch: "main".to_string(),
        issues: vec![],
        pull_requests: vec![],
        updated_at: CREATED_AT.to_string(),
        evidence: EvidenceSummary { total: 1, by_kind: vec![] },
    }
}

#[test]
fn task_index_lists_valid_and_invalid_task_entries() {
    let valid = task_index_entry("/tasks/a", TaskEntryProbe::Valid(status()));
    assert!(valid.valid);
    assert!(valid.errors.is_empty());
    let invalid = task_index_entry("/tasks/b", TaskEntryProbe::Invalid(vec!["missing capsule.json".to_string()]));
    assert!(!invalid.valid);
    let file = task_index_entry("/tasks/c.txt", TaskEntryProbe::NotDirectory);
    assert_eq!(file.errors, vec!["task entry is not a directory: /tasks/c.txt".to_string()]);
    let link = task_index_entry("/tasks/d", TaskEntryProbe::Symlink);
    assert_eq!(link.errors, vec!["refusing to scan symlinked task entry: /tasks/d".to_string()]);
    let report = task_index_report("/tasks", &PathState::Directory, vec![valid, invalid, file, link]);
    assert_eq!(report.schema, TASK_INDEX_SCHEMA);
    assert_eq!((report.total, report.valid, report.invalid), (4, 1, 3));
    assert!(report.diagnostics.is_empty());
}

#[test]
fn task_roots_that_cannot_be_scanned_are_diagnosed() {
    let missing = task_index_report("/nope", &PathState::Missing, vec![]);
    assert_eq!(missing.diagnostics, vec!["task root does not exist: /nope".to_string()]);
    assert_eq!(missing.total, 0);
    assert_eq!(
        task_root_problem("/r", &PathState::Unreadable("denied".to_string())).as_deref(),
        Some("failed to inspect task root /r: denied")
    );
    assert_eq!(
        validate_task_root_for_selector("/r", &PathState::Symlink),
        Err("refusing to scan symlinked task root: /r".to_string())
    );
    assert_eq!(validate_task_root_for_selector("/r", &PathState::Directory), Ok(()));
    assert_eq!(task_root_problem("/r", &PathState::NotDirectory).as_deref(), Some("task root is not a directory: /r"));
}

#[test]
fn task_export_refuses_invalid_capsules() {
    let bad = task_index_entry("/tasks/b", TaskEntryProbe::Invalid(vec!["e1".to_string(), "e2".to_string()]));
    assert_eq!(task_export_check(&bad), Err("invalid task capsule at /tasks/b: e1; e2".to_string()));
    let good = task_index_entry("/tasks/a", TaskEntryProbe::Valid(status()));
    assert_eq!(task_export_check(&good), Ok(()));
}
