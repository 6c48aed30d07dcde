//! The task capsule: its records, its summary of evidence, and its markdown.
use vstd::prelude::*;

use crate::dev::kinds::{capsule_status_name, evidence_kind_name, CapsuleStatus, EvidenceKind, GateStatus, PolicyProfile};
use crate::dev::render::{numbers_text, render_numbers};
use crate::dev::time::{display_utc, utc_display};
use crate::text::{decimal, owned, push_all, push_decimal};

verus! {

/// The schema name of a capsule record.
pub const CAPSULE_SCHEMA: &'static str = "codex-dev.task-capsule.v1";

/// The schema name of an evidence record.
pub const EVIDENCE_SCHEMA: &'static str = "codex-dev.evidence.v1";

/// The schema name of the verification record.
pub const VERIFICATION_SCHEMA: &'static str = "codex-dev.verification.v1";

/// The schema name of a policy manifest.
pub const POLICY_GATES_SCHEMA: &'static str = "codex-dev.policy-gates.v1";

/// The identity and intent of a task.
#[derive(Clone, Debug, PartialEq, Eq)]
pub struct Capsule {
    pub schema: String,
    pub id: String,
    pub title: String,
    pub status: CapsuleStatus,
    pub objective: String,
    pub branch: String,
    pub base_branch: String,
    pub issues: Vec<u64>,
    pub pull_requests: Vec<u64>,
    /// When the capsule was created (RFC 3339).
    pub created_at: String,
    /// When the capsule last changed (RFC 3339).
    pub updated_at: String,
}

/// One entry of the evidence ledger.
#[derive(Clone, Debug, PartialEq, Eq)]
pub struct EvidenceRecord {
    pub schema: String,
    pub kind: EvidenceKind,
    /// When the evidence was recorded (RFC 3339).
    pub at: String,
    pub summary: String,
    pub command: Option<String>,
    pub exit_code: Option<i32>,
    pub source_ids: Vec<String>,
    pub actor: Option<String>,
    pub tool: Option<String>,
    pub confidence: Option<u8>,
    pub residual_risk: Option<String>,
    pub artifacts: Vec<String>,
}

/// The evidence of one kind: how many records, and the latest.
#[derive(Clone, Debug, PartialEq, Eq)]
pub struct EvidenceKindSummary {
    pub kind: EvidenceKind,
    pub count: u64,
    /// When the latest record was made (RFC 3339).
    pub latest_at: String,
    pub latest_summary: String,
}

/// The evidence ledger in brief.
#[derive(Clone, Debug, PartialEq, Eq)]
pub struct EvidenceSummary {
    pub total: u64,
    pub by_kind: Vec<EvidenceKindSummary>,
}

/// One gate of the verification record.
#[derive(Clone, Debug, PartialEq, Eq)]
pub struct GateRecord {
    pub name: String,
    pub command: String,
    pub status: String,
}

/// The verification record of a capsule.
#[derive(Clone, Debug, PartialEq, Eq)]
pub struct Verification {
    pub schema: String,
    pub required: Vec<GateRecord>,
    pub optional: Vec<GateRecord>,
    /// When the gates were last checked (RFC 3339).
    pub last_checked_at: String,
}

/// One gate of a policy manifest.
#[derive(Clone, Debug, PartialEq, Eq)]
pub struct PolicyGate {
    pub id: String,
    pub name: String,
    pub command: Vec<String>,
    pub source: String,
    pub working_directory: String,
    pub required_tools: Vec<String>,
    pub required: bool,
    pub network: bool,
    pub secrets: bool,
    pub failure_interpretation: String,
}

/// The gates a capsule's policy runs.
#[derive(Clone, Debug, PartialEq, Eq)]
pub struct PolicyManifest {
    pub schema: String,
    pub profile: PolicyProfile,
    /// When the manifest was generated (RFC 3339).
    pub generated_at: String,
    pub gates: Vec<PolicyGate>,
}

/// The outcome of one gate of a policy run.
#[derive(Clone, Debug, PartialEq, Eq)]
pub struct PolicyGateResult {
    pub id: String,
    pub name: String,
    pub command: String,
    pub required: bool,
    pub status: GateStatus,
    pub exit_code: Option<i32>,
    pub error: Option<String>,
    pub stdout: Option<String>,
    pub stderr: Option<String>,
}

/// The outcome of a policy run.
#[derive(Clone, Debug, PartialEq, Eq)]
pub struct PolicyRunResult {
    pub capsule: String,
    pub repo_root: Option<String>,
    pub profile: PolicyProfile,
    pub dry_run: bool,
    pub passed: bool,
    pub gates: Vec<PolicyGateResult>,
    pub verification_path: String,
    pub evidence_path: String,
}

/// One command of a PR control plan.
#[derive(Clone, Debug, PartialEq, Eq)]
pub struct PrControlCommand {
    pub id: String,
    pub name: String,
    pub command: Vec<String>,
    pub source: String,
    pub required: bool,
    pub network: bool,
    pub secrets: bool,
    pub manual_input: Option<String>,
}

/// A hosted action the PR agent may take.
#[derive(Clone, Debug, PartialEq, Eq)]
pub struct PrAgentHostedActionSpec {
    pub id: String,
    pub kind: String,
    pub summary: String,
    pub reason: String,
    pub target: String,
    pub idempotency_key: String,
    pub command: Vec<String>,
    pub duplicate_check_command: Vec<String>,
    pub state_check_command: Vec<String>,
    pub requires_apply: bool,
    pub network: bool,
    pub secrets: bool,
    pub permission_notes: Vec<String>,
}

/// A check as the readiness report shows it.
#[derive(Clone, Debug, PartialEq, Eq)]
pub struct PrAgentReadinessCheck {
    pub name: String,
    pub status: String,
    pub conclusion: Option<String>,
    pub url: Option<String>,
    pub run_id: Option<u64>,
    pub diagnostic_command: String,
}

/// An action of the readiness loop.
#[derive(Clone, Debug, PartialEq, Eq)]
pub struct PrAgentReadinessAction {
    pub id: String,
    pub kind: String,
    pub status: crate::dev::kinds::PrAgentReadinessActionStatus,
    pub reason: String,
    pub command: Vec<String>,
    pub exit_code: Option<i32>,
    pub stdout: Option<String>,
    pub stderr: Option<String>,
}

/// Whether a capsule is valid, and why not.
#[derive(Clone, Debug, PartialEq, Eq)]
pub struct ValidationResult {
    pub path: String,
    pub valid: bool,
    pub errors: Vec<String>,
}

/// What the status of a capsule reports.
#[derive(Clone, Debug, PartialEq, Eq)]
pub struct StatusResult {
    pub path: String,
    pub id: String,
    pub title: String,
    pub status: CapsuleStatus,
    pub objective: String,
    pub branch: String,
    pub base_branch: String,
    pub issues: Vec<u64>,
    pub pull_requests: Vec<u64>,
    /// When the capsule last changed (RFC 3339).
    pub updated_at: String,
    pub evidence: EvidenceSummary,
}

/// A capsule rendered as markdown.
#[derive(Clone, Debug, PartialEq, Eq)]
pub struct RenderResult {
    pub path: String,
    pub markdown: String,
}

/// How a time is shown in markdown: as `chrono` displays it, or as recorded
/// when it does not parse.
pub open spec fn shown_time(t: Seq<char>) -> Seq<char> {
    match utc_display(t) {
        Some(d) => d,
        None => t,
    }
}

/// The markdown line for the evidence of one kind.
pub open spec fn kind_line(k: EvidenceKindSummary) -> Seq<char> {
    "- `"@ + evidence_kind_name(k.kind) + "`: "@ + decimal(k.count as nat) + " record(s); latest `"@
        + shown_time(k.latest_at@) + "` - "@ + k.latest_summary@ + "\n"@
}

/// The markdown lines for the evidence of each kind, in order.
pub open spec fn kind_lines(ks: Seq<EvidenceKindSummary>) -> Seq<char>
    decreases ks.len(),
{
    if ks.len() == 0 {
        seq![]
    } else {
        kind_lines(ks.drop_last()) + kind_line(ks.last())
    }
}

/// The markdown summary of a capsule.
pub open spec fn capsule_markdown(s: StatusResult) -> Seq<char> {
    "# "@ + s.title@ + "\n\n"@
        + "- Status: `"@ + capsule_status_name(s.status) + "`\n"@
        + "- Capsule: `"@ + s.id@ + "`\n"@
        + "- Branch: `"@ + s.branch@ + "`\n"@
        + "- Base branch: `"@ + s.base_branch@ + "`\n"@
        + "- Issues: "@ + numbers_text(s.issues@) + "\n"@
        + "- Pull requests: "@ + numbers_text(s.pull_requests@) + "\n"@
        + "\n## Evidence\n\n"@
        + "- Total records: "@ + decimal(s.evidence.total as nat) + "\n"@
        + kind_lines(s.evidence.by_kind@)
        + "\n## Objective\n\n"@
        + s.objective@ + "\n"@
}

/// Renders the markdown summary of the capsule at `path` from its status.
pub fn render_capsule(path: &str, status: &StatusResult) -> (r: RenderResult)
    ensures
        r.path@ == path@,
        r.markdown@ == capsule_markdown(*status),
{
    let mut m = owned("# ");
    push_all(&mut m, status.title.as_str());
    push_all(&mut m, "\n\n");
    push_all(&mut m, "- Status: `");
    push_all(&mut m, status.status.as_str());
    push_all(&mut m, "`\n");
    push_all(&mut m, "- Capsule: `");
    push_all(&mut m, status.id.as_str());
    push_all(&mut m, "`\n");
    push_all(&mut m, "- Branch: `");
    push_all(&mut m, status.branch.as_str());
    push_all(&mut m, "`\n");
    push_all(&mut m, "- Base branch: `");
    push_all(&mut m, status.base_branch.as_str());
    push_all(&mut m, "`\n");
    push_all(&mut m, "- Issues: ");
    push_all(&mut m, render_numbers(&status.issues).as_str());
    push_all(&mut m, "\n");
    push_all(&mut m, "- Pull requests: ");
    push_all(&mut m, render_numbers(&status.pull_requests).as_str());
    push_all(&mut m, "\n");
    push_all(&mut m, "\n## Evidence\n\n");
    push_all(&mut m, "- Total records: ");
    push_decimal(&mut m, status.evidence.total);
    push_all(&mut m, "\n");
    let ghost head = m@;
    let ks = &status.evidence.by_kind;
    let mut i: usize = 0;
    while i < ks.len()
        invariant
            i <= ks@.len(),
            m@ == head + kind_lines(ks@.take(i as int)),
        decreases ks@.len() - i,
    {
        let k = &ks[i];
        push_all(&mut m, "- `");
        push_all(&mut m, k.kind.as_str());
        push_all(&mut m, "`: ");
        push_decimal(&mut m, k.count);
        push_all(&mut m, " record(s); latest `");
        match display_utc(k.latest_at.as_str()) {
            Some(d) => push_all(&mut m, d.as_str()),
            None => push_all(&mut m, k.latest_at.as_str()),
        }
        push_all(&mut m, "` - ");
        push_all(&mut m, k.latest_summary.as_str());
        push_all(&mut m, "\n");
        proof {
            let t = ks@.take(i + 1);
            assert(t.drop_last() =~= ks@.take(i as int));
            assert(m@ =~= head + kind_lines(t));
        }
        i = i + 1;
    }
    assert(ks@.take(ks@.len() as int) =~= ks@);
    push_all(&mut m, "\n## Objective\n\n");
    push_all(&mut m, status.objective.as_str());
    push_all(&mut m, "\n");
    assert(m@ =~= capsule_markdown(*status));
    RenderResult { path: owned(path), markdown: m }
}

} // verus!
