//! The closed vocabularies of the capsule contract and their wire names.
use vstd::prelude::*;

use crate::audit_gate::str_eq;

verus! {

/// Where a task capsule stands.
#[derive(Clone, Copy, Debug, PartialEq, Eq, Structural)]
pub enum CapsuleStatus {
    Active,
    Blocked,
    ReadyForPr,
    InReview,
    Merged,
    Closed,
}

/// The wire name of a capsule status.
pub open spec fn capsule_status_name(s: CapsuleStatus) -> Seq<char> {
    match s {
        CapsuleStatus::Active => "active"@,
        CapsuleStatus::Blocked => "blocked"@,
        CapsuleStatus::ReadyForPr => "ready_for_pr"@,
        CapsuleStatus::InReview => "in_review"@,
        CapsuleStatus::Merged => "merged"@,
        CapsuleStatus::Closed => "closed"@,
    }
}

impl CapsuleStatus {
    /// The wire name of this status.
    pub fn as_str(self) -> (r: &'static str)
        ensures
            r@ == capsule_status_name(self),
    {
        match self {
            CapsuleStatus::Active => "active",
            CapsuleStatus::Blocked => "blocked",
            CapsuleStatus::ReadyForPr => "ready_for_pr",
            CapsuleStatus::InReview => "in_review",
            CapsuleStatus::Merged => "merged",
            CapsuleStatus::Closed => "closed",
        }
    }

    /// The status with the given wire name.
    pub fn parse(value: &str) -> (r: Option<CapsuleStatus>)
        ensures
            r matches Some(s) ==> capsule_status_name(s) == value@,
            r is None ==> forall|s: CapsuleStatus| capsule_status_name(s) != value@,
    {
        if str_eq(value, "active") {
            Some(CapsuleStatus::Active)
        } else if str_eq(value, "blocked") {
            Some(CapsuleStatus::Blocked)
        } else if str_eq(value, "ready_for_pr") {
            Some(CapsuleStatus::ReadyForPr)
        } else if str_eq(value, "in_review") {
            Some(CapsuleStatus::InReview)
        } else if str_eq(value, "merged") {
            Some(CapsuleStatus::Merged)
        } else if str_eq(value, "closed") {
            Some(CapsuleStatus::Closed)
        } else {
            None
        }
    }
}

/// Distinct capsule statuses have distinct wire names, so parsing a name gives
/// back the status it names.
pub proof fn lemma_capsule_status_names_distinct()
    ensures
        forall|a: CapsuleStatus, b: CapsuleStatus|
            capsule_status_name(a) == capsule_status_name(b) ==> a == b,
{
    reveal_strlit("active");
    reveal_strlit("blocked");
    reveal_strlit("ready_for_pr");
    reveal_strlit("in_review");
    reveal_strlit("merged");
    reveal_strlit("closed");
    assert forall|a: CapsuleStatus, b: CapsuleStatus|
        capsule_status_name(a) == capsule_status_name(b) implies a == b by {
        let (x, y) = (capsule_status_name(a), capsule_status_name(b));
        assert(x.len() == y.len() && x[0] == y[0]);
    }
}

/// The profile of checks a capsule's policy runs.
#[derive(Clone, Copy, Debug, PartialEq, Eq, Structural)]
pub enum PolicyProfile {
    CodexDev,
    CodexDevTui,
    CodexResearch,
    Skills,
    BootstrapInstall,
    Docs,
    Release,
    FullLocal,
}

/// The wire name of a [`PolicyProfile`].
pub open spec fn policy_profile_name(s: PolicyProfile) -> Seq<char> {
    match s {
        PolicyProfile::CodexDev => "codex_dev"@,
        PolicyProfile::CodexDevTui => "codex_dev_tui"@,
        PolicyProfile::CodexResearch => "codex_research"@,
        PolicyProfile::Skills => "skills"@,
        PolicyProfile::BootstrapInstall => "bootstrap_install"@,
        PolicyProfile::Docs => "docs"@,
        PolicyProfile::Release => "release"@,
        PolicyProfile::FullLocal => "full_local"@,
    }
}

impl PolicyProfile {
    /// The wire name of this value.
    pub fn as_str(self) -> (r: &'static str)
        ensures
            r@ == policy_profile_name(self),
    {
        match self {
            PolicyProfile::CodexDev => "codex_dev",
            PolicyProfile::CodexDevTui => "codex_dev_tui",
            PolicyProfile::CodexResearch => "codex_research",
            PolicyProfile::Skills => "skills",
            PolicyProfile::BootstrapInstall => "bootstrap_install",
            PolicyProfile::Docs => "docs",
            PolicyProfile::Release => "release",
            PolicyProfile::FullLocal => "full_local",
        }
    }

    /// The value with the given wire name, if any.
    pub fn parse(value: &str) -> (r: Option<PolicyProfile>)
        ensures
            r matches Some(s) ==> policy_profile_name(s) == value@,
            r is None ==> forall|s: PolicyProfile| policy_profile_name(s) != value@,
    {
        if str_eq(value, "codex_dev") {
            Some(PolicyProfile::CodexDev)
        } else if str_eq(value, "codex_dev_tui") {
            Some(PolicyProfile::CodexDevTui)
        } else if str_eq(value, "codex_research") {
            Some(PolicyProfile::CodexResearch)
        } else if str_eq(value, "skills") {
            Some(PolicyProfile::Skills)
        } else if str_eq(value, "bootstrap_install") {
            Some(PolicyProfile::BootstrapInstall)
        } else if str_eq(value, "docs") {
            Some(PolicyProfile::Docs)
        } else if str_eq(value, "release") {
            Some(PolicyProfile::Release)
        } else if str_eq(value, "full_local") {
            Some(PolicyProfile::FullLocal)
        } else {
            None
        }
    }
}

/// Distinct values have distinct wire names, so parsing a name gives back
/// the value it names.
pub proof fn lemma_policy_profile_names_distinct()
    ensures
        forall|a: PolicyProfile, b: PolicyProfile| policy_profile_name(a) == policy_profile_name(b) ==> a == b,
{
    reveal_strlit("codex_dev");
    reveal_strlit("codex_dev_tui");
    reveal_strlit("codex_research");
    reveal_strlit("skills");
    reveal_strlit("bootstrap_install");
    reveal_strlit("docs");
    reveal_strlit("release");
    reveal_strlit("full_local");
    assert forall|a: PolicyProfile, b: PolicyProfile| policy_profile_name(a) == policy_profile_name(b) implies a == b by {
        let (x, y) = (policy_profile_name(a), policy_profile_name(b));
        assert(x.len() == y.len());
    }
}

/// What an evidence record attests.
#[derive(Clone, Copy, Debug, PartialEq, Eq, Structural, PartialOrd, Ord)]
pub enum EvidenceKind {
    Command,
    Subagent,
    Review,
    Ci,
    Decision,
    Research,
    Manual,
    Output,
}

/// The wire name of a [`EvidenceKind`].
pub open spec fn evidence_kind_name(s: EvidenceKind) -> Seq<char> {
    match s {
        EvidenceKind::Command => "command"@,
        EvidenceKind::Subagent => "subagent"@,
        EvidenceKind::Review => "review"@,
        EvidenceKind::Ci => "ci"@,
        EvidenceKind::Decision => "decision"@,
        EvidenceKind::Research => "research"@,
        EvidenceKind::Manual => "manual"@,
        EvidenceKind::Output => "output"@,
    }
}

impl EvidenceKind {
    /// The wire name of this value.
    pub fn as_str(self) -> (r: &'static str)
        ensures
            r@ == evidence_kind_name(self),
    {
        match self {
            EvidenceKind::Command => "command",
            EvidenceKind::Subagent => "subagent",
            EvidenceKind::Review => "review",
            EvidenceKind::Ci => "ci",
            EvidenceKind::Decision => "decision",
            EvidenceKind::Research => "research",
            EvidenceKind::Manual => "manual",
            EvidenceKind::Output => "output",
        }
    }

    /// The value with the given wire name, if any.
    pub fn parse(value: &str) -> (r: Option<EvidenceKind>)
        ensures
            r matches Some(s) ==> evidence_kind_name(s) == value@,
            r is None ==> forall|s: EvidenceKind| evidence_kind_name(s) != value@,
    {
        if str_eq(value, "command") {
            Some(EvidenceKind::Command)
        } else if str_eq(value, "subagent") {
            Some(EvidenceKind::Subagent)
        } else if str_eq(value, "review") {
            Some(EvidenceKind::Review)
        } else if str_eq(value, "ci") {
            Some(EvidenceKind::Ci)
        } else if str_eq(value, "decision") {
            Some(EvidenceKind::Decision)
        } else if str_eq(value, "research") {
            Some(EvidenceKind::Research)
        } else if str_eq(value, "manual") {
            Some(EvidenceKind::Manual)
        } else if str_eq(value, "output") {
            Some(EvidenceKind::Output)
        } else {
            None
        }
    }
}

/// Distinct values have distinct wire names, so parsing a name gives back
/// the value it names.
pub proof fn lemma_evidence_kind_names_distinct()
    ensures
        forall|a: EvidenceKind, b: EvidenceKind| evidence_kind_name(a) == evidence_kind_name(b) ==> a == b,
{
    reveal_strlit("command");
    reveal_strlit("subagent");
    reveal_strlit("review");
    reveal_strlit("ci");
    reveal_strlit("decision");
    reveal_strlit("research");
    reveal_strlit("manual");
    reveal_strlit("output");
    assert forall|a: EvidenceKind, b: EvidenceKind| evidence_kind_name(a) == evidence_kind_name(b) implies a == b by {
        let (x, y) = (evidence_kind_name(a), evidence_kind_name(b));
        assert(x.len() == y.len() && x[0] == y[0]);
    }
}

/// The outcome of one policy gate.
#[derive(Clone, Copy, Debug, PartialEq, Eq, Structural)]
pub enum GateStatus {
    Planned,
    Passed,
    Failed,
    Skipped,
}

/// The wire name of a [`GateStatus`].
pub open spec fn gate_status_name(s: GateStatus) -> Seq<char> {
    match s {
        GateStatus::Planned => "planned"@,
        GateStatus::Passed => "passed"@,
        GateStatus::Failed => "failed"@,
        GateStatus::Skipped => "skipped"@,
    }
}

impl GateStatus {
    /// The wire name of this value.
    pub fn as_str(self) -> (r: &'static str)
        ensures
            r@ == gate_status_name(self),
    {
        match self {
            GateStatus::Planned => "planned",
            GateStatus::Passed => "passed",
            GateStatus::Failed => "failed",
            GateStatus::Skipped => "skipped",
        }
    }
}

/// Distinct values have distinct wire names, so parsing a name gives back
/// the value it names.
pub proof fn lemma_gate_status_names_distinct()
    ensures
        forall|a: GateStatus, b: GateStatus| gate_status_name(a) == gate_status_name(b) ==> a == b,
{
    reveal_strlit("planned");
    reveal_strlit("passed");
    reveal_strlit("failed");
    reveal_strlit("skipped");
    assert forall|a: GateStatus, b: GateStatus| gate_status_name(a) == gate_status_name(b) implies a == b by {
        let (x, y) = (gate_status_name(a), gate_status_name(b));
        assert(x.len() == y.len() && x[0] == y[0]);
    }
}

/// Where a subagent's work stands.
#[derive(Clone, Copy, Debug, PartialEq, Eq, Structural)]
pub enum SubagentOutcomeStatus {
    Planned,
    Running,
    Completed,
    Failed,
    TimedOut,
    Closed,
    Blocked,
}

/// The wire name of a [`SubagentOutcomeStatus`].
pub open spec fn outcome_status_name(s: SubagentOutcomeStatus) -> Seq<char> {
    match s {
        SubagentOutcomeStatus::Planned => "planned"@,
        SubagentOutcomeStatus::Running => "running"@,
        SubagentOutcomeStatus::Completed => "completed"@,
        SubagentOutcomeStatus::Failed => "failed"@,
        SubagentOutcomeStatus::TimedOut => "timed_out"@,
        SubagentOutcomeStatus::Closed => "closed"@,
        SubagentOutcomeStatus::Blocked => "blocked"@,
    }
}

impl SubagentOutcomeStatus {
    /// The wire name of this value.
    pub fn as_str(self) -> (r: &'static str)
        ensures
            r@ == outcome_status_name(self),
    {
        match self {
            SubagentOutcomeStatus::Planned => "planned",
            SubagentOutcomeStatus::Running => "running",
            SubagentOutcomeStatus::Completed => "completed",
            SubagentOutcomeStatus::Failed => "failed",
            SubagentOutcomeStatus::TimedOut => "timed_out",
            SubagentOutcomeStatus::Closed => "closed",
            SubagentOutcomeStatus::Blocked => "blocked",
        }
    }

    /// The value with the given wire name, if any.
    pub fn parse(value: &str) -> (r: Option<SubagentOutcomeStatus>)
        ensures
            r matches Some(s) ==> outcome_status_name(s) == value@,
            r is None ==> forall|s: SubagentOutcomeStatus| outcome_status_name(s) != value@,
    {
        if str_eq(value, "planned") {
            Some(SubagentOutcomeStatus::Planned)
        } else if str_eq(value, "running") {
            Some(SubagentOutcomeStatus::Running)
        } else if str_eq(value, "completed") {
            Some(SubagentOutcomeStatus::Completed)
        } else if str_eq(value, "failed") {
            Some(SubagentOutcomeStatus::Failed)
        } else if str_eq(value, "timed_out") {
            Some(SubagentOutcomeStatus::TimedOut)
        } else if str_eq(value, "closed") {
            Some(SubagentOutcomeStatus::Closed)
        } else if str_eq(value, "blocked") {
            Some(SubagentOutcomeStatus::Blocked)
        } else {
            None
        }
    }
}

/// Distinct values have distinct wire names, so parsing a name gives back
/// the value it names.
pub proof fn lemma_outcome_status_names_distinct()
    ensures
        forall|a: SubagentOutcomeStatus, b: SubagentOutcomeStatus| outcome_status_name(a) == outcome_status_name(b) ==> a == b,
{
    reveal_strlit("planned");
    reveal_strlit("running");
    reveal_strlit("completed");
    reveal_strlit("failed");
    reveal_strlit("timed_out");
    reveal_strlit("closed");
    reveal_strlit("blocked");
    assert forall|a: SubagentOutcomeStatus, b: SubagentOutcomeStatus| outcome_status_name(a) == outcome_status_name(b) implies a == b by {
        let (x, y) = (outcome_status_name(a), outcome_status_name(b));
        assert(x.len() == y.len() && x[0] == y[0]);
    }
}

/// What a human made of a subagent's result.
#[derive(Clone, Copy, Debug, PartialEq, Eq, Structural)]
pub enum SubagentDisposition {
    Accepted,
    Rejected,
    Mixed,
    Informational,
    Pending,
}

/// The wire name of a [`SubagentDisposition`].
pub open spec fn disposition_name(s: SubagentDisposition) -> Seq<char> {
    match s {
        SubagentDisposition::Accepted => "accepted"@,
        SubagentDisposition::Rejected => "rejected"@,
        SubagentDisposition::Mixed => "mixed"@,
        SubagentDisposition::Informational => "informational"@,
        SubagentDisposition::Pending => "pending"@,
    }
}

impl SubagentDisposition {
    /// The wire name of this value.
    pub fn as_str(self) -> (r: &'static str)
        ensures
            r@ == disposition_name(self),
    {
        match self {
            SubagentDisposition::Accepted => "accepted",
            SubagentDisposition::Rejected => "rejected",
            SubagentDisposition::Mixed => "mixed",
            SubagentDisposition::Informational => "informational",
            SubagentDisposition::Pending => "pending",
        }
    }

    /// The value with the given wire name, if any.
    pub fn parse(value: &str) -> (r: Option<SubagentDisposition>)
        ensures
            r matches Some(s) ==> disposition_name(s) == value@,
            r is None ==> forall|s: SubagentDisposition| disposition_name(s) != value@,
    {
        if str_eq(value, "accepted") {
            Some(SubagentDisposition::Accepted)
        } else if str_eq(value, "rejected") {
            Some(SubagentDisposition::Rejected)
        } else if str_eq(value, "mixed") {
            Some(SubagentDisposition::Mixed)
        } else if str_eq(value, "informational") {
            Some(SubagentDisposition::Informational)
        } else if str_eq(value, "pending") {
            Some(SubagentDisposition::Pending)
        } else {
            None
        }
    }
}

/// Distinct values have distinct wire names, so parsing a name gives back
/// the value it names.
pub proof fn lemma_disposition_names_distinct()
    ensures
        forall|a: SubagentDisposition, b: SubagentDisposition| disposition_name(a) == disposition_name(b) ==> a == b,
{
    reveal_strlit("accepted");
    reveal_strlit("rejected");
    reveal_strlit("mixed");
    reveal_strlit("informational");
    reveal_strlit("pending");
    assert forall|a: SubagentDisposition, b: SubagentDisposition| disposition_name(a) == disposition_name(b) implies a == b by {
        let (x, y) = (disposition_name(a), disposition_name(b));
        assert(x.len() == y.len() && x[0] == y[0]);
    }
}

/// Where the synthesis of a batch stands.
#[derive(Clone, Copy, Debug, PartialEq, Eq, Structural)]
pub enum SubagentSynthesisStatus {
    Completed,
    Partial,
    Blocked,
}

/// The wire name of a [`SubagentSynthesisStatus`].
pub open spec fn synthesis_status_name(s: SubagentSynthesisStatus) -> Seq<char> {
    match s {
        SubagentSynthesisStatus::Completed => "completed"@,
        SubagentSynthesisStatus::Partial => "partial"@,
        SubagentSynthesisStatus::Blocked => "blocked"@,
    }
}

impl SubagentSynthesisStatus {
    /// The wire name of this value.
    pub fn as_str(self) -> (r: &'static str)
        ensures
            r@ == synthesis_status_name(self),
    {
        match self {
            SubagentSynthesisStatus::Completed => "completed",
            SubagentSynthesisStatus::Partial => "partial",
            SubagentSynthesisStatus::Blocked => "blocked",
        }
    }

    /// The value with the given wire name, if any.
    pub fn parse(value: &str) -> (r: Option<SubagentSynthesisStatus>)
        ensures
            r matches Some(s) ==> synthesis_status_name(s) == value@,
            r is None ==> forall|s: SubagentSynthesisStatus| synthesis_status_name(s) != value@,
    {
        if str_eq(value, "completed") {
            Some(SubagentSynthesisStatus::Completed)
        } else if str_eq(value, "partial") {
            Some(SubagentSynthesisStatus::Partial)
        } else if str_eq(value, "blocked") {
            Some(SubagentSynthesisStatus::Blocked)
        } else {
            None
        }
    }
}

/// Distinct values have distinct wire names, so parsing a name gives back
/// the value it names.
pub proof fn lemma_synthesis_status_names_distinct()
    ensures
        forall|a: SubagentSynthesisStatus, b: SubagentSynthesisStatus| synthesis_status_name(a) == synthesis_status_name(b) ==> a == b,
{
    reveal_strlit("completed");
    reveal_strlit("partial");
    reveal_strlit("blocked");
    assert forall|a: SubagentSynthesisStatus, b: SubagentSynthesisStatus| synthesis_status_name(a) == synthesis_status_name(b) implies a == b by {
        let (x, y) = (synthesis_status_name(a), synthesis_status_name(b));
        assert(x.len() == y.len() && x[0] == y[0]);
    }
}

/// The shape of a pull-request evidence source.
#[derive(Clone, Copy, Debug, PartialEq, Eq, Structural)]
pub enum PrRecordSourceKind {
    Normalized,
    GhPrView,
    GhPrChecks,
    GhReviews,
    GhReviewThreads,
    GhReviewComments,
    ReviewPackRemaining,
}

/// The wire name of a [`PrRecordSourceKind`].
pub open spec fn source_kind_name(s: PrRecordSourceKind) -> Seq<char> {
    match s {
        PrRecordSourceKind::Normalized => "normalized"@,
        PrRecordSourceKind::GhPrView => "gh-pr-view"@,
        PrRecordSourceKind::GhPrChecks => "gh-pr-checks"@,
        PrRecordSourceKind::GhReviews => "gh-reviews"@,
        PrRecordSourceKind::GhReviewThreads => "gh-review-threads"@,
        PrRecordSourceKind::GhReviewComments => "gh-review-comments"@,
        PrRecordSourceKind::ReviewPackRemaining => "review-pack-remaining"@,
    }
}

impl PrRecordSourceKind {
    /// The wire name of this value.
    pub fn as_str(self) -> (r: &'static str)
        ensures
            r@ == source_kind_name(self),
    {
        match self {
            PrRecordSourceKind::Normalized => "normalized",
            PrRecordSourceKind::GhPrView => "gh-pr-view",
            PrRecordSourceKind::GhPrChecks => "gh-pr-checks",
            PrRecordSourceKind::GhReviews => "gh-reviews",
            PrRecordSourceKind::GhReviewThreads => "gh-review-threads",
            PrRecordSourceKind::GhReviewComments => "gh-review-comments",
            PrRecordSourceKind::ReviewPackRemaining => "review-pack-remaining",
        }
    }

    /// The value with the given wire name, if any.
    pub fn parse(value: &str) -> (r: Option<PrRecordSourceKind>)
        ensures
            r matches Some(s) ==> source_kind_name(s) == value@,
            r is None ==> forall|s: PrRecordSourceKind| source_kind_name(s) != value@,
    {
        if str_eq(value, "normalized") {
            Some(PrRecordSourceKind::Normalized)
        } else if str_eq(value, "gh-pr-view") {
            Some(PrRecordSourceKind::GhPrView)
        } else if str_eq(value, "gh-pr-checks") {
            Some(PrRecordSourceKind::GhPrChecks)
        } else if str_eq(value, "gh-reviews") {
            Some(PrRecordSourceKind::GhReviews)
        } else if str_eq(value, "gh-review-threads") {
            Some(PrRecordSourceKind::GhReviewThreads)
        } else if str_eq(value, "gh-review-comments") {
            Some(PrRecordSourceKind::GhReviewComments)
        } else if str_eq(value, "review-pack-remaining") {
            Some(PrRecordSourceKind::ReviewPackRemaining)
        } else {
            None
        }
    }
}

/// Distinct values have distinct wire names, so parsing a name gives back
/// the value it names.
pub proof fn lemma_source_kind_names_distinct()
    ensures
        forall|a: PrRecordSourceKind, b: PrRecordSourceKind| source_kind_name(a) == source_kind_name(b) ==> a == b,
{
    reveal_strlit("normalized");
    reveal_strlit("gh-pr-view");
    reveal_strlit("gh-pr-checks");
    reveal_strlit("gh-reviews");
    reveal_strlit("gh-review-threads");
    reveal_strlit("gh-review-comments");
    reveal_strlit("review-pack-remaining");
    assert forall|a: PrRecordSourceKind, b: PrRecordSourceKind| source_kind_name(a) == source_kind_name(b) implies a == b by {
        let (x, y) = (source_kind_name(a), source_kind_name(b));
        assert(x.len() == y.len() && x[0] == y[0] && x[x.len() - 1] == y[y.len() - 1]);
    }
}

/// How a hosted PR action went.
#[derive(Clone, Copy, Debug, PartialEq, Eq, Structural)]
pub enum PrAgentHostedActionStatus {
    Applied,
    SkippedDuplicate,
    Failed,
}

/// Where a pull request stands on its way to merge.
#[derive(Clone, Copy, Debug, PartialEq, Eq, Structural)]
pub enum PrAgentReadinessStatus {
    Ready,
    Waiting,
    Blocked,
    Merged,
    Stopped,
}

/// How a readiness action went.
#[derive(Clone, Copy, Debug, PartialEq, Eq, Structural)]
pub enum PrAgentReadinessActionStatus {
    Planned,
    Applied,
    Skipped,
    Failed,
}

/// Whether a hosted-state source was captured.
#[derive(Clone, Copy, Debug, PartialEq, Eq, Structural)]
pub enum PrAgentSourceStatus {
    Captured,
    Failed,
    Skipped,
}

/// How serious a diagnostic of the PR agent is.
#[derive(Clone, Copy, Debug, PartialEq, Eq, Structural, PartialOrd, Ord)]
pub enum PrAgentSeverity {
    Info,
    Warning,
    Error,
}

/// How urgent a recommended PR action is.
#[derive(Clone, Copy, Debug, PartialEq, Eq, Structural)]
pub enum PrAgentActionPriority {
    Blocked,
    Required,
    Wait,
    Ready,
    Info,
}

impl Default for PrRecordSourceKind {
    fn default() -> (r: PrRecordSourceKind)
        ensures
            r == PrRecordSourceKind::Normalized,
    {
        PrRecordSourceKind::Normalized
    }
}

} // verus!
