//! The data model of the Bun platform auditor: findings, planned fixes and
//! release-sync reports.
use vstd::prelude::*;

verus! {

/// The Bun release the references and fixes were checked against.
pub const VERIFIED_BUN_VERSION: &'static str = "1.3.14";

/// Where the release notes of [`VERIFIED_BUN_VERSION`] are published.
pub const BUN_RELEASE_NOTES_URL: &'static str = "https://bun.com/blog/bun-v1.3.14";

/// Vercel's documentation of its Bun runtime.
pub const VERCEL_BUN_RUNTIME_URL: &'static str = "https://vercel.com/docs/functions/runtimes/bun";

/// Reference file holding the release-notes snapshot.
pub const REF_BUN_RELEASE_NOTES: &'static str = "ref-bun-release-notes-latest.md";

/// Reference file holding the capability map.
pub const REF_BUN_CAPABILITIES: &'static str = "ref-bun-capabilities-latest.md";

/// Reference file holding the CLI cheatsheet.
pub const REF_BUN_CLI: &'static str = "ref-bun-cli-cheatsheet.md";

/// Reference file holding the runtime API cheatsheet.
pub const REF_BUN_BUILTINS: &'static str = "ref-bun-builtins-cheatsheet.md";

/// Reference file holding the package-manager fallback lanes.
pub const REF_BUN_PM_FALLBACKS: &'static str = "ref-bun-package-manager-fallbacks.md";

/// Reference file holding the Vercel Bun runtime snapshot.
pub const REF_VERCEL_BUN_RUNTIME: &'static str = "ref-vercel-bun-runtime.md";

/// How serious a finding is.
#[derive(Clone, Copy, Debug, Eq, PartialEq, Structural)]
pub enum Severity {
    Error,
    Warn,
    Info,
}

/// The output formats the auditor renders.
#[derive(Clone, Copy, Debug, Eq, PartialEq, Structural)]
pub enum OutputFormat {
    Text,
    Json,
    Md,
}

/// How sure a detector is of a finding.
#[derive(Clone, Copy, Debug, Eq, PartialEq, Structural)]
pub enum Confidence {
    High,
    Medium,
    Low,
}

impl Default for Confidence {
    fn default() -> (r: Confidence)
        ensures
            r == Confidence::High,
    {
        Confidence::High
    }
}

/// Whether a fix can be applied without review.
#[derive(Clone, Copy, Debug, Eq, PartialEq, Structural)]
pub enum FixKind {
    Safe,
    Unsafe,
    Manual,
}

/// One audit finding.
#[derive(Clone, Debug, Eq, PartialEq)]
pub struct Finding {
    pub rule_id: String,
    pub category: String,
    pub severity: Severity,
    pub confidence: Confidence,
    pub file: String,
    pub line: usize,
    pub column: usize,
    pub message: String,
    pub why: Option<String>,
    pub suggested_fix: Option<String>,
    pub snippet: Option<String>,
    pub suppression_key: String,
}

/// A safe package.json rewrite plan. `rule_id` is the primary single-rule
/// identifier; `rule_ids` lists every rule one edit satisfies.
#[derive(Clone, Debug, Eq, PartialEq)]
pub struct PlannedFix {
    pub rule_id: String,
    pub rule_ids: Vec<String>,
    pub kind: FixKind,
    pub file: String,
    pub description: String,
    pub before: Option<String>,
    pub after: Option<String>,
}

/// How a release-notes capability relates to the rule set.
#[derive(Clone, Copy, Debug, Eq, PartialEq, Structural)]
pub enum CapabilityClassification {
    DocsOnly,
    CapabilityPresent,
    MissingRule,
}

/// A reference file and the hash of its content.
#[derive(Clone, Debug, Eq, PartialEq)]
pub struct ReleaseReference {
    pub file: String,
    pub hash: String,
}

/// One capability topic and how the rules cover it.
#[derive(Clone, Debug, Eq, PartialEq)]
pub struct CapabilityReport {
    pub topic: String,
    pub source: String,
    pub matched: bool,
    pub rules: Vec<String>,
    pub classification: CapabilityClassification,
}

/// The report a release sync writes.
#[derive(Clone, Debug, Eq, PartialEq)]
pub struct ReleaseSyncReport {
    pub synced_at: String,
    pub verified_bun_version: String,
    pub references: Vec<ReleaseReference>,
    pub capability_map: Vec<CapabilityReport>,
}

/// What a release sync would change, without changing it.
#[derive(Clone, Debug, Eq, PartialEq)]
pub struct ReleaseSyncPreview {
    pub checked_at: String,
    pub verified_bun_version: String,
    pub would_update: Vec<String>,
    pub unchanged: Vec<String>,
    pub integrity_ok: bool,
}

/// The rank of a severity: errors rank highest.
pub open spec fn severity_rank(s: Severity) -> nat {
    match s {
        Severity::Error => 3,
        Severity::Warn => 2,
        Severity::Info => 1,
    }
}

/// The upper-case label of a severity.
pub open spec fn severity_upper(s: Severity) -> Seq<char> {
    match s {
        Severity::Error => "ERROR"@,
        Severity::Warn => "WARN"@,
        Severity::Info => "INFO"@,
    }
}

impl Severity {
    /// The rank of this severity: 3 for errors, 2 for warnings, 1 for info.
    pub fn rank(self) -> (r: usize)
        ensures
            r == severity_rank(self),
    {
        match self {
            Severity::Error => 3,
            Severity::Warn => 2,
            Severity::Info => 1,
        }
    }

    /// The upper-case label of this severity.
    pub fn as_upper(self) -> (r: &'static str)
        ensures
            r@ == severity_upper(self),
    {
        match self {
            Severity::Error => "ERROR",
            Severity::Warn => "WARN",
            Severity::Info => "INFO",
        }
    }
}

/// Distinct severities have distinct ranks, so the rank orders them totally.
pub proof fn lemma_severity_rank_injective(a: Severity, b: Severity)
    ensures
        severity_rank(a) == severity_rank(b) <==> a == b,
{
}

} // verus!
