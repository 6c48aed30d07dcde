//! Pull-request evidence: its records, how provider sources merge into it, and
//! how it is rendered.
use vstd::prelude::*;

use crate::audit_gate::str_eq;
use crate::dev::kinds::{PrAgentActionPriority, PrAgentSeverity, PrRecordSourceKind};
use crate::text::{decimal, owned, push_all, push_decimal};

verus! {

/// The schema name of pull-request evidence.
pub const PR_SCHEMA: &'static str = "codex-dev.pr.v1";

/// One CI check of a pull request.
#[derive(Clone, Debug, PartialEq, Eq)]
pub struct CheckRecord {
    pub name: String,
    pub status: String,
    pub conclusion: Option<String>,
    pub url: Option<String>,
    /// When the check was observed (RFC 3339).
    pub checked_at: String,
}

/// What is known of a pull request's review threads.
#[derive(Clone, Debug, PartialEq, Eq)]
pub struct ReviewThreadSummary {
    pub unresolved: u64,
    pub total: u64,
    pub resolved: u64,
    pub outdated: u64,
    pub authoritative: bool,
    /// When the threads were last checked (RFC 3339).
    pub last_checked_at: String,
}

/// Where a piece of pull-request evidence came from.
#[derive(Clone, Debug, PartialEq, Eq)]
pub struct PrEvidenceSource {
    pub kind: String,
    pub parser_version: String,
    /// When the source was retrieved (RFC 3339).
    pub retrieved_at: String,
    pub command: Option<String>,
    pub path: Option<String>,
}

/// Everything recorded about a task's pull request.
#[derive(Clone, Debug, PartialEq, Eq)]
pub struct PrEvidence {
    pub schema: String,
    pub repository: Option<String>,
    pub number: Option<u64>,
    pub url: Option<String>,
    pub state: String,
    pub is_draft: Option<bool>,
    pub mergeable: Option<String>,
    pub merge_state_status: Option<String>,
    pub review_decision: Option<String>,
    pub head_sha: Option<String>,
    pub head_ref_name: Option<String>,
    pub base_ref_name: Option<String>,
    pub base_ref_oid: Option<String>,
    pub checks: Vec<CheckRecord>,
    pub review_threads: ReviewThreadSummary,
    pub sources: Vec<PrEvidenceSource>,
}

/// A problem the PR agent met while collecting hosted state.
#[derive(Clone, Debug, PartialEq, Eq)]
pub struct PrAgentDiagnostic {
    pub source: String,
    pub severity: PrAgentSeverity,
    pub message: String,
    pub command: Option<String>,
    pub exit_code: Option<i32>,
    /// When the problem was met (RFC 3339).
    pub at: String,
}

/// An action the PR agent recommends.
#[derive(Debug, PartialEq, Eq)]
pub struct PrAgentAction {
    pub id: String,
    pub priority: PrAgentActionPriority,
    pub summary: String,
    pub reason: String,
}

/// Review threads that were not checked: all counts zero, not authoritative.
pub fn empty_review_threads(checked_at: &str) -> (r: ReviewThreadSummary)
    ensures
        r.unresolved == 0 && r.total == 0 && r.resolved == 0 && r.outdated == 0,
        !r.authoritative,
        r.last_checked_at@ == checked_at@,
{
    ReviewThreadSummary {
        unresolved: 0,
        total: 0,
        resolved: 0,
        outdated: 0,
        authoritative: false,
        last_checked_at: owned(checked_at),
    }
}

/// Evidence that carries only a state, checks and review threads.
pub fn partial_pr_evidence(state: &str, checks: Vec<CheckRecord>, review_threads: ReviewThreadSummary) -> (r: PrEvidence)
    ensures
        r.schema@ == PR_SCHEMA@,
        r.state@ == state@,
        r.checks == checks,
        r.review_threads == review_threads,
        r.repository is None && r.number is None && r.url is None,
        r.is_draft is None && r.mergeable is None && r.merge_state_status is None,
        r.review_decision is None && r.head_sha is None && r.head_ref_name is None,
        r.base_ref_name is None && r.base_ref_oid is None,
        r.sources@.len() == 0,
{
    PrEvidence {
        schema: owned(PR_SCHEMA),
        repository: None,
        number: None,
        url: None,
        state: owned(state),
        is_draft: None,
        mergeable: None,
        merge_state_status: None,
        review_decision: None,
        head_sha: None,
        head_ref_name: None,
        base_ref_name: None,
        base_ref_oid: None,
        checks,
        review_threads,
        sources: Vec::new(),
    }
}

/// The message for two different values of one PR field.
pub open spec fn conflict_message(field: Seq<char>, existing: Seq<char>, incoming: Seq<char>) -> Seq<char> {
    "conflicting PR "@ + field + ": existing "@ + existing + ", incoming "@ + incoming
}

/// Takes `incoming` into `existing` unless both are set and differ, which is refused.
pub fn merge_pr_string_field(existing: &mut Option<String>, incoming: Option<String>, field: &str) -> (r: Result<(), String>)
    ensures
        match (*old(existing), incoming) {
            (_, None) => r is Ok && *final(existing) == *old(existing),
            (Some(e), Some(i)) if e@ != i@ => (r matches Err(m) && m@ == conflict_message(field@, e@, i@))
                && *final(existing) == *old(existing),
            (_, Some(i)) => r is Ok && *final(existing) == Some(i),
        },
{
    let incoming = match incoming {
        Some(i) => i,
        None => return Ok(()),
    };
    match existing {
        Some(e) => {
            if !str_eq(e.as_str(), incoming.as_str()) {
                let mut m = owned("conflicting PR ");
                push_all(&mut m, field);
                push_all(&mut m, ": existing ");
                push_all(&mut m, e.as_str());
                push_all(&mut m, ", incoming ");
                push_all(&mut m, incoming.as_str());
                return Err(m);
            }
        },
        None => {},
    }
    *existing = Some(incoming);
    Ok(())
}

/// Takes `incoming` into `existing` unless both are set and differ, which is refused.
pub fn merge_pr_number_field(existing: &mut Option<u64>, incoming: Option<u64>, field: &str) -> (r: Result<(), String>)
    ensures
        match (*old(existing), incoming) {
            (_, None) => r is Ok && *final(existing) == *old(existing),
            (Some(e), Some(i)) if e != i => (r matches Err(m) && m@ == conflict_message(field@, decimal(e as nat), decimal(i as nat)))
                && *final(existing) == *old(existing),
            (_, Some(i)) => r is Ok && *final(existing) == Some(i),
        },
{
    let incoming = match incoming {
        Some(i) => i,
        None => return Ok(()),
    };
    match *existing {
        Some(e) => {
            if e != incoming {
                let mut m = owned("conflicting PR ");
                push_all(&mut m, field);
                push_all(&mut m, ": existing ");
                push_decimal(&mut m, e);
                push_all(&mut m, ", incoming ");
                push_decimal(&mut m, incoming);
                return Err(m);
            }
        },
        None => {},
    }
    *existing = Some(incoming);
    Ok(())
}

/// The largest of three counts.
pub open spec fn max3(a: int, b: int, c: int) -> int {
    let m = if a >= b { a } else { b };
    if m >= c { m } else { c }
}

/// The summary after a review-pack count: its unresolved count is taken, the
/// summary becomes authoritative, and the total never drops below the counts.
pub open spec fn pack_merged(e: ReviewThreadSummary, i: ReviewThreadSummary) -> ReviewThreadSummary {
    ReviewThreadSummary {
        unresolved: i.unresolved,
        total: max3(e.total as int, i.total as int, i.unresolved + e.resolved + e.outdated) as u64,
        resolved: e.resolved,
        outdated: e.outdated,
        authoritative: true,
        last_checked_at: i.last_checked_at,
    }
}

/// The summary after review comments: an authoritative summary only grows its
/// total; otherwise the comments bring the outdated count.
pub open spec fn comment_merged(e: ReviewThreadSummary, i: ReviewThreadSummary) -> ReviewThreadSummary {
    let outdated = if e.authoritative { e.outdated } else { i.outdated };
    ReviewThreadSummary {
        unresolved: e.unresolved,
        total: max3(e.total as int, i.total as int, e.unresolved + e.resolved + outdated) as u64,
        resolved: e.resolved,
        outdated,
        authoritative: e.authoritative || i.authoritative,
        last_checked_at: i.last_checked_at,
    }
}

/// Whether merging a review-pack count keeps the counts within `u64`.
pub open spec fn pack_merge_fits(e: ReviewThreadSummary, i: ReviewThreadSummary) -> bool {
    i.unresolved + e.resolved + e.outdated <= u64::MAX
}

/// Whether merging review comments keeps the counts within `u64`.
pub open spec fn comment_merge_fits(e: ReviewThreadSummary, i: ReviewThreadSummary) -> bool {
    e.unresolved + e.resolved + (if e.authoritative { e.outdated } else { i.outdated }) <= u64::MAX
}

/// Merges a review-pack count into the summary.
pub fn merge_review_pack_summary(existing: &mut ReviewThreadSummary, incoming: ReviewThreadSummary)
    requires
        pack_merge_fits(*old(existing), incoming),
    ensures
        *final(existing) == pack_merged(*old(existing), incoming),
{
    existing.unresolved = incoming.unresolved;
    let a = if existing.total >= incoming.total { existing.total } else { incoming.total };
    let c = existing.unresolved + existing.resolved + existing.outdated;
    existing.total = if a >= c { a } else { c };
    existing.authoritative = true;
    existing.last_checked_at = incoming.last_checked_at;
}

/// Merges the summary of review comments into the summary.
pub fn merge_review_comment_summary(existing: &mut ReviewThreadSummary, incoming: ReviewThreadSummary)
    requires
        comment_merge_fits(*old(existing), incoming),
    ensures
        *final(existing) == comment_merged(*old(existing), incoming),
{
    if existing.authoritative {
        let a = if existing.total >= incoming.total { existing.total } else { incoming.total };
        let c = existing.unresolved + existing.resolved + existing.outdated;
        existing.total = if a >= c { a } else { c };
        existing.last_checked_at = incoming.last_checked_at;
        return;
    }
    existing.outdated = incoming.outdated;
    let a = if existing.total >= incoming.total { existing.total } else { incoming.total };
    let c = existing.unresolved + existing.resolved + existing.outdated;
    existing.total = if a >= c { a } else { c };
    existing.authoritative = existing.authoritative || incoming.authoritative;
    existing.last_checked_at = incoming.last_checked_at;
}

/// The label of a pull request: `repo#n`, `#n`, the repository, or `unlinked PR`.
pub open spec fn pr_label(repository: Option<String>, number: Option<u64>) -> Seq<char> {
    match (repository, number) {
        (Some(r), Some(n)) => r@ + "#"@ + decimal(n as nat),
        (None, Some(n)) => "#"@ + decimal(n as nat),
        (Some(r), None) => r@,
        (None, None) => "unlinked PR"@,
    }
}

/// The label of the pull request.
pub fn render_pr_label(pr: &PrEvidence) -> (r: String)
    ensures
        r@ == pr_label(pr.repository, pr.number),
{
    match (&pr.repository, pr.number) {
        (Some(repository), Some(number)) => {
            let mut m = repository.clone();
            push_all(&mut m, "#");
            push_decimal(&mut m, number);
            m
        },
        (None, Some(number)) => {
            let mut m = owned("#");
            push_decimal(&mut m, number);
            m
        },
        (Some(repository), None) => repository.clone(),
        (None, None) => owned("unlinked PR"),
    }
}

/// How the review threads read in a status line.
pub open spec fn review_threads_text(t: ReviewThreadSummary) -> Seq<char> {
    if t.authoritative {
        decimal(t.unresolved as nat) + " unresolved review thread(s)"@
    } else {
        "review threads not checked"@
    }
}

/// How the review threads read in a status line.
pub fn render_review_thread_summary(t: &ReviewThreadSummary) -> (r: String)
    ensures
        r@ == review_threads_text(*t),
{
    if t.authoritative {
        let mut m = String::new();
        push_decimal(&mut m, t.unresolved);
        push_all(&mut m, " unresolved review thread(s)");
        assert(m@ =~= review_threads_text(*t));
        m
    } else {
        owned("review threads not checked")
    }
}

/// The one-line status of a pull request.
pub open spec fn pr_status_line(pr: PrEvidence) -> Seq<char> {
    pr_label(pr.repository, pr.number) + " "@ + pr.state@ + ": "@ + review_threads_text(pr.review_threads)
        + ", "@ + decimal(pr.checks@.len()) + " check(s)"@
}

/// The one-line status of a pull request: label, state, review threads, checks.
pub fn render_pr_status(pr: &PrEvidence) -> (r: String)
    ensures
        r@ == pr_status_line(*pr),
{
    let mut m = render_pr_label(pr);
    push_all(&mut m, " ");
    push_all(&mut m, pr.state.as_str());
    push_all(&mut m, ": ");
    push_all(&mut m, render_review_thread_summary(&pr.review_threads).as_str());
    push_all(&mut m, ", ");
    push_decimal(&mut m, pr.checks.len() as u64);
    push_all(&mut m, " check(s)");
    m
}

/// Whether a review state settles the decision on its own.
pub fn review_state_is_decisive(state: &str) -> (r: bool)
    ensures
        r == (state@ == "approved"@ || state@ == "changes_requested"@),
{
    str_eq(state, "approved") || str_eq(state, "changes_requested")
}

/// The review decision from each participant's latest state: changes requested if
/// any requests them, else approved if any approves, else commented if any
/// commented, else none.
pub open spec fn review_decision_of(states: Seq<Seq<char>>) -> Option<Seq<char>> {
    if states.contains("changes_requested"@) {
        Some("changes_requested"@)
    } else if states.contains("approved"@) {
        Some("approved"@)
    } else if states.contains("commented"@) {
        Some("commented"@)
    } else {
        None
    }
}

/// The review decision from each participant's latest state.
pub fn review_decision_from_reviewer_states(states: &Vec<String>) -> (r: Option<String>)
    ensures
        match (r, review_decision_of(crate::text::strs(states@))) {
            (Some(a), Some(b)) => a@ == b,
            (None, None) => true,
            _ => false,
        },
{
    let ghost st = crate::text::strs(states@);
    let mut approved = false;
    let mut commented = false;
    let mut i: usize = 0;
    while i < states.len()
        invariant
            st == crate::text::strs(states@),
            i <= states@.len(),
            forall|j: int| 0 <= j < i ==> st[j] != "changes_requested"@,
            approved == exists|j: int| 0 <= j < i && st[j] == "approved"@,
            commented == exists|j: int| 0 <= j < i && st[j] == "commented"@,
        decreases states@.len() - i,
    {
        let s = states[i].as_str();
        assert(st[i as int] == s@);
        if str_eq(s, "changes_requested") {
            assert(st.contains("changes_requested"@));
            return Some(owned("changes_requested"));
        }
        if str_eq(s, "approved") {
            approved = true;
        }
        if str_eq(s, "commented") {
            commented = true;
        }
        i = i + 1;
    }
    proof {
        if st.contains("approved"@) {
            let j = choose|j: int| 0 <= j < st.len() && st[j] == "approved"@;
            assert(st[j] == "approved"@);
        }
        if st.contains("commented"@) {
            let j = choose|j: int| 0 <= j < st.len() && st[j] == "commented"@;
            assert(st[j] == "commented"@);
        }
        if approved {
            let j = choose|j: int| 0 <= j < st.len() && st[j] == "approved"@;
            assert(st.contains(st[j]));
        }
        if commented {
            let j = choose|j: int| 0 <= j < st.len() && st[j] == "commented"@;
            assert(st.contains(st[j]));
        }
    }
    if approved {
        Some(owned("approved"))
    } else if commented {
        Some(owned("commented"))
    } else {
        None
    }
}

} // verus!
