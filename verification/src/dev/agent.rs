//! What the PR agent recommends doing next with a pull request.
use vstd::prelude::*;

use crate::audit_gate::str_eq;
use crate::dev::kinds::{PrAgentActionPriority, PrAgentSeverity};
use crate::dev::pr::{CheckRecord, PrAgentAction, PrAgentDiagnostic, PrEvidence};
use crate::text::{decimal, owned, push_all, push_decimal};

verus! {

/// An action as its id, priority, summary and reason.
pub type ActionView = (Seq<char>, PrAgentActionPriority, Seq<char>, Seq<char>);

/// The view of one action.
pub open spec fn action_view(a: PrAgentAction) -> ActionView {
    (a.id@, a.priority, a.summary@, a.reason@)
}

/// The views of a list of actions.
pub open spec fn action_views(v: Seq<PrAgentAction>) -> Seq<ActionView> {
    v.map_values(|a: PrAgentAction| action_view(a))
}

/// Whether an optional text equals one of the given values.
pub open spec fn opt_is(o: Option<String>, x: Seq<char>) -> bool {
    o matches Some(v) && v@ == x
}

/// A check whose conclusion is a failure.
pub open spec fn check_failed(c: CheckRecord) -> bool {
    opt_is(c.conclusion, "failure"@) || opt_is(c.conclusion, "error"@) || opt_is(c.conclusion, "cancelled"@)
        || opt_is(c.conclusion, "canceled"@) || opt_is(c.conclusion, "timed_out"@)
}

/// A check that has not finished.
pub open spec fn check_pending(c: CheckRecord) -> bool {
    c.status@ == "pending"@ || c.status@ == "queued"@ || c.status@ == "in_progress"@
}

/// A finished check without a conclusion.
pub open spec fn check_unknown(c: CheckRecord) -> bool {
    c.status@ == "completed"@ && c.conclusion is None
}

/// A finished check that does not block merging.
pub open spec fn check_clean(c: CheckRecord) -> bool {
    c.status@ == "completed"@ && (opt_is(c.conclusion, "success"@) || opt_is(c.conclusion, "neutral"@)
        || opt_is(c.conclusion, "skipped"@))
}

/// How many of the checks satisfy `f`.
pub open spec fn count_checks(cs: Seq<CheckRecord>, f: spec_fn(CheckRecord) -> bool) -> nat
    decreases cs.len(),
{
    if cs.len() == 0 {
        0
    } else {
        count_checks(cs.drop_last(), f) + if f(cs.last()) { 1nat } else { 0nat }
    }
}

/// The actions owed to the state of the checks and diagnostics.
pub open spec fn check_actions(pr: PrEvidence, any_error: bool) -> Seq<ActionView> {
    let failed = count_checks(pr.checks@, |c: CheckRecord| check_failed(c));
    let pending = count_checks(pr.checks@, |c: CheckRecord| check_pending(c));
    let unknown = count_checks(pr.checks@, |c: CheckRecord| check_unknown(c));
    (if any_error {
        seq![("resolve_state_collection_errors"@, PrAgentActionPriority::Blocked,
            "Resolve PR state collection errors before hosted action"@,
            "one or more required hosted-state sources failed to capture or normalize"@)]
    } else {
        seq![]
    }) + (if failed > 0 {
        seq![("diagnose_failed_checks"@, PrAgentActionPriority::Required,
            "Inspect "@ + decimal(failed) + " failed PR check(s)"@,
            "checks must be understood before review cleanup or merge"@)]
    } else {
        seq![]
    }) + (if pending > 0 && failed == 0 {
        seq![("wait_for_checks"@, PrAgentActionPriority::Wait,
            "Wait for "@ + decimal(pending) + " pending PR check(s)"@,
            "CI state is not final yet"@)]
    } else {
        seq![]
    }) + (if unknown > 0 {
        seq![("inspect_check_outcomes"@, PrAgentActionPriority::Required,
            "Inspect "@ + decimal(unknown) + " check(s) with unknown outcome"@,
            "completed checks require an explicit success, neutral, or skipped conclusion before merge"@)]
    } else {
        seq![]
    })
}

/// The action owed to the review threads.
pub open spec fn thread_actions(pr: PrEvidence) -> Seq<ActionView> {
    if pr.review_threads.authoritative && pr.review_threads.unresolved > 0 {
        seq![("process_review_threads"@, PrAgentActionPriority::Required,
            "Process "@ + decimal(pr.review_threads.unresolved as nat) + " unresolved review thread(s)"@,
            "hosted review threads are authoritative and not clean"@)]
    } else if !pr.review_threads.authoritative {
        seq![("refresh_review_threads"@, PrAgentActionPriority::Info,
            "Refresh authoritative review-thread state"@,
            "current review-thread source is partial or missing pagination closure"@)]
    } else {
        seq![]
    }
}

/// The action owed to the review decision.
pub open spec fn decision_actions(pr: PrEvidence) -> Seq<ActionView> {
    match pr.review_decision {
        Some(d) => if d@ == "changes_requested"@ {
            seq![("process_requested_changes"@, PrAgentActionPriority::Required,
                "Address or rebut requested changes"@, "latest review decision is changes_requested"@)]
        } else if d@ == "review_required"@ {
            seq![("wait_for_required_review"@, PrAgentActionPriority::Wait,
                "Wait for required approving review"@, "latest review decision is review_required"@)]
        } else if d@ == "approved"@ {
            seq![]
        } else {
            seq![("inspect_review_decision"@, PrAgentActionPriority::Info,
                "Inspect review decision "@ + d@, "review decision is not explicitly approved"@)]
        },
        None => seq![("refresh_review_decision"@, PrAgentActionPriority::Wait,
            "Refresh review decision before merge"@, "merge readiness requires an explicit review decision"@)],
    }
}

/// The action owed to GitHub's mergeability.
pub open spec fn mergeable_actions(pr: PrEvidence) -> Seq<ActionView> {
    match pr.mergeable {
        Some(m) => if m@ == "mergeable"@ || m@ == "clean"@ {
            seq![]
        } else if m@ == "conflicting"@ || m@ == "dirty"@ {
            seq![("resolve_merge_conflict"@, PrAgentActionPriority::Required,
                "Resolve merge conflict before merge"@,
                "GitHub reports the pull request is not cleanly mergeable"@)]
        } else if m@ == "unknown"@ {
            seq![("wait_for_mergeability"@, PrAgentActionPriority::Wait,
                "Wait for GitHub mergeability state"@, "GitHub mergeability is not yet known"@)]
        } else {
            seq![("inspect_mergeability"@, PrAgentActionPriority::Required,
                "Inspect mergeability state "@ + m@, "GitHub reports a non-clean mergeability state"@)]
        },
        None => seq![("wait_for_mergeability"@, PrAgentActionPriority::Wait,
            "Wait for GitHub mergeability state"@, "GitHub mergeability is not yet known"@)],
    }
}

/// Whether the pull request is clean for a policy-controlled merge.
pub open spec fn merge_ready(pr: PrEvidence) -> bool {
    &&& pr.state@ == "open"@
    &&& forall|i: int| 0 <= i < pr.checks@.len() ==> check_clean(#[trigger] pr.checks@[i])
    &&& count_checks(pr.checks@, |c: CheckRecord| check_unknown(c)) == 0
    &&& pr.review_threads.authoritative
    &&& pr.review_threads.unresolved == 0
    &&& opt_is(pr.review_decision, "approved"@)
    &&& (opt_is(pr.mergeable, "mergeable"@) || opt_is(pr.mergeable, "clean"@))
}

/// The actions recommended for a pull request, given whether a diagnostic is an
/// error: blockers and requirements first, the merge only when nothing else is owed.
pub open spec fn recommended_actions(pr: PrEvidence, any_error: bool) -> Seq<ActionView> {
    let pre = check_actions(pr, any_error) + thread_actions(pr) + decision_actions(pr) + mergeable_actions(pr)
        + (if pr.state@ == "draft"@ {
        seq![("mark_ready_when_complete"@, PrAgentActionPriority::Info,
            "Mark draft PR ready when local gates are complete"@,
            "draft pull requests do not enter the normal review-to-merge path"@)]
    } else {
        seq![]
    });
    pre + if pre.len() == 0 && merge_ready(pr) {
        seq![("merge_when_policy_allows"@, PrAgentActionPriority::Ready,
            "PR state is clean for policy-controlled merge"@,
            "checks, review threads, review decision, and mergeability have no blocking state"@)]
    } else {
        seq![]
    }
}

/// Whether some diagnostic is an error.
pub open spec fn any_error_diagnostic(ds: Seq<PrAgentDiagnostic>) -> bool {
    exists|i: int| 0 <= i < ds.len() && #[trigger] ds[i].severity == PrAgentSeverity::Error
}

/// Appends one action.
fn push_action(
    actions: &mut Vec<PrAgentAction>,
    id: &str,
    priority: PrAgentActionPriority,
    summary: String,
    reason: &str,
)
    ensures
        action_views(final(actions)@) == action_views(old(actions)@).push((id@, priority, summary@, reason@)),
{
    let ghost before = actions@;
    actions.push(PrAgentAction { id: owned(id), priority, summary, reason: owned(reason) });
    assert(action_views(actions@) =~= action_views(before).push((id@, priority, summary@, reason@)));
}

/// `prefix`, the decimal `n`, then `suffix`.
fn counted(prefix: &str, n: u64, suffix: &str) -> (r: String)
    ensures
        r@ == prefix@ + decimal(n as nat) + suffix@,
{
    let mut m = owned(prefix);
    push_decimal(&mut m, n);
    push_all(&mut m, suffix);
    m
}

/// Whether an optional text equals `x`.
fn opt_eq(o: &Option<String>, x: &str) -> (r: bool)
    ensures
        r == opt_is(*o, x@),
{
    match o {
        Some(v) => str_eq(v.as_str(), x),
        None => false,
    }
}

/// Counts the failed, pending, unknown-outcome and not-clean checks.
fn tally_checks(cs: &Vec<CheckRecord>) -> (r: (u64, u64, u64, bool))
    ensures
        r.0 == count_checks(cs@, |c: CheckRecord| check_failed(c)),
        r.1 == count_checks(cs@, |c: CheckRecord| check_pending(c)),
        r.2 == count_checks(cs@, |c: CheckRecord| check_unknown(c)),
        r.3 == forall|i: int| 0 <= i < cs@.len() ==> check_clean(#[trigger] cs@[i]),
{
    let mut failed: u64 = 0;
    let mut pending: u64 = 0;
    let mut unknown: u64 = 0;
    let mut clean = true;
    let mut i: usize = 0;
    while i < cs.len()
        invariant
            i <= cs@.len(),
            failed == count_checks(cs@.take(i as int), |c: CheckRecord| check_failed(c)),
            pending == count_checks(cs@.take(i as int), |c: CheckRecord| check_pending(c)),
            unknown == count_checks(cs@.take(i as int), |c: CheckRecord| check_unknown(c)),
            failed <= i && pending <= i && unknown <= i,
            clean == forall|j: int| 0 <= j < i ==> check_clean(#[trigger] cs@[j]),
        decreases cs@.len() - i,
    {
        let c = &cs[i];
        proof {
            let t = cs@.take(i + 1);
            assert(t.drop_last() =~= cs@.take(i as int));
            assert(t.last() == cs@[i as int]);
        }
        let conc = &c.conclusion;
        if opt_eq(conc, "failure") || opt_eq(conc, "error") || opt_eq(conc, "cancelled")
            || opt_eq(conc, "canceled") || opt_eq(conc, "timed_out") {
            failed = failed + 1;
        }
        let st = c.status.as_str();
        if str_eq(st, "pending") || str_eq(st, "queued") || str_eq(st, "in_progress") {
            pending = pending + 1;
        }
        let completed = str_eq(st, "completed");
        if completed && conc.is_none() {
            unknown = unknown + 1;
        }
        if !(completed && (opt_eq(conc, "success") || opt_eq(conc, "neutral") || opt_eq(conc, "skipped"))) {
            clean = false;
        }
        i = i + 1;
    }
    assert(cs@.take(cs@.len() as int) =~= cs@);
    (failed, pending, unknown, clean)
}

/// Appends the actions owed to the checks and diagnostics.
fn push_check_actions(actions: &mut Vec<PrAgentAction>, pr: &PrEvidence, any_error: bool) -> (r: (u64, bool))
    ensures
        action_views(final(actions)@) == action_views(old(actions)@) + check_actions(*pr, any_error),
        r.0 == count_checks(pr.checks@, |c: CheckRecord| check_unknown(c)),
        r.1 == forall|i: int| 0 <= i < pr.checks@.len() ==> check_clean(#[trigger] pr.checks@[i]),
{
    let ghost start = action_views(actions@);
    if any_error {
        push_action(actions, "resolve_state_collection_errors", PrAgentActionPriority::Blocked,
            owned("Resolve PR state collection errors before hosted action"),
            "one or more required hosted-state sources failed to capture or normalize");
    }
    let (failed, pending, unknown, all_clean) = tally_checks(&pr.checks);
    if failed > 0 {
        push_action(actions, "diagnose_failed_checks", PrAgentActionPriority::Required,
            counted("Inspect ", failed, " failed PR check(s)"),
            "checks must be understood before review cleanup or merge");
    }
    if pending > 0 && failed == 0 {
        push_action(actions, "wait_for_checks", PrAgentActionPriority::Wait,
            counted("Wait for ", pending, " pending PR check(s)"), "CI state is not final yet");
    }
    if unknown > 0 {
        push_action(actions, "inspect_check_outcomes", PrAgentActionPriority::Required,
            counted("Inspect ", unknown, " check(s) with unknown outcome"),
            "completed checks require an explicit success, neutral, or skipped conclusion before merge");
    }
    assert(action_views(actions@) =~= start + check_actions(*pr, any_error));
    (unknown, all_clean)
}

/// Appends the action owed to the review threads.
fn push_thread_actions(actions: &mut Vec<PrAgentAction>, pr: &PrEvidence)
    ensures
        action_views(final(actions)@) == action_views(old(actions)@) + thread_actions(*pr),
{
    let ghost start = action_views(actions@);
    let rt = &pr.review_threads;
    if rt.authoritative && rt.unresolved > 0 {
        push_action(actions, "process_review_threads", PrAgentActionPriority::Required,
            counted("Process ", rt.unresolved, " unresolved review thread(s)"),
            "hosted review threads are authoritative and not clean");
    } else if !rt.authoritative {
        push_action(actions, "refresh_review_threads", PrAgentActionPriority::Info,
            owned("Refresh authoritative review-thread state"),
            "current review-thread source is partial or missing pagination closure");
    }
    assert(action_views(actions@) =~= start + thread_actions(*pr));
}

/// Appends the action owed to the review decision; tells whether it is approved.
fn push_decision_actions(actions: &mut Vec<PrAgentAction>, pr: &PrEvidence) -> (ready: bool)
    ensures
        action_views(final(actions)@) == action_views(old(actions)@) + decision_actions(*pr),
        ready == opt_is(pr.review_decision, "approved"@),
{
    let ghost start = action_views(actions@);
    proof {
        reveal_strlit("approved");
        reveal_strlit("changes_requested");
        reveal_strlit("review_required");
        assert("approved"@.len() != "changes_requested"@.len());
        assert("approved"@.len() != "review_required"@.len());
    }
    let ready = match &pr.review_decision {
        Some(d) => {
            let d = d.as_str();
            if str_eq(d, "changes_requested") {
                push_action(actions, "process_requested_changes", PrAgentActionPriority::Required,
                    owned("Address or rebut requested changes"),
                    "latest review decision is changes_requested");
                false
            } else if str_eq(d, "review_required") {
                push_action(actions, "wait_for_required_review", PrAgentActionPriority::Wait,
                    owned("Wait for required approving review"),
                    "latest review decision is review_required");
                false
            } else if str_eq(d, "approved") {
                true
            } else {
                let mut m = owned("Inspect review decision ");
                push_all(&mut m, d);
                push_action(actions, "inspect_review_decision", PrAgentActionPriority::Info, m,
                    "review decision is not explicitly approved");
                false
            }
        },
        None => {
            push_action(actions, "refresh_review_decision", PrAgentActionPriority::Wait,
                owned("Refresh review decision before merge"),
                "merge readiness requires an explicit review decision");
            false
        },
    };
    assert(action_views(actions@) =~= start + decision_actions(*pr));
    ready
}

/// Appends the action owed to mergeability; tells whether it is clean.
fn push_mergeable_actions(actions: &mut Vec<PrAgentAction>, pr: &PrEvidence) -> (ready: bool)
    ensures
        action_views(final(actions)@) == action_views(old(actions)@) + mergeable_actions(*pr),
        ready == (opt_is(pr.mergeable, "mergeable"@) || opt_is(pr.mergeable, "clean"@)),
{
    let ghost start = action_views(actions@);
    let ready = match &pr.mergeable {
        Some(m) => {
            let m = m.as_str();
            if str_eq(m, "mergeable") || str_eq(m, "clean") {
                true
            } else if str_eq(m, "conflicting") || str_eq(m, "dirty") {
                push_action(actions, "resolve_merge_conflict", PrAgentActionPriority::Required,
                    owned("Resolve merge conflict before merge"),
                    "GitHub reports the pull request is not cleanly mergeable");
                false
            } else if str_eq(m, "unknown") {
                push_action(actions, "wait_for_mergeability", PrAgentActionPriority::Wait,
                    owned("Wait for GitHub mergeability state"), "GitHub mergeability is not yet known");
                false
            } else {
                let mut s = owned("Inspect mergeability state ");
                push_all(&mut s, m);
                push_action(actions, "inspect_mergeability", PrAgentActionPriority::Required, s,
                    "GitHub reports a non-clean mergeability state");
                false
            }
        },
        None => {
            push_action(actions, "wait_for_mergeability", PrAgentActionPriority::Wait,
                owned("Wait for GitHub mergeability state"), "GitHub mergeability is not yet known");
            false
        },
    };
    assert(action_views(actions@) =~= start + mergeable_actions(*pr));
    ready
}

/// The actions the PR agent recommends for a pull request, given the
/// diagnostics of collecting its state.
pub fn recommend_pr_agent_actions(pr: &PrEvidence, diagnostics: &Vec<PrAgentDiagnostic>) -> (r: Vec<PrAgentAction>)
    ensures
        action_views(r@) == recommended_actions(*pr, any_error_diagnostic(diagnostics@)),
{
    let mut actions: Vec<PrAgentAction> = Vec::new();
    let mut any_error = false;
    let mut i: usize = 0;
    while i < diagnostics.len()
        invariant
            i <= diagnostics@.len(),
            any_error == exists|j: int| 0 <= j < i && #[trigger] diagnostics@[j].severity == PrAgentSeverity::Error,
        decreases diagnostics@.len() - i,
    {
        match diagnostics[i].severity {
            PrAgentSeverity::Error => {
                any_error = true;
            },
            _ => {},
        }
        i = i + 1;
    }
    assert(action_views(actions@) =~= seq![]);
    let (unknown, all_clean) = push_check_actions(&mut actions, pr, any_error);
    push_thread_actions(&mut actions, pr);
    let decision_ready = push_decision_actions(&mut actions, pr);
    let mergeable_ready = push_mergeable_actions(&mut actions, pr);
    let ghost before_draft = action_views(actions@);
    if str_eq(pr.state.as_str(), "draft") {
        push_action(&mut actions, "mark_ready_when_complete", PrAgentActionPriority::Info,
            owned("Mark draft PR ready when local gates are complete"),
            "draft pull requests do not enter the normal review-to-merge path");
    }
    let ghost pre = action_views(actions@);
    let rt = &pr.review_threads;
    if actions.len() == 0 && str_eq(pr.state.as_str(), "open") && all_clean && unknown == 0
        && rt.authoritative && rt.unresolved == 0 && decision_ready && mergeable_ready {
        push_action(&mut actions, "merge_when_policy_allows", PrAgentActionPriority::Ready,
            owned("PR state is clean for policy-controlled merge"),
            "checks, review threads, review decision, and mergeability have no blocking state");
    }
    proof {
        assert(pre.len() == (if pre.len() == 0 { 0 } else { pre.len() }));
        assert(action_views(actions@) =~= recommended_actions(*pr, any_error));
    }
    actions
}

} // verus!
