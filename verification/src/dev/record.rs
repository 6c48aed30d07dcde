//! Recording into a capsule: a subagent's outcome, a batch's synthesis, a
//! plan's batch, and the evidence record that each leaves behind.
use vstd::prelude::*;

use crate::audit_gate::str_eq;
use crate::dev::capsule::{Capsule, EvidenceRecord, EVIDENCE_SCHEMA};
use crate::dev::checks::{
    required_repeated_errors, role_name_error, role_name_ok, stable_id_errors, text_errors, validate_non_empty_text,
    validate_required_repeated_text, validate_role_name, validate_stable_id,
};
use crate::dev::kinds::{
    disposition_name, outcome_status_name, synthesis_status_name, EvidenceKind, SubagentDisposition,
    SubagentOutcomeStatus, SubagentSynthesisStatus,
};
use crate::dev::ledger::{subagents_errors, subagents_ok, validate_subagents_value};
use crate::dev::subagents::{
    synthesis_source_ids, synthesized_batch_status, ensure_completed_synthesis_ready, incomplete_roles, SubagentSynthesisRecord,
    agent_statuses, derived_batch_status, subagent_artifacts, subagent_source_ids, terminal_outcome,
    validate_outcome_disposition, SubagentBatch, SubagentRecord, Subagents,
};
use crate::dev::validation::{evidence_errors, validate_evidence_record};
use crate::text::{join_spec, join_strings, owned, push_all, strs};

verus! {

/// The time that RFC 3339 text `a` parses to is after the one `b` parses to
/// (`None` when either does not parse), as `chrono` compares `DateTime<Utc>`s.
pub uninterp spec fn utc_after(a: Seq<char>, b: Seq<char>) -> Option<bool>;

/// Parses both with `str::parse::<chrono::DateTime<chrono::Utc>>` and asks
/// whether the first is later. The contract names the result; calendar
/// arithmetic is not stated.
#[verifier::external_body]
pub(crate) fn is_after(a: &str, b: &str) -> (r: Option<bool>)
    ensures
        r == utc_after(a@, b@),
{
    match (a.parse::<chrono::DateTime<chrono::Utc>>(), b.parse::<chrono::DateTime<chrono::Utc>>()) {
        (Ok(x), Ok(y)) => Some(x > y),
        _ => None,
    }
}

/// The later of the capsule's `updated_at` and `at` (`at` when they are the
/// same instant), if both parse.
pub open spec fn later_of(updated_at: Seq<char>, at: Seq<char>) -> Option<Seq<char>> {
    match utc_after(updated_at, at) {
        Some(true) => Some(updated_at),
        Some(false) => Some(at),
        None => None,
    }
}

/// Moves the capsule's `updated_at` forward to `at`, never backward. Fails when
/// either time does not parse.
pub fn touch_capsule(capsule: &mut Capsule, at: &str) -> (r: Result<(), String>)
    ensures
        match r {
            Ok(_) => later_of(old(capsule).updated_at@, at@) == Some(final(capsule).updated_at@),
            Err(e) => later_of(old(capsule).updated_at@, at@) is None && e@ == "invalid timestamp: "@ + at@
                && *final(capsule) == *old(capsule),
        },
        final(capsule).id == old(capsule).id,
        final(capsule).schema == old(capsule).schema,
        final(capsule).title == old(capsule).title,
        final(capsule).status == old(capsule).status,
        final(capsule).objective == old(capsule).objective,
        final(capsule).branch == old(capsule).branch,
        final(capsule).base_branch == old(capsule).base_branch,
        final(capsule).issues == old(capsule).issues,
        final(capsule).pull_requests == old(capsule).pull_requests,
        final(capsule).created_at == old(capsule).created_at,
{
    match is_after(capsule.updated_at.as_str(), at) {
        Some(true) => Ok(()),
        Some(false) => {
            capsule.updated_at = owned(at);
            Ok(())
        },
        None => {
            let mut e = owned("invalid timestamp: ");
            push_all(&mut e, at);
            Err(e)
        },
    }
}

/// A subagent's outcome, as `record-subagent outcome` takes it.
#[derive(Clone, Debug)]
pub struct SubagentOutcome {
    pub batch_id: String,
    pub role: String,
    pub status: SubagentOutcomeStatus,
    pub disposition: SubagentDisposition,
    pub human_verified: bool,
    pub summary: String,
    pub source_ids: Vec<String>,
    pub artifacts: Vec<String>,
    /// When the outcome was recorded (RFC 3339).
    pub recorded_at: String,
}

/// The message the human-verification rule reports.
pub open spec fn human_verified_error() -> Seq<char> {
    "human_verified must be set for subagent outcome and synthesis records"@
}

/// Why an outcome is refused before the ledger is read, if it is: the batch
/// id, the role, human verification, the disposition, then the texts.
pub open spec fn outcome_input_error(o: SubagentOutcome) -> Option<Seq<char>> {
    let text = text_errors("summary"@, o.summary@) + required_repeated_errors("source_ids"@, strs(o.source_ids@))
        + required_repeated_errors("artifacts"@, strs(o.artifacts@));
    if stable_id_errors("batch_id"@, o.batch_id@).len() > 0 {
        Some(join_spec(stable_id_errors("batch_id"@, o.batch_id@), "; "@))
    } else if !role_name_ok(o.role@) {
        Some(role_name_error(o.role@))
    } else if !o.human_verified {
        Some(human_verified_error())
    } else if terminal_outcome(o.status) && o.disposition == SubagentDisposition::Pending {
        Some("terminal subagent outcomes require a final disposition"@)
    } else if text.len() > 0 {
        Some("invalid subagent outcome: "@ + join_spec(text, "; "@))
    } else {
        None
    }
}

/// Checks an outcome before the ledger is read (see [`outcome_input_error`]).
pub fn check_outcome(o: &SubagentOutcome) -> (r: Result<(), String>)
    ensures
        match r {
            Ok(_) => outcome_input_error(*o) is None,
            Err(e) => outcome_input_error(*o) == Some(e@),
        },
{
    match validate_stable_id("batch_id", o.batch_id.as_str()) {
        Ok(_) => {},
        Err(e) => return Err(e),
    }
    match validate_role_name(o.role.as_str()) {
        Ok(_) => {},
        Err(e) => return Err(e),
    }
    if !o.human_verified {
        return Err(owned("human_verified must be set for subagent outcome and synthesis records"));
    }
    match validate_outcome_disposition(o.status, o.disposition) {
        Ok(_) => {},
        Err(e) => return Err(e),
    }
    let mut errors: Vec<String> = Vec::new();
    validate_non_empty_text("summary", o.summary.as_str(), &mut errors);
    validate_required_repeated_text("source_ids", &o.source_ids, &mut errors);
    validate_required_repeated_text("artifacts", &o.artifacts, &mut errors);
    assert(strs(errors@) =~= text_errors("summary"@, o.summary@) + required_repeated_errors("source_ids"@, strs(o.source_ids@))
        + required_repeated_errors("artifacts"@, strs(o.artifacts@)));
    if errors.len() > 0 {
        let mut m = owned("invalid subagent outcome: ");
        let j = join_strings(&errors, "; ");
        push_all(&mut m, j.as_str());
        return Err(m);
    }
    Ok(())
}

/// The index of the first batch with id `id`, or -1.
pub open spec fn batch_index(bs: Seq<SubagentBatch>, id: Seq<char>) -> int
    decreases bs.len(),
{
    if bs.len() == 0 {
        -1
    } else if bs[0].id@ == id {
        0
    } else {
        let i = batch_index(bs.drop_first(), id);
        if i < 0 {
            -1
        } else {
            i + 1
        }
    }
}

/// The index of the first agent with role `role`, or -1.
pub open spec fn agent_index(ags: Seq<SubagentRecord>, role: Seq<char>) -> int
    decreases ags.len(),
{
    if ags.len() == 0 {
        -1
    } else if ags[0].role@ == role {
        0
    } else {
        let i = agent_index(ags.drop_first(), role);
        if i < 0 {
            -1
        } else {
            i + 1
        }
    }
}

/// Where the batch with id `id` is.
fn find_batch(bs: &Vec<SubagentBatch>, id: &str) -> (r: Option<usize>)
    ensures
        match r {
            Some(i) => i < bs@.len() && batch_index(bs@, id@) == i as int,
            None => batch_index(bs@, id@) == -1,
        },
{
    let mut i: usize = 0;
    assert(bs@.skip(0) =~= bs@);
    while i < bs.len()
        invariant
            i <= bs@.len(),
            batch_index(bs@, id@) == (if batch_index(bs@.skip(i as int), id@) < 0 {
                -1
            } else {
                batch_index(bs@.skip(i as int), id@) + i
            }),
        decreases bs@.len() - i,
    {
        assert(bs@.skip(i as int)[0] == bs@[i as int]);
        assert(bs@.skip(i as int).drop_first() =~= bs@.skip(i + 1));
        if str_eq(bs[i].id.as_str(), id) {
            return Some(i);
        }
        i = i + 1;
    }
    None
}

/// Where the agent with role `role` is.
fn find_agent(ags: &Vec<SubagentRecord>, role: &str) -> (r: Option<usize>)
    ensures
        match r {
            Some(i) => i < ags@.len() && agent_index(ags@, role@) == i as int,
            None => agent_index(ags@, role@) == -1,
        },
{
    let mut i: usize = 0;
    assert(ags@.skip(0) =~= ags@);
    while i < ags.len()
        invariant
            i <= ags@.len(),
            agent_index(ags@, role@) == (if agent_index(ags@.skip(i as int), role@) < 0 {
                -1
            } else {
                agent_index(ags@.skip(i as int), role@) + i
            }),
        decreases ags@.len() - i,
    {
        assert(ags@.skip(i as int)[0] == ags@[i as int]);
        assert(ags@.skip(i as int).drop_first() =~= ags@.skip(i + 1));
        if str_eq(ags[i].role.as_str(), role) {
            return Some(i);
        }
        i = i + 1;
    }
    None
}

/// Whether `a2` is the agent `a` after the outcome `o`: status, summary,
/// disposition, verification, sources, artifacts and time come from the
/// outcome; role, task and prompt stay.
pub open spec fn agent_after(a: SubagentRecord, a2: SubagentRecord, o: SubagentOutcome) -> bool {
    &&& a2.role == a.role
    &&& a2.task == a.task
    &&& a2.prompt_id == a.prompt_id
    &&& a2.prompt_hash == a.prompt_hash
    &&& a2.status@ == outcome_status_name(o.status)
    &&& a2.summary@ == o.summary@
    &&& (a2.disposition matches Some(d) && d@ == disposition_name(o.disposition))
    &&& a2.human_verified == o.human_verified
    &&& strs(a2.source_ids@) == strs(o.source_ids@)
    &&& strs(a2.artifacts@) == strs(o.artifacts@)
    &&& (a2.updated_at matches Some(t) && t@ == o.recorded_at@)
}

/// Whether `b2` is batch `b` with agent `k` replaced by `a2`, stamped at `at`,
/// and its status derived again from its agents.
pub open spec fn batch_after(b: SubagentBatch, b2: SubagentBatch, k: int, a2: SubagentRecord, at: Seq<char>) -> bool {
    &&& b2.agents@ == b.agents@.update(k, a2)
    &&& b2.status@ == derived_batch_status(agent_statuses(b2.agents@))
    &&& (b2.updated_at matches Some(t) && t@ == at)
    &&& b2.id == b.id
    &&& b2.task == b.task
    &&& b2.mode == b.mode
    &&& b2.scope == b.scope
    &&& b2.wait_policy == b.wait_policy
    &&& b2.rendezvous_required == b.rendezvous_required
    &&& b2.registry_issues == b.registry_issues
    &&& b2.duplicate_roles_ignored == b.duplicate_roles_ignored
    &&& b2.prompts == b.prompts
    &&& b2.synthesis == b.synthesis
    &&& b2.recorded_at == b.recorded_at
}

/// A copy of a list of strings.
fn copy_all(v: &Vec<String>) -> (r: Vec<String>)
    ensures
        strs(r@) == strs(v@),
{
    crate::order::copy_strings(v)
}

/// Applies an outcome to the ledger: the agent with the outcome's role in the
/// batch with its id takes the outcome, and the batch is stamped and its
/// status derived again. Fails when there is no such batch or agent.
pub fn apply_outcome(subagents: &mut Subagents, o: &SubagentOutcome) -> (r: Result<(usize, usize), String>)
    ensures
        match r {
            Ok((b, k)) => {
                &&& b as int == batch_index(old(subagents).batches@, o.batch_id@)
                &&& 0 <= b < old(subagents).batches@.len()
                &&& k as int == agent_index(old(subagents).batches@[b as int].agents@, o.role@)
                &&& 0 <= k < old(subagents).batches@[b as int].agents@.len()
                &&& final(subagents).schema == old(subagents).schema
                &&& final(subagents).batches@.len() == old(subagents).batches@.len()
                &&& forall|j: int| 0 <= j < old(subagents).batches@.len() && j != b ==> (#[trigger] final(subagents).batches@[j])
                    == old(subagents).batches@[j]
                &&& agent_after(old(subagents).batches@[b as int].agents@[k as int],
                    final(subagents).batches@[b as int].agents@[k as int], *o)
                &&& batch_after(old(subagents).batches@[b as int], final(subagents).batches@[b as int], k as int,
                    final(subagents).batches@[b as int].agents@[k as int], o.recorded_at@)
            },
            Err(e) => {
                &&& *final(subagents) == *old(subagents)
                &&& if batch_index(old(subagents).batches@, o.batch_id@) < 0 {
                    e@ == "unknown subagent batch: "@ + o.batch_id@
                } else {
                    agent_index(old(subagents).batches@[batch_index(old(subagents).batches@, o.batch_id@)].agents@, o.role@) < 0
                        && e@ == "role "@ + o.role@ + " is not recorded in subagent batch "@ + o.batch_id@
                }
            },
        },
{
    let b = match find_batch(&subagents.batches, o.batch_id.as_str()) {
        Some(b) => b,
        None => {
            let mut e = owned("unknown subagent batch: ");
            push_all(&mut e, o.batch_id.as_str());
            return Err(e);
        },
    };
    let k = match find_agent(&subagents.batches[b].agents, o.role.as_str()) {
        Some(k) => k,
        None => {
            let mut e = owned("role ");
            push_all(&mut e, o.role.as_str());
            push_all(&mut e, " is not recorded in subagent batch ");
            push_all(&mut e, o.batch_id.as_str());
            return Err(e);
        },
    };
    let ghost old_batches = subagents.batches@;
    let mut batch = subagents.batches.remove(b);
    let ghost old_batch = batch;
    let mut agent = batch.agents.remove(k);
    let ghost old_agent = agent;
    agent.status = owned(o.status.as_str());
    agent.summary = owned(o.summary.as_str());
    agent.disposition = Some(owned(o.disposition.as_str()));
    agent.human_verified = o.human_verified;
    agent.source_ids = copy_all(&o.source_ids);
    agent.artifacts = copy_all(&o.artifacts);
    agent.updated_at = Some(owned(o.recorded_at.as_str()));
    let ghost new_agent = agent;
    batch.agents.insert(k, agent);
    assert(batch.agents@ =~= old_batch.agents@.update(k as int, new_agent));
    batch.updated_at = Some(owned(o.recorded_at.as_str()));
    let ghost stamped = batch;
    crate::dev::subagents::refresh_batch_status(&mut batch);
    subagents.batches.insert(b, batch);
    assert(subagents.batches@ =~= old_batches.update(b as int, subagents.batches@[b as int]));
    Ok((b, k))
}

/// The evidence an outcome leaves: a subagent record summarizing the role,
/// status and summary, sourced from the batch and agent, by the subspawn tool.
pub open spec fn outcome_evidence_is(e: EvidenceRecord, o: SubagentOutcome) -> bool {
    &&& e.schema@ == EVIDENCE_SCHEMA@
    &&& e.kind == EvidenceKind::Subagent
    &&& e.at@ == o.recorded_at@
    &&& e.summary@ == "Subagent "@ + o.role@ + " "@ + outcome_status_name(o.status) + ": "@ + o.summary@
    &&& e.command is None && e.exit_code is None
    &&& strs(e.source_ids@) == seq!["subagents:"@ + o.batch_id@, "subagent:"@ + o.batch_id@ + ":"@ + o.role@]
        + strs(o.source_ids@)
    &&& (e.actor matches Some(a) && a@ == o.role@)
    &&& (e.tool matches Some(t) && t@ == "subspawn"@)
    &&& e.confidence is None && e.residual_risk is None
    &&& strs(e.artifacts@) == seq!["subagents.json"@] + strs(o.artifacts@)
}

/// The evidence record an outcome leaves (see [`outcome_evidence_is`]).
pub fn outcome_evidence(o: &SubagentOutcome) -> (r: EvidenceRecord)
    ensures
        outcome_evidence_is(r, *o),
{
    let mut summary = owned("Subagent ");
    push_all(&mut summary, o.role.as_str());
    push_all(&mut summary, " ");
    push_all(&mut summary, o.status.as_str());
    push_all(&mut summary, ": ");
    push_all(&mut summary, o.summary.as_str());
    EvidenceRecord {
        schema: owned(EVIDENCE_SCHEMA),
        kind: EvidenceKind::Subagent,
        at: owned(o.recorded_at.as_str()),
        summary,
        command: None,
        exit_code: None,
        source_ids: subagent_source_ids(o.batch_id.as_str(), o.role.as_str(), &o.source_ids),
        actor: Some(owned(o.role.as_str())),
        tool: Some(owned("subspawn")),
        confidence: None,
        residual_risk: None,
        artifacts: subagent_artifacts(&o.artifacts),
    }
}

/// Checks a subagent evidence record: its errors, joined, refuse it.
pub fn check_subagent_evidence(record: &EvidenceRecord) -> (r: Result<(), String>)
    ensures
        match r {
            Ok(_) => evidence_errors(*record).len() == 0,
            Err(e) => evidence_errors(*record).len() > 0 && e@ == "invalid subagent evidence record: "@
                + join_spec(evidence_errors(*record), "; "@),
        },
{
    let errors = validate_evidence_record(record);
    if errors.len() > 0 {
        let mut m = owned("invalid subagent evidence record: ");
        let j = join_strings(&errors, "; ");
        push_all(&mut m, j.as_str());
        return Err(m);
    }
    Ok(())
}

/// Checks the ledger's contract: its errors, joined, refuse it.
pub fn check_subagents(subagents: &Subagents) -> (r: Result<(), String>)
    ensures
        r is Ok <==> subagents_ok(*subagents),
        r matches Err(e) ==> "invalid subagents contract: "@.is_prefix_of(e@),
        r matches Err(e) ==> e@ == "invalid subagents contract: "@ + join_spec(subagents_errors(*subagents), "; "@),
{
    let errors = validate_subagents_value(subagents);
    if errors.len() > 0 {
        let mut m = owned("invalid subagents contract: ");
        let j = join_strings(&errors, "; ");
        push_all(&mut m, j.as_str());
        assert("invalid subagents contract: "@ =~= m@.subrange(0, "invalid subagents contract: "@.len() as int));
        return Err(m);
    }
    Ok(())
}

/// Whether `after` is the ledger `before` with the outcome `o` applied to
/// agent `k` of batch `b` (see [`apply_outcome`]).
pub open spec fn outcome_applied(before: Subagents, after: Subagents, b: int, k: int, o: SubagentOutcome) -> bool {
    &&& b == batch_index(before.batches@, o.batch_id@)
    &&& 0 <= b < before.batches@.len()
    &&& k == agent_index(before.batches@[b].agents@, o.role@)
    &&& 0 <= k < before.batches@[b].agents@.len()
    &&& after.schema == before.schema
    &&& after.batches@.len() == before.batches@.len()
    &&& forall|j: int| 0 <= j < before.batches@.len() && j != b ==> (#[trigger] after.batches@[j]) == before.batches@[j]
    &&& agent_after(before.batches@[b].agents@[k], after.batches@[b].agents@[k], o)
    &&& batch_after(before.batches@[b], after.batches@[b], k, after.batches@[b].agents@[k], o.recorded_at@)
}

/// What recording an outcome produces: the updated ledger, where the batch and
/// agent are in it, and the evidence record to append.
#[derive(Clone, Debug)]
pub struct OutcomeRecorded {
    pub subagents: Subagents,
    pub batch: usize,
    pub agent: usize,
    pub evidence: EvidenceRecord,
}

/// Records a subagent's outcome in the ledger: the outcome is checked, the
/// agent and its batch are updated, the evidence record is built and checked,
/// and the updated ledger must still meet its contract. Each failure is
/// reported with the message of the first check that refuses.
pub fn record_subagent_outcome(subagents: Subagents, o: &SubagentOutcome) -> (r: Result<OutcomeRecorded, String>)
    ensures
        match r {
            Ok(rec) => {
                &&& outcome_input_error(*o) is None
                &&& outcome_applied(subagents, rec.subagents, rec.batch as int, rec.agent as int, *o)
                &&& outcome_evidence_is(rec.evidence, *o)
                &&& evidence_errors(rec.evidence).len() == 0
                &&& subagents_ok(rec.subagents)
            },
            Err(e) => match outcome_input_error(*o) {
                Some(m) => e@ == m,
                None => if batch_index(subagents.batches@, o.batch_id@) < 0 {
                    e@ == "unknown subagent batch: "@ + o.batch_id@
                } else if agent_index(subagents.batches@[batch_index(subagents.batches@, o.batch_id@)].agents@, o.role@) < 0 {
                    e@ == "role "@ + o.role@ + " is not recorded in subagent batch "@ + o.batch_id@
                } else {
                    let bi = batch_index(subagents.batches@, o.batch_id@);
                    let ki = agent_index(subagents.batches@[bi].agents@, o.role@);
                    ||| exists|ev: EvidenceRecord| #[trigger] outcome_evidence_is(ev, *o) && evidence_errors(ev).len() > 0
                        && e@ == "invalid subagent evidence record: "@ + join_spec(evidence_errors(ev), "; "@)
                    ||| (exists|ev: EvidenceRecord| #[trigger] outcome_evidence_is(ev, *o) && evidence_errors(ev).len() == 0)
                        && exists|after: Subagents| #[trigger] outcome_applied(subagents, after, bi, ki, *o)
                            && !subagents_ok(after)
                            && e@ == "invalid subagents contract: "@ + join_spec(subagents_errors(after), "; "@)
                },
            },
        },
{
    check_outcome(o)?;
    let mut ledger = subagents;
    let (b, k) = apply_outcome(&mut ledger, o)?;
    let evidence = outcome_evidence(o);
    match check_subagent_evidence(&evidence) {
        Ok(_) => {},
        Err(e) => {
            assert(outcome_evidence_is(evidence, *o));
            return Err(e);
        },
    }
    assert(outcome_evidence_is(evidence, *o));
    match check_subagents(&ledger) {
        Ok(_) => {},
        Err(e) => {
            assert(outcome_applied(subagents, ledger, b as int, k as int, *o));
            return Err(e);
        },
    }
    Ok(OutcomeRecorded { subagents: ledger, batch: b, agent: k, evidence })
}

/// A batch's synthesis, as `record-subagent synthesis` takes it.
#[derive(Clone, Debug)]
pub struct SubagentSynthesis {
    pub batch_id: String,
    pub status: SubagentSynthesisStatus,
    pub human_verified: bool,
    pub summary: String,
    pub source_ids: Vec<String>,
    pub artifacts: Vec<String>,
    /// When the synthesis was recorded (RFC 3339).
    pub recorded_at: String,
}

/// Why a synthesis is refused before the ledger is read, if it is.
pub open spec fn synthesis_input_error(s: SubagentSynthesis) -> Option<Seq<char>> {
    let text = text_errors("summary"@, s.summary@) + required_repeated_errors("source_ids"@, strs(s.source_ids@))
        + required_repeated_errors("artifacts"@, strs(s.artifacts@));
    if stable_id_errors("batch_id"@, s.batch_id@).len() > 0 {
        Some(join_spec(stable_id_errors("batch_id"@, s.batch_id@), "; "@))
    } else if !s.human_verified {
        Some(human_verified_error())
    } else if text.len() > 0 {
        Some("invalid subagent synthesis: "@ + join_spec(text, "; "@))
    } else {
        None
    }
}

/// Checks a synthesis before the ledger is read (see [`synthesis_input_error`]).
pub fn check_synthesis(s: &SubagentSynthesis) -> (r: Result<(), String>)
    ensures
        match r {
            Ok(_) => synthesis_input_error(*s) is None,
            Err(e) => synthesis_input_error(*s) == Some(e@),
        },
{
    match validate_stable_id("batch_id", s.batch_id.as_str()) {
        Ok(_) => {},
        Err(e) => return Err(e),
    }
    if !s.human_verified {
        return Err(owned("human_verified must be set for subagent outcome and synthesis records"));
    }
    let mut errors: Vec<String> = Vec::new();
    validate_non_empty_text("summary", s.summary.as_str(), &mut errors);
    validate_required_repeated_text("source_ids", &s.source_ids, &mut errors);
    validate_required_repeated_text("artifacts", &s.artifacts, &mut errors);
    assert(strs(errors@) =~= text_errors("summary"@, s.summary@) + required_repeated_errors("source_ids"@, strs(s.source_ids@))
        + required_repeated_errors("artifacts"@, strs(s.artifacts@)));
    if errors.len() > 0 {
        let mut m = owned("invalid subagent synthesis: ");
        let j = join_strings(&errors, "; ");
        push_all(&mut m, j.as_str());
        return Err(m);
    }
    Ok(())
}

/// Whether `b2` is batch `b` with the synthesis `s` recorded: the synthesis
/// record, the time, and the status the synthesis and agents give.
pub open spec fn synthesis_applied(b: SubagentBatch, b2: SubagentBatch, s: SubagentSynthesis) -> bool {
    &&& b2.agents == b.agents
    &&& b2.status@ == synthesized_batch_status(agent_statuses(b.agents@), s.status)
    &&& (b2.updated_at matches Some(t) && t@ == s.recorded_at@)
    &&& (b2.synthesis matches Some(x) && x.status@ == synthesis_status_name(s.status) && x.summary@ == s.summary@
        && x.human_verified == s.human_verified && strs(x.source_ids@) == strs(s.source_ids@)
        && strs(x.artifacts@) == strs(s.artifacts@) && x.updated_at@ == s.recorded_at@)
    &&& b2.id == b.id
    &&& b2.task == b.task
    &&& b2.mode == b.mode
    &&& b2.scope == b.scope
    &&& b2.wait_policy == b.wait_policy
    &&& b2.rendezvous_required == b.rendezvous_required
    &&& b2.registry_issues == b.registry_issues
    &&& b2.duplicate_roles_ignored == b.duplicate_roles_ignored
    &&& b2.prompts == b.prompts
    &&& b2.recorded_at == b.recorded_at
}

/// The evidence a synthesis leaves.
pub open spec fn synthesis_evidence_is(e: EvidenceRecord, s: SubagentSynthesis) -> bool {
    &&& e.schema@ == EVIDENCE_SCHEMA@
    &&& e.kind == EvidenceKind::Subagent
    &&& e.at@ == s.recorded_at@
    &&& e.summary@ == "Subagent synthesis "@ + synthesis_status_name(s.status) + ": "@ + s.summary@
    &&& e.command is None && e.exit_code is None
    &&& strs(e.source_ids@) == seq!["subagents:"@ + s.batch_id@ + ":synthesis"@] + strs(s.source_ids@)
    &&& e.actor is None
    &&& (e.tool matches Some(t) && t@ == "subspawn"@)
    &&& e.confidence is None && e.residual_risk is None
    &&& strs(e.artifacts@) == seq!["subagents.json"@] + strs(s.artifacts@)
}

/// Whether `after` is the ledger `before` with the synthesis `s` recorded in
/// batch `b` (see [`synthesis_applied`]).
pub open spec fn synthesis_ledger(before: Subagents, after: Subagents, b: int, s: SubagentSynthesis) -> bool {
    &&& 0 <= b < before.batches@.len()
    &&& after.schema == before.schema
    &&& after.batches@.len() == before.batches@.len()
    &&& forall|j: int| 0 <= j < before.batches@.len() && j != b ==> (#[trigger] after.batches@[j]) == before.batches@[j]
    &&& synthesis_applied(before.batches@[b], after.batches@[b], s)
}

/// What recording a synthesis produces.
#[derive(Clone, Debug)]
pub struct SynthesisRecorded {
    pub subagents: Subagents,
    pub batch: usize,
    pub evidence: EvidenceRecord,
}

/// Records a batch's synthesis in the ledger: the synthesis is checked, a
/// completed synthesis needs every agent to have a terminal human-verified
/// outcome, the batch takes the synthesis and its status, and the evidence
/// record and updated ledger are checked.
pub fn record_subagent_synthesis(subagents: Subagents, s: &SubagentSynthesis) -> (r: Result<SynthesisRecorded, String>)
    ensures
        match r {
            Ok(rec) => {
                &&& synthesis_input_error(*s) is None
                &&& rec.batch as int == batch_index(subagents.batches@, s.batch_id@)
                &&& 0 <= rec.batch < subagents.batches@.len()
                &&& s.status == SubagentSynthesisStatus::Completed ==> subagents.batches@[rec.batch as int].agents@.len() > 0
                    && incomplete_roles(subagents.batches@[rec.batch as int].agents@).len() == 0
                &&& rec.subagents.schema == subagents.schema
                &&& rec.subagents.batches@.len() == subagents.batches@.len()
                &&& forall|j: int| 0 <= j < subagents.batches@.len() && j != rec.batch ==> (#[trigger] rec.subagents.batches@[j])
                    == subagents.batches@[j]
                &&& synthesis_applied(subagents.batches@[rec.batch as int], rec.subagents.batches@[rec.batch as int], *s)
                &&& synthesis_evidence_is(rec.evidence, *s)
                &&& evidence_errors(rec.evidence).len() == 0
                &&& subagents_ok(rec.subagents)
            },
            Err(e) => match synthesis_input_error(*s) {
                Some(m) => e@ == m,
                None => if batch_index(subagents.batches@, s.batch_id@) < 0 {
                    e@ == "unknown subagent batch: "@ + s.batch_id@
                } else {
                    let bi = batch_index(subagents.batches@, s.batch_id@);
                    let ags = subagents.batches@[bi].agents@;
                    if s.status == SubagentSynthesisStatus::Completed && ags.len() == 0 {
                        e@ == "completed synthesis requires at least one planned agent"@
                    } else if s.status == SubagentSynthesisStatus::Completed && incomplete_roles(ags).len() > 0 {
                        e@ == "completed synthesis requires terminal human-verified outcomes for every agent; incomplete roles: "@
                            + join_spec(incomplete_roles(ags), ", "@)
                    } else {
                        ||| exists|ev: EvidenceRecord| #[trigger] synthesis_evidence_is(ev, *s) && evidence_errors(ev).len() > 0
                            && e@ == "invalid subagent evidence record: "@ + join_spec(evidence_errors(ev), "; "@)
                        ||| (exists|ev: EvidenceRecord| #[trigger] synthesis_evidence_is(ev, *s) && evidence_errors(ev).len() == 0)
                            && exists|after: Subagents| #[trigger] synthesis_ledger(subagents, after, bi, *s)
                                && !subagents_ok(after)
                                && e@ == "invalid subagents contract: "@ + join_spec(subagents_errors(after), "; "@)
                    }
                },
            },
        },
{
    check_synthesis(s)?;
    let mut ledger = subagents;
    let b = match find_batch(&ledger.batches, s.batch_id.as_str()) {
        Some(b) => b,
        None => {
            let mut e = owned("unknown subagent batch: ");
            push_all(&mut e, s.batch_id.as_str());
            return Err(e);
        },
    };
    if s.status == SubagentSynthesisStatus::Completed {
        ensure_completed_synthesis_ready(&ledger.batches[b])?;
    }
    let ghost old_batches = ledger.batches@;
    let mut batch = ledger.batches.remove(b);
    batch.synthesis = Some(SubagentSynthesisRecord {
        status: owned(s.status.as_str()),
        summary: owned(s.summary.as_str()),
        human_verified: s.human_verified,
        source_ids: copy_all(&s.source_ids),
        artifacts: copy_all(&s.artifacts),
        updated_at: owned(s.recorded_at.as_str()),
    });
    batch.updated_at = Some(owned(s.recorded_at.as_str()));
    crate::dev::subagents::apply_synthesis_status(&mut batch, s.status);
    ledger.batches.insert(b, batch);
    assert(ledger.batches@ =~= old_batches.update(b as int, ledger.batches@[b as int]));
    let mut summary = owned("Subagent synthesis ");
    push_all(&mut summary, s.status.as_str());
    push_all(&mut summary, ": ");
    push_all(&mut summary, s.summary.as_str());
    let evidence = EvidenceRecord {
        schema: owned(EVIDENCE_SCHEMA),
        kind: EvidenceKind::Subagent,
        at: owned(s.recorded_at.as_str()),
        summary,
        command: None,
        exit_code: None,
        source_ids: synthesis_source_ids(s.batch_id.as_str(), &s.source_ids),
        actor: None,
        tool: Some(owned("subspawn")),
        confidence: None,
        residual_risk: None,
        artifacts: subagent_artifacts(&s.artifacts),
    };
    match check_subagent_evidence(&evidence) {
        Ok(_) => {},
        Err(e) => {
            assert(synthesis_evidence_is(evidence, *s));
            return Err(e);
        },
    }
    assert(synthesis_evidence_is(evidence, *s));
    match check_subagents(&ledger) {
        Ok(_) => {},
        Err(e) => {
            assert(synthesis_ledger(subagents, ledger, b as int, *s));
            return Err(e);
        },
    }
    Ok(SynthesisRecorded { subagents: ledger, batch: b, evidence })
}

/// The evidence a recorded plan leaves.
pub open spec fn plan_evidence_is(e: EvidenceRecord, batch: SubagentBatch, command: Option<String>, source: Seq<char>, at: Seq<char>) -> bool {
    &&& e.schema@ == EVIDENCE_SCHEMA@
    &&& e.kind == EvidenceKind::Subagent
    &&& e.at@ == at
    &&& e.summary@ == "Recorded subspawn plan "@ + batch.id@ + " with "@ + crate::text::decimal(batch.agents@.len())
        + " role(s)"@
    &&& e.command == command && e.exit_code is None
    &&& strs(e.source_ids@) == seq!["subagents:"@ + batch.id@]
    &&& e.actor is None
    &&& (e.tool matches Some(t) && t@ == "subspawn"@)
    &&& e.confidence is None && e.residual_risk is None
    &&& strs(e.artifacts@) == seq!["subagents.json"@, source]
}

/// Whether the ledger has a batch with id `id`.
pub open spec fn has_batch(bs: Seq<SubagentBatch>, id: Seq<char>) -> bool {
    exists|i: int| 0 <= i < bs.len() && (#[trigger] bs[i]).id@ == id
}

/// Records a planned batch in the ledger: its id must be new, its evidence
/// record must pass, and the ledger with the batch appended must still meet
/// its contract. `source` is the plan file's path, `at` the time.
pub fn record_subagent_plan(subagents: Subagents, batch: SubagentBatch, command: Option<String>, source: &str, at: &str) -> (r: Result<(Subagents, EvidenceRecord), String>)
    requires
        batch.agents@.len() <= u64::MAX,
    ensures
        match r {
            Ok((after, ev)) => {
                &&& !has_batch(subagents.batches@, batch.id@)
                &&& after.schema == subagents.schema
                &&& after.batches@ == subagents.batches@.push(batch)
                &&& plan_evidence_is(ev, batch, command, source@, at@)
                &&& evidence_errors(ev).len() == 0
                &&& subagents_ok(after)
            },
            Err(e) => if has_batch(subagents.batches@, batch.id@) {
                e@ == "subagent batch already exists: "@ + batch.id@
            } else {
                ||| exists|ev: EvidenceRecord| #[trigger] plan_evidence_is(ev, batch, command, source@, at@)
                    && evidence_errors(ev).len() > 0
                    && e@ == "invalid subagent evidence record: "@ + join_spec(evidence_errors(ev), "; "@)
                ||| (exists|ev: EvidenceRecord| #[trigger] plan_evidence_is(ev, batch, command, source@, at@)
                    && evidence_errors(ev).len() == 0)
                    && exists|after: Subagents| #![trigger after.batches] after.schema == subagents.schema
                        && after.batches@ == subagents.batches@.push(batch)
                        && !subagents_ok(after)
                        && e@ == "invalid subagents contract: "@ + join_spec(subagents_errors(after), "; "@)
            },
        },
{
    let mut i: usize = 0;
    while i < subagents.batches.len()
        invariant
            i <= subagents.batches@.len(),
            forall|j: int| 0 <= j < i ==> (#[trigger] subagents.batches@[j]).id@ != batch.id@,
        decreases subagents.batches@.len() - i,
    {
        if str_eq(subagents.batches[i].id.as_str(), batch.id.as_str()) {
            let mut e = owned("subagent batch already exists: ");
            push_all(&mut e, batch.id.as_str());
            return Err(e);
        }
        i = i + 1;
    }
    let mut summary = owned("Recorded subspawn plan ");
    push_all(&mut summary, batch.id.as_str());
    push_all(&mut summary, " with ");
    let n = crate::text::decimal_string(batch.agents.len() as u64);
    push_all(&mut summary, n.as_str());
    push_all(&mut summary, " role(s)");
    let mut sid = owned("subagents:");
    push_all(&mut sid, batch.id.as_str());
    let mut source_ids: Vec<String> = Vec::new();
    source_ids.push(sid);
    let mut artifacts: Vec<String> = Vec::new();
    artifacts.push(owned("subagents.json"));
    artifacts.push(owned(source));
    let evidence = EvidenceRecord {
        schema: owned(EVIDENCE_SCHEMA),
        kind: EvidenceKind::Subagent,
        at: owned(at),
        summary,
        command,
        exit_code: None,
        source_ids,
        actor: None,
        tool: Some(owned("subspawn")),
        confidence: None,
        residual_risk: None,
        artifacts,
    };
    assert(strs(evidence.source_ids@) =~= seq!["subagents:"@ + batch.id@]);
    assert(strs(evidence.artifacts@) =~= seq!["subagents.json"@, source@]);
    let ghost command0 = evidence.command;
    assert(plan_evidence_is(evidence, batch, command0, source@, at@));
    match check_subagent_evidence(&evidence) {
        Ok(_) => {},
        Err(e) => return Err(e),
    }
    let ghost before = subagents;
    let ghost added = batch;
    let mut ledger = subagents;
    ledger.batches.push(batch);
    match check_subagents(&ledger) {
        Ok(_) => {},
        Err(e) => {
            assert(ledger.schema == before.schema && ledger.batches@ == before.batches@.push(added));
            return Err(e);
        },
    }
    Ok((ledger, evidence))
}

/// Appends an evidence record to a capsule: the record must pass its checks,
/// and the capsule's `updated_at` moves forward to the record's time.
pub fn record_evidence(capsule: Capsule, record: &EvidenceRecord) -> (r: Result<Capsule, String>)
    ensures
        match r {
            Ok(c) => evidence_errors(*record).len() == 0 && later_of(capsule.updated_at@, record.at@) == Some(c.updated_at@)
                && c.id == capsule.id && c.pull_requests == capsule.pull_requests && c.created_at == capsule.created_at,
            Err(e) => if evidence_errors(*record).len() > 0 {
                e@ == "invalid evidence record: "@ + join_spec(evidence_errors(*record), "; "@)
            } else {
                later_of(capsule.updated_at@, record.at@) is None && e@ == "invalid timestamp: "@ + record.at@
            },
        },
{
    let errors = validate_evidence_record(record);
    if errors.len() > 0 {
        let mut m = owned("invalid evidence record: ");
        let j = join_strings(&errors, "; ");
        push_all(&mut m, j.as_str());
        return Err(m);
    }
    let mut c = capsule;
    touch_capsule(&mut c, record.at.as_str())?;
    Ok(c)
}

/// Whether the capsule lists pull request `n`.
pub open spec fn lists_pr(prs: Seq<u64>, n: u64) -> bool {
    prs.contains(n)
}

/// The evidence a PR snapshot leaves: a review record naming the pull
/// request, its review threads and its number of checks.
pub open spec fn pr_snapshot_evidence_is(e: EvidenceRecord, pr: crate::dev::pr::PrEvidence, checked_at: Seq<char>, command: Option<String>) -> bool {
    &&& e.schema@ == EVIDENCE_SCHEMA@
    &&& e.kind == EvidenceKind::Review
    &&& e.at@ == checked_at
    &&& e.summary@ == "PR snapshot recorded for "@ + crate::dev::pr::pr_label(pr.repository, pr.number) + "; "@
        + crate::dev::pr::review_threads_text(pr.review_threads) + "; "@ + crate::text::decimal(pr.checks@.len())
        + " check(s)"@
    &&& e.command == command
    &&& e.exit_code == (if command is Some { Some(0i32) } else { None })
    &&& e.source_ids@.len() == 0
    &&& e.actor is None && e.tool is None && e.confidence is None && e.residual_risk is None
    &&& strs(e.artifacts@) == seq!["pr.json"@]
}

/// Records a PR snapshot in the capsule: its number joins the capsule's pull
/// requests when new, the capsule's `updated_at` moves forward to the check
/// time, and the evidence record is built.
pub fn record_pr_snapshot(capsule: Capsule, pr: &crate::dev::pr::PrEvidence, checked_at: &str, command: Option<String>) -> (r: Result<(Capsule, EvidenceRecord), String>)
    requires
        pr.checks@.len() <= u64::MAX,
    ensures
        match r {
            Ok((c, e)) => {
                &&& c.pull_requests@ == match pr.number {
                    Some(n) => if capsule.pull_requests@.contains(n) {
                        capsule.pull_requests@
                    } else {
                        capsule.pull_requests@.push(n)
                    },
                    None => capsule.pull_requests@,
                }
                &&& later_of(capsule.updated_at@, checked_at@) == Some(c.updated_at@)
                &&& c.id == capsule.id && c.created_at == capsule.created_at
                &&& pr_snapshot_evidence_is(e, *pr, checked_at@, command)
            },
            Err(e) => later_of(capsule.updated_at@, checked_at@) is None && e@ == "invalid timestamp: "@ + checked_at@,
        },
{
    let mut c = capsule;
    match pr.number {
        Some(n) => {
            let mut present = false;
            let mut i: usize = 0;
            while i < c.pull_requests.len()
                invariant
                    i <= c.pull_requests@.len(),
                    present == exists|j: int| 0 <= j < i && c.pull_requests@[j] == n,
                decreases c.pull_requests@.len() - i,
            {
                if c.pull_requests[i] == n {
                    present = true;
                }
                i = i + 1;
            }
            if !present {
                c.pull_requests.push(n);
            }
        },
        None => {},
    }
    let ghost listed = c.pull_requests@;
    touch_capsule(&mut c, checked_at)?;
    let mut summary = owned("PR snapshot recorded for ");
    let label = crate::dev::pr::render_pr_label(pr);
    push_all(&mut summary, label.as_str());
    push_all(&mut summary, "; ");
    let threads = crate::dev::pr::render_review_thread_summary(&pr.review_threads);
    push_all(&mut summary, threads.as_str());
    push_all(&mut summary, "; ");
    let n = crate::text::decimal_string(pr.checks.len() as u64);
    push_all(&mut summary, n.as_str());
    push_all(&mut summary, " check(s)");
    let exit_code = match &command {
        Some(_) => Some(0i32),
        None => None,
    };
    let mut artifacts: Vec<String> = Vec::new();
    artifacts.push(owned("pr.json"));
    assert(strs(artifacts@) =~= seq!["pr.json"@]);
    let e = EvidenceRecord {
        schema: owned(EVIDENCE_SCHEMA),
        kind: EvidenceKind::Review,
        at: owned(checked_at),
        summary,
        command,
        exit_code,
        source_ids: Vec::new(),
        actor: None,
        tool: None,
        confidence: None,
        residual_risk: None,
        artifacts,
    };
    Ok((c, e))
}

} // verus!
