//! Subagent batches: their records, how a batch's status follows its agents,
//! and the rules a batch must keep.
use vstd::prelude::*;

use crate::audit_gate::str_eq;
use crate::dev::kinds::{
    SubagentDisposition, SubagentOutcomeStatus, SubagentSynthesisStatus,
};
use crate::text::{join_spec, join_strings, owned, push_all, strs};

verus! {

/// The prompt recorded for one role of a batch.
#[derive(Clone, Debug, PartialEq, Eq)]
pub struct SubagentPromptRecord {
    pub role: String,
    pub prompt_id: String,
    pub prompt_hash: String,
}

/// One subagent of a batch and what became of its work.
#[derive(Clone, Debug, PartialEq, Eq)]
pub struct SubagentRecord {
    pub role: String,
    pub task: String,
    pub status: String,
    pub summary: String,
    pub prompt_id: Option<String>,
    pub prompt_hash: Option<String>,
    pub disposition: Option<String>,
    pub human_verified: bool,
    pub source_ids: Vec<String>,
    pub artifacts: Vec<String>,
    /// When the record last changed (RFC 3339).
    pub updated_at: Option<String>,
}

/// The human-verified synthesis of a batch.
#[derive(Clone, Debug, PartialEq, Eq)]
pub struct SubagentSynthesisRecord {
    pub status: String,
    pub summary: String,
    pub human_verified: bool,
    pub source_ids: Vec<String>,
    pub artifacts: Vec<String>,
    /// When the synthesis was recorded (RFC 3339).
    pub updated_at: String,
}

/// A batch of subagents spawned for one task.
#[derive(Clone, Debug, PartialEq, Eq)]
pub struct SubagentBatch {
    pub id: String,
    pub status: String,
    pub task: Option<String>,
    pub mode: Option<String>,
    pub scope: Option<String>,
    pub wait_policy: Option<String>,
    pub rendezvous_required: Option<bool>,
    pub registry_issues: Vec<String>,
    /// Each ignored duplicate role with the paths it was found at, by role.
    pub duplicate_roles_ignored: Vec<(String, Vec<String>)>,
    pub prompts: Vec<SubagentPromptRecord>,
    pub agents: Vec<SubagentRecord>,
    pub synthesis: Option<SubagentSynthesisRecord>,
    /// When the batch was planned (RFC 3339).
    pub recorded_at: Option<String>,
    /// When the batch last changed (RFC 3339).
    pub updated_at: Option<String>,
}

/// The subagents ledger of a capsule.
#[derive(Clone, Debug, PartialEq, Eq)]
pub struct Subagents {
    pub schema: String,
    pub batches: Vec<SubagentBatch>,
}

/// The schema name of the subagents ledger.
pub const SUBAGENTS_SCHEMA: &'static str = "codex-dev.subagents.v1";

/// The statuses after which a subagent does no more work.
pub open spec fn terminal_status(s: Seq<char>) -> bool {
    s == "completed"@ || s == "failed"@ || s == "timed_out"@ || s == "closed"@
}

/// Whether a subagent status is terminal.
pub fn is_terminal_subagent_status(value: &str) -> (r: bool)
    ensures
        r == terminal_status(value@),
{
    str_eq(value, "completed") || str_eq(value, "failed") || str_eq(value, "timed_out")
        || str_eq(value, "closed")
}

/// The statuses a batch can have.
pub open spec fn batch_status_name(s: Seq<char>) -> bool {
    s == "planned"@ || s == "active"@ || s == "completed"@ || s == "partial"@ || s == "blocked"@
}

/// Whether `value` is a batch status.
pub fn is_batch_status(value: &str) -> (r: bool)
    ensures
        r == batch_status_name(value@),
{
    str_eq(value, "planned") || str_eq(value, "active") || str_eq(value, "completed")
        || str_eq(value, "partial") || str_eq(value, "blocked")
}

/// The dispositions that close a subagent's work.
pub open spec fn final_disposition(d: Seq<char>) -> bool {
    d == "accepted"@ || d == "rejected"@ || d == "mixed"@ || d == "informational"@
}

/// Whether a subagent has a terminal, human-verified outcome with a final disposition.
pub open spec fn final_verified(a: SubagentRecord) -> bool {
    &&& terminal_status(a.status@)
    &&& a.human_verified
    &&& match a.disposition {
        Some(d) => final_disposition(d@),
        None => false,
    }
}

/// Whether the agent has a terminal, human-verified, final outcome.
pub fn subagent_has_final_verified_outcome(agent: &SubagentRecord) -> (r: bool)
    ensures
        r == final_verified(*agent),
{
    if !is_terminal_subagent_status(agent.status.as_str()) || !agent.human_verified {
        return false;
    }
    match &agent.disposition {
        Some(d) => {
            let d = d.as_str();
            str_eq(d, "accepted") || str_eq(d, "rejected") || str_eq(d, "mixed")
                || str_eq(d, "informational")
        },
        None => false,
    }
}

/// The statuses of a list of agents.
pub open spec fn agent_statuses(agents: Seq<SubagentRecord>) -> Seq<Seq<char>> {
    agents.map_values(|a: SubagentRecord| a.status@)
}

/// The status a batch takes from its agents: blocked if one is blocked, else
/// active if one is planned or running, else completed if there are agents and
/// all completed, else partial.
pub open spec fn derived_batch_status(st: Seq<Seq<char>>) -> Seq<char> {
    if st.contains("blocked"@) {
        "blocked"@
    } else if st.contains("planned"@) || st.contains("running"@) {
        "active"@
    } else if st.len() > 0 && forall|i: int| 0 <= i < st.len() ==> st[i] == "completed"@ {
        "completed"@
    } else {
        "partial"@
    }
}

/// A batch whose agents are none of them blocked, and one of which is still
/// planned or running, is active: an agent that has not started yet, or has
/// not finished, keeps the batch open whatever the others have done.
pub proof fn law_live_agents_keep_batch_active(agents: Seq<SubagentRecord>)
    requires
        forall|i: int| 0 <= i < agents.len() ==> agents[i].status@ != "blocked"@,
        exists|i: int|
            0 <= i < agents.len() && (agents[i].status@ == "planned"@ || agents[i].status@ == "running"@),
    ensures
        derived_batch_status(agent_statuses(agents)) == "active"@,
{
    let st = agent_statuses(agents);
    let k = choose|i: int|
        0 <= i < agents.len() && (agents[i].status@ == "planned"@ || agents[i].status@ == "running"@);
    assert(st[k] == agents[k].status@);
    assert(st.contains("planned"@) || st.contains("running"@));
    assert(!st.contains("blocked"@)) by {
        if st.contains("blocked"@) {
            let j = choose|j: int| 0 <= j < st.len() && st[j] == "blocked"@;
            assert(st[j] == agents[j].status@);
        }
    }
}

/// A batch with one blocked agent is blocked, whatever the other agents are.
pub proof fn law_blocked_agent_blocks_batch(agents: Seq<SubagentRecord>, k: int)
    requires
        0 <= k < agents.len(),
        agents[k].status@ == "blocked"@,
    ensures
        derived_batch_status(agent_statuses(agents)) == "blocked"@,
{
    let st = agent_statuses(agents);
    assert(st[k] == "blocked"@);
}

/// A batch with at least one agent, all of them completed, is completed.
pub proof fn law_completed_agents_complete_batch(agents: Seq<SubagentRecord>)
    requires
        agents.len() > 0,
        forall|i: int| 0 <= i < agents.len() ==> agents[i].status@ == "completed"@,
    ensures
        derived_batch_status(agent_statuses(agents)) == "completed"@,
{
    reveal_strlit("completed");
    reveal_strlit("blocked");
    reveal_strlit("planned");
    reveal_strlit("running");
    let st = agent_statuses(agents);
    assert forall|i: int| 0 <= i < st.len() implies st[i] == "completed"@ by {
        assert(st[i] == agents[i].status@);
    }
    assert(!st.contains("blocked"@)) by {
        if st.contains("blocked"@) {
            let j = choose|j: int| 0 <= j < st.len() && st[j] == "blocked"@;
            assert(st[j] == "completed"@);
            assert(st[j].len() != "blocked"@.len());
        }
    }
    assert(!st.contains("planned"@)) by {
        if st.contains("planned"@) {
            let j = choose|j: int| 0 <= j < st.len() && st[j] == "planned"@;
            assert(st[j] == "completed"@);
            assert(st[j].len() != "planned"@.len());
        }
    }
    assert(!st.contains("running"@)) by {
        if st.contains("running"@) {
            let j = choose|j: int| 0 <= j < st.len() && st[j] == "running"@;
            assert(st[j] == "completed"@);
            assert(st[j][0] != "running"@[0]);
        }
    }
}

/// A batch none of whose agents is blocked, planned or running is partial
/// unless it has agents and all of them completed: an empty batch, or one
/// where an agent failed or was skipped, is partial.
pub proof fn law_settled_unfinished_batch_is_partial(agents: Seq<SubagentRecord>)
    requires
        forall|i: int|
            0 <= i < agents.len() ==> (#[trigger] agents[i].status@) != "blocked"@ && agents[i].status@
                != "planned"@ && agents[i].status@ != "running"@,
        agents.len() == 0 || exists|i: int| 0 <= i < agents.len() && agents[i].status@ != "completed"@,
    ensures
        derived_batch_status(agent_statuses(agents)) == "partial"@,
{
    let st = agent_statuses(agents);
    assert forall|w: Seq<char>| w == "blocked"@ || w == "planned"@ || w == "running"@ implies !st.contains(w) by {
        if st.contains(w) {
            let j = choose|j: int| 0 <= j < st.len() && st[j] == w;
            assert(st[j] == agents[j].status@);
        }
    }
    assert(!st.contains("blocked"@));
    assert(!st.contains("planned"@));
    assert(!st.contains("running"@));
    if agents.len() > 0 {
        let k = choose|i: int| 0 <= i < agents.len() && agents[i].status@ != "completed"@;
        assert(st[k] == agents[k].status@);
    }
}

/// Sets the batch's status from its agents' statuses; nothing else changes.
pub fn refresh_batch_status(batch: &mut SubagentBatch)
    ensures
        final(batch).status@ == derived_batch_status(agent_statuses(old(batch).agents@)),
        (forall|i: int| 0 <= i < old(batch).agents@.len() ==> old(batch).agents@[i].status@ != "blocked"@)
            && (exists|i: int|
            0 <= i < old(batch).agents@.len() && (old(batch).agents@[i].status@ == "planned"@
                || old(batch).agents@[i].status@ == "running"@)) ==> final(batch).status@ == "active"@,
        (exists|i: int| 0 <= i < old(batch).agents@.len() && old(batch).agents@[i].status@ == "blocked"@)
            ==> final(batch).status@ == "blocked"@,
        old(batch).agents@.len() > 0 && (forall|i: int|
            0 <= i < old(batch).agents@.len() ==> old(batch).agents@[i].status@ == "completed"@)
            ==> final(batch).status@ == "completed"@,
        (forall|i: int|
            0 <= i < old(batch).agents@.len() ==> (#[trigger] old(batch).agents@[i].status@) != "blocked"@
                && old(batch).agents@[i].status@ != "planned"@ && old(batch).agents@[i].status@ != "running"@)
            && (old(batch).agents@.len() == 0 || exists|i: int|
            0 <= i < old(batch).agents@.len() && old(batch).agents@[i].status@ != "completed"@)
            ==> final(batch).status@ == "partial"@,
        final(batch).id == old(batch).id,
        final(batch).agents == old(batch).agents,
        final(batch).prompts == old(batch).prompts,
        final(batch).synthesis == old(batch).synthesis,
        final(batch).task == old(batch).task,
        final(batch).mode == old(batch).mode,
        final(batch).scope == old(batch).scope,
        final(batch).wait_policy == old(batch).wait_policy,
        final(batch).rendezvous_required == old(batch).rendezvous_required,
        final(batch).registry_issues == old(batch).registry_issues,
        final(batch).duplicate_roles_ignored == old(batch).duplicate_roles_ignored,
        final(batch).recorded_at == old(batch).recorded_at,
        final(batch).updated_at == old(batch).updated_at,
{
    let ghost st = agent_statuses(batch.agents@);
    proof {
        let agents = batch.agents@;
        if (forall|i: int| 0 <= i < agents.len() ==> agents[i].status@ != "blocked"@) && (exists|i: int|
            0 <= i < agents.len() && (agents[i].status@ == "planned"@ || agents[i].status@ == "running"@)) {
            law_live_agents_keep_batch_active(agents);
        }
        if exists|i: int| 0 <= i < agents.len() && agents[i].status@ == "blocked"@ {
            let k = choose|i: int| 0 <= i < agents.len() && agents[i].status@ == "blocked"@;
            law_blocked_agent_blocks_batch(agents, k);
        }
        if agents.len() > 0 && forall|i: int| 0 <= i < agents.len() ==> agents[i].status@ == "completed"@ {
            law_completed_agents_complete_batch(agents);
        }
        if (forall|i: int|
            0 <= i < agents.len() ==> (#[trigger] agents[i].status@) != "blocked"@ && agents[i].status@
                != "planned"@ && agents[i].status@ != "running"@) && (agents.len() == 0 || exists|i: int|
            0 <= i < agents.len() && agents[i].status@ != "completed"@) {
            law_settled_unfinished_batch_is_partial(agents);
        }
    }
    let mut any_blocked = false;
    let mut any_live = false;
    let mut all_completed = true;
    let mut i: usize = 0;
    while i < batch.agents.len()
        invariant
            st == agent_statuses(batch.agents@),
            i <= batch.agents@.len(),
            any_blocked == exists|j: int| 0 <= j < i && st[j] == "blocked"@,
            any_live == exists|j: int| 0 <= j < i && (st[j] == "planned"@ || st[j] == "running"@),
            all_completed == forall|j: int| 0 <= j < i ==> st[j] == "completed"@,
        decreases batch.agents@.len() - i,
    {
        let s = batch.agents[i].status.as_str();
        assert(st[i as int] == s@);
        if str_eq(s, "blocked") {
            any_blocked = true;
        }
        if str_eq(s, "planned") || str_eq(s, "running") {
            any_live = true;
        }
        if !str_eq(s, "completed") {
            all_completed = false;
        }
        i = i + 1;
    }
    proof {
        if st.contains("blocked"@) {
            let j = choose|j: int| 0 <= j < st.len() && st[j] == "blocked"@;
            assert(st[j] == "blocked"@);
        }
        if st.contains("planned"@) {
            let j = choose|j: int| 0 <= j < st.len() && st[j] == "planned"@;
            assert(st[j] == "planned"@);
        }
        if st.contains("running"@) {
            let j = choose|j: int| 0 <= j < st.len() && st[j] == "running"@;
            assert(st[j] == "running"@);
        }
        if any_blocked {
            let j = choose|j: int| 0 <= j < st.len() && st[j] == "blocked"@;
            assert(st.contains(st[j]));
        }
        if any_live {
            let j = choose|j: int| 0 <= j < st.len() && (st[j] == "planned"@ || st[j] == "running"@);
            assert(st.contains(st[j]));
        }
    }
    if any_blocked {
        batch.status = owned("blocked");
    } else if any_live {
        batch.status = owned("active");
    } else if batch.agents.len() > 0 && all_completed {
        batch.status = owned("completed");
    } else {
        batch.status = owned("partial");
    }
}

/// The status a batch takes once a synthesis with `status` is recorded.
pub open spec fn synthesized_batch_status(st: Seq<Seq<char>>, status: SubagentSynthesisStatus) -> Seq<char> {
    match status {
        SubagentSynthesisStatus::Blocked => "blocked"@,
        SubagentSynthesisStatus::Partial => if derived_batch_status(st) == "completed"@ {
            "partial"@
        } else {
            derived_batch_status(st)
        },
        SubagentSynthesisStatus::Completed => derived_batch_status(st),
    }
}

/// Refreshes the batch's status, then lets the synthesis status override it: a
/// blocked synthesis blocks the batch, and a partial one keeps it from completing.
pub fn apply_synthesis_status(batch: &mut SubagentBatch, status: SubagentSynthesisStatus)
    ensures
        final(batch).status@ == synthesized_batch_status(agent_statuses(old(batch).agents@), status),
        final(batch).id == old(batch).id,
        final(batch).agents == old(batch).agents,
        final(batch).prompts == old(batch).prompts,
        final(batch).synthesis == old(batch).synthesis,
        final(batch).task == old(batch).task,
        final(batch).mode == old(batch).mode,
        final(batch).scope == old(batch).scope,
        final(batch).wait_policy == old(batch).wait_policy,
        final(batch).rendezvous_required == old(batch).rendezvous_required,
        final(batch).registry_issues == old(batch).registry_issues,
        final(batch).duplicate_roles_ignored == old(batch).duplicate_roles_ignored,
        final(batch).recorded_at == old(batch).recorded_at,
        final(batch).updated_at == old(batch).updated_at,
{
    refresh_batch_status(batch);
    match status {
        SubagentSynthesisStatus::Blocked => {
            batch.status = owned("blocked");
        },
        SubagentSynthesisStatus::Partial => {
            if str_eq(batch.status.as_str(), "completed") {
                batch.status = owned("partial");
            }
        },
        SubagentSynthesisStatus::Completed => {},
    }
}

/// Whether an outcome status is terminal.
pub open spec fn terminal_outcome(s: SubagentOutcomeStatus) -> bool {
    s == SubagentOutcomeStatus::Completed || s == SubagentOutcomeStatus::Failed
        || s == SubagentOutcomeStatus::TimedOut || s == SubagentOutcomeStatus::Closed
}

/// A terminal outcome needs a final disposition: `pending` is refused for it.
pub fn validate_outcome_disposition(
    status: SubagentOutcomeStatus,
    disposition: SubagentDisposition,
) -> (r: Result<(), String>)
    ensures
        r is Ok <==> !(terminal_outcome(status) && disposition == SubagentDisposition::Pending),
        r matches Err(m) ==> m@ == "terminal subagent outcomes require a final disposition"@,
{
    let terminal = match status {
        SubagentOutcomeStatus::Completed | SubagentOutcomeStatus::Failed
        | SubagentOutcomeStatus::TimedOut | SubagentOutcomeStatus::Closed => true,
        _ => false,
    };
    let pending = match disposition {
        SubagentDisposition::Pending => true,
        _ => false,
    };
    if terminal && pending {
        Err(owned("terminal subagent outcomes require a final disposition"))
    } else {
        Ok(())
    }
}

/// The roles of the agents without a final verified outcome, in order.
pub open spec fn incomplete_roles(agents: Seq<SubagentRecord>) -> Seq<Seq<char>>
    decreases agents.len(),
{
    if agents.len() == 0 {
        seq![]
    } else {
        incomplete_roles(agents.drop_last()) + if final_verified(agents.last()) {
            seq![]
        } else {
            seq![agents.last().role@]
        }
    }
}

/// The roles of the agents that lack a final verified outcome, in order.
pub fn incomplete_agent_roles(agents: &Vec<SubagentRecord>) -> (r: Vec<String>)
    ensures
        strs(r@) == incomplete_roles(agents@),
{
    let mut out: Vec<String> = Vec::new();
    let mut i: usize = 0;
    while i < agents.len()
        invariant
            i <= agents@.len(),
            strs(out@) == incomplete_roles(agents@.take(i as int)),
        decreases agents@.len() - i,
    {
        let ghost before = out@;
        if !subagent_has_final_verified_outcome(&agents[i]) {
            out.push(agents[i].role.clone());
        }
        proof {
            let t = agents@.take(i + 1);
            assert(t.drop_last() =~= agents@.take(i as int));
            assert(strs(out@) =~= incomplete_roles(t));
        }
        i = i + 1;
    }
    assert(agents@.take(agents@.len() as int) =~= agents@);
    out
}

/// A completed synthesis needs at least one agent, each with a terminal
/// human-verified outcome.
pub fn ensure_completed_synthesis_ready(batch: &SubagentBatch) -> (r: Result<(), String>)
    ensures
        r is Ok <==> batch.agents@.len() > 0 && incomplete_roles(batch.agents@).len() == 0,
        batch.agents@.len() == 0 ==> (r matches Err(m)
            && m@ == "completed synthesis requires at least one planned agent"@),
        batch.agents@.len() > 0 && incomplete_roles(batch.agents@).len() > 0 ==> (r matches Err(m)
            && m@ == "completed synthesis requires terminal human-verified outcomes for every agent; incomplete roles: "@
            + join_spec(incomplete_roles(batch.agents@), ", "@)),
{
    if batch.agents.len() == 0 {
        return Err(owned("completed synthesis requires at least one planned agent"));
    }
    let incomplete = incomplete_agent_roles(&batch.agents);
    if incomplete.len() > 0 {
        let mut m = owned("completed synthesis requires terminal human-verified outcomes for every agent; incomplete roles: ");
        let joined = join_strings(&incomplete, ", ");
        push_all(&mut m, joined.as_str());
        return Err(m);
    }
    Ok(())
}

/// `prefix` followed by `extra`, as strings.
fn prefixed(prefix: Vec<String>, extra: &Vec<String>) -> (r: Vec<String>)
    ensures
        strs(r@) == strs(prefix@) + strs(extra@),
{
    let mut out = prefix;
    let ghost start = strs(out@);
    let mut i: usize = 0;
    while i < extra.len()
        invariant
            i <= extra@.len(),
            strs(out@) == start + strs(extra@).take(i as int),
        decreases extra@.len() - i,
    {
        let c = extra[i].clone();
        let ghost before = out@;
        out.push(c);
        assert(strs(out@) =~= strs(before).push(c@));
        assert(strs(out@) =~= start + strs(extra@).take(i + 1));
        i = i + 1;
    }
    assert(strs(extra@).take(extra@.len() as int) =~= strs(extra@));
    out
}

/// The evidence sources of one subagent's outcome: the batch, the agent, then `extra`.
pub fn subagent_source_ids(batch_id: &str, role: &str, extra: &Vec<String>) -> (r: Vec<String>)
    ensures
        strs(r@) == seq!["subagents:"@ + batch_id@, "subagent:"@ + batch_id@ + ":"@ + role@]
            + strs(extra@),
{
    let mut a = owned("subagents:");
    push_all(&mut a, batch_id);
    let mut b = owned("subagent:");
    push_all(&mut b, batch_id);
    push_all(&mut b, ":");
    push_all(&mut b, role);
    let mut head: Vec<String> = Vec::new();
    head.push(a);
    head.push(b);
    prefixed(head, extra)
}

/// The evidence sources of a batch's synthesis: the synthesis, then `extra`.
pub fn synthesis_source_ids(batch_id: &str, extra: &Vec<String>) -> (r: Vec<String>)
    ensures
        strs(r@) == seq!["subagents:"@ + batch_id@ + ":synthesis"@] + strs(extra@),
{
    let mut a = owned("subagents:");
    push_all(&mut a, batch_id);
    push_all(&mut a, ":synthesis");
    let mut head: Vec<String> = Vec::new();
    head.push(a);
    prefixed(head, extra)
}

/// The artifacts of a subagent record: the ledger file, then `extra`.
pub fn subagent_artifacts(extra: &Vec<String>) -> (r: Vec<String>)
    ensures
        strs(r@) == seq!["subagents.json"@] + strs(extra@),
{
    let mut head: Vec<String> = Vec::new();
    head.push(owned("subagents.json"));
    prefixed(head, extra)
}

} // verus!
