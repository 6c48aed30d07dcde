//! The rules a subagents ledger must keep, checked with the messages the
//! capsule validator reports.
use vstd::prelude::*;

use crate::audit_gate::str_eq;
use crate::dev::checks::{
    blank, has_control, prompt_hash_errors, prompt_hash_ok, repeated_errors,
    required_repeated_errors, role_name_error, role_name_ok, stable_id_char, stable_id_errors, text_errors,
    validate_non_empty_text, validate_optional_text, validate_prompt_hash,
    validate_repeated_text, validate_required_repeated_text, validate_role_name,
    validate_stable_id,
};
use crate::dev::kinds::{
    disposition_name, outcome_status_name, synthesis_status_name, SubagentDisposition,
    SubagentOutcomeStatus, SubagentSynthesisStatus,
};
use crate::dev::subagents::{
    batch_status_name, final_verified, is_batch_status, subagent_has_final_verified_outcome,
    terminal_status, is_terminal_subagent_status, SubagentBatch, SubagentPromptRecord,
    SubagentRecord, SubagentSynthesisRecord, Subagents, SUBAGENTS_SCHEMA,
};
use crate::text::{debug_quote, debug_quoted, decimal, join_spec, owned, push_all, push_decimal, strs};

verus! {

/// Non-empty text without control characters.
pub open spec fn text_ok(v: Seq<char>) -> bool {
    !blank(v) && !has_control(v)
}

/// An optional field that, when present, is non-empty text.
pub open spec fn opt_text_ok(o: Option<String>) -> bool {
    match o {
        Some(v) => text_ok(v@),
        None => true,
    }
}

/// Every item is non-empty text.
pub open spec fn all_text_ok(vs: Seq<String>) -> bool {
    forall|i: int| 0 <= i < vs.len() ==> text_ok(#[trigger] vs[i]@)
}

/// A stable id: non-empty text of ASCII letters, digits, `_`, `-`, `.` and `:`.
pub open spec fn stable_id_ok(v: Seq<char>) -> bool {
    text_ok(v) && forall|i: int| 0 <= i < v.len() ==> stable_id_char(#[trigger] v[i])
}

/// Whether `s` names a subagent outcome status.
pub open spec fn outcome_status_ok(s: Seq<char>) -> bool {
    exists|k: SubagentOutcomeStatus| outcome_status_name(k) == s
}

/// Whether `s` names a subagent disposition.
pub open spec fn disposition_ok(s: Seq<char>) -> bool {
    exists|k: SubagentDisposition| disposition_name(k) == s
}

/// Whether `s` names a synthesis status.
pub open spec fn synthesis_status_ok(s: Seq<char>) -> bool {
    exists|k: SubagentSynthesisStatus| synthesis_status_name(k) == s
}

/// The index of the last prompt recorded for `role`, or -1.
pub open spec fn last_prompt_index(ps: Seq<SubagentPromptRecord>, role: Seq<char>) -> int
    decreases ps.len(),
{
    if ps.len() == 0 {
        -1
    } else if ps.last().role@ == role {
        ps.len() - 1
    } else {
        last_prompt_index(ps.drop_last(), role)
    }
}

/// Whether some item of `ps` before `n` is for `role`.
pub open spec fn prompt_role_before(ps: Seq<SubagentPromptRecord>, n: int, role: Seq<char>) -> bool {
    exists|j: int| 0 <= j < n && #[trigger] ps[j].role@ == role
}

/// Whether some agent before `n` has `role`.
pub open spec fn agent_role_before(agents: Seq<SubagentRecord>, n: int, role: Seq<char>) -> bool {
    exists|j: int| 0 <= j < n && #[trigger] agents[j].role@ == role
}

/// The rules on one prompt record, beside the uniqueness of its role.
pub open spec fn prompt_ok(p: SubagentPromptRecord) -> bool {
    role_name_ok(p.role@) && stable_id_ok(p.prompt_id@) && prompt_hash_ok(p.prompt_hash@)
}

/// The rules on an agent's role, status, task and summary.
pub open spec fn agent_head_ok(a: SubagentRecord) -> bool {
    &&& role_name_ok(a.role@)
    &&& outcome_status_ok(a.status@)
    &&& text_ok(a.task@)
    &&& text_ok(a.summary@)
}

/// The rules on an agent's prompt id and hash, disposition and verification.
pub open spec fn agent_outcome_ok(a: SubagentRecord) -> bool {
    &&& match a.prompt_id {
        Some(p) => stable_id_ok(p@),
        None => false,
    }
    &&& match a.prompt_hash {
        Some(h) => prompt_hash_ok(h@),
        None => false,
    }
    &&& match a.disposition {
        Some(d) => disposition_ok(d@),
        None => true,
    }
    &&& (a.disposition is Some <==> a.human_verified)
    &&& (terminal_status(a.status@) ==> final_verified(a))
}

/// The rules on one agent record of a batch with id `batch_id` and prompts `ps`.
pub open spec fn agent_ok(batch_id: Seq<char>, a: SubagentRecord, ps: Seq<SubagentPromptRecord>) -> bool {
    &&& agent_head_ok(a)
    &&& agent_outcome_ok(a)
    &&& all_text_ok(a.source_ids@)
    &&& all_text_ok(a.artifacts@)
    &&& agent_prompt_ok(batch_id, a, ps)
}

/// When a prompt is recorded for the agent's role (the last one counts), the
/// agent's prompt id is `<batch>:<role>` and its prompt hash is the prompt's.
pub open spec fn agent_prompt_ok(batch_id: Seq<char>, a: SubagentRecord, ps: Seq<SubagentPromptRecord>) -> bool {
    let k = last_prompt_index(ps, a.role@);
    k >= 0 ==> {
        &&& a.prompt_id matches Some(p) && p@ == batch_id + ":"@ + a.role@
        &&& a.prompt_hash matches Some(h) && h@ == ps[k].prompt_hash@
    }
}

/// A duplicate-role entry: a role name with at least one non-empty path.
pub open spec fn duplicate_entry_ok(e: (String, Vec<String>)) -> bool {
    role_name_ok(e.0@) && e.1@.len() > 0 && all_text_ok(e.1@)
}

/// The rules on a synthesis record of a batch whose agents are `agents`.
pub open spec fn synthesis_ok(s: SubagentSynthesisRecord, agents: Seq<SubagentRecord>) -> bool {
    &&& synthesis_status_ok(s.status@)
    &&& text_ok(s.summary@)
    &&& s.human_verified
    &&& s.source_ids@.len() > 0 && all_text_ok(s.source_ids@)
    &&& s.artifacts@.len() > 0 && all_text_ok(s.artifacts@)
    &&& (s.status@ == "completed"@ ==> forall|i: int| 0 <= i < agents.len() ==> final_verified(#[trigger] agents[i]))
}

/// The rules on a batch's own fields.
pub open spec fn batch_head_ok(b: SubagentBatch) -> bool {
    &&& stable_id_ok(b.id@)
    &&& batch_status_name(b.status@)
    &&& b.prompts@.len() > 0
    &&& b.agents@.len() > 0
    &&& opt_text_ok(b.task)
    &&& opt_text_ok(b.mode)
    &&& opt_text_ok(b.scope)
    &&& opt_text_ok(b.wait_policy)
    &&& all_text_ok(b.registry_issues@)
}

/// The rules on a batch's prompts and agents and how they pair up.
pub open spec fn batch_members_ok(b: SubagentBatch) -> bool {
    let ps = b.prompts@;
    let ags = b.agents@;
    &&& forall|i: int| 0 <= i < b.duplicate_roles_ignored@.len() ==> duplicate_entry_ok(#[trigger] b.duplicate_roles_ignored@[i])
    &&& forall|i: int| 0 <= i < ps.len() ==> prompt_ok(#[trigger] ps[i])
    &&& forall|i: int| 0 <= i < ps.len() ==> !prompt_role_before(ps, i, #[trigger] ps[i].role@)
    &&& forall|i: int| 0 <= i < ags.len() ==> agent_ok(b.id@, #[trigger] ags[i], ps)
    &&& forall|i: int| 0 <= i < ags.len() ==> !agent_role_before(ags, i, #[trigger] ags[i].role@)
    &&& forall|i: int| 0 <= i < ps.len() ==> agent_role_before(ags, ags.len() as int, #[trigger] ps[i].role@)
    &&& forall|i: int| 0 <= i < ags.len() ==> prompt_role_before(ps, ps.len() as int, #[trigger] ags[i].role@)
    &&& (b.status@ == "completed"@ ==> forall|i: int| 0 <= i < ags.len() ==> final_verified(#[trigger] ags[i]))
    &&& match b.synthesis {
        Some(s) => synthesis_ok(s, ags),
        None => true,
    }
}

/// The rules on one batch, beside the uniqueness of its id.
pub open spec fn batch_ok(b: SubagentBatch) -> bool {
    batch_head_ok(b) && batch_members_ok(b)
}

/// Whether some batch before `n` has id `id`.
pub open spec fn batch_id_before(bs: Seq<SubagentBatch>, n: int, id: Seq<char>) -> bool {
    exists|j: int| 0 <= j < n && #[trigger] bs[j].id@ == id
}

/// The rules on a whole ledger: its schema, each batch, and distinct batch ids.
pub open spec fn subagents_ok(s: Subagents) -> bool {
    &&& s.schema@ == SUBAGENTS_SCHEMA@
    &&& forall|i: int| 0 <= i < s.batches@.len() ==> batch_ok(#[trigger] s.batches@[i])
    &&& forall|i: int| 0 <= i < s.batches@.len() ==> !batch_id_before(s.batches@, i, #[trigger] s.batches@[i].id@)
}

proof fn lemma_repeated_errors_empty(field: Seq<char>, vals: Seq<Seq<char>>)
    ensures
        repeated_errors(field, vals).len() == 0 <==> forall|i: int| 0 <= i < vals.len() ==> text_ok(#[trigger] vals[i]),
    decreases vals.len(),
{
    if vals.len() > 0 {
        lemma_repeated_errors_empty(field, vals.drop_last());
        assert forall|i: int| 0 <= i < vals.len() - 1 implies vals.drop_last()[i] == vals[i] by {}
        if forall|i: int| 0 <= i < vals.len() ==> text_ok(#[trigger] vals[i]) {
            assert(text_ok(vals[vals.len() - 1]));
        }
        if repeated_errors(field, vals).len() == 0 {
            assert forall|i: int| 0 <= i < vals.len() implies text_ok(#[trigger] vals[i]) by {
                if i < vals.len() - 1 {
                    assert(vals.drop_last()[i] == vals[i]);
                }
            }
        }
    }
}

pub(crate) proof fn lemma_all_text_ok(field: Seq<char>, vs: Seq<String>)
    ensures
        repeated_errors(field, strs(vs)).len() == 0 <==> all_text_ok(vs),
        required_repeated_errors(field, strs(vs)).len() == 0 <==> (vs.len() > 0 && all_text_ok(vs)),
{
    lemma_repeated_errors_empty(field, strs(vs));
    assert forall|i: int| 0 <= i < vs.len() implies strs(vs)[i] == vs[i]@ by {}
    if all_text_ok(vs) {
        assert forall|i: int| 0 <= i < strs(vs).len() implies text_ok(#[trigger] strs(vs)[i]) by {
            assert(strs(vs)[i] == vs[i]@);
        }
    }
    if forall|i: int| 0 <= i < strs(vs).len() ==> text_ok(#[trigger] strs(vs)[i]) {
        assert forall|i: int| 0 <= i < vs.len() implies text_ok(#[trigger] vs[i]@) by {
            assert(strs(vs)[i] == vs[i]@);
        }
    }
}

/// `a` followed by `b`.
pub(crate) fn cat(a: &str, b: &str) -> (r: String)
    ensures
        r@ == a@ + b@,
{
    let mut m = owned(a);
    push_all(&mut m, b);
    m
}

/// Appends `a + b` to `errors`.
pub(crate) fn push2(errors: &mut Vec<String>, a: &str, b: &str)
    ensures
        final(errors)@.len() == old(errors)@.len() + 1,
        strs(final(errors)@) == strs(old(errors)@).push(a@ + b@),
{
    errors.push(cat(a, b));
    assert(strs(errors@) =~= strs(old(errors)@).push(a@ + b@));
}

/// `prefix[i]` style names: `a` then `[`, the decimal `i` and `]`.
pub(crate) fn indexed(a: &str, i: usize) -> (r: String)
    ensures
        r@ == a@ + "["@ + decimal(i as nat) + "]"@,
        r@ == idx(a@, i as int),
{
    let mut m = owned(a);
    push_all(&mut m, "[");
    push_decimal(&mut m, i as u64);
    push_all(&mut m, "]");
    m
}

/// `prefix[i]`: a field name with an index.
pub open spec fn idx(base: Seq<char>, i: int) -> Seq<char> {
    base + "["@ + decimal(i as nat) + "]"@
}

/// `seq![m]` when `cond` holds, else nothing.
pub open spec fn msg_if(cond: bool, m: Seq<char>) -> Seq<Seq<char>> {
    if cond {
        seq![m]
    } else {
        seq![]
    }
}

/// The message for a role name that breaks the naming rule, after `field`.
pub open spec fn role_msg(field: Seq<char>, role: Seq<char>) -> Seq<Seq<char>> {
    msg_if(!role_name_ok(role), field + " "@ + role_name_error(role))
}

/// The message for a value of `name` that is not a stable id, after `field`.
pub open spec fn stable_msg(field: Seq<char>, name: Seq<char>, v: Seq<char>) -> Seq<Seq<char>> {
    msg_if(stable_id_errors(name, v).len() > 0, field + " "@ + join_spec(stable_id_errors(name, v), "; "@))
}

/// The messages for prompt `i` of `ps`, named `pp`.
#[verifier::opaque]
pub open spec fn prompt_msgs(pp: Seq<char>, ps: Seq<SubagentPromptRecord>, i: int) -> Seq<Seq<char>> {
    let p = ps[i];
    role_msg(pp, p.role@) + stable_msg(pp, "prompt_id"@, p.prompt_id@) + prompt_hash_errors(pp, p.prompt_hash@)
        + msg_if(prompt_role_before(ps, i, p.role@), pp + " duplicate prompt for "@ + p.role@)
}

/// The messages for the first `n` prompts of `ps`, named `base[i]`.
pub open spec fn prompts_msgs(base: Seq<char>, ps: Seq<SubagentPromptRecord>, n: int) -> Seq<Seq<char>>
    decreases n,
{
    if n <= 0 {
        seq![]
    } else {
        prompts_msgs(base, ps, n - 1) + prompt_msgs(idx(base, n - 1), ps, n - 1)
    }
}

/// The messages for agent `i`'s role, status, task and summary.
#[verifier::opaque]
pub open spec fn agent_head_msgs(ap: Seq<char>, agents: Seq<SubagentRecord>, i: int) -> Seq<Seq<char>> {
    let a = agents[i];
    role_msg(ap, a.role@)
        + msg_if(agent_role_before(agents, i, a.role@), ap + " duplicate agent for "@ + a.role@)
        + msg_if(!outcome_status_ok(a.status@), ap + " invalid subagent outcome status "@ + debug_quoted(a.status@)
            + "; expected planned, running, completed, failed, timed_out, closed, or blocked"@)
        + text_errors(ap + " task"@, a.task@) + text_errors(ap + " summary"@, a.summary@)
}

/// The messages for an agent's prompt id and hash, disposition and verification.
#[verifier::opaque]
pub open spec fn agent_outcome_msgs(ap: Seq<char>, a: SubagentRecord) -> Seq<Seq<char>> {
    (match a.prompt_id {
        Some(p) => stable_msg(ap, "prompt_id"@, p@),
        None => seq![ap + " prompt_id is required"@],
    }) + (match a.prompt_hash {
        Some(h) => prompt_hash_errors(ap, h@),
        None => seq![ap + " prompt_hash is required"@],
    }) + (match a.disposition {
        Some(d) => msg_if(!disposition_ok(d@), ap + " invalid subagent disposition "@ + debug_quoted(d@)
            + "; expected accepted, rejected, mixed, informational, or pending"@),
        None => seq![],
    }) + msg_if(a.disposition is Some && !a.human_verified, ap + " disposition requires human_verified=true"@)
        + msg_if(a.human_verified && a.disposition is None, ap + " human_verified=true requires disposition"@)
        + msg_if(terminal_status(a.status@) && !final_verified(a),
            ap + " terminal status requires a final human-verified disposition"@)
}

/// The messages for an agent whose prompt id or hash disagrees with the prompt
/// recorded for its role.
#[verifier::opaque]
pub open spec fn agent_prompt_msgs(ap: Seq<char>, batch_id: Seq<char>, a: SubagentRecord, ps: Seq<SubagentPromptRecord>) -> Seq<Seq<char>> {
    let k = last_prompt_index(ps, a.role@);
    let expected = batch_id + ":"@ + a.role@;
    if k >= 0 {
        msg_if(!(a.prompt_id matches Some(p) && p@ == expected), ap + " prompt_id must match "@ + expected)
            + msg_if(!(a.prompt_hash matches Some(h) && h@ == ps[k].prompt_hash@),
                ap + " prompt_hash must match prompt record"@)
    } else {
        seq![]
    }
}

/// The messages for agent `i` of a batch, named `ap`.
#[verifier::opaque]
pub open spec fn agent_msgs(ap: Seq<char>, batch_id: Seq<char>, agents: Seq<SubagentRecord>, i: int, ps: Seq<SubagentPromptRecord>) -> Seq<Seq<char>> {
    let a = agents[i];
    agent_head_msgs(ap, agents, i) + agent_outcome_msgs(ap, a)
        + repeated_errors(ap + " source_ids"@, strs(a.source_ids@))
        + repeated_errors(ap + " artifacts"@, strs(a.artifacts@))
        + agent_prompt_msgs(ap, batch_id, a, ps)
}

/// The messages for the first `n` agents, named `base[i]`.
pub open spec fn agents_msgs(base: Seq<char>, batch_id: Seq<char>, agents: Seq<SubagentRecord>, ps: Seq<SubagentPromptRecord>, n: int) -> Seq<Seq<char>>
    decreases n,
{
    if n <= 0 {
        seq![]
    } else {
        agents_msgs(base, batch_id, agents, ps, n - 1) + agent_msgs(idx(base, n - 1), batch_id, agents, n - 1, ps)
    }
}

/// The distinct strings of `v` in ascending order.
pub open spec fn distinct_sorted(v: Seq<Seq<char>>) -> Seq<Seq<char>> {
    choose|s: Seq<Seq<char>>| strictly_sorted(s) && forall|x: Seq<char>| s.contains(x) <==> v.contains(x)
}

/// For each of the first `n` prompt roles `roles` that no agent has, the
/// message that it has no matching agent.
pub open spec fn missing_agent_msgs(prefix: Seq<char>, roles: Seq<Seq<char>>, ags: Seq<SubagentRecord>, n: int) -> Seq<Seq<char>>
    decreases n,
{
    if n <= 0 {
        seq![]
    } else {
        missing_agent_msgs(prefix, roles, ags, n - 1) + msg_if(!agent_role_before(ags, ags.len() as int, roles[n - 1]),
            prefix + " prompt role "@ + roles[n - 1] + " has no matching agent"@)
    }
}

/// For each of the first `n` agent roles `roles` that no prompt has, the
/// message that it has no matching prompt.
pub open spec fn missing_prompt_msgs(prefix: Seq<char>, roles: Seq<Seq<char>>, ps: Seq<SubagentPromptRecord>, n: int) -> Seq<Seq<char>>
    decreases n,
{
    if n <= 0 {
        seq![]
    } else {
        missing_prompt_msgs(prefix, roles, ps, n - 1) + msg_if(!prompt_role_before(ps, ps.len() as int, roles[n - 1]),
            prefix + " agent role "@ + roles[n - 1] + " has no matching prompt"@)
    }
}

/// The messages for prompt roles without an agent and agent roles without a
/// prompt, each role once, in ascending order.
#[verifier::opaque]
pub open spec fn role_coverage_msgs(prefix: Seq<char>, ps: Seq<SubagentPromptRecord>, ags: Seq<SubagentRecord>) -> Seq<Seq<char>> {
    let pr = distinct_sorted(prompt_roles(ps));
    let ar = distinct_sorted(agent_roles(ags));
    missing_agent_msgs(prefix, pr, ags, pr.len() as int) + missing_prompt_msgs(prefix, ar, ps, ar.len() as int)
}

/// Two strictly sorted sequences with the same strings are equal.
proof fn lemma_sorted_unique(s: Seq<Seq<char>>, t: Seq<Seq<char>>)
    requires
        strictly_sorted(s),
        strictly_sorted(t),
        forall|x: Seq<char>| s.contains(x) <==> t.contains(x),
    ensures
        s == t,
    decreases s.len(),
{
    if s.len() == 0 {
        if t.len() > 0 {
            assert(t.contains(t[0]));
        }
        assert(s =~= t);
    } else {
        assert(s.contains(s[0]));
        let k = choose|k: int| 0 <= k < t.len() && t[k] == s[0];
        assert(t.contains(t[0]));
        let m = choose|m: int| 0 <= m < s.len() && s[m] == t[0];
        if k > 0 {
            assert(lex_less(t[0], t[k]));
            if m == 0 {
                crate::order::lemma_lex_irreflexive(s[0]);
            } else {
                assert(lex_less(s[0], s[m]));
                crate::order::lemma_lex_transitive(s[0], t[0], s[0]);
                crate::order::lemma_lex_irreflexive(s[0]);
            }
        }
        let s1 = s.drop_first();
        let t1 = t.drop_first();
        assert forall|x: Seq<char>| s1.contains(x) <==> t1.contains(x) by {
            if s1.contains(x) {
                let j = choose|j: int| 0 <= j < s1.len() && s1[j] == x;
                assert(s[j + 1] == x);
                assert(lex_less(s[0], s[j + 1]));
                crate::order::lemma_lex_irreflexive(x);
                assert(t.contains(x));
                let q = choose|q: int| 0 <= q < t.len() && t[q] == x;
                assert(q != 0);
                assert(t1[q - 1] == x);
            }
            if t1.contains(x) {
                let j = choose|j: int| 0 <= j < t1.len() && t1[j] == x;
                assert(t[j + 1] == x);
                assert(lex_less(t[0], t[j + 1]));
                crate::order::lemma_lex_irreflexive(x);
                assert(s.contains(x));
                let q = choose|q: int| 0 <= q < s.len() && s[q] == x;
                assert(q != 0);
                assert(s1[q - 1] == x);
            }
        }
        assert forall|a: int, b: int| 0 <= a < b < s1.len() implies lex_less(#[trigger] s1[a], #[trigger] s1[b]) by {
            assert(s1[a] == s[a + 1] && s1[b] == s[b + 1]);
        }
        assert forall|a: int, b: int| 0 <= a < b < t1.len() implies lex_less(#[trigger] t1[a], #[trigger] t1[b]) by {
            assert(t1[a] == t[a + 1] && t1[b] == t[b + 1]);
        }
        lemma_sorted_unique(s1, t1);
        assert(s =~= seq![s[0]] + s1);
        assert(t =~= seq![t[0]] + t1);
    }
}

/// What `sorted_distinct` returns is `distinct_sorted` of its input.
proof fn lemma_is_distinct_sorted(r: Seq<Seq<char>>, v: Seq<Seq<char>>)
    requires
        strictly_sorted(r),
        forall|x: Seq<char>| r.contains(x) <==> v.contains(x),
    ensures
        r == distinct_sorted(v),
{
    let d = distinct_sorted(v);
    assert(strictly_sorted(d) && forall|x: Seq<char>| d.contains(x) <==> v.contains(x));
    lemma_sorted_unique(r, d);
}

/// The messages for the ignored duplicate-role entry `e`.
#[verifier::opaque]
pub open spec fn duplicate_entry_msgs(prefix: Seq<char>, e: (String, Vec<String>)) -> Seq<Seq<char>> {
    let field = prefix + " duplicate_roles_ignored["@ + e.0@ + "]"@;
    msg_if(!role_name_ok(e.0@), prefix + " duplicate_roles_ignored "@ + role_name_error(e.0@))
        + msg_if(e.1@.len() == 0, field + " must not be empty"@)
        + repeated_errors(field, strs(e.1@))
}

/// The messages for the first `n` ignored duplicate-role entries.
pub open spec fn duplicate_entries_msgs(prefix: Seq<char>, es: Seq<(String, Vec<String>)>, n: int) -> Seq<Seq<char>>
    decreases n,
{
    if n <= 0 {
        seq![]
    } else {
        duplicate_entries_msgs(prefix, es, n - 1) + duplicate_entry_msgs(prefix, es[n - 1])
    }
}

/// For each of the first `n` agents without a final verified outcome, the
/// message `prefix what role`.
pub open spec fn incomplete_msgs(prefix: Seq<char>, what: Seq<char>, ags: Seq<SubagentRecord>, n: int) -> Seq<Seq<char>>
    decreases n,
{
    if n <= 0 {
        seq![]
    } else {
        incomplete_msgs(prefix, what, ags, n - 1) + msg_if(!final_verified(ags[n - 1]), prefix + what + ags[n - 1].role@)
    }
}

/// The messages for a batch's synthesis record.
#[verifier::opaque]
pub open spec fn synthesis_msgs(prefix: Seq<char>, s: SubagentSynthesisRecord, ags: Seq<SubagentRecord>) -> Seq<Seq<char>> {
    let sp = prefix + " synthesis"@;
    msg_if(!synthesis_status_ok(s.status@), sp + " invalid subagent synthesis status "@ + debug_quoted(s.status@)
        + "; expected completed, partial, or blocked"@)
        + text_errors(sp + " summary"@, s.summary@)
        + msg_if(!s.human_verified, sp + " requires human_verified=true"@)
        + required_repeated_errors(sp + " source_ids"@, strs(s.source_ids@))
        + required_repeated_errors(sp + " artifacts"@, strs(s.artifacts@))
        + (if s.status@ == "completed"@ {
            incomplete_msgs(sp, " completed with incomplete agent "@, ags, ags.len() as int)
        } else {
            seq![]
        })
}

/// The messages of an optional text field.
pub open spec fn opt_text_msgs(field: Seq<char>, o: Option<String>) -> Seq<Seq<char>> {
    match o {
        Some(v) => text_errors(field, v@),
        None => seq![],
    }
}

/// The messages for a batch's id, status, and missing prompts or agents;
/// `dup` tells whether an earlier batch has its id.
pub open spec fn batch_front_msgs(prefix: Seq<char>, b: SubagentBatch, dup: bool) -> Seq<Seq<char>> {
    stable_msg(prefix, "batch id"@, b.id@)
        + msg_if(dup, prefix + " duplicate batch id "@ + b.id@)
        + msg_if(!batch_status_name(b.status@), prefix + " status "@ + debug_quoted(b.status@)
            + " must be planned, active, completed, partial, or blocked"@)
        + msg_if(b.prompts@.len() == 0, prefix + " prompts must not be empty"@)
        + msg_if(b.agents@.len() == 0, prefix + " agents must not be empty"@)
}

/// The messages for a batch's optional texts and registry issues.
pub open spec fn batch_text_msgs(prefix: Seq<char>, b: SubagentBatch) -> Seq<Seq<char>> {
    opt_text_msgs(prefix + " task"@, b.task)
        + opt_text_msgs(prefix + " mode"@, b.mode)
        + opt_text_msgs(prefix + " scope"@, b.scope)
        + opt_text_msgs(prefix + " wait_policy"@, b.wait_policy)
        + repeated_errors(prefix + " registry_issues"@, strs(b.registry_issues@))
}

/// The messages for a batch's own fields; `dup` tells whether an earlier batch
/// has its id.
#[verifier::opaque]
pub open spec fn batch_head_msgs(prefix: Seq<char>, b: SubagentBatch, dup: bool) -> Seq<Seq<char>> {
    batch_front_msgs(prefix, b, dup) + batch_text_msgs(prefix, b)
}

/// The messages for a batch's prompts, agents, their pairing and synthesis.
#[verifier::opaque]
pub open spec fn batch_members_msgs(prefix: Seq<char>, b: SubagentBatch) -> Seq<Seq<char>> {
    let ags = b.agents@;
    duplicate_entries_msgs(prefix, b.duplicate_roles_ignored@, b.duplicate_roles_ignored@.len() as int)
        + prompts_msgs(prefix + " prompts"@, b.prompts@, b.prompts@.len() as int)
        + agents_msgs(prefix + " agents"@, b.id@, ags, b.prompts@, ags.len() as int)
        + role_coverage_msgs(prefix, b.prompts@, ags)
        + (if b.status@ == "completed"@ {
            incomplete_msgs(prefix, " completed batch has incomplete agent "@, ags, ags.len() as int)
        } else {
            seq![]
        })
        + match b.synthesis {
            Some(s) => synthesis_msgs(prefix, s, ags),
            None => seq![],
        }
}

/// The messages for the first `n` batches.
pub open spec fn batches_msgs(bs: Seq<SubagentBatch>, n: int) -> Seq<Seq<char>>
    decreases n,
{
    if n <= 0 {
        seq![]
    } else {
        let p = idx("subagents.json batches"@, n - 1);
        batches_msgs(bs, n - 1) + batch_head_msgs(p, bs[n - 1], batch_id_before(bs, n - 1, bs[n - 1].id@))
            + batch_members_msgs(p, bs[n - 1])
    }
}

/// The messages a subagents ledger is reported with, in order: its schema,
/// then each batch.
pub open spec fn subagents_errors(s: Subagents) -> Seq<Seq<char>> {
    msg_if(s.schema@ != SUBAGENTS_SCHEMA@, "subagents.json schema must be "@ + SUBAGENTS_SCHEMA@)
        + batches_msgs(s.batches@, s.batches@.len() as int)
}

/// Whether some item of `v` before `n` equals `x`.
fn string_before(v: &Vec<String>, n: usize, x: &str) -> (r: bool)
    requires
        n <= v@.len(),
    ensures
        r == exists|j: int| 0 <= j < n && #[trigger] v@[j]@ == x@,
{
    let mut j: usize = 0;
    while j < n
        invariant
            n <= v@.len(),
            j <= n,
            forall|k: int| 0 <= k < j ==> #[trigger] v@[k]@ != x@,
        decreases n - j,
    {
        if str_eq(v[j].as_str(), x) {
            return true;
        }
        j = j + 1;
    }
    false
}

/// Whether some prompt before `n` is for `role`.
fn prompt_role_exists(ps: &Vec<SubagentPromptRecord>, n: usize, role: &str) -> (r: bool)
    requires
        n <= ps@.len(),
    ensures
        r == prompt_role_before(ps@, n as int, role@),
{
    let mut j: usize = 0;
    while j < n
        invariant
            n <= ps@.len(),
            j <= n,
            forall|k: int| 0 <= k < j ==> #[trigger] ps@[k].role@ != role@,
        decreases n - j,
    {
        if str_eq(ps[j].role.as_str(), role) {
            return true;
        }
        j = j + 1;
    }
    false
}

/// Whether some agent before `n` has `role`.
fn agent_role_exists(agents: &Vec<SubagentRecord>, n: usize, role: &str) -> (r: bool)
    requires
        n <= agents@.len(),
    ensures
        r == agent_role_before(agents@, n as int, role@),
{
    let mut j: usize = 0;
    while j < n
        invariant
            n <= agents@.len(),
            j <= n,
            forall|k: int| 0 <= k < j ==> #[trigger] agents@[k].role@ != role@,
        decreases n - j,
    {
        if str_eq(agents[j].role.as_str(), role) {
            return true;
        }
        j = j + 1;
    }
    false
}

/// The index of the last prompt recorded for `role`.
fn last_prompt(ps: &Vec<SubagentPromptRecord>, role: &str) -> (r: Option<usize>)
    ensures
        match r {
            Some(k) => k as int == last_prompt_index(ps@, role@) && k < ps@.len(),
            None => last_prompt_index(ps@, role@) == -1,
        },
{
    let mut found: Option<usize> = None;
    let mut i: usize = 0;
    while i < ps.len()
        invariant
            i <= ps@.len(),
            match found {
                Some(k) => k as int == last_prompt_index(ps@.take(i as int), role@) && k < i,
                None => last_prompt_index(ps@.take(i as int), role@) == -1,
            },
        decreases ps@.len() - i,
    {
        proof {
            let t = ps@.take(i + 1);
            assert(t.drop_last() =~= ps@.take(i as int));
            assert(t.last() == ps@[i as int]);
        }
        if str_eq(ps[i].role.as_str(), role) {
            found = Some(i);
        }
        i = i + 1;
    }
    assert(ps@.take(ps@.len() as int) =~= ps@);
    found
}

/// Checks each prompt of a batch; messages start with `prefix prompts[i]`.
#[verifier::rlimit(80)]
fn validate_batch_prompts(prefix: &str, ps: &Vec<SubagentPromptRecord>, errors: &mut Vec<String>)
    ensures
        final(errors)@.len() >= old(errors)@.len(),
        (final(errors)@.len() == old(errors)@.len()) <==> (
            (forall|i: int| 0 <= i < ps@.len() ==> prompt_ok(#[trigger] ps@[i]))
            && (forall|i: int| 0 <= i < ps@.len() ==> !prompt_role_before(ps@, i, #[trigger] ps@[i].role@))),
        strs(final(errors)@) == strs(old(errors)@) + prompts_msgs(prefix@ + " prompts"@, ps@, ps@.len() as int),
{
    let base = cat(prefix, " prompts");
    let mut i: usize = 0;
    while i < ps.len()
        invariant
            i <= ps@.len(),
            base@ == prefix@ + " prompts"@,
            errors@.len() >= old(errors)@.len(),
            (errors@.len() == old(errors)@.len()) <==> (
                (forall|k: int| 0 <= k < i ==> prompt_ok(#[trigger] ps@[k]))
                && (forall|k: int| 0 <= k < i ==> !prompt_role_before(ps@, k, #[trigger] ps@[k].role@))),
            strs(errors@) == strs(old(errors)@) + prompts_msgs(base@, ps@, i as int),
        decreases ps@.len() - i,
    {
        let p = &ps[i];
        let pp = indexed(base.as_str(), i);
        let n0 = errors.len();
        let ghost s0 = strs(errors@);
        match validate_role_name(p.role.as_str()) {
            Err(e) => {
                push2(errors, pp.as_str(), cat(" ", e.as_str()).as_str());
                assert(pp@ + (" "@ + e@) =~= pp@ + " "@ + e@);
            },
            Ok(()) => {},
        }
        let ghost s1 = strs(errors@);
        assert(s1 == s0 + role_msg(pp@, p.role@));
        match validate_stable_id("prompt_id", p.prompt_id.as_str()) {
            Err(e) => {
                push2(errors, pp.as_str(), cat(" ", e.as_str()).as_str());
                assert(pp@ + (" "@ + e@) =~= pp@ + " "@ + e@);
            },
            Ok(()) => {},
        }
        let ghost s2 = strs(errors@);
        assert(s2 == s1 + stable_msg(pp@, "prompt_id"@, p.prompt_id@));
        let n1 = errors.len();
        let ghost e1 = errors@;
        validate_prompt_hash(pp.as_str(), p.prompt_hash.as_str(), errors);
        proof {
            assert(strs(errors@).len() == errors@.len());
            assert(strs(e1).len() == e1.len());
            assert((prompt_hash_errors(pp@, p.prompt_hash@).len() == 0) <==> prompt_hash_ok(p.prompt_hash@));
        }
        let ghost s3 = strs(errors@);
        let n2 = errors.len();
        let dup = prompt_role_exists(ps, i, p.role.as_str());
        if dup {
            push2(errors, pp.as_str(), cat(" duplicate prompt for ", p.role.as_str()).as_str());
            assert(pp@ + (" duplicate prompt for "@ + p.role@) =~= pp@ + " duplicate prompt for "@ + p.role@);
        }
        proof {
            assert(strs(errors@) == s3 + msg_if(prompt_role_before(ps@, i as int, p.role@), pp@ + " duplicate prompt for "@ + p.role@));
            reveal(prompt_msgs);
            assert(prompt_msgs(pp@, ps@, i as int) == role_msg(pp@, p.role@) + stable_msg(pp@, "prompt_id"@, p.prompt_id@)
                + prompt_hash_errors(pp@, p.prompt_hash@) + msg_if(prompt_role_before(ps@, i as int, p.role@), pp@ + " duplicate prompt for "@ + p.role@));
            assert(strs(errors@) =~= strs(old(errors)@) + prompts_msgs(base@, ps@, i as int) + prompt_msgs(pp@, ps@, i as int));
            assert((n2 == n1) <==> prompt_hash_ok(p.prompt_hash@));
            assert((errors@.len() == n2) <==> !dup);
            assert((n1 == n0) <==> (role_name_ok(p.role@) && stable_id_ok(p.prompt_id@)));
            assert((errors@.len() == n0) <==> (prompt_ok(ps@[i as int]) && !prompt_role_before(ps@, i as int, ps@[i as int].role@)));
        }
        i = i + 1;
    }
}

/// The length of `strs(v)` is that of `v`.
pub(crate) proof fn lemma_strs_len(v: Seq<String>)
    ensures
        strs(v).len() == v.len(),
{
}

/// Checks an agent's role (also against the agents before it), status, task
/// and summary.
fn validate_agent_head(
    ap: &str,
    agents: &Vec<SubagentRecord>,
    i: usize,
    errors: &mut Vec<String>,
)
    requires
        i < agents@.len(),
    ensures
        final(errors)@.len() >= old(errors)@.len(),
        (final(errors)@.len() == old(errors)@.len()) <==> (agent_head_ok(agents@[i as int])
            && !agent_role_before(agents@, i as int, agents@[i as int].role@)),
        strs(final(errors)@) == strs(old(errors)@) + agent_head_msgs(ap@, agents@, i as int),
{
    let a = &agents[i];
    let ghost s0 = strs(errors@);
    match validate_role_name(a.role.as_str()) {
        Err(e) => {
            push2(errors, ap, cat(" ", e.as_str()).as_str());
            assert(ap@ + (" "@ + e@) =~= ap@ + " "@ + e@);
        },
        Ok(()) => {},
    }
    let ghost s1 = strs(errors@);
    assert(s1 == s0 + role_msg(ap@, a.role@));
    let dup = agent_role_exists(agents, i, a.role.as_str());
    if dup {
        push2(errors, ap, cat(" duplicate agent for ", a.role.as_str()).as_str());
        assert(ap@ + (" duplicate agent for "@ + a.role@) =~= ap@ + " duplicate agent for "@ + a.role@);
    }
    let ghost s2 = strs(errors@);
    assert(s2 == s1 + msg_if(agent_role_before(agents@, i as int, a.role@), ap@ + " duplicate agent for "@ + a.role@));
    let status = SubagentOutcomeStatus::parse(a.status.as_str());
    if status.is_none() {
        let mut m = owned(" invalid subagent outcome status ");
        push_all(&mut m, debug_quote(a.status.as_str()).as_str());
        push_all(&mut m, "; expected planned, running, completed, failed, timed_out, closed, or blocked");
        push2(errors, ap, m.as_str());
        assert(ap@ + m@ =~= ap@ + " invalid subagent outcome status "@ + debug_quoted(a.status@)
            + "; expected planned, running, completed, failed, timed_out, closed, or blocked"@);
    }
    proof {
        if status is None {
            assert(!outcome_status_ok(a.status@));
        } else {
            let k = status->0;
            assert(outcome_status_name(k) == a.status@);
        }
    }
    let ghost e3 = errors@;
    assert(strs(e3) == s2 + msg_if(!outcome_status_ok(a.status@), ap@ + " invalid subagent outcome status "@ + debug_quoted(a.status@)
            + "; expected planned, running, completed, failed, timed_out, closed, or blocked"@));
    validate_non_empty_text(cat(ap, " task").as_str(), a.task.as_str(), errors);
    let ghost e4 = errors@;
    validate_non_empty_text(cat(ap, " summary").as_str(), a.summary.as_str(), errors);
    proof {
        lemma_strs_len(e3);
        lemma_strs_len(e4);
        lemma_strs_len(errors@);
        assert(strs(errors@) =~= strs(old(errors)@) + agent_head_msgs(ap@, agents@, i as int)) by {
        reveal(agent_head_msgs);
    }
    }
}

/// Checks an agent's prompt id and hash, disposition and verification.
#[verifier::rlimit(80)]
fn validate_agent_outcome(ap: &str, a: &SubagentRecord, errors: &mut Vec<String>)
    ensures
        final(errors)@.len() >= old(errors)@.len(),
        (final(errors)@.len() == old(errors)@.len()) <==> agent_outcome_ok(*a),
        strs(final(errors)@) == strs(old(errors)@) + agent_outcome_msgs(ap@, *a),
{
    let n5 = errors.len();
    let ghost s0 = strs(errors@);
    match &a.prompt_id {
        Some(p) => {
            match validate_stable_id("prompt_id", p.as_str()) {
                Err(e) => {
                    push2(errors, ap, cat(" ", e.as_str()).as_str());
                    assert(ap@ + (" "@ + e@) =~= ap@ + " "@ + e@);
                },
                Ok(()) => {},
            }
        },
        None => push2(errors, ap, " prompt_id is required"),
    }
    let ghost s1 = strs(errors@);
    assert(s1 == s0 + match a.prompt_id {
        Some(p) => stable_msg(ap@, "prompt_id"@, p@),
        None => seq![ap@ + " prompt_id is required"@],
    });
    let n6 = errors.len();
    let ghost e6 = errors@;
    match &a.prompt_hash {
        Some(h) => {
            validate_prompt_hash(ap, h.as_str(), errors);
            proof {
                lemma_strs_len(e6);
                lemma_strs_len(errors@);
                assert((prompt_hash_errors(ap@, h@).len() == 0) <==> prompt_hash_ok(h@));
            }
        },
        None => push2(errors, ap, " prompt_hash is required"),
    }
    let ghost s2 = strs(errors@);
    assert(s2 == s1 + match a.prompt_hash {
        Some(h) => prompt_hash_errors(ap@, h@),
        None => seq![ap@ + " prompt_hash is required"@],
    });
    let n7 = errors.len();
    match &a.disposition {
        Some(d) => {
            let parsed = SubagentDisposition::parse(d.as_str());
            if parsed.is_none() {
                let mut m = owned(" invalid subagent disposition ");
                push_all(&mut m, debug_quote(d.as_str()).as_str());
                push_all(&mut m, "; expected accepted, rejected, mixed, informational, or pending");
                push2(errors, ap, m.as_str());
                assert(ap@ + m@ =~= ap@ + " invalid subagent disposition "@ + debug_quoted(d@)
                    + "; expected accepted, rejected, mixed, informational, or pending"@);
            }
            proof {
                if parsed is None {
                    assert(!disposition_ok(d@));
                } else {
                    let k = parsed->0;
                    assert(disposition_name(k) == d@);
                }
            }
        },
        None => {},
    }
    let ghost s3 = strs(errors@);
    assert(s3 == s2 + match a.disposition {
        Some(d) => msg_if(!disposition_ok(d@), ap@ + " invalid subagent disposition "@ + debug_quoted(d@)
            + "; expected accepted, rejected, mixed, informational, or pending"@),
        None => seq![],
    });
    if a.disposition.is_some() && !a.human_verified {
        push2(errors, ap, " disposition requires human_verified=true");
    }
    if a.human_verified && a.disposition.is_none() {
        push2(errors, ap, " human_verified=true requires disposition");
    }
    let terminal_incomplete = is_terminal_subagent_status(a.status.as_str())
        && !subagent_has_final_verified_outcome(a);
    if terminal_incomplete {
        push2(errors, ap, " terminal status requires a final human-verified disposition");
    }
    assert(strs(errors@) =~= strs(old(errors)@) + agent_outcome_msgs(ap@, *a)) by {
        reveal(agent_outcome_msgs);
    }
}

/// Checks that an agent's prompt id and hash agree with the prompt recorded
/// for its role, when there is one.
fn validate_agent_prompt(
    ap: &str,
    batch_id: &str,
    a: &SubagentRecord,
    ps: &Vec<SubagentPromptRecord>,
    errors: &mut Vec<String>,
)
    ensures
        final(errors)@.len() >= old(errors)@.len(),
        (final(errors)@.len() == old(errors)@.len()) <==> agent_prompt_ok(batch_id@, *a, ps@),
        strs(final(errors)@) == strs(old(errors)@) + agent_prompt_msgs(ap@, batch_id@, *a, ps@),
{
    let n12 = errors.len();
    let k = last_prompt(ps, a.role.as_str());
    let mut prompt_match = true;
    match k {
        Some(k) => {
            let mut expected = owned(batch_id);
            push_all(&mut expected, ":");
            push_all(&mut expected, a.role.as_str());
            let id_ok = match &a.prompt_id {
                Some(p) => str_eq(p.as_str(), expected.as_str()),
                None => false,
            };
            let ghost s0 = strs(errors@);
            if !id_ok {
                push2(errors, ap, cat(" prompt_id must match ", expected.as_str()).as_str());
                assert(ap@ + (" prompt_id must match "@ + expected@) =~= ap@ + " prompt_id must match "@ + expected@);
                prompt_match = false;
            }
            let ghost s1 = strs(errors@);
            let hash_ok = match &a.prompt_hash {
                Some(h) => str_eq(h.as_str(), ps[k].prompt_hash.as_str()),
                None => false,
            };
            if !hash_ok {
                push2(errors, ap, " prompt_hash must match prompt record");
                prompt_match = false;
            }
            assert(strs(errors@) =~= s0 + agent_prompt_msgs(ap@, batch_id@, *a, ps@)) by {
                reveal(agent_prompt_msgs);
            }
        },
        None => {
            assert(strs(errors@) =~= strs(old(errors)@) + agent_prompt_msgs(ap@, batch_id@, *a, ps@)) by {
                reveal(agent_prompt_msgs);
            }
        },
    }
    assert(prompt_match == agent_prompt_ok(batch_id@, *a, ps@));
}

/// Checks one agent of a batch; messages start with `ap` (`... agents[i]`).
fn validate_agent(
    ap: &str,
    batch_id: &str,
    agents: &Vec<SubagentRecord>,
    i: usize,
    ps: &Vec<SubagentPromptRecord>,
    errors: &mut Vec<String>,
)
    requires
        i < agents@.len(),
    ensures
        final(errors)@.len() >= old(errors)@.len(),
        (final(errors)@.len() == old(errors)@.len()) <==> (
            agent_ok(batch_id@, agents@[i as int], ps@)
            && !agent_role_before(agents@, i as int, agents@[i as int].role@)),
        strs(final(errors)@) == strs(old(errors)@) + agent_msgs(ap@, batch_id@, agents@, i as int, ps@),
{
    let a = &agents[i];
    validate_agent_head(ap, agents, i, errors);
    validate_agent_outcome(ap, a, errors);
    let ghost e10 = errors@;
    let f_src = cat(ap, " source_ids");
    validate_repeated_text(f_src.as_str(), &a.source_ids, errors);
    let ghost e11 = errors@;
    let f_art = cat(ap, " artifacts");
    validate_repeated_text(f_art.as_str(), &a.artifacts, errors);
    proof {
        lemma_strs_len(e10);
        lemma_strs_len(e11);
        lemma_strs_len(errors@);
        lemma_all_text_ok(f_src@, a.source_ids@);
        lemma_all_text_ok(f_art@, a.artifacts@);
    }
    validate_agent_prompt(ap, batch_id, a, ps, errors);
    assert(strs(errors@) =~= strs(old(errors)@) + agent_msgs(ap@, batch_id@, agents@, i as int, ps@)) by {
        reveal(agent_msgs);
    }
}

/// The roles of the prompts, in order.
pub open spec fn prompt_roles(ps: Seq<SubagentPromptRecord>) -> Seq<Seq<char>> {
    ps.map_values(|p: SubagentPromptRecord| p.role@)
}

/// The roles of the agents, in order.
pub open spec fn agent_roles(ags: Seq<SubagentRecord>) -> Seq<Seq<char>> {
    ags.map_values(|a: SubagentRecord| a.role@)
}

/// Whether `a` sorts strictly before `b`, character by character.
pub open spec fn lex_less(a: Seq<char>, b: Seq<char>) -> bool
    decreases a.len(),
{
    if a.len() == 0 {
        b.len() > 0
    } else if b.len() == 0 {
        false
    } else if a[0] != b[0] {
        a[0] < b[0]
    } else {
        lex_less(a.drop_first(), b.drop_first())
    }
}

/// Whether `a` sorts strictly before `b`, as `str`'s ordering decides.
pub(crate) fn str_less(a: &str, b: &str) -> (r: bool)
    ensures
        r == lex_less(a@, b@),
{
    let x = crate::text::chars_of(a);
    let y = crate::text::chars_of(b);
    let mut i: usize = 0;
    assert(x@.skip(0) =~= x@);
    assert(y@.skip(0) =~= y@);
    while i < x.len() && i < y.len()
        invariant
            x@ == a@,
            y@ == b@,
            i <= x@.len(),
            i <= y@.len(),
            lex_less(a@, b@) == lex_less(x@.skip(i as int), y@.skip(i as int)),
        decreases x@.len() - i,
    {
        if x[i] != y[i] {
            assert(x@.skip(i as int)[0] == x@[i as int]);
            assert(y@.skip(i as int)[0] == y@[i as int]);
            return x[i] < y[i];
        }
        assert(x@.skip(i as int).drop_first() =~= x@.skip(i + 1));
        assert(y@.skip(i as int).drop_first() =~= y@.skip(i + 1));
        i = i + 1;
    }
    i < y.len()
}

/// Whether each string of `s` sorts strictly before every later one, so that
/// `s` is in ascending order with no string twice.
pub open spec fn strictly_sorted(s: Seq<Seq<char>>) -> bool {
    forall|a: int, b: int| 0 <= a < b < s.len() ==> lex_less(#[trigger] s[a], #[trigger] s[b])
}

/// Inserting `x` into the strictly sorted `s` at `pos`, where `x` is not in
/// `s`, no string before `pos` sorts after `x` and `x` sorts before the string
/// at `pos`, keeps the result strictly sorted.
proof fn lemma_insert_keeps_sorted(s: Seq<Seq<char>>, pos: int, x: Seq<char>)
    requires
        strictly_sorted(s),
        0 <= pos <= s.len(),
        forall|k: int| 0 <= k < s.len() ==> s[k] != x,
        forall|k: int| 0 <= k < pos ==> !lex_less(x, #[trigger] s[k]),
        pos < s.len() ==> lex_less(x, s[pos]),
    ensures
        strictly_sorted(s.insert(pos, x)),
{
    let t = s.insert(pos, x);
    assert forall|a: int, b: int| 0 <= a < b < t.len() implies lex_less(#[trigger] t[a], #[trigger] t[b]) by {
        if a < pos && b < pos {
            assert(t[a] == s[a] && t[b] == s[b]);
        } else if a < pos && b == pos {
            assert(t[a] == s[a]);
            assert(s[a] != x);
            assert(!lex_less(x, s[a]));
            crate::order::lemma_lex_total(s[a], x);
        } else if a < pos {
            assert(t[a] == s[a] && t[b] == s[b - 1]);
        } else if a == pos {
            assert(t[b] == s[b - 1]);
            if b - 1 > pos {
                assert(lex_less(s[pos], s[b - 1]));
                crate::order::lemma_lex_transitive(x, s[pos], s[b - 1]);
            }
        } else {
            assert(t[a] == s[a - 1] && t[b] == s[b - 1]);
        }
    }
}

/// The distinct items of `v`, ordered as a `BTreeSet` orders them: exactly
/// the strings of `v`, each once, in ascending order.
fn sorted_distinct(v: Vec<String>) -> (r: Vec<String>)
    ensures
        forall|x: Seq<char>| strs(r@).contains(x) <==> strs(v@).contains(x),
        strictly_sorted(strs(r@)),
{
    let mut out: Vec<String> = Vec::new();
    let mut i: usize = 0;
    while i < v.len()
        invariant
            i <= v@.len(),
            forall|x: Seq<char>| strs(out@).contains(x) <==> strs(v@).take(i as int).contains(x),
            strictly_sorted(strs(out@)),
        decreases v@.len() - i,
    {
        let x = v[i].clone();
        proof {
            assert(strs(v@).take(i + 1) =~= strs(v@).take(i as int).push(x@));
        }
        let mut j: usize = 0;
        let mut present = false;
        let mut pos = out.len();
        while j < out.len()
            invariant
                j <= out@.len(),
                pos <= out@.len(),
                present == exists|k: int| 0 <= k < j && #[trigger] out@[k]@ == x@,
                pos == out@.len() || (pos < j && lex_less(x@, out@[pos as int]@)),
                forall|k: int| 0 <= k < j && k < pos ==> !lex_less(x@, #[trigger] out@[k]@),
            decreases out@.len() - j,
        {
            if str_eq(out[j].as_str(), x.as_str()) {
                present = true;
            }
            if pos == out.len() && str_less(x.as_str(), out[j].as_str()) {
                pos = j;
            }
            j = j + 1;
        }
        let ghost before = out@;
        proof {
            if present {
                let k = choose|k: int| 0 <= k < out@.len() && #[trigger] out@[k]@ == x@;
                assert(strs(out@)[k] == x@);
            } else {
                assert forall|k: int| 0 <= k < strs(out@).len() implies strs(out@)[k] != x@ by {
                    assert(strs(out@)[k] == out@[k]@);
                }
            }
        }
        if !present {
            out.insert(pos, x);
            proof {
                assert(strs(out@) =~= strs(before).insert(pos as int, x@));
                lemma_insert_keeps_sorted(strs(before), pos as int, x@);
                assert forall|y: Seq<char>| strs(out@).contains(y) <==> strs(before).contains(y) || y == x@ by {
                    if strs(out@).contains(y) {
                        let k = choose|k: int| 0 <= k < strs(out@).len() && strs(out@)[k] == y;
                        if k < pos {
                            assert(strs(before)[k] == y);
                        } else if k > pos {
                            assert(strs(before)[k - 1] == y);
                        }
                    }
                    if strs(before).contains(y) {
                        let k = choose|k: int| 0 <= k < strs(before).len() && strs(before)[k] == y;
                        if k < pos {
                            assert(strs(out@)[k] == y);
                        } else {
                            assert(strs(out@)[k + 1] == y);
                        }
                    }
                    if y == x@ {
                        assert(strs(out@)[pos as int] == y);
                    }
                }
            }
        }
        proof {
            assert forall|y: Seq<char>| strs(out@).contains(y) <==> strs(v@).take(i + 1).contains(y) by {
                let t1 = strs(v@).take(i + 1);
                let t0 = strs(v@).take(i as int);
                assert(strs(before).contains(y) <==> t0.contains(y));
                if present {
                    assert(out@ == before);
                    let k = choose|k: int| 0 <= k < before.len() && #[trigger] before[k]@ == x@;
                    assert(strs(before)[k] == x@);
                } else {
                    assert(strs(out@).contains(y) <==> strs(before).contains(y) || y == x@);
                }
                if y == x@ {
                    assert(t1[i as int] == y);
                }
                if t1.contains(y) {
                    let k = choose|k: int| 0 <= k < t1.len() && t1[k] == y;
                    if k < i {
                        assert(t0[k] == y);
                    }
                }
                if t0.contains(y) {
                    let k = choose|k: int| 0 <= k < t0.len() && t0[k] == y;
                    assert(t1[k] == y);
                }
            }
        }
        i = i + 1;
    }
    assert(strs(v@).take(v@.len() as int) =~= strs(v@));
    out
}

/// The roles of the prompts as strings.
fn prompt_role_list(ps: &Vec<SubagentPromptRecord>) -> (r: Vec<String>)
    ensures
        strs(r@) == prompt_roles(ps@),
{
    let mut out: Vec<String> = Vec::new();
    let mut i: usize = 0;
    while i < ps.len()
        invariant
            i <= ps@.len(),
            strs(out@) == prompt_roles(ps@).take(i as int),
        decreases ps@.len() - i,
    {
        let ghost before = out@;
        let c = ps[i].role.clone();
        out.push(c);
        assert(strs(out@) =~= strs(before).push(c@));
        assert(strs(out@) =~= prompt_roles(ps@).take(i + 1));
        i = i + 1;
    }
    assert(prompt_roles(ps@).take(ps@.len() as int) =~= prompt_roles(ps@));
    out
}

/// The roles of the agents as strings.
fn agent_role_list(ags: &Vec<SubagentRecord>) -> (r: Vec<String>)
    ensures
        strs(r@) == agent_roles(ags@),
{
    let mut out: Vec<String> = Vec::new();
    let mut i: usize = 0;
    while i < ags.len()
        invariant
            i <= ags@.len(),
            strs(out@) == agent_roles(ags@).take(i as int),
        decreases ags@.len() - i,
    {
        let ghost before = out@;
        let c = ags[i].role.clone();
        out.push(c);
        assert(strs(out@) =~= strs(before).push(c@));
        assert(strs(out@) =~= agent_roles(ags@).take(i + 1));
        i = i + 1;
    }
    assert(agent_roles(ags@).take(ags@.len() as int) =~= agent_roles(ags@));
    out
}

/// Checks that every prompt role has an agent and every agent role a prompt,
/// reporting each role once, in order.
fn validate_role_coverage(
    prefix: &str,
    ps: &Vec<SubagentPromptRecord>,
    ags: &Vec<SubagentRecord>,
    errors: &mut Vec<String>,
)
    ensures
        final(errors)@.len() >= old(errors)@.len(),
        (final(errors)@.len() == old(errors)@.len()) <==> (
            (forall|i: int| 0 <= i < ps@.len() ==> agent_role_before(ags@, ags@.len() as int, #[trigger] ps@[i].role@))
            && (forall|i: int| 0 <= i < ags@.len() ==> prompt_role_before(ps@, ps@.len() as int, #[trigger] ags@[i].role@))),
        strs(final(errors)@) == strs(old(errors)@) + role_coverage_msgs(prefix@, ps@, ags@),
{
    let proles = sorted_distinct(prompt_role_list(ps));
    proof {
        lemma_is_distinct_sorted(strs(proles@), prompt_roles(ps@));
    }
    let n0 = errors.len();
    let mut i: usize = 0;
    while i < proles.len()
        invariant
            i <= proles@.len(),
            strs(errors@) == strs(old(errors)@) + missing_agent_msgs(prefix@, strs(proles@), ags@, i as int),
            errors@.len() >= n0,
            (errors@.len() == n0) <==> forall|k: int| 0 <= k < i ==> agent_role_before(ags@, ags@.len() as int, #[trigger] proles@[k]@),
        decreases proles@.len() - i,
    {
        let ghost s0 = strs(errors@);
        if !agent_role_exists(ags, ags.len(), proles[i].as_str()) {
            let mut m = owned(" prompt role ");
            push_all(&mut m, proles[i].as_str());
            push_all(&mut m, " has no matching agent");
            push2(errors, prefix, m.as_str());
            assert(prefix@ + m@ =~= prefix@ + " prompt role "@ + proles@[i as int]@ + " has no matching agent"@);
        }
        assert(strs(proles@)[i as int] == proles@[i as int]@);
        assert(strs(errors@) =~= strs(old(errors)@) + missing_agent_msgs(prefix@, strs(proles@), ags@, i + 1));
        i = i + 1;
    }
    proof {
        let all_p = forall|k: int| 0 <= k < proles@.len() ==> agent_role_before(ags@, ags@.len() as int, #[trigger] proles@[k]@);
        if all_p {
            assert forall|i: int| 0 <= i < ps@.len() implies agent_role_before(ags@, ags@.len() as int, #[trigger] ps@[i].role@) by {
                assert(prompt_roles(ps@)[i] == ps@[i].role@);
                assert(strs(proles@).contains(ps@[i].role@));
                let k = choose|k: int| 0 <= k < strs(proles@).len() && strs(proles@)[k] == ps@[i].role@;
                assert(proles@[k]@ == ps@[i].role@);
            }
        } else {
            let k = choose|k: int| 0 <= k < proles@.len() && !agent_role_before(ags@, ags@.len() as int, #[trigger] proles@[k]@);
            assert(strs(proles@)[k] == proles@[k]@);
            assert(prompt_roles(ps@).contains(proles@[k]@));
            let i = choose|i: int| 0 <= i < prompt_roles(ps@).len() && prompt_roles(ps@)[i] == proles@[k]@;
            assert(ps@[i].role@ == proles@[k]@);
        }
    }
    let n1 = errors.len();
    let ghost e1 = strs(errors@);
    let aroles = sorted_distinct(agent_role_list(ags));
    proof {
        lemma_is_distinct_sorted(strs(aroles@), agent_roles(ags@));
    }
    let mut i: usize = 0;
    while i < aroles.len()
        invariant
            i <= aroles@.len(),
            strs(errors@) == e1 + missing_prompt_msgs(prefix@, strs(aroles@), ps@, i as int),
            errors@.len() >= n1,
            (errors@.len() == n1) <==> forall|k: int| 0 <= k < i ==> prompt_role_before(ps@, ps@.len() as int, #[trigger] aroles@[k]@),
        decreases aroles@.len() - i,
    {
        if !prompt_role_exists(ps, ps.len(), aroles[i].as_str()) {
            let mut m = owned(" agent role ");
            push_all(&mut m, aroles[i].as_str());
            push_all(&mut m, " has no matching prompt");
            push2(errors, prefix, m.as_str());
            assert(prefix@ + m@ =~= prefix@ + " agent role "@ + aroles@[i as int]@ + " has no matching prompt"@);
        }
        assert(strs(aroles@)[i as int] == aroles@[i as int]@);
        assert(strs(errors@) =~= e1 + missing_prompt_msgs(prefix@, strs(aroles@), ps@, i + 1));
        i = i + 1;
    }
    proof {
        let all_a = forall|k: int| 0 <= k < aroles@.len() ==> prompt_role_before(ps@, ps@.len() as int, #[trigger] aroles@[k]@);
        if all_a {
            assert forall|i: int| 0 <= i < ags@.len() implies prompt_role_before(ps@, ps@.len() as int, #[trigger] ags@[i].role@) by {
                assert(agent_roles(ags@)[i] == ags@[i].role@);
                assert(strs(aroles@).contains(ags@[i].role@));
                let k = choose|k: int| 0 <= k < strs(aroles@).len() && strs(aroles@)[k] == ags@[i].role@;
                assert(aroles@[k]@ == ags@[i].role@);
            }
        } else {
            let k = choose|k: int| 0 <= k < aroles@.len() && !prompt_role_before(ps@, ps@.len() as int, #[trigger] aroles@[k]@);
            assert(strs(aroles@)[k] == aroles@[k]@);
            assert(agent_roles(ags@).contains(aroles@[k]@));
            let i = choose|i: int| 0 <= i < agent_roles(ags@).len() && agent_roles(ags@)[i] == aroles@[k]@;
            assert(ags@[i].role@ == aroles@[k]@);
        }
        lemma_strs_len(proles@);
        lemma_strs_len(aroles@);
        assert(strs(errors@) =~= strs(old(errors)@) + role_coverage_msgs(prefix@, ps@, ags@)) by {
        reveal(role_coverage_msgs);
    }
    }
}

/// Checks the ignored duplicate roles: each a role name with non-empty paths.
fn validate_duplicate_roles(prefix: &str, entries: &Vec<(String, Vec<String>)>, errors: &mut Vec<String>)
    ensures
        final(errors)@.len() >= old(errors)@.len(),
        (final(errors)@.len() == old(errors)@.len()) <==> forall|i: int| 0 <= i < entries@.len() ==> duplicate_entry_ok(#[trigger] entries@[i]),
        strs(final(errors)@) == strs(old(errors)@) + duplicate_entries_msgs(prefix@, entries@, entries@.len() as int),
{
    let mut i: usize = 0;
    while i < entries.len()
        invariant
            i <= entries@.len(),
            strs(errors@) == strs(old(errors)@) + duplicate_entries_msgs(prefix@, entries@, i as int),
            errors@.len() >= old(errors)@.len(),
            (errors@.len() == old(errors)@.len()) <==> forall|k: int| 0 <= k < i ==> duplicate_entry_ok(#[trigger] entries@[k]),
        decreases entries@.len() - i,
    {
        let role = &entries[i].0;
        let paths = &entries[i].1;
        let n0 = errors.len();
        let ghost s0 = strs(errors@);
        match validate_role_name(role.as_str()) {
            Err(e) => {
                let mut m = owned(" duplicate_roles_ignored ");
                push_all(&mut m, e.as_str());
                push2(errors, prefix, m.as_str());
                assert(prefix@ + m@ =~= prefix@ + " duplicate_roles_ignored "@ + e@);
            },
            Ok(()) => {},
        }
        let mut field = cat(prefix, " duplicate_roles_ignored[");
        push_all(&mut field, role.as_str());
        push_all(&mut field, "]");
        if paths.len() == 0 {
            push2(errors, field.as_str(), " must not be empty");
        }
        let ghost e1 = errors@;
        validate_repeated_text(field.as_str(), paths, errors);
        proof {
            lemma_strs_len(e1);
            lemma_strs_len(errors@);
            lemma_all_text_ok(field@, paths@);
            assert((errors@.len() == n0) <==> duplicate_entry_ok(entries@[i as int]));
            assert(field@ =~= prefix@ + " duplicate_roles_ignored["@ + role@ + "]"@);
            assert(strs(errors@) =~= s0 + duplicate_entry_msgs(prefix@, entries@[i as int])) by {
        reveal(duplicate_entry_msgs);
    }
            assert(strs(errors@) =~= strs(old(errors)@) + duplicate_entries_msgs(prefix@, entries@, i + 1));
        }
        i = i + 1;
    }
}

/// Checks every agent of a batch; messages start with `prefix agents[i]`.
fn validate_batch_agents(
    prefix: &str,
    batch_id: &str,
    ags: &Vec<SubagentRecord>,
    ps: &Vec<SubagentPromptRecord>,
    errors: &mut Vec<String>,
)
    ensures
        final(errors)@.len() >= old(errors)@.len(),
        (final(errors)@.len() == old(errors)@.len()) <==> (
            (forall|i: int| 0 <= i < ags@.len() ==> agent_ok(batch_id@, #[trigger] ags@[i], ps@))
            && (forall|i: int| 0 <= i < ags@.len() ==> !agent_role_before(ags@, i, #[trigger] ags@[i].role@))),
        strs(final(errors)@) == strs(old(errors)@) + agents_msgs(prefix@ + " agents"@, batch_id@, ags@, ps@, ags@.len() as int),
{
    let base = cat(prefix, " agents");
    let mut i: usize = 0;
    while i < ags.len()
        invariant
            i <= ags@.len(),
            base@ == prefix@ + " agents"@,
            strs(errors@) == strs(old(errors)@) + agents_msgs(base@, batch_id@, ags@, ps@, i as int),
            errors@.len() >= old(errors)@.len(),
            (errors@.len() == old(errors)@.len()) <==> (
                (forall|k: int| 0 <= k < i ==> agent_ok(batch_id@, #[trigger] ags@[k], ps@))
                && (forall|k: int| 0 <= k < i ==> !agent_role_before(ags@, k, #[trigger] ags@[k].role@))),
        decreases ags@.len() - i,
    {
        let ap = indexed(base.as_str(), i);
        let ghost s0 = strs(errors@);
        validate_agent(ap.as_str(), batch_id, ags, i, ps, errors);
        assert(strs(errors@) =~= strs(old(errors)@) + agents_msgs(base@, batch_id@, ags@, ps@, i + 1));
        i = i + 1;
    }
}

/// Reports, as `prefix` then `what` and the role, each agent without a final
/// verified outcome.
fn report_incomplete_agents(prefix: &str, what: &str, ags: &Vec<SubagentRecord>, errors: &mut Vec<String>)
    ensures
        final(errors)@.len() >= old(errors)@.len(),
        (final(errors)@.len() == old(errors)@.len()) <==> forall|i: int| 0 <= i < ags@.len() ==> final_verified(#[trigger] ags@[i]),
        strs(final(errors)@) == strs(old(errors)@) + incomplete_msgs(prefix@, what@, ags@, ags@.len() as int),
{
    let mut i: usize = 0;
    while i < ags.len()
        invariant
            i <= ags@.len(),
            strs(errors@) == strs(old(errors)@) + incomplete_msgs(prefix@, what@, ags@, i as int),
            errors@.len() >= old(errors)@.len(),
            (errors@.len() == old(errors)@.len()) <==> forall|k: int| 0 <= k < i ==> final_verified(#[trigger] ags@[k]),
        decreases ags@.len() - i,
    {
        if !subagent_has_final_verified_outcome(&ags[i]) {
            let mut m = owned(what);
            push_all(&mut m, ags[i].role.as_str());
            push2(errors, prefix, m.as_str());
            assert(prefix@ + m@ =~= prefix@ + what@ + ags@[i as int].role@);
        }
        assert(strs(errors@) =~= strs(old(errors)@) + incomplete_msgs(prefix@, what@, ags@, i + 1));
        i = i + 1;
    }
}

/// Checks a batch's synthesis record; messages start with `prefix synthesis`.
#[verifier::rlimit(100)]
#[verifier::spinoff_prover]
fn validate_synthesis(prefix: &str, s: &SubagentSynthesisRecord, ags: &Vec<SubagentRecord>, errors: &mut Vec<String>)
    ensures
        final(errors)@.len() >= old(errors)@.len(),
        (final(errors)@.len() == old(errors)@.len()) <==> synthesis_ok(*s, ags@),
        strs(final(errors)@) == strs(old(errors)@) + synthesis_msgs(prefix@, *s, ags@),
{
    let sp = cat(prefix, " synthesis");
    let n0 = errors.len();
    let parsed = SubagentSynthesisStatus::parse(s.status.as_str());
    if parsed.is_none() {
        let mut m = owned(" invalid subagent synthesis status ");
        push_all(&mut m, debug_quote(s.status.as_str()).as_str());
        push_all(&mut m, "; expected completed, partial, or blocked");
        push2(errors, sp.as_str(), m.as_str());
        assert(sp@ + m@ =~= sp@ + " invalid subagent synthesis status "@ + debug_quoted(s.status@)
            + "; expected completed, partial, or blocked"@);
    }
    proof {
        if parsed is None {
            assert(!synthesis_status_ok(s.status@));
        } else {
            let k = parsed->0;
            assert(synthesis_status_name(k) == s.status@);
        }
    }
    let ghost e1 = errors@;
    assert(strs(e1) == strs(old(errors)@) + msg_if(!synthesis_status_ok(s.status@), sp@ + " invalid subagent synthesis status "@ + debug_quoted(s.status@)
        + "; expected completed, partial, or blocked"@));
    validate_non_empty_text(cat(sp.as_str(), " summary").as_str(), s.summary.as_str(), errors);
    proof {
        lemma_strs_len(e1);
        lemma_strs_len(errors@);
    }
    if !s.human_verified {
        push2(errors, sp.as_str(), " requires human_verified=true");
    }
    let ghost e2 = errors@;
    assert(strs(e2) == strs(e1) + text_errors(sp@ + " summary"@, s.summary@)
        + msg_if(!s.human_verified, sp@ + " requires human_verified=true"@));
    let f_src = cat(sp.as_str(), " source_ids");
    validate_required_repeated_text(f_src.as_str(), &s.source_ids, errors);
    let ghost e3 = errors@;
    let f_art = cat(sp.as_str(), " artifacts");
    validate_required_repeated_text(f_art.as_str(), &s.artifacts, errors);
    proof {
        lemma_strs_len(e2);
        lemma_strs_len(e3);
        lemma_strs_len(errors@);
        lemma_all_text_ok(f_src@, s.source_ids@);
        lemma_all_text_ok(f_art@, s.artifacts@);
    }
    let ghost e4 = strs(errors@);
    assert(e4 == strs(e2) + required_repeated_errors(sp@ + " source_ids"@, strs(s.source_ids@))
        + required_repeated_errors(sp@ + " artifacts"@, strs(s.artifacts@)));
    if str_eq(s.status.as_str(), "completed") {
        report_incomplete_agents(sp.as_str(), " completed with incomplete agent ", ags, errors);
    }
    assert(strs(errors@) == e4 + (if s.status@ == "completed"@ {
            incomplete_msgs(sp@, " completed with incomplete agent "@, ags@, ags@.len() as int)
        } else {
            seq![]
        }));
    assert(strs(errors@) =~= strs(old(errors)@) + synthesis_msgs(prefix@, *s, ags@)) by {
        reveal(synthesis_msgs);
    }
}

/// Checks a batch's id, status and that it has prompts and agents; `dup`
/// tells whether an earlier batch has its id.
#[verifier::rlimit(60)]
fn validate_batch_front(prefix: &str, b: &SubagentBatch, dup: bool, errors: &mut Vec<String>)
    ensures
        final(errors)@.len() >= old(errors)@.len(),
        (final(errors)@.len() == old(errors)@.len()) <==> (stable_id_ok(b.id@) && !dup
            && batch_status_name(b.status@) && b.prompts@.len() > 0 && b.agents@.len() > 0),
        strs(final(errors)@) == strs(old(errors)@) + batch_front_msgs(prefix@, *b, dup),
{
    let n0 = errors.len();
    match validate_stable_id("batch id", b.id.as_str()) {
        Err(e) => {
            push2(errors, prefix, cat(" ", e.as_str()).as_str());
            assert(prefix@ + (" "@ + e@) =~= prefix@ + " "@ + e@);
        },
        Ok(()) => {},
    }
    let ghost s1 = strs(errors@);
    assert(s1 == strs(old(errors)@) + stable_msg(prefix@, "batch id"@, b.id@));
    if dup {
        push2(errors, prefix, cat(" duplicate batch id ", b.id.as_str()).as_str());
        assert(prefix@ + (" duplicate batch id "@ + b.id@) =~= prefix@ + " duplicate batch id "@ + b.id@);
    }
    if !is_batch_status(b.status.as_str()) {
        let mut m = owned(" status ");
        push_all(&mut m, debug_quote(b.status.as_str()).as_str());
        push_all(&mut m, " must be planned, active, completed, partial, or blocked");
        push2(errors, prefix, m.as_str());
        assert(prefix@ + m@ =~= prefix@ + " status "@ + debug_quoted(b.status@)
            + " must be planned, active, completed, partial, or blocked"@);
    }
    if b.prompts.len() == 0 {
        push2(errors, prefix, " prompts must not be empty");
    }
    if b.agents.len() == 0 {
        push2(errors, prefix, " agents must not be empty");
    }
    assert(strs(errors@) =~= strs(old(errors)@) + batch_front_msgs(prefix@, *b, dup));
}

/// Checks a batch's optional texts and registry issues.
#[verifier::rlimit(60)]
fn validate_batch_texts(prefix: &str, b: &SubagentBatch, errors: &mut Vec<String>)
    ensures
        final(errors)@.len() >= old(errors)@.len(),
        (final(errors)@.len() == old(errors)@.len()) <==> (opt_text_ok(b.task) && opt_text_ok(b.mode)
            && opt_text_ok(b.scope) && opt_text_ok(b.wait_policy) && all_text_ok(b.registry_issues@)),
        strs(final(errors)@) == strs(old(errors)@) + batch_text_msgs(prefix@, *b),
{
    let ghost e1 = errors@;
    validate_optional_text(cat(prefix, " task").as_str(), &b.task, errors);
    let ghost e2 = errors@;
    validate_optional_text(cat(prefix, " mode").as_str(), &b.mode, errors);
    let ghost e3 = errors@;
    validate_optional_text(cat(prefix, " scope").as_str(), &b.scope, errors);
    let ghost e4 = errors@;
    validate_optional_text(cat(prefix, " wait_policy").as_str(), &b.wait_policy, errors);
    let ghost e5 = errors@;
    let f_reg = cat(prefix, " registry_issues");
    validate_repeated_text(f_reg.as_str(), &b.registry_issues, errors);
    proof {
        lemma_strs_len(e1);
        lemma_strs_len(e2);
        lemma_strs_len(e3);
        lemma_strs_len(e4);
        lemma_strs_len(e5);
        lemma_strs_len(errors@);
        lemma_all_text_ok(f_reg@, b.registry_issues@);
        assert(strs(errors@) =~= strs(old(errors)@) + batch_text_msgs(prefix@, *b));
    }
}

/// Checks a batch's own fields; `dup` tells whether an earlier batch has its id.
fn validate_batch_head(prefix: &str, b: &SubagentBatch, dup: bool, errors: &mut Vec<String>)
    ensures
        final(errors)@.len() >= old(errors)@.len(),
        (final(errors)@.len() == old(errors)@.len()) <==> (batch_head_ok(*b) && !dup),
        strs(final(errors)@) == strs(old(errors)@) + batch_head_msgs(prefix@, *b, dup),
{
    validate_batch_front(prefix, b, dup, errors);
    validate_batch_texts(prefix, b, errors);
    assert(strs(errors@) =~= strs(old(errors)@) + batch_head_msgs(prefix@, *b, dup)) by {
        reveal(batch_head_msgs);
    }
}

/// Checks a batch's prompts, agents, their pairing, and its synthesis.
fn validate_batch_members(prefix: &str, b: &SubagentBatch, errors: &mut Vec<String>)
    ensures
        final(errors)@.len() >= old(errors)@.len(),
        (final(errors)@.len() == old(errors)@.len()) <==> batch_members_ok(*b),
        strs(final(errors)@) == strs(old(errors)@) + batch_members_msgs(prefix@, *b),
{
    let n0 = errors.len();
    validate_duplicate_roles(prefix, &b.duplicate_roles_ignored, errors);
    let n1 = errors.len();
    validate_batch_prompts(prefix, &b.prompts, errors);
    let n2 = errors.len();
    validate_batch_agents(prefix, b.id.as_str(), &b.agents, &b.prompts, errors);
    let n3 = errors.len();
    validate_role_coverage(prefix, &b.prompts, &b.agents, errors);
    let n4 = errors.len();
    if str_eq(b.status.as_str(), "completed") {
        report_incomplete_agents(prefix, " completed batch has incomplete agent ", &b.agents, errors);
    }
    let n5 = errors.len();
    match &b.synthesis {
        Some(s) => validate_synthesis(prefix, s, &b.agents, errors),
        None => {},
    }
    assert(strs(errors@) =~= strs(old(errors)@) + batch_members_msgs(prefix@, *b)) by {
        reveal(batch_members_msgs);
    }
}

/// The messages for every rule a subagents ledger breaks, in the order the
/// capsule validator reports them (see [`subagents_errors`]); none exactly
/// when it keeps them all.
pub fn validate_subagents_value(subagents: &Subagents) -> (r: Vec<String>)
    ensures
        r@.len() == 0 <==> subagents_ok(*subagents),
        strs(r@) == subagents_errors(*subagents),
{
    let mut errors: Vec<String> = Vec::new();
    if !str_eq(subagents.schema.as_str(), SUBAGENTS_SCHEMA) {
        let mut m = owned("subagents.json schema must be ");
        push_all(&mut m, SUBAGENTS_SCHEMA);
        errors.push(m);
    }
    assert(strs(errors@) =~= msg_if(subagents.schema@ != SUBAGENTS_SCHEMA@, "subagents.json schema must be "@ + SUBAGENTS_SCHEMA@));
    let ghost e0 = strs(errors@);
    let bs = &subagents.batches;
    let mut i: usize = 0;
    while i < bs.len()
        invariant
            bs@ == subagents.batches@,
            i <= bs@.len(),
            (errors@.len() == 0) <==> (subagents.schema@ == SUBAGENTS_SCHEMA@
                && (forall|k: int| 0 <= k < i ==> batch_ok(#[trigger] bs@[k]))
                && (forall|k: int| 0 <= k < i ==> !batch_id_before(bs@, k, #[trigger] bs@[k].id@))),
            strs(errors@) == e0 + batches_msgs(bs@, i as int),
        decreases bs@.len() - i,
    {
        let b = &bs[i];
        let prefix = indexed("subagents.json batches", i);
        let mut dup = false;
        let mut j: usize = 0;
        while j < i
            invariant
                i < bs@.len(),
                j <= i,
                dup == exists|k: int| 0 <= k < j && #[trigger] bs@[k].id@ == bs@[i as int].id@,
            decreases i - j,
        {
            if str_eq(bs[j].id.as_str(), bs[i].id.as_str()) {
                dup = true;
            }
            j = j + 1;
        }
        let n0 = errors.len();
        validate_batch_head(prefix.as_str(), b, dup, &mut errors);
        validate_batch_members(prefix.as_str(), b, &mut errors);
        assert(dup == batch_id_before(bs@, i as int, bs@[i as int].id@));
        assert(strs(errors@) =~= e0 + batches_msgs(bs@, i + 1));
        i = i + 1;
    }
    errors
}

} // verus!
