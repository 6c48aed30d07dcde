//! Turning a subspawn plan into the batch the ledger records.
use vstd::prelude::*;

use crate::audit_gate::str_eq;
use crate::dev::checks::{
    multiline_errors, repeated_errors, role_name_error, role_name_ok, text_errors, validate_multiline_text, validate_non_empty_text,
    validate_optional_text, validate_repeated_text, validate_role_name,
};
use crate::dev::digest::{prompt_hash_of, stable_prompt_hash};
use crate::dev::ledger::{
    all_text_ok, cat, duplicate_entry_ok, lemma_all_text_ok, lemma_strs_len, msg_if, opt_text_msgs,
    opt_text_ok, push2, text_ok,
};
use crate::dev::subagents::{SubagentBatch, SubagentPromptRecord, SubagentRecord};
use crate::text::{join_spec, join_strings, owned, push_all, strs};

verus! {

/// One role of a subspawn plan.
#[derive(Clone, Debug, PartialEq, Eq)]
pub struct SubspawnPlanRole {
    pub name: String,
    pub description: Option<String>,
    pub model: Option<String>,
    pub path: Option<String>,
    pub reasoning: Option<String>,
    pub return_headings: Vec<String>,
    pub sandbox: Option<String>,
    pub source: Option<String>,
}

/// The prompt a subspawn plan gives one role.
#[derive(Clone, Debug, PartialEq, Eq)]
pub struct SubspawnPlanPrompt {
    pub role: String,
    pub prompt: String,
}

/// A subspawn plan: the task, its roles and the prompt of each.
#[derive(Clone, Debug, PartialEq, Eq)]
pub struct SubspawnPlanInput {
    pub task: String,
    pub mode: Option<String>,
    pub scope: Option<String>,
    pub scope_items: Vec<String>,
    pub wait_policy: Option<String>,
    pub rendezvous_required: Option<bool>,
    pub roles: Vec<SubspawnPlanRole>,
    pub prompts: Vec<SubspawnPlanPrompt>,
    pub registry_issues: Vec<String>,
    /// Each ignored duplicate role with the paths it was found at, by role.
    pub duplicate_roles_ignored: Vec<(String, Vec<String>)>,
    pub synthesis_checklist: Vec<String>,
}

/// The rules on one role of a plan, beside the uniqueness of its name.
pub open spec fn plan_role_ok(r: SubspawnPlanRole) -> bool {
    &&& role_name_ok(r.name@)
    &&& opt_text_ok(r.description)
    &&& opt_text_ok(r.model)
    &&& opt_text_ok(r.path)
    &&& opt_text_ok(r.reasoning)
    &&& all_text_ok(r.return_headings@)
    &&& opt_text_ok(r.sandbox)
    &&& opt_text_ok(r.source)
}

/// Whether some role before `n` is named `name`.
pub open spec fn role_named_before(rs: Seq<SubspawnPlanRole>, n: int, name: Seq<char>) -> bool {
    exists|j: int| 0 <= j < n && #[trigger] rs[j].name@ == name
}

/// Whether some prompt before `n` is for `role`.
pub open spec fn plan_prompt_before(ps: Seq<SubspawnPlanPrompt>, n: int, role: Seq<char>) -> bool {
    exists|j: int| 0 <= j < n && #[trigger] ps[j].role@ == role
}

/// The rules a subspawn plan must keep.
pub open spec fn plan_ok(p: SubspawnPlanInput) -> bool {
    let rs = p.roles@;
    let ps = p.prompts@;
    &&& text_ok(p.task@)
    &&& opt_text_ok(p.mode)
    &&& opt_text_ok(p.scope)
    &&& all_text_ok(p.scope_items@)
    &&& opt_text_ok(p.wait_policy)
    &&& all_text_ok(p.registry_issues@)
    &&& all_text_ok(p.synthesis_checklist@)
    &&& rs.len() > 0
    &&& forall|i: int| 0 <= i < rs.len() ==> plan_role_ok(#[trigger] rs[i])
    &&& forall|i: int| 0 <= i < rs.len() ==> !role_named_before(rs, i, #[trigger] rs[i].name@)
    &&& forall|i: int| 0 <= i < ps.len() ==> role_name_ok(#[trigger] ps[i].role@)
    &&& forall|i: int| 0 <= i < ps.len() ==> multiline_errors("prompt"@, #[trigger] ps[i].prompt@).len() == 0
    &&& forall|i: int| 0 <= i < ps.len() ==> role_named_before(rs, rs.len() as int, #[trigger] ps[i].role@)
    &&& forall|i: int| 0 <= i < ps.len() ==> !plan_prompt_before(ps, i, #[trigger] ps[i].role@)
    &&& forall|i: int| 0 <= i < p.duplicate_roles_ignored@.len() ==> duplicate_entry_ok(#[trigger] p.duplicate_roles_ignored@[i])
}

/// The index of the last prompt for `role`, or -1.
pub open spec fn plan_prompt_index(ps: Seq<SubspawnPlanPrompt>, role: Seq<char>) -> int
    decreases ps.len(),
{
    if ps.len() == 0 {
        -1
    } else if ps.last().role@ == role {
        ps.len() - 1
    } else {
        plan_prompt_index(ps.drop_last(), role)
    }
}

/// Whether every role of the plan has a prompt.
pub open spec fn plan_prompts_complete(p: SubspawnPlanInput) -> bool {
    forall|i: int| 0 <= i < p.roles@.len() ==> plan_prompt_index(p.prompts@, #[trigger] p.roles@[i].name@) >= 0
}

/// The prompt id a batch gives a role: `<batch>:<role>`.
pub open spec fn prompt_id_of(batch_id: Seq<char>, role: Seq<char>) -> Seq<char> {
    batch_id + ":"@ + role
}

/// The hash recorded for `role`: that of its (last) prompt in the plan.
pub open spec fn role_prompt_hash(p: SubspawnPlanInput, role: Seq<char>) -> Seq<char> {
    prompt_hash_of(p.prompts@[plan_prompt_index(p.prompts@, role)].prompt@)
}

/// What the batch planned from `p` holds, beside its status and times.
pub open spec fn planned_batch(p: SubspawnPlanInput, batch_id: Seq<char>, recorded_at: Seq<char>, b: SubagentBatch) -> bool {
    let rs = p.roles@;
    &&& b.id@ == batch_id
    &&& b.status@ == "planned"@
    &&& b.task == Some(p.task)
    &&& b.mode == p.mode
    &&& b.scope == p.scope
    &&& b.wait_policy == p.wait_policy
    &&& b.rendezvous_required == p.rendezvous_required
    &&& b.registry_issues == p.registry_issues
    &&& b.duplicate_roles_ignored == p.duplicate_roles_ignored
    &&& b.synthesis is None
    &&& b.recorded_at matches Some(t) && t@ == recorded_at
    &&& b.updated_at matches Some(t) && t@ == recorded_at
    &&& b.prompts@.len() == rs.len()
    &&& b.agents@.len() == rs.len()
    &&& forall|i: int| 0 <= i < rs.len() ==> {
        let pr = #[trigger] b.prompts@[i];
        &&& pr.role@ == rs[i].name@
        &&& pr.prompt_id@ == prompt_id_of(batch_id, rs[i].name@)
        &&& pr.prompt_hash@ == role_prompt_hash(p, rs[i].name@)
    }
    &&& forall|i: int| 0 <= i < rs.len() ==> {
        let a = #[trigger] b.agents@[i];
        &&& a.role@ == rs[i].name@
        &&& a.task@ == p.task@
        &&& a.status@ == "planned"@
        &&& a.summary@ == "planned by subspawn"@
        &&& a.prompt_id matches Some(x) && x@ == prompt_id_of(batch_id, rs[i].name@)
        &&& a.prompt_hash matches Some(x) && x@ == role_prompt_hash(p, rs[i].name@)
        &&& a.disposition is None
        &&& !a.human_verified
        &&& a.source_ids@.len() == 0
        &&& a.artifacts@.len() == 0
        &&& a.updated_at is None
    }
}

/// The messages for one plan role's free-text fields.
#[verifier::opaque]
pub open spec fn plan_role_text_msgs(r: SubspawnPlanRole) -> Seq<Seq<char>> {
    opt_text_msgs("role.description"@, r.description) + opt_text_msgs("role.model"@, r.model)
        + opt_text_msgs("role.path"@, r.path) + opt_text_msgs("role.reasoning"@, r.reasoning)
        + repeated_errors("role.return_headings"@, strs(r.return_headings@))
        + opt_text_msgs("role.sandbox"@, r.sandbox) + opt_text_msgs("role.source"@, r.source)
}

/// The messages for role `i` of a plan.
#[verifier::opaque]
pub open spec fn plan_role_msgs(rs: Seq<SubspawnPlanRole>, i: int) -> Seq<Seq<char>> {
    msg_if(!role_name_ok(rs[i].name@), role_name_error(rs[i].name@)) + plan_role_text_msgs(rs[i])
        + msg_if(role_named_before(rs, i, rs[i].name@), "duplicate role in plan: "@ + rs[i].name@)
}

/// The messages for the first `n` roles of a plan.
pub open spec fn plan_roles_msgs(rs: Seq<SubspawnPlanRole>, n: int) -> Seq<Seq<char>>
    decreases n,
{
    if n <= 0 {
        seq![]
    } else {
        plan_roles_msgs(rs, n - 1) + plan_role_msgs(rs, n - 1)
    }
}

/// The messages for prompt `i` of a plan whose roles are `rs`.
#[verifier::opaque]
pub open spec fn plan_prompt_msgs(rs: Seq<SubspawnPlanRole>, ps: Seq<SubspawnPlanPrompt>, i: int) -> Seq<Seq<char>> {
    msg_if(!role_name_ok(ps[i].role@), role_name_error(ps[i].role@))
        + multiline_errors("prompt"@, ps[i].prompt@)
        + msg_if(!role_named_before(rs, rs.len() as int, ps[i].role@), "prompt role "@ + ps[i].role@ + " is not present in plan roles"@)
        + msg_if(plan_prompt_before(ps, i, ps[i].role@), "duplicate prompt for role "@ + ps[i].role@)
}

/// The messages for the first `n` prompts of a plan.
pub open spec fn plan_prompts_msgs(rs: Seq<SubspawnPlanRole>, ps: Seq<SubspawnPlanPrompt>, n: int) -> Seq<Seq<char>>
    decreases n,
{
    if n <= 0 {
        seq![]
    } else {
        plan_prompts_msgs(rs, ps, n - 1) + plan_prompt_msgs(rs, ps, n - 1)
    }
}

/// The messages for one ignored duplicate-role entry of a plan.
#[verifier::opaque]
pub open spec fn plan_duplicate_msgs(e: (String, Vec<String>)) -> Seq<Seq<char>> {
    msg_if(!role_name_ok(e.0@), "duplicate_roles_ignored "@ + role_name_error(e.0@))
        + msg_if(e.1@.len() == 0, "duplicate_roles_ignored["@ + e.0@ + "] must not be empty"@)
        + repeated_errors("duplicate_roles_ignored"@, strs(e.1@))
}

/// The messages for the first `n` ignored duplicate-role entries of a plan.
pub open spec fn plan_duplicates_msgs(es: Seq<(String, Vec<String>)>, n: int) -> Seq<Seq<char>>
    decreases n,
{
    if n <= 0 {
        seq![]
    } else {
        plan_duplicates_msgs(es, n - 1) + plan_duplicate_msgs(es[n - 1])
    }
}

/// Every rule a subspawn plan breaks, as its messages in the order they are
/// reported: the free-text fields, then the roles, the prompts and the
/// ignored duplicate roles.
pub open spec fn plan_errors(p: SubspawnPlanInput) -> Seq<Seq<char>> {
    text_errors("task"@, p.task@) + opt_text_msgs("mode"@, p.mode) + opt_text_msgs("scope"@, p.scope)
        + repeated_errors("scope_items"@, strs(p.scope_items@)) + opt_text_msgs("wait_policy"@, p.wait_policy)
        + repeated_errors("registry_issues"@, strs(p.registry_issues@))
        + repeated_errors("synthesis_checklist"@, strs(p.synthesis_checklist@))
        + msg_if(p.roles@.len() == 0, "roles must not be empty"@)
        + plan_roles_msgs(p.roles@, p.roles@.len() as int)
        + plan_prompts_msgs(p.roles@, p.prompts@, p.prompts@.len() as int)
        + plan_duplicates_msgs(p.duplicate_roles_ignored@, p.duplicate_roles_ignored@.len() as int)
}

/// Checks a plan role's description, model, path and reasoning.
fn validate_plan_role_texts_a(r: &SubspawnPlanRole, errors: &mut Vec<String>)
    ensures
        final(errors)@.len() >= old(errors)@.len(),
        (final(errors)@.len() == old(errors)@.len()) <==> (opt_text_ok(r.description) && opt_text_ok(r.model)
            && opt_text_ok(r.path) && opt_text_ok(r.reasoning)),
        strs(final(errors)@) == strs(old(errors)@) + opt_text_msgs("role.description"@, r.description)
            + opt_text_msgs("role.model"@, r.model) + opt_text_msgs("role.path"@, r.path)
            + opt_text_msgs("role.reasoning"@, r.reasoning),
{
    let ghost e0 = errors@;
    validate_optional_text("role.description", &r.description, errors);
    let ghost e1 = errors@;
    validate_optional_text("role.model", &r.model, errors);
    let ghost e2 = errors@;
    validate_optional_text("role.path", &r.path, errors);
    let ghost e3 = errors@;
    validate_optional_text("role.reasoning", &r.reasoning, errors);
    proof {
        lemma_strs_len(e0);
        lemma_strs_len(e1);
        lemma_strs_len(e2);
        lemma_strs_len(e3);
        lemma_strs_len(errors@);
        assert(strs(errors@) =~= strs(old(errors)@) + opt_text_msgs("role.description"@, r.description)
            + opt_text_msgs("role.model"@, r.model) + opt_text_msgs("role.path"@, r.path)
            + opt_text_msgs("role.reasoning"@, r.reasoning));
    }
}

/// Checks a plan role's return headings, sandbox and source.
fn validate_plan_role_texts_b(r: &SubspawnPlanRole, errors: &mut Vec<String>)
    ensures
        final(errors)@.len() >= old(errors)@.len(),
        (final(errors)@.len() == old(errors)@.len()) <==> (all_text_ok(r.return_headings@)
            && opt_text_ok(r.sandbox) && opt_text_ok(r.source)),
        strs(final(errors)@) == strs(old(errors)@) + repeated_errors("role.return_headings"@, strs(r.return_headings@))
            + opt_text_msgs("role.sandbox"@, r.sandbox) + opt_text_msgs("role.source"@, r.source),
{
    let ghost e0 = errors@;
    validate_repeated_text("role.return_headings", &r.return_headings, errors);
    let ghost e1 = errors@;
    validate_optional_text("role.sandbox", &r.sandbox, errors);
    let ghost e2 = errors@;
    validate_optional_text("role.source", &r.source, errors);
    proof {
        lemma_strs_len(e0);
        lemma_strs_len(e1);
        lemma_strs_len(e2);
        lemma_strs_len(errors@);
        lemma_all_text_ok("role.return_headings"@, r.return_headings@);
        assert(strs(errors@) =~= strs(old(errors)@) + repeated_errors("role.return_headings"@, strs(r.return_headings@))
            + opt_text_msgs("role.sandbox"@, r.sandbox) + opt_text_msgs("role.source"@, r.source));
    }
}

/// Checks the free-text fields of one plan role.
#[verifier::rlimit(60)]
fn validate_plan_role_texts(r: &SubspawnPlanRole, errors: &mut Vec<String>)
    ensures
        final(errors)@.len() >= old(errors)@.len(),
        (final(errors)@.len() == old(errors)@.len()) <==> (opt_text_ok(r.description) && opt_text_ok(r.model)
            && opt_text_ok(r.path) && opt_text_ok(r.reasoning) && all_text_ok(r.return_headings@)
            && opt_text_ok(r.sandbox) && opt_text_ok(r.source)),
        strs(final(errors)@) == strs(old(errors)@) + plan_role_text_msgs(*r),
{
    validate_plan_role_texts_a(r, errors);
    let ghost mid = strs(errors@);
    validate_plan_role_texts_b(r, errors);
    proof {
        let a = opt_text_msgs("role.description"@, r.description) + opt_text_msgs("role.model"@, r.model)
            + opt_text_msgs("role.path"@, r.path) + opt_text_msgs("role.reasoning"@, r.reasoning);
        let b = repeated_errors("role.return_headings"@, strs(r.return_headings@))
            + opt_text_msgs("role.sandbox"@, r.sandbox) + opt_text_msgs("role.source"@, r.source);
        assert(mid == strs(old(errors)@) + a);
        assert(strs(errors@) == mid + b);
        assert(plan_role_text_msgs(*r) =~= a + b) by {
            reveal(plan_role_text_msgs);
        }
        assert(strs(errors@) =~= strs(old(errors)@) + plan_role_text_msgs(*r));
    }
}

/// Checks the roles of a plan: each valid, each named once.
fn validate_plan_roles(rs: &Vec<SubspawnPlanRole>, errors: &mut Vec<String>)
    ensures
        final(errors)@.len() >= old(errors)@.len(),
        (final(errors)@.len() == old(errors)@.len()) <==> (
            rs@.len() > 0
            && (forall|i: int| 0 <= i < rs@.len() ==> plan_role_ok(#[trigger] rs@[i]))
            && (forall|i: int| 0 <= i < rs@.len() ==> !role_named_before(rs@, i, #[trigger] rs@[i].name@))),
        strs(final(errors)@) == strs(old(errors)@) + msg_if(rs@.len() == 0, "roles must not be empty"@)
            + plan_roles_msgs(rs@, rs@.len() as int),
{
    if rs.len() == 0 {
        errors.push(owned("roles must not be empty"));
    }
    let ghost e0 = strs(errors@);
    assert(e0 =~= strs(old(errors)@) + msg_if(rs@.len() == 0, "roles must not be empty"@));
    let n0 = errors.len();
    let mut i: usize = 0;
    while i < rs.len()
        invariant
            i <= rs@.len(),
            strs(errors@) == e0 + plan_roles_msgs(rs@, i as int),
            errors@.len() >= n0,
            n0 >= old(errors)@.len(),
            (n0 == old(errors)@.len()) <==> rs@.len() > 0,
            (errors@.len() == n0) <==> (
                (forall|k: int| 0 <= k < i ==> plan_role_ok(#[trigger] rs@[k]))
                && (forall|k: int| 0 <= k < i ==> !role_named_before(rs@, k, #[trigger] rs@[k].name@))),
        decreases rs@.len() - i,
    {
        let r = &rs[i];
        let m0 = errors.len();
        let ghost s0 = strs(errors@);
        match validate_role_name(r.name.as_str()) {
            Err(e) => errors.push(e),
            Ok(()) => {},
        }
        assert(strs(errors@) =~= s0 + msg_if(!role_name_ok(rs@[i as int].name@), role_name_error(rs@[i as int].name@)));
        validate_plan_role_texts(r, errors);
        let mut dup = false;
        let mut j: usize = 0;
        while j < i
            invariant
                i < rs@.len(),
                j <= i,
                dup == exists|k: int| 0 <= k < j && #[trigger] rs@[k].name@ == rs@[i as int].name@,
            decreases i - j,
        {
            if str_eq(rs[j].name.as_str(), rs[i].name.as_str()) {
                dup = true;
            }
            j = j + 1;
        }
        if dup {
            push2(errors, "duplicate role in plan: ", r.name.as_str());
        }
        assert(strs(errors@) =~= s0 + plan_role_msgs(rs@, i as int)) by {
            reveal(plan_role_msgs);
        }
        assert((errors@.len() == m0) <==> (plan_role_ok(rs@[i as int]) && !role_named_before(rs@, i as int, rs@[i as int].name@)));
        i = i + 1;
    }
}

/// Checks the prompts of a plan against its roles.
#[verifier::rlimit(80)]
fn validate_plan_prompts(rs: &Vec<SubspawnPlanRole>, ps: &Vec<SubspawnPlanPrompt>, errors: &mut Vec<String>)
    ensures
        final(errors)@.len() >= old(errors)@.len(),
        (final(errors)@.len() == old(errors)@.len()) <==> (
            (forall|i: int| 0 <= i < ps@.len() ==> role_name_ok(#[trigger] ps@[i].role@))
            && (forall|i: int| 0 <= i < ps@.len() ==> multiline_errors("prompt"@, #[trigger] ps@[i].prompt@).len() == 0)
            && (forall|i: int| 0 <= i < ps@.len() ==> role_named_before(rs@, rs@.len() as int, #[trigger] ps@[i].role@))
            && (forall|i: int| 0 <= i < ps@.len() ==> !plan_prompt_before(ps@, i, #[trigger] ps@[i].role@))),
        strs(final(errors)@) == strs(old(errors)@) + plan_prompts_msgs(rs@, ps@, ps@.len() as int),
{
    let mut i: usize = 0;
    while i < ps.len()
        invariant
            i <= ps@.len(),
            strs(errors@) == strs(old(errors)@) + plan_prompts_msgs(rs@, ps@, i as int),
            errors@.len() >= old(errors)@.len(),
            (errors@.len() == old(errors)@.len()) <==> (
                (forall|k: int| 0 <= k < i ==> role_name_ok(#[trigger] ps@[k].role@))
                && (forall|k: int| 0 <= k < i ==> multiline_errors("prompt"@, #[trigger] ps@[k].prompt@).len() == 0)
                && (forall|k: int| 0 <= k < i ==> role_named_before(rs@, rs@.len() as int, #[trigger] ps@[k].role@))
                && (forall|k: int| 0 <= k < i ==> !plan_prompt_before(ps@, k, #[trigger] ps@[k].role@))),
        decreases ps@.len() - i,
    {
        let p = &ps[i];
        let m0 = errors.len();
        let ghost s0 = strs(errors@);
        match validate_role_name(p.role.as_str()) {
            Err(e) => errors.push(e),
            Ok(()) => {},
        }
        assert(strs(errors@) =~= s0 + msg_if(!role_name_ok(p.role@), role_name_error(p.role@)));
        let m1 = errors.len();
        let ghost e1 = errors@;
        validate_multiline_text("prompt", p.prompt.as_str(), errors);
        proof {
            lemma_strs_len(e1);
            lemma_strs_len(errors@);
        }
        let m2 = errors.len();
        let ghost s2 = strs(errors@);
        assert(s2 =~= s0 + msg_if(!role_name_ok(p.role@), role_name_error(p.role@)) + multiline_errors("prompt"@, p.prompt@));
        let mut known = false;
        let mut j: usize = 0;
        while j < rs.len()
            invariant
                j <= rs@.len(),
                known == exists|k: int| 0 <= k < j && #[trigger] rs@[k].name@ == p.role@,
            decreases rs@.len() - j,
        {
            if str_eq(rs[j].name.as_str(), p.role.as_str()) {
                known = true;
            }
            j = j + 1;
        }
        if !known {
            let mut m = owned("prompt role ");
            push_all(&mut m, p.role.as_str());
            push_all(&mut m, " is not present in plan roles");
            errors.push(m);
            assert(strs(errors@) =~= s2.push("prompt role "@ + p.role@ + " is not present in plan roles"@));
        }
        let ghost s3 = strs(errors@);
        assert(known == role_named_before(rs@, rs@.len() as int, p.role@));
        assert(s3 =~= s2 + msg_if(!role_named_before(rs@, rs@.len() as int, p.role@), "prompt role "@ + p.role@ + " is not present in plan roles"@));
        let mut dup = false;
        let mut j: usize = 0;
        while j < i
            invariant
                i < ps@.len(),
                j <= i,
                dup == exists|k: int| 0 <= k < j && #[trigger] ps@[k].role@ == ps@[i as int].role@,
            decreases i - j,
        {
            if str_eq(ps[j].role.as_str(), ps[i].role.as_str()) {
                dup = true;
            }
            j = j + 1;
        }
        if dup {
            push2(errors, "duplicate prompt for role ", p.role.as_str());
        }
        assert(dup == plan_prompt_before(ps@, i as int, p.role@));
        assert(strs(errors@) =~= s3 + msg_if(plan_prompt_before(ps@, i as int, p.role@), "duplicate prompt for role "@ + p.role@));
        assert(strs(errors@) =~= s0 + plan_prompt_msgs(rs@, ps@, i as int)) by {
            reveal(plan_prompt_msgs);
        }
        i = i + 1;
    }
}

/// Checks the ignored duplicate roles of a plan.
fn validate_plan_duplicates(entries: &Vec<(String, Vec<String>)>, errors: &mut Vec<String>)
    ensures
        final(errors)@.len() >= old(errors)@.len(),
        (final(errors)@.len() == old(errors)@.len()) <==> forall|i: int| 0 <= i < entries@.len() ==> duplicate_entry_ok(#[trigger] entries@[i]),
        strs(final(errors)@) == strs(old(errors)@) + plan_duplicates_msgs(entries@, entries@.len() as int),
{
    let mut i: usize = 0;
    while i < entries.len()
        invariant
            i <= entries@.len(),
            strs(errors@) == strs(old(errors)@) + plan_duplicates_msgs(entries@, i as int),
            errors@.len() >= old(errors)@.len(),
            (errors@.len() == old(errors)@.len()) <==> forall|k: int| 0 <= k < i ==> duplicate_entry_ok(#[trigger] entries@[k]),
        decreases entries@.len() - i,
    {
        let role = &entries[i].0;
        let paths = &entries[i].1;
        let n0 = errors.len();
        let ghost s0 = strs(errors@);
        match validate_role_name(role.as_str()) {
            Err(e) => push2(errors, "duplicate_roles_ignored ", e.as_str()),
            Ok(()) => {},
        }
        let ghost s1 = strs(errors@);
        assert(s1 =~= s0 + msg_if(!role_name_ok(role@), "duplicate_roles_ignored "@ + role_name_error(role@)));
        if paths.len() == 0 {
            let mut m = owned("duplicate_roles_ignored[");
            push_all(&mut m, role.as_str());
            push_all(&mut m, "] must not be empty");
            errors.push(m);
            assert(strs(errors@) =~= s1.push("duplicate_roles_ignored["@ + role@ + "] must not be empty"@));
        }
        let ghost e1 = errors@;
        assert(strs(e1) =~= s1 + msg_if(paths@.len() == 0, "duplicate_roles_ignored["@ + role@ + "] must not be empty"@));
        validate_repeated_text("duplicate_roles_ignored", paths, errors);
        proof {
            lemma_strs_len(e1);
            lemma_strs_len(errors@);
            lemma_all_text_ok("duplicate_roles_ignored"@, paths@);
            assert(strs(errors@) =~= s0 + plan_duplicate_msgs(entries@[i as int])) by {
                reveal(plan_duplicate_msgs);
            }
        }
        i = i + 1;
    }
}

/// Every rule a subspawn plan breaks, as messages; none exactly when it keeps them all.
pub fn validate_subspawn_plan(plan: &SubspawnPlanInput) -> (r: Vec<String>)
    ensures
        r@.len() == 0 <==> plan_ok(*plan),
        strs(r@) == plan_errors(*plan),
{
    let mut errors: Vec<String> = Vec::new();
    validate_non_empty_text("task", plan.task.as_str(), &mut errors);
    let ghost e1 = errors@;
    validate_optional_text("mode", &plan.mode, &mut errors);
    let ghost e2 = errors@;
    validate_optional_text("scope", &plan.scope, &mut errors);
    let ghost e3 = errors@;
    validate_repeated_text("scope_items", &plan.scope_items, &mut errors);
    let ghost e4 = errors@;
    validate_optional_text("wait_policy", &plan.wait_policy, &mut errors);
    let ghost e5 = errors@;
    validate_repeated_text("registry_issues", &plan.registry_issues, &mut errors);
    let ghost e6 = errors@;
    validate_repeated_text("synthesis_checklist", &plan.synthesis_checklist, &mut errors);
    proof {
        lemma_strs_len(e1);
        lemma_strs_len(e2);
        lemma_strs_len(e3);
        lemma_strs_len(e4);
        lemma_strs_len(e5);
        lemma_strs_len(e6);
        lemma_strs_len(errors@);
        lemma_all_text_ok("scope_items"@, plan.scope_items@);
        lemma_all_text_ok("registry_issues"@, plan.registry_issues@);
        lemma_all_text_ok("synthesis_checklist"@, plan.synthesis_checklist@);
    }
    let n1 = errors.len();
    validate_plan_roles(&plan.roles, &mut errors);
    let n2 = errors.len();
    validate_plan_prompts(&plan.roles, &plan.prompts, &mut errors);
    let n3 = errors.len();
    validate_plan_duplicates(&plan.duplicate_roles_ignored, &mut errors);
    assert(strs(errors@) =~= plan_errors(*plan));
    errors
}

/// The index of the last prompt for `role`.
fn find_plan_prompt(ps: &Vec<SubspawnPlanPrompt>, role: &str) -> (r: Option<usize>)
    ensures
        match r {
            Some(k) => k as int == plan_prompt_index(ps@, role@) && k < ps@.len(),
            None => plan_prompt_index(ps@, role@) == -1,
        },
{
    let mut found: Option<usize> = None;
    let mut i: usize = 0;
    while i < ps.len()
        invariant
            i <= ps@.len(),
            match found {
                Some(k) => k as int == plan_prompt_index(ps@.take(i as int), role@) && k < i,
                None => plan_prompt_index(ps@.take(i as int), role@) == -1,
            },
        decreases ps@.len() - i,
    {
        proof {
            let t = ps@.take(i + 1);
            assert(t.drop_last() =~= ps@.take(i as int));
        }
        if str_eq(ps[i].role.as_str(), role) {
            found = Some(i);
        }
        i = i + 1;
    }
    assert(ps@.take(ps@.len() as int) =~= ps@);
    found
}

/// The batch a valid subspawn plan records: one prompt record and one planned
/// agent per role, in the plan's order, each prompt identified as
/// `<batch>:<role>` and hashed. An invalid plan is refused with its messages,
/// and a role without a prompt is refused by name.
pub fn subspawn_plan_to_batch(plan: SubspawnPlanInput, batch_id: &str, recorded_at: &str) -> (r: Result<SubagentBatch, String>)
    ensures
        !plan_ok(plan) ==> (r matches Err(m) && m@.len() >= 23 && m@.take(23) == "invalid subspawn plan: "@
            && m@ == "invalid subspawn plan: "@ + join_spec(plan_errors(plan), "; "@)),
        plan_ok(plan) && !plan_prompts_complete(plan) ==> (r matches Err(m) && exists|i: int| #![trigger plan.roles@[i]]
            0 <= i < plan.roles@.len()
            && plan_prompt_index(plan.prompts@, plan.roles@[i].name@) < 0
            && (forall|j: int| 0 <= j < i ==> plan_prompt_index(plan.prompts@, #[trigger] plan.roles@[j].name@) >= 0)
            && m@ == "missing prompt for role "@ + plan.roles@[i].name@),
        plan_ok(plan) && plan_prompts_complete(plan) ==> (r matches Ok(b) && planned_batch(plan, batch_id@, recorded_at@, b)),
{
    let errors = validate_subspawn_plan(&plan);
    if errors.len() > 0 {
        let mut m = owned("invalid subspawn plan: ");
        push_all(&mut m, join_strings(&errors, "; ").as_str());
        proof {
            reveal_strlit("invalid subspawn plan: ");
            assert(m@.take(23) =~= "invalid subspawn plan: "@);
        }
        return Err(m);
    }
    let ghost p0 = plan;
    let SubspawnPlanInput {
        task,
        mode,
        scope,
        wait_policy,
        rendezvous_required,
        roles,
        prompts,
        registry_issues,
        duplicate_roles_ignored,
        ..
    } = plan;
    let mut out_prompts: Vec<SubagentPromptRecord> = Vec::new();
    let mut out_agents: Vec<SubagentRecord> = Vec::new();
    let mut i: usize = 0;
    while i < roles.len()
        invariant
            p0 == plan,
            plan_ok(p0),
            roles@ == p0.roles@,
            prompts@ == p0.prompts@,
            task == p0.task,
            i <= roles@.len(),
            out_prompts@.len() == i,
            out_agents@.len() == i,
            forall|j: int| 0 <= j < i ==> plan_prompt_index(p0.prompts@, #[trigger] p0.roles@[j].name@) >= 0,
            forall|j: int| 0 <= j < i ==> {
                let pr = #[trigger] out_prompts@[j];
                &&& pr.role@ == p0.roles@[j].name@
                &&& pr.prompt_id@ == prompt_id_of(batch_id@, p0.roles@[j].name@)
                &&& pr.prompt_hash@ == role_prompt_hash(p0, p0.roles@[j].name@)
            },
            forall|j: int| 0 <= j < i ==> {
                let a = #[trigger] out_agents@[j];
                &&& a.role@ == p0.roles@[j].name@
                &&& a.task@ == p0.task@
                &&& a.status@ == "planned"@
                &&& a.summary@ == "planned by subspawn"@
                &&& a.prompt_id matches Some(x) && x@ == prompt_id_of(batch_id@, p0.roles@[j].name@)
                &&& a.prompt_hash matches Some(x) && x@ == role_prompt_hash(p0, p0.roles@[j].name@)
                &&& a.disposition is None
                &&& !a.human_verified
                &&& a.source_ids@.len() == 0
                &&& a.artifacts@.len() == 0
                &&& a.updated_at is None
            },
        decreases roles@.len() - i,
    {
        let name = &roles[i].name;
        let k = match find_plan_prompt(&prompts, name.as_str()) {
            Some(k) => k,
            None => {
                assert(plan_prompt_index(p0.prompts@, p0.roles@[i as int].name@) < 0);
                return Err(cat("missing prompt for role ", name.as_str()));
            },
        };
        let mut prompt_id = owned(batch_id);
        push_all(&mut prompt_id, ":");
        push_all(&mut prompt_id, name.as_str());
        let prompt_hash = stable_prompt_hash(prompts[k].prompt.as_str());
        out_prompts.push(SubagentPromptRecord {
            role: name.clone(),
            prompt_id: prompt_id.clone(),
            prompt_hash: prompt_hash.clone(),
        });
        out_agents.push(SubagentRecord {
            role: name.clone(),
            task: task.clone(),
            status: owned("planned"),
            summary: owned("planned by subspawn"),
            prompt_id: Some(prompt_id),
            prompt_hash: Some(prompt_hash),
            disposition: None,
            human_verified: false,
            source_ids: Vec::new(),
            artifacts: Vec::new(),
            updated_at: None,
        });
        i = i + 1;
    }
    Ok(SubagentBatch {
        id: owned(batch_id),
        status: owned("planned"),
        task: Some(task),
        mode,
        scope,
        wait_policy,
        rendezvous_required,
        registry_issues,
        duplicate_roles_ignored,
        prompts: out_prompts,
        agents: out_agents,
        synthesis: None,
        recorded_at: Some(owned(recorded_at)),
        updated_at: Some(owned(recorded_at)),
    })
}

} // verus!
