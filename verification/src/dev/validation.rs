//! Validating a capsule's records: evidence entries, the policy manifest, and
//! the contract files as a whole.
use vstd::prelude::*;

use crate::audit_gate::str_eq;
use crate::dev::capsule::{
    EvidenceRecord, PolicyGate, PolicyManifest, ValidationResult, EVIDENCE_SCHEMA, POLICY_GATES_SCHEMA,
};
use crate::dev::checks::{
    blank, repeated_errors, required_repeated_errors, stable_id_errors, text_errors, is_blank,
    validate_non_empty_text, validate_optional_text, validate_repeated_text,
    validate_required_repeated_text, validate_stable_id,
};
use crate::dev::ledger::{cat, indexed, lemma_strs_len};
use crate::dev::numbers::find_from;
use crate::text::{chars_of, decimal, join_spec, owned, push_all, strs};

verus! {

/// The messages the optional-text rule reports for `field`.
pub open spec fn opt_errors(field: Seq<char>, v: Option<String>) -> Seq<Seq<char>> {
    match v {
        Some(x) => text_errors(field, x@),
        None => seq![],
    }
}

/// The messages an evidence record earns.
pub open spec fn evidence_errors(r: EvidenceRecord) -> Seq<Seq<char>> {
    (if r.schema@ != EVIDENCE_SCHEMA@ {
        seq!["schema must be "@ + EVIDENCE_SCHEMA@]
    } else {
        seq![]
    }) + text_errors("summary"@, r.summary@) + opt_errors("command"@, r.command) + opt_errors("actor"@, r.actor)
        + opt_errors("tool"@, r.tool) + opt_errors("residual_risk"@, r.residual_risk)
        + repeated_errors("source_ids"@, strs(r.source_ids@)) + repeated_errors("artifacts"@, strs(r.artifacts@))
        + (if r.exit_code is Some && r.command is None {
        seq!["exit_code requires command"@]
    } else {
        seq![]
    }) + (if r.confidence matches Some(c) && c > 100 {
        seq!["confidence must be between 0 and 100"@]
    } else {
        seq![]
    })
}

/// The messages an evidence record earns: its schema, its texts, an exit code
/// without a command, and a confidence above 100.
pub fn validate_evidence_record(record: &EvidenceRecord) -> (r: Vec<String>)
    ensures
        strs(r@) == evidence_errors(*record),
{
    let mut errors: Vec<String> = Vec::new();
    if !str_eq(record.schema.as_str(), EVIDENCE_SCHEMA) {
        errors.push(cat("schema must be ", EVIDENCE_SCHEMA));
    }
    let ghost s0 = strs(errors@);
    assert(s0 =~= (if record.schema@ != EVIDENCE_SCHEMA@ {
        seq!["schema must be "@ + EVIDENCE_SCHEMA@]
    } else {
        seq![]
    }));
    validate_non_empty_text("summary", record.summary.as_str(), &mut errors);
    validate_optional_text("command", &record.command, &mut errors);
    validate_optional_text("actor", &record.actor, &mut errors);
    validate_optional_text("tool", &record.tool, &mut errors);
    validate_optional_text("residual_risk", &record.residual_risk, &mut errors);
    validate_repeated_text("source_ids", &record.source_ids, &mut errors);
    validate_repeated_text("artifacts", &record.artifacts, &mut errors);
    let ghost mid = errors@;
    if record.exit_code.is_some() && record.command.is_none() {
        errors.push(owned("exit_code requires command"));
        assert(strs(errors@) =~= strs(mid).push("exit_code requires command"@));
    }
    let ghost mid2 = errors@;
    match record.confidence {
        Some(c) => {
            if c > 100 {
                errors.push(owned("confidence must be between 0 and 100"));
                assert(strs(errors@) =~= strs(mid2).push("confidence must be between 0 and 100"@));
            }
        },
        None => {},
    }
    assert(strs(errors@) =~= evidence_errors(*record));
    errors
}

/// The messages of each evidence line, each prefixed with its line number.
pub open spec fn evidence_line_errors(lines: Seq<(usize, EvidenceRecord)>) -> Seq<Seq<char>>
    decreases lines.len(),
{
    if lines.len() == 0 {
        seq![]
    } else {
        let (n, r) = lines.last();
        evidence_line_errors(lines.drop_last()) + evidence_errors(r).map_values(
            |e: Seq<char>| "evidence.jsonl line "@ + decimal(n as nat) + " "@ + e,
        )
    }
}

/// The messages of the evidence ledger: each record's, after its line number.
pub fn validate_evidence_lines(lines: &Vec<(usize, EvidenceRecord)>) -> (r: Vec<String>)
    ensures
        strs(r@) == evidence_line_errors(lines@),
{
    let mut out: Vec<String> = Vec::new();
    let mut i: usize = 0;
    while i < lines.len()
        invariant
            i <= lines@.len(),
            strs(out@) == evidence_line_errors(lines@.take(i as int)),
        decreases lines@.len() - i,
    {
        let n = lines[i].0;
        let errs = validate_evidence_record(&lines[i].1);
        let mut prefix = owned("evidence.jsonl line ");
        crate::text::push_decimal(&mut prefix, n as u64);
        push_all(&mut prefix, " ");
        let ghost start = strs(out@);
        let mut j: usize = 0;
        while j < errs.len()
            invariant
                j <= errs@.len(),
                prefix@ == "evidence.jsonl line "@ + decimal(n as nat) + " "@,
                strs(out@) == start + strs(errs@).take(j as int).map_values(
                    |e: Seq<char>| "evidence.jsonl line "@ + decimal(n as nat) + " "@ + e,
                ),
            decreases errs@.len() - j,
        {
            let ghost before = out@;
            out.push(cat(prefix.as_str(), errs[j].as_str()));
            assert(strs(out@) =~= strs(before).push(prefix@ + errs@[j as int]@));
            assert(strs(errs@).take(j + 1) =~= strs(errs@).take(j as int).push(errs@[j as int]@));
            assert(strs(out@) =~= start + strs(errs@).take(j + 1).map_values(
                |e: Seq<char>| "evidence.jsonl line "@ + decimal(n as nat) + " "@ + e,
            ));
            j = j + 1;
        }
        proof {
            assert(strs(errs@).take(errs@.len() as int) =~= strs(errs@));
            let t = lines@.take(i + 1);
            assert(t.drop_last() =~= lines@.take(i as int));
            assert(t.last() == lines@[i as int]);
        }
        i = i + 1;
    }
    assert(lines@.take(lines@.len() as int) =~= lines@);
    out
}

/// Whether a `..` component of `v`, read as a `/`-separated path, starts at `i`.
pub open spec fn parent_at(v: Seq<char>, i: int) -> bool {
    0 <= i && i + 1 < v.len() && (i == 0 || v[i - 1] == '/') && v[i] == '.' && v[i + 1] == '.'
        && (i + 2 == v.len() || v[i + 2] == '/')
}

/// Whether a `..` component occurs in `v` read as a `/`-separated path.
pub open spec fn has_parent_component(v: Seq<char>) -> bool {
    exists|i: int| #[trigger] parent_at(v, i)
}

/// The messages the working-directory rule reports for `field` holding `v`.
pub open spec fn working_dir_errors(field: Seq<char>, v: Seq<char>) -> Seq<Seq<char>> {
    text_errors(field, v) + if blank(v) {
        seq![]
    } else if v[0] == '/' {
        seq![field + " must be a repo-relative path"@]
    } else if has_parent_component(v) {
        seq![field + " must stay within the repository and cannot contain '..'"@]
    } else {
        seq![]
    }
}

/// A gate's working directory is non-empty, relative, and never climbs out
/// through `..` (paths read as on Unix).
pub fn validate_policy_working_directory(field: &str, value: &str, errors: &mut Vec<String>)
    ensures
        strs(final(errors)@) == strs(old(errors)@) + working_dir_errors(field@, value@),
{
    validate_non_empty_text(field, value, errors);
    let ghost mid = errors@;
    if is_blank(value) {
        assert(working_dir_errors(field@, value@) =~= text_errors(field@, value@));
        return;
    }
    let cs = chars_of(value);
    if cs[0] == '/' {
        errors.push(cat(field, " must be a repo-relative path"));
        assert(strs(errors@) =~= strs(mid).push(field@ + " must be a repo-relative path"@));
        return;
    }
    let found = parent_component_exists(&cs);
    if found {
        errors.push(cat(field, " must stay within the repository and cannot contain '..'"));
        assert(strs(errors@) =~= strs(mid).push(field@ + " must stay within the repository and cannot contain '..'"@));
    } else {
        assert(working_dir_errors(field@, value@) =~= text_errors(field@, value@));
    }
}

/// Whether a `..` component occurs in the path `cs`.
fn parent_component_exists(cs: &Vec<char>) -> (r: bool)
    ensures
        r == has_parent_component(cs@),
{
    let mut i: usize = 0;
    while i < cs.len() && i + 1 < cs.len()
        invariant
            i <= cs@.len(),
            forall|k: int| 0 <= k < i ==> !#[trigger] parent_at(cs@, k),
        decreases cs@.len() - i,
    {
        let start_ok = i == 0 || cs[i - 1] == '/';
        let end_ok = i + 2 == cs.len() || cs[i + 2] == '/';
        if start_ok && cs[i] == '.' && cs[i + 1] == '.' && end_ok {
            assert(parent_at(cs@, i as int));
            return true;
        }
        i = i + 1;
    }
    assert forall|k: int| #[trigger] parent_at(cs@, k) implies k < i by {}
    false
}

/// Whether some gate before `n` has id `id`.
pub open spec fn gate_id_before(gs: Seq<PolicyGate>, n: int, id: Seq<char>) -> bool {
    exists|j: int| 0 <= j < n && #[trigger] gs[j].id@ == id
}

/// The name of gate `i`'s fields: `policy.gates[i]`.
pub open spec fn gate_prefix(i: nat) -> Seq<char> {
    "policy.gates"@ + "["@ + decimal(i) + "]"@
}

/// The messages about gate `i`'s id: its form, and a repeat of an earlier id.
pub open spec fn gate_id_errors(gs: Seq<PolicyGate>, i: int) -> Seq<Seq<char>> {
    let g = gs[i];
    let p = gate_prefix(i as nat);
    let ide = stable_id_errors(p + ".id"@, g.id@);
    (if ide.len() > 0 { seq![join_spec(ide, "; "@)] } else { seq![] })
        + (if g.id@.len() > 0 && gate_id_before(gs, i, g.id@) {
        seq![p + ".id "@ + g.id@ + " is duplicated"@]
    } else {
        seq![]
    })
}

/// The messages about a gate's other fields, named under `p`.
pub open spec fn gate_field_errors(p: Seq<char>, g: PolicyGate) -> Seq<Seq<char>> {
    text_errors(p + ".name"@, g.name@) + required_repeated_errors(p + ".command"@, strs(g.command@))
        + text_errors(p + ".source"@, g.source@) + required_repeated_errors(
        p + ".required_tools"@,
        strs(g.required_tools@),
    ) + text_errors(p + ".failure_interpretation"@, g.failure_interpretation@) + working_dir_errors(
        p + ".working_directory"@,
        g.working_directory@,
    )
}

/// The messages gate `i` of `gs` earns.
pub open spec fn gate_errors(gs: Seq<PolicyGate>, i: int) -> Seq<Seq<char>> {
    gate_id_errors(gs, i) + gate_field_errors(gate_prefix(i as nat), gs[i])
}

/// The messages of gates `0..n`.
pub open spec fn gates_errors(gs: Seq<PolicyGate>, n: int) -> Seq<Seq<char>>
    decreases n,
{
    if n <= 0 {
        seq![]
    } else {
        gates_errors(gs, n - 1) + gate_errors(gs, n - 1)
    }
}

/// The messages a policy manifest's gates earn.
pub open spec fn manifest_value_errors(m: PolicyManifest) -> Seq<Seq<char>> {
    (if m.gates@.len() == 0 { seq!["policy gates must not be empty"@] } else { seq![] })
        + gates_errors(m.gates@, m.gates@.len() as int)
}

/// Checks the id of gate `i`.
fn validate_gate_id(gs: &Vec<PolicyGate>, i: usize, p: &str, errors: &mut Vec<String>)
    requires
        i < gs@.len(),
        p@ == gate_prefix(i as nat),
    ensures
        strs(final(errors)@) == strs(old(errors)@) + gate_id_errors(gs@, i as int),
{
    let g = &gs[i];
    let ghost e0 = strs(errors@);
    match validate_stable_id(cat(p, ".id").as_str(), g.id.as_str()) {
        Err(e) => {
            errors.push(e);
        },
        Ok(()) => {},
    }
    let ghost e1 = errors@;
    assert(strs(e1) =~= e0 + (if stable_id_errors(p@ + ".id"@, g.id@).len() > 0 {
        seq![join_spec(stable_id_errors(p@ + ".id"@, g.id@), "; "@)]
    } else {
        seq![]
    }));
    let nonempty = chars_of(g.id.as_str()).len() > 0;
    let mut dup = false;
    if nonempty {
        let mut j: usize = 0;
        while j < i
            invariant
                i < gs@.len(),
                j <= i,
                dup == exists|k: int| 0 <= k < j && #[trigger] gs@[k].id@ == gs@[i as int].id@,
            decreases i - j,
        {
            if str_eq(gs[j].id.as_str(), gs[i].id.as_str()) {
                dup = true;
            }
            j = j + 1;
        }
    }
    if nonempty && dup {
        let mut m = cat(p, ".id ");
        push_all(&mut m, g.id.as_str());
        push_all(&mut m, " is duplicated");
        errors.push(m);
        assert(strs(errors@) =~= strs(e1).push(p@ + ".id "@ + g.id@ + " is duplicated"@));
    }
    assert(strs(errors@) =~= strs(old(errors)@) + gate_id_errors(gs@, i as int));
}

/// Checks the fields of a gate other than its id.
fn validate_gate_fields(p: &str, g: &PolicyGate, errors: &mut Vec<String>)
    ensures
        strs(final(errors)@) == strs(old(errors)@) + gate_field_errors(p@, *g),
{
    validate_non_empty_text(cat(p, ".name").as_str(), g.name.as_str(), errors);
    validate_required_repeated_text(cat(p, ".command").as_str(), &g.command, errors);
    validate_non_empty_text(cat(p, ".source").as_str(), g.source.as_str(), errors);
    validate_required_repeated_text(cat(p, ".required_tools").as_str(), &g.required_tools, errors);
    validate_non_empty_text(cat(p, ".failure_interpretation").as_str(), g.failure_interpretation.as_str(), errors);
    validate_policy_working_directory(cat(p, ".working_directory").as_str(), g.working_directory.as_str(), errors);
    assert(strs(errors@) =~= strs(old(errors)@) + gate_field_errors(p@, *g));
}

/// Checks one gate of a manifest.
fn validate_gate(gs: &Vec<PolicyGate>, i: usize, errors: &mut Vec<String>)
    requires
        i < gs@.len(),
    ensures
        strs(final(errors)@) == strs(old(errors)@) + gate_errors(gs@, i as int),
{
    let p = indexed("policy.gates", i);
    validate_gate_id(gs, i, p.as_str(), errors);
    validate_gate_fields(p.as_str(), &gs[i], errors);
    assert(strs(errors@) =~= strs(old(errors)@) + gate_errors(gs@, i as int));
}

/// Checks a manifest's gates: at least one, each with a unique stable id,
/// texts, a command, tools and a repo-relative working directory.
pub fn validate_policy_manifest_value(manifest: &PolicyManifest, errors: &mut Vec<String>)
    ensures
        strs(final(errors)@) == strs(old(errors)@) + manifest_value_errors(*manifest),
{
    if manifest.gates.len() == 0 {
        let ghost before = errors@;
        errors.push(owned("policy gates must not be empty"));
        assert(strs(errors@) =~= strs(before).push("policy gates must not be empty"@));
    }
    let ghost start = strs(errors@);
    assert(start =~= strs(old(errors)@) + (if manifest.gates@.len() == 0 { seq!["policy gates must not be empty"@] } else { seq![] }));
    let mut i: usize = 0;
    while i < manifest.gates.len()
        invariant
            i <= manifest.gates@.len(),
            strs(errors@) == start + gates_errors(manifest.gates@, i as int),
        decreases manifest.gates@.len() - i,
    {
        validate_gate(&manifest.gates, i, errors);
        i = i + 1;
    }
}

/// The messages of a whole manifest: its schema, then its gates.
pub fn validate_policy_manifest(manifest: &PolicyManifest) -> (r: Vec<String>)
    ensures
        strs(r@) == (if manifest.schema@ != POLICY_GATES_SCHEMA@ {
            seq!["policy.json schema must be "@ + POLICY_GATES_SCHEMA@]
        } else {
            seq![]
        }) + manifest_value_errors(*manifest),
{
    let mut errors: Vec<String> = Vec::new();
    if !str_eq(manifest.schema.as_str(), POLICY_GATES_SCHEMA) {
        errors.push(cat("policy.json schema must be ", POLICY_GATES_SCHEMA));
    }
    let ghost e0 = strs(errors@);
    assert(e0 =~= (if manifest.schema@ != POLICY_GATES_SCHEMA@ {
        seq!["policy.json schema must be "@ + POLICY_GATES_SCHEMA@]
    } else {
        seq![]
    }));
    validate_policy_manifest_value(manifest, &mut errors);
    errors
}

} // verus!
