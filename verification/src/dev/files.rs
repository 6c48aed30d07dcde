//! The contract files of a capsule: which must exist, and what validating a
//! capsule reports from what its files hold.
use vstd::prelude::*;

use crate::audit_gate::str_eq;
use crate::dev::capsule::{ValidationResult, CAPSULE_SCHEMA, VERIFICATION_SCHEMA};
use crate::dev::ledger::cat;
use crate::dev::pr::PR_SCHEMA;
use crate::paths::{join, path_join};
use crate::text::{owned, push_all, strs};

verus! {

/// The files every capsule holds, in order.
pub open spec fn required_file(k: int) -> Seq<char> {
    if k == 0 {
        "capsule.json"@
    } else if k == 1 {
        "plan.md"@
    } else if k == 2 {
        "decisions.md"@
    } else if k == 3 {
        "evidence.jsonl"@
    } else if k == 4 {
        "verification.json"@
    } else if k == 5 {
        "subagents.json"@
    } else if k == 6 {
        "pr.json"@
    } else if k == 7 {
        "policy.json"@
    } else if k == 8 {
        "output.md"@
    } else {
        "retrospective.md"@
    }
}

/// The number of files every capsule holds.
pub const REQUIRED_FILE_COUNT: usize = 10;

/// The name of the `k`-th required file.
pub fn required_file_name(k: usize) -> (r: &'static str)
    requires
        k < 10,
    ensures
        r@ == required_file(k as int),
{
    if k == 0 {
        "capsule.json"
    } else if k == 1 {
        "plan.md"
    } else if k == 2 {
        "decisions.md"
    } else if k == 3 {
        "evidence.jsonl"
    } else if k == 4 {
        "verification.json"
    } else if k == 5 {
        "subagents.json"
    } else if k == 6 {
        "pr.json"
    } else if k == 7 {
        "policy.json"
    } else if k == 8 {
        "output.md"
    } else {
        "retrospective.md"
    }
}

/// What is found at a contract file's path, without following a link.
#[derive(Clone, Debug, PartialEq, Eq)]
pub enum ContractPathKind {
    NotFound,
    File,
    Symlink,
    NotAFile,
    InspectError(String),
}

/// What is known of one contract file: whether it reads as a regular file
/// (following links) and what its path holds.
#[derive(Clone, Debug, PartialEq, Eq)]
pub struct ContractFileProbe {
    pub is_file: bool,
    pub kind: ContractPathKind,
}

/// What reading the capsule's JSON contracts gave: a schema name or the
/// messages of their own validation, or why they could not be read.
#[derive(Debug, PartialEq, Eq)]
pub struct CapsuleFileReads {
    pub capsule_schema: Result<String, String>,
    pub evidence_errors: Result<Vec<String>, String>,
    pub verification_schema: Result<String, String>,
    pub subagents_errors: Result<Vec<String>, String>,
    pub pr_schema: Result<String, String>,
    pub policy_errors: Result<Vec<String>, String>,
}

/// Whether a path kind makes the file unusable as a contract.
pub open spec fn kind_invalid(k: ContractPathKind) -> bool {
    match k {
        ContractPathKind::InspectError(_) | ContractPathKind::Symlink | ContractPathKind::NotAFile => true,
        _ => false,
    }
}

/// The messages for missing files among the first `n`.
pub open spec fn missing_errors(ps: Seq<ContractFileProbe>, n: int) -> Seq<Seq<char>>
    decreases n,
{
    if n <= 0 {
        seq![]
    } else {
        missing_errors(ps, n - 1) + if !ps[n - 1].is_file {
            seq!["missing required file: "@ + required_file(n - 1)]
        } else {
            seq![]
        }
    }
}

/// The message for a contract path that cannot be validated, if any.
pub open spec fn path_error(path: Seq<char>, k: int, kind: ContractPathKind) -> Seq<Seq<char>> {
    let fp = path_join(path, required_file(k));
    match kind {
        ContractPathKind::InspectError(e) => seq!["failed to inspect "@ + fp + ": "@ + e@],
        ContractPathKind::Symlink => seq!["refusing to validate symlinked capsule contract file: "@ + fp],
        ContractPathKind::NotAFile => seq!["capsule contract path is not a file: "@ + fp],
        _ => seq![],
    }
}

/// The messages for unusable paths among the first `n`.
pub open spec fn path_errors(path: Seq<char>, ps: Seq<ContractFileProbe>, n: int) -> Seq<Seq<char>>
    decreases n,
{
    if n <= 0 {
        seq![]
    } else {
        path_errors(path, ps, n - 1) + path_error(path, n - 1, ps[n - 1].kind)
    }
}

/// Whether file `k` can be read for validation.
pub open spec fn can_validate(ps: Seq<ContractFileProbe>, k: int) -> bool {
    ps[k].is_file && !kind_invalid(ps[k].kind)
}

/// The message of a schema-checked file.
#[verifier::opaque]
pub open spec fn schema_errors(file: Seq<char>, expected: Seq<char>, read: Result<String, String>) -> Seq<Seq<char>> {
    match read {
        Ok(s) => if s@ != expected {
            seq![file + " schema must be "@ + expected]
        } else {
            seq![]
        },
        Err(e) => seq!["invalid "@ + file + ": "@ + e@],
    }
}

/// The messages of a file validated by its own rules.
#[verifier::opaque]
pub open spec fn list_errors(file: Seq<char>, read: Result<Vec<String>, String>) -> Seq<Seq<char>> {
    match read {
        Ok(v) => strs(v@),
        Err(e) => seq!["invalid "@ + file + ": "@ + e@],
    }
}

/// `s` when `cond` holds, else nothing.
pub open spec fn when(cond: bool, s: Seq<Seq<char>>) -> Seq<Seq<char>> {
    if cond {
        s
    } else {
        seq![]
    }
}

/// The messages of the contents of the readable contract files.
pub open spec fn content_errors(ps: Seq<ContractFileProbe>, reads: CapsuleFileReads) -> Seq<Seq<char>> {
    when(can_validate(ps, 0), schema_errors("capsule.json"@, CAPSULE_SCHEMA@, reads.capsule_schema))
        + when(can_validate(ps, 3), list_errors("evidence.jsonl"@, reads.evidence_errors))
        + when(can_validate(ps, 4), schema_errors("verification.json"@, VERIFICATION_SCHEMA@, reads.verification_schema))
        + when(can_validate(ps, 5), list_errors("subagents.json"@, reads.subagents_errors))
        + when(can_validate(ps, 6), schema_errors("pr.json"@, PR_SCHEMA@, reads.pr_schema))
        + when(can_validate(ps, 7), list_errors("policy.json"@, reads.policy_errors))
}

/// The messages validating a capsule reports.
pub open spec fn capsule_errors(path: Seq<char>, is_dir: bool, ps: Seq<ContractFileProbe>, reads: CapsuleFileReads) -> Seq<Seq<char>> {
    if !is_dir {
        seq!["capsule path is not a directory: "@ + path]
    } else {
        missing_errors(ps, 10) + path_errors(path, ps, 10) + content_errors(ps, reads)
    }
}

/// Appends a schema check's messages.
fn push_schema_errors(errors: &mut Vec<String>, file: &str, expected: &str, read: &Result<String, String>)
    ensures
        strs(final(errors)@) == strs(old(errors)@) + schema_errors(file@, expected@, *read),
{
    reveal(schema_errors);
    let ghost before = errors@;
    match read {
        Ok(s) => {
            if !str_eq(s.as_str(), expected) {
                let mut m = cat(file, " schema must be ");
                push_all(&mut m, expected);
                errors.push(m);
                assert(strs(errors@) =~= strs(before).push(file@ + " schema must be "@ + expected@));
            } else {
                assert(strs(errors@) =~= strs(before) + schema_errors(file@, expected@, *read));
            }
        },
        Err(e) => {
            let mut m = cat("invalid ", file);
            push_all(&mut m, ": ");
            push_all(&mut m, e.as_str());
            errors.push(m);
            assert(strs(errors@) =~= strs(before).push("invalid "@ + file@ + ": "@ + e@));
        },
    }
}

/// Appends a list check's messages.
fn push_list_errors(errors: &mut Vec<String>, file: &str, read: &Result<Vec<String>, String>)
    ensures
        strs(final(errors)@) == strs(old(errors)@) + list_errors(file@, *read),
{
    reveal(list_errors);
    let ghost before = errors@;
    match read {
        Ok(v) => {
            let mut i: usize = 0;
            while i < v.len()
                invariant
                    i <= v@.len(),
                    strs(errors@) == strs(before) + strs(v@).take(i as int),
                decreases v@.len() - i,
            {
                let ghost b = errors@;
                let c = v[i].clone();
                errors.push(c);
                assert(strs(errors@) =~= strs(b).push(c@));
                assert(strs(v@).take(i + 1) =~= strs(v@).take(i as int).push(v@[i as int]@));
                i = i + 1;
            }
            assert(strs(v@).take(v@.len() as int) =~= strs(v@));
        },
        Err(e) => {
            let mut m = cat("invalid ", file);
            push_all(&mut m, ": ");
            push_all(&mut m, e.as_str());
            errors.push(m);
            assert(strs(errors@) =~= strs(before).push("invalid "@ + file@ + ": "@ + e@));
        },
    }
}

/// Whether file `k` can be read for validation.
fn can_validate_file(probes: &Vec<ContractFileProbe>, k: usize) -> (r: bool)
    requires
        k < probes@.len(),
    ensures
        r == can_validate(probes@, k as int),
{
    let p = &probes[k];
    p.is_file && match &p.kind {
        ContractPathKind::InspectError(_) | ContractPathKind::Symlink | ContractPathKind::NotAFile => false,
        _ => true,
    }
}

/// Appends a message for each missing required file.
fn push_missing_errors(errors: &mut Vec<String>, probes: &Vec<ContractFileProbe>)
    requires
        probes@.len() == 10,
    ensures
        strs(final(errors)@) == strs(old(errors)@) + missing_errors(probes@, 10),
{
    let ghost start = strs(errors@);
    let mut k: usize = 0;
    while k < 10
        invariant
            probes@.len() == 10,
            k <= 10,
            strs(errors@) == start + missing_errors(probes@, k as int),
        decreases 10 - k,
    {
        let ghost b = errors@;
        if !probes[k].is_file {
            errors.push(cat("missing required file: ", required_file_name(k)));
            assert(strs(errors@) =~= strs(b).push("missing required file: "@ + required_file(k as int)));
        }
        assert(strs(errors@) =~= start + missing_errors(probes@, k + 1));
        k = k + 1;
    }
}

/// Appends a message for each required path that cannot be validated.
fn push_path_errors(errors: &mut Vec<String>, path: &str, probes: &Vec<ContractFileProbe>)
    requires
        probes@.len() == 10,
    ensures
        strs(final(errors)@) == strs(old(errors)@) + path_errors(path@, probes@, 10),
{
    let ghost m = strs(errors@);
    let mut k: usize = 0;
    while k < 10
        invariant
            probes@.len() == 10,
            k <= 10,
            strs(errors@) == m + path_errors(path@, probes@, k as int),
        decreases 10 - k,
    {
        let ghost b = errors@;
        let fp = join(path, required_file_name(k));
        match &probes[k].kind {
            ContractPathKind::InspectError(e) => {
                let mut msg = cat("failed to inspect ", fp.as_str());
                push_all(&mut msg, ": ");
                push_all(&mut msg, e.as_str());
                errors.push(msg);
            },
            ContractPathKind::Symlink => {
                errors.push(cat("refusing to validate symlinked capsule contract file: ", fp.as_str()));
            },
            ContractPathKind::NotAFile => {
                errors.push(cat("capsule contract path is not a file: ", fp.as_str()));
            },
            _ => {},
        }
        assert(strs(errors@) =~= strs(b) + path_error(path@, k as int, probes@[k as int].kind));
        k = k + 1;
    }
}

/// Appends the messages of the readable contract files' contents.
/// Appends a schema check's messages when `cond` holds.
fn push_schema_when(errors: &mut Vec<String>, cond: bool, file: &str, expected: &str, read: &Result<String, String>)
    ensures
        strs(final(errors)@) == strs(old(errors)@) + when(cond, schema_errors(file@, expected@, *read)),
{
    if cond {
        push_schema_errors(errors, file, expected, read);
    } else {
        assert(strs(errors@) =~= strs(old(errors)@) + seq![]);
    }
}

/// Appends a list check's messages when `cond` holds.
fn push_list_when(errors: &mut Vec<String>, cond: bool, file: &str, read: &Result<Vec<String>, String>)
    ensures
        strs(final(errors)@) == strs(old(errors)@) + when(cond, list_errors(file@, *read)),
{
    if cond {
        push_list_errors(errors, file, read);
    } else {
        assert(strs(errors@) =~= strs(old(errors)@) + seq![]);
    }
}

/// Appends the messages of the readable contract files' contents.
fn push_content_errors(errors: &mut Vec<String>, probes: &Vec<ContractFileProbe>, reads: &CapsuleFileReads)
    requires
        probes@.len() == 10,
    ensures
        strs(final(errors)@) == strs(old(errors)@) + content_errors(probes@, *reads),
{
    let ghost c = strs(errors@);
    let b0 = can_validate_file(probes, 0);
    let b3 = can_validate_file(probes, 3);
    let b4 = can_validate_file(probes, 4);
    let b5 = can_validate_file(probes, 5);
    let b6 = can_validate_file(probes, 6);
    let b7 = can_validate_file(probes, 7);
    let ghost pa = when(can_validate(probes@, 0), schema_errors("capsule.json"@, CAPSULE_SCHEMA@, reads.capsule_schema));
    let ghost pb = when(can_validate(probes@, 3), list_errors("evidence.jsonl"@, reads.evidence_errors));
    let ghost pc = when(can_validate(probes@, 4), schema_errors("verification.json"@, VERIFICATION_SCHEMA@, reads.verification_schema));
    let ghost pd = when(can_validate(probes@, 5), list_errors("subagents.json"@, reads.subagents_errors));
    let ghost pe = when(can_validate(probes@, 6), schema_errors("pr.json"@, PR_SCHEMA@, reads.pr_schema));
    let ghost pf = when(can_validate(probes@, 7), list_errors("policy.json"@, reads.policy_errors));
    push_schema_when(errors, b0, "capsule.json", CAPSULE_SCHEMA, &reads.capsule_schema);
    push_list_when(errors, b3, "evidence.jsonl", &reads.evidence_errors);
    proof { vstd::seq_lib::lemma_concat_associative(c, pa, pb); }
    push_schema_when(errors, b4, "verification.json", VERIFICATION_SCHEMA, &reads.verification_schema);
    proof { vstd::seq_lib::lemma_concat_associative(c, pa + pb, pc); }
    push_list_when(errors, b5, "subagents.json", &reads.subagents_errors);
    proof { vstd::seq_lib::lemma_concat_associative(c, pa + pb + pc, pd); }
    push_schema_when(errors, b6, "pr.json", PR_SCHEMA, &reads.pr_schema);
    proof { vstd::seq_lib::lemma_concat_associative(c, pa + pb + pc + pd, pe); }
    push_list_when(errors, b7, "policy.json", &reads.policy_errors);
    proof { vstd::seq_lib::lemma_concat_associative(c, pa + pb + pc + pd + pe, pf); }
}

/// Validates a capsule directory at `path` from what was found there: whether
/// it is a directory, the state of each required file, and what reading the
/// JSON contracts gave. The capsule is valid exactly when nothing is reported.
pub fn validate_capsule(path: &str, is_dir: bool, probes: &Vec<ContractFileProbe>, reads: &CapsuleFileReads) -> (r: ValidationResult)
    requires
        probes@.len() == 10,
    ensures
        r.path@ == path@,
        strs(r.errors@) == capsule_errors(path@, is_dir, probes@, *reads),
        r.valid == (r.errors@.len() == 0),
{
    let mut errors: Vec<String> = Vec::new();
    if !is_dir {
        errors.push(cat("capsule path is not a directory: ", path));
        assert(strs(errors@) =~= capsule_errors(path@, is_dir, probes@, *reads));
        let valid = errors.len() == 0;
        return ValidationResult { path: owned(path), valid, errors };
    }
    push_missing_errors(&mut errors, probes);
    push_path_errors(&mut errors, path, probes);
    push_content_errors(&mut errors, probes, reads);
    assert(strs(errors@) =~= capsule_errors(path@, is_dir, probes@, *reads));
    let valid = errors.len() == 0;
    ValidationResult { path: owned(path), valid, errors }
}

/// The refusal for a JSON contract file that cannot be written through, if any.
pub open spec fn contract_file_error(path: Seq<char>, k: int, kind: ContractPathKind) -> Option<Seq<char>> {
    let fp = path_join(path, required_file(k));
    match kind {
        ContractPathKind::NotFound => Some("missing required file: "@ + required_file(k)),
        ContractPathKind::InspectError(e) => Some("failed to inspect "@ + fp + ": "@ + e@),
        ContractPathKind::Symlink => Some("refusing to write through symlinked capsule contract file: "@ + fp),
        ContractPathKind::NotAFile => Some("capsule contract path is not a file: "@ + fp),
        ContractPathKind::File => None,
    }
}

/// The indices of the JSON contract files, in order.
pub open spec fn json_contract(j: int) -> int {
    if j == 0 { 0 } else if j == 1 { 3 } else if j == 2 { 4 } else if j == 3 { 5 } else if j == 4 { 6 } else { 7 }
}

/// The first refusal among the JSON contract files, in order.
pub open spec fn first_contract_error(path: Seq<char>, ps: Seq<ContractFileProbe>, j: int) -> Option<Seq<char>>
    decreases 6 - j,
{
    if j >= 6 || j < 0 {
        None
    } else {
        match contract_file_error(path, json_contract(j), ps[json_contract(j)].kind) {
            Some(m) => Some(m),
            None => first_contract_error(path, ps, j + 1),
        }
    }
}

/// Refuses a capsule whose JSON contract files are not all regular files, so
/// that nothing is written through a link; the first offending file is named.
pub fn ensure_regular_contract_files(capsule_path: &str, probes: &Vec<ContractFileProbe>) -> (r: Result<(), String>)
    requires
        probes@.len() == 10,
    ensures
        match first_contract_error(capsule_path@, probes@, 0) {
            Some(m) => r matches Err(e) && e@ == m,
            None => r is Ok,
        },
{
    let mut j: usize = 0;
    while j < 6
        invariant
            probes@.len() == 10,
            j <= 6,
            first_contract_error(capsule_path@, probes@, 0) == first_contract_error(capsule_path@, probes@, j as int),
        decreases 6 - j,
    {
        let k: usize = if j == 0 { 0 } else if j == 1 { 3 } else if j == 2 { 4 } else if j == 3 { 5 } else if j == 4 { 6 } else { 7 };
        assert(k as int == json_contract(j as int));
        let file = required_file_name(k);
        let fp = join(capsule_path, file);
        match &probes[k].kind {
            ContractPathKind::NotFound => return Err(cat("missing required file: ", file)),
            ContractPathKind::InspectError(e) => {
                let mut msg = cat("failed to inspect ", fp.as_str());
                push_all(&mut msg, ": ");
                push_all(&mut msg, e.as_str());
                return Err(msg);
            },
            ContractPathKind::Symlink => {
                return Err(cat("refusing to write through symlinked capsule contract file: ", fp.as_str()));
            },
            ContractPathKind::NotAFile => return Err(cat("capsule contract path is not a file: ", fp.as_str())),
            ContractPathKind::File => {},
        }
        j = j + 1;
    }
    Ok(())
}

} // verus!
