//! Creating a capsule: its id, the target directory's fate, and the initial
//! content of every contract file.
use vstd::prelude::*;

use crate::dev::capsule::{
    Capsule, EvidenceRecord, PolicyManifest, Verification, CAPSULE_SCHEMA, EVIDENCE_SCHEMA,
    VERIFICATION_SCHEMA,
};
use crate::dev::checks::{capsule_id_ok, validate_capsule_id};
use crate::dev::files::{required_file, required_file_name, REQUIRED_FILE_COUNT};
use crate::dev::kinds::{CapsuleStatus, EvidenceKind};
use crate::dev::pr::{empty_review_threads, partial_pr_evidence, PrEvidence, PR_SCHEMA};
use crate::dev::subagents::{Subagents, SUBAGENTS_SCHEMA};
use crate::paths::{join, path_join};
use crate::text::{chars_of, concat3, owned, push_all, push_char, strs};

verus! {

/// The characters `char::to_lowercase` yields for `c`.
pub uninterp spec fn char_lowercase(c: char) -> Seq<char>;

/// Collects `char::to_lowercase(c)`. The contract names the result; Unicode's
/// case mapping is not stated.
#[verifier::external_body]
fn lowercase_chars(c: char) -> (r: Vec<char>)
    ensures
        r@ == char_lowercase(c),
{
    c.to_lowercase().collect()
}

/// The time that RFC 3339 text `s` parses to (as `chrono::DateTime<Utc>`),
/// formatted with `%Y%m%d-%H%M%S`, if `s` parses.
pub uninterp spec fn utc_compact(s: Seq<char>) -> Option<Seq<char>>;

/// Parses `s` with `str::parse::<chrono::DateTime<chrono::Utc>>` and formats it
/// with `format("%Y%m%d-%H%M%S")`. The contract names the result; the format
/// is not stated.
#[verifier::external_body]
fn compact_utc(s: &str) -> (r: Option<String>)
    ensures
        match r {
            Some(x) => utc_compact(s@) == Some(x@),
            None => utc_compact(s@) is None,
        },
{
    match s.parse::<chrono::DateTime<chrono::Utc>>() {
        Ok(t) => Some(t.format("%Y%m%d-%H%M%S").to_string()),
        Err(_) => None,
    }
}

/// `s` with every character lowercased, in order.
pub open spec fn lowered(s: Seq<char>) -> Seq<char>
    decreases s.len(),
{
    if s.len() == 0 {
        seq![]
    } else {
        lowered(s.drop_last()) + char_lowercase(s.last())
    }
}

/// Whether `c` is an ASCII letter or digit.
pub open spec fn is_ascii_alnum(c: char) -> bool {
    ('a' <= c && c <= 'z') || ('A' <= c && c <= 'Z') || ('0' <= c && c <= '9')
}

/// One step of slugging: letters and digits are kept, and a run of anything
/// else becomes one hyphen (never a leading one).
pub open spec fn slug_step(st: (Seq<char>, bool), c: char) -> (Seq<char>, bool) {
    if is_ascii_alnum(c) {
        (st.0.push(c), false)
    } else if !st.1 && st.0.len() > 0 {
        (st.0.push('-'), true)
    } else {
        st
    }
}

/// The slug state after the characters `cs`.
pub open spec fn slug_fold(cs: Seq<char>) -> (Seq<char>, bool)
    decreases cs.len(),
{
    if cs.len() == 0 {
        (seq![], false)
    } else {
        slug_step(slug_fold(cs.drop_last()), cs.last())
    }
}

/// `s` without trailing `c`s.
pub open spec fn strip_end(s: Seq<char>, c: char) -> Seq<char>
    decreases s.len(),
{
    if s.len() > 0 && s.last() == c {
        strip_end(s.drop_last(), c)
    } else {
        s
    }
}

/// `s` without leading `c`s.
pub open spec fn strip_start(s: Seq<char>, c: char) -> Seq<char>
    decreases s.len(),
{
    if s.len() > 0 && s[0] == c {
        strip_start(s.drop_first(), c)
    } else {
        s
    }
}

/// The slug of a title: lowercased, letters and digits kept, other runs turned
/// into single hyphens, hyphens trimmed from both ends; `task` when nothing is
/// left.
pub open spec fn slugify_spec(title: Seq<char>) -> Seq<char> {
    let t = strip_start(strip_end(slug_fold(lowered(title)).0, '-'), '-');
    if t.len() == 0 {
        "task"@
    } else {
        t
    }
}

/// Whether `c` is an ASCII letter or digit.
fn ascii_alnum(c: char) -> (r: bool)
    ensures
        r == is_ascii_alnum(c),
{
    ('a' <= c && c <= 'z') || ('A' <= c && c <= 'Z') || ('0' <= c && c <= '9')
}

/// The slug of a title (see [`slugify_spec`]).
pub fn slugify(title: &str) -> (r: String)
    ensures
        r@ == slugify_spec(title@),
{
    let input = chars_of(title);
    let mut slug: Vec<char> = Vec::new();
    let mut last_dash = false;
    let ghost mut done: Seq<char> = seq![];
    let mut i: usize = 0;
    while i < input.len()
        invariant
            i <= input@.len(),
            input@ == title@,
            done == lowered(title@.take(i as int)),
            (slug@, last_dash) == slug_fold(done),
        decreases input@.len() - i,
    {
        let lc = lowercase_chars(input[i]);
        let ghost start = done;
        let mut j: usize = 0;
        while j < lc.len()
            invariant
                j <= lc@.len(),
                done == start + lc@.take(j as int),
                (slug@, last_dash) == slug_fold(done),
            decreases lc@.len() - j,
        {
            let c = lc[j];
            proof {
                assert((start + lc@.take(j + 1)).drop_last() =~= start + lc@.take(j as int));
                assert((start + lc@.take(j + 1)).last() == c);
            }
            if ascii_alnum(c) {
                slug.push(c);
                last_dash = false;
            } else if !last_dash && slug.len() > 0 {
                slug.push('-');
                last_dash = true;
            }
            proof {
                done = start + lc@.take(j + 1);
            }
            j = j + 1;
        }
        proof {
            let t = title@.take(i + 1);
            assert(t.drop_last() =~= title@.take(i as int));
            assert(lc@.take(lc@.len() as int) =~= lc@);
            assert(done == lowered(t));
        }
        i = i + 1;
    }
    assert(title@.take(input@.len() as int) =~= title@);
    let mut hi = slug.len();
    assert(slug@.take(hi as int) =~= slug@);
    while hi > 0 && slug[hi - 1] == '-'
        invariant
            hi <= slug@.len(),
            strip_end(slug@, '-') == strip_end(slug@.take(hi as int), '-'),
        decreases hi,
    {
        assert(slug@.take(hi - 1) =~= slug@.take(hi as int).drop_last());
        hi = hi - 1;
    }
    let mut lo: usize = 0;
    assert(slug@.take(hi as int).subrange(0, hi as int) =~= slug@.take(hi as int));
    while lo < hi && slug[lo] == '-'
        invariant
            lo <= hi <= slug@.len(),
            strip_end(slug@, '-') == slug@.subrange(0, hi as int),
            strip_start(strip_end(slug@, '-'), '-') == strip_start(slug@.subrange(lo as int, hi as int), '-'),
        decreases hi - lo,
    {
        assert(slug@.subrange(lo + 1, hi as int) =~= slug@.subrange(lo as int, hi as int).drop_first());
        lo = lo + 1;
    }
    let mut out = String::new();
    let mut k = lo;
    while k < hi
        invariant
            lo <= k <= hi <= slug@.len(),
            out@ == slug@.subrange(lo as int, k as int),
        decreases hi - k,
    {
        push_char(&mut out, slug[k]);
        k = k + 1;
        assert(out@ =~= slug@.subrange(lo as int, k as int));
    }
    if lo == hi {
        owned("task")
    } else {
        out
    }
}

/// What `init` asks for.
#[derive(Clone, Debug)]
pub struct InitArgs {
    pub title: String,
    pub objective: String,
    pub branch: String,
    pub base_branch: String,
    pub issues: Vec<u64>,
    pub pull_requests: Vec<u64>,
    pub root: String,
    pub slug: Option<String>,
    pub id: Option<String>,
    pub status: CapsuleStatus,
    /// The creation time (RFC 3339).
    pub created_at: String,
    pub policy_manifest: PolicyManifest,
    pub force: bool,
}

/// The id a new capsule gets: the one asked for, else the creation time
/// (`%Y%m%d-%H%M%S`), a hyphen and the slug (the one asked for, else the
/// title's). `None` when the creation time does not parse.
pub open spec fn init_id(args: InitArgs) -> Option<Seq<char>> {
    match args.id {
        Some(id) => Some(id@),
        None => {
            let slug = match args.slug {
                Some(s) => s@,
                None => slugify_spec(args.title@),
            };
            match utc_compact(args.created_at@) {
                Some(stamp) => Some(stamp + "-"@ + slug),
                None => None,
            }
        },
    }
}

/// The content of every file of a new capsule, and where it goes.
#[derive(Clone, Debug)]
pub struct InitPlan {
    pub path: String,
    pub capsule: Capsule,
    pub evidence: EvidenceRecord,
    pub verification: Verification,
    pub subagents: Subagents,
    pub pr: PrEvidence,
    pub policy: PolicyManifest,
    pub plan_md: String,
    pub decisions_md: String,
    pub output_md: String,
    pub retrospective_md: String,
    pub files: Vec<String>,
}

/// Whether `p` is the plan of a new capsule with id `id` for `args`.
pub open spec fn init_plan_is(p: InitPlan, args: InitArgs, id: Seq<char>) -> bool {
    &&& p.path@ == path_join(args.root@, id)
    &&& p.capsule.schema@ == CAPSULE_SCHEMA@
    &&& p.capsule.id@ == id
    &&& p.capsule.title@ == args.title@
    &&& p.capsule.status == args.status
    &&& p.capsule.objective@ == args.objective@
    &&& p.capsule.branch@ == args.branch@
    &&& p.capsule.base_branch@ == args.base_branch@
    &&& p.capsule.issues == args.issues
    &&& p.capsule.pull_requests == args.pull_requests
    &&& p.capsule.created_at@ == args.created_at@
    &&& p.capsule.updated_at@ == args.created_at@
    &&& p.evidence.schema@ == EVIDENCE_SCHEMA@
    &&& p.evidence.kind == EvidenceKind::Manual
    &&& p.evidence.at@ == args.created_at@
    &&& p.evidence.summary@ == "Task capsule initialized"@
    &&& p.evidence.command is None && p.evidence.exit_code is None
    &&& p.evidence.source_ids@.len() == 0 && p.evidence.artifacts@.len() == 0
    &&& p.evidence.actor is None && p.evidence.tool is None
    &&& p.evidence.confidence is None && p.evidence.residual_risk is None
    &&& p.verification.schema@ == VERIFICATION_SCHEMA@
    &&& p.verification.required@.len() == 0 && p.verification.optional@.len() == 0
    &&& p.verification.last_checked_at@ == args.created_at@
    &&& p.subagents.schema@ == SUBAGENTS_SCHEMA@
    &&& p.subagents.batches@.len() == 0
    &&& p.pr.schema@ == PR_SCHEMA@
    &&& p.pr.state@ == "not_created"@
    &&& p.pr.repository is None && p.pr.number is None && p.pr.url is None
    &&& p.pr.is_draft is None && p.pr.mergeable is None && p.pr.merge_state_status is None
    &&& p.pr.review_decision is None && p.pr.head_sha is None && p.pr.head_ref_name is None
    &&& p.pr.base_ref_name is None && p.pr.base_ref_oid is None
    &&& p.pr.checks@.len() == 0 && p.pr.sources@.len() == 0
    &&& p.pr.review_threads.unresolved == 0 && p.pr.review_threads.total == 0
    &&& p.pr.review_threads.resolved == 0 && p.pr.review_threads.outdated == 0
    &&& !p.pr.review_threads.authoritative
    &&& p.pr.review_threads.last_checked_at@ == args.created_at@
    &&& p.policy == args.policy_manifest
    &&& p.plan_md@ == "# Plan\n\n"@ + args.objective@ + "\n"@
    &&& p.decisions_md@ == "# Decisions\n\n"@
    &&& p.output_md@ == "# Output\n\n"@
    &&& p.retrospective_md@ == "# Retrospective\n\n"@
    &&& p.files@.len() == REQUIRED_FILE_COUNT
    &&& forall|k: int| 0 <= k < REQUIRED_FILE_COUNT ==> (#[trigger] p.files@[k])@ == required_file(k)
}

/// The names of the required files, in order.
fn required_file_list() -> (r: Vec<String>)
    ensures
        r@.len() == REQUIRED_FILE_COUNT,
        forall|k: int| 0 <= k < REQUIRED_FILE_COUNT ==> (#[trigger] r@[k])@ == required_file(k),
{
    let mut out: Vec<String> = Vec::new();
    let mut k: usize = 0;
    while k < REQUIRED_FILE_COUNT
        invariant
            k <= REQUIRED_FILE_COUNT,
            out@.len() == k,
            forall|j: int| 0 <= j < k ==> (#[trigger] out@[j])@ == required_file(j),
        decreases REQUIRED_FILE_COUNT - k,
    {
        out.push(owned(required_file_name(k)));
        k = k + 1;
    }
    out
}

/// Plans a new capsule: its id (see [`init_id`]) must name a directory, and
/// every contract file starts in its initial state, stamped with the creation
/// time. Fails with the id's validation error, or when the creation time does
/// not parse and no id was given.
pub fn plan_init_capsule(args: InitArgs) -> (r: Result<InitPlan, String>)
    ensures
        match r {
            Ok(p) => init_id(args) matches Some(id) && capsule_id_ok(id) && init_plan_is(p, args, id),
            Err(e) => match init_id(args) {
                None => e@ == "created_at is not an RFC 3339 timestamp: "@ + args.created_at@,
                Some(id) => !capsule_id_ok(id) && (if id.len() == 0 {
                    e@ == "capsule id must not be empty"@
                } else {
                    e@ == "capsule id must contain only ASCII letters, numbers, '-' or '_': "@ + id
                }),
            },
        },
{
    let ghost a = args;
    let id = match &args.id {
        Some(id) => id.clone(),
        None => {
            let slug = match &args.slug {
                Some(s) => s.clone(),
                None => slugify(args.title.as_str()),
            };
            match compact_utc(args.created_at.as_str()) {
                Some(stamp) => concat3(stamp.as_str(), "-", slug.as_str()),
                None => {
                    let mut e = owned("created_at is not an RFC 3339 timestamp: ");
                    push_all(&mut e, args.created_at.as_str());
                    return Err(e);
                },
            }
        },
    };
    assert(init_id(a) == Some(id@));
    match validate_capsule_id(id.as_str()) {
        Ok(_) => {},
        Err(e) => {
            return Err(e);
        },
    }
    let path = join(args.root.as_str(), id.as_str());
    let created_at = args.created_at;
    let capsule = Capsule {
        schema: owned(CAPSULE_SCHEMA),
        id,
        title: args.title,
        status: args.status,
        objective: args.objective,
        branch: args.branch,
        base_branch: args.base_branch,
        issues: args.issues,
        pull_requests: args.pull_requests,
        created_at: created_at.clone(),
        updated_at: created_at.clone(),
    };
    let evidence = EvidenceRecord {
        schema: owned(EVIDENCE_SCHEMA),
        kind: EvidenceKind::Manual,
        at: created_at.clone(),
        summary: owned("Task capsule initialized"),
        command: None,
        exit_code: None,
        source_ids: Vec::new(),
        actor: None,
        tool: None,
        confidence: None,
        residual_risk: None,
        artifacts: Vec::new(),
    };
    let verification = Verification {
        schema: owned(VERIFICATION_SCHEMA),
        required: Vec::new(),
        optional: Vec::new(),
        last_checked_at: created_at.clone(),
    };
    let subagents = Subagents { schema: owned(SUBAGENTS_SCHEMA), batches: Vec::new() };
    let pr = partial_pr_evidence("not_created", Vec::new(), empty_review_threads(created_at.as_str()));
    let mut plan_md = owned("# Plan\n\n");
    push_all(&mut plan_md, capsule.objective.as_str());
    push_all(&mut plan_md, "\n");
    Ok(InitPlan {
        path,
        capsule,
        evidence,
        verification,
        subagents,
        pr,
        policy: args.policy_manifest,
        plan_md,
        decisions_md: owned("# Decisions\n\n"),
        output_md: owned("# Output\n\n"),
        retrospective_md: owned("# Retrospective\n\n"),
        files: required_file_list(),
    })
}

/// What becomes of the capsule path before a capsule is created there.
#[derive(Clone, Copy, Debug, PartialEq, Eq, Structural)]
pub enum InitTarget {
    /// Nothing is there: create the directory.
    Fresh,
    /// A directory is there and `--force` replaces it.
    ReplaceDirectory,
    /// A file is there and `--force` replaces it.
    ReplaceFile,
}

/// Decides what to do with the capsule path `path`: create it when nothing is
/// there; otherwise, only with `force`, replace the directory or file there,
/// but never through a symlink.
pub fn init_target(path: &str, exists: bool, force: bool, is_symlink: bool, is_dir: bool) -> (r: Result<InitTarget, String>)
    ensures
        !exists ==> r == Ok::<InitTarget, String>(InitTarget::Fresh),
        exists && !force ==> (r matches Err(e) && e@ == "capsule already exists: "@ + path@),
        exists && force && is_symlink ==> (r matches Err(e) && e@
            == "refusing to replace symlinked capsule path: "@ + path@),
        exists && force && !is_symlink && is_dir ==> r == Ok::<InitTarget, String>(InitTarget::ReplaceDirectory),
        exists && force && !is_symlink && !is_dir ==> r == Ok::<InitTarget, String>(InitTarget::ReplaceFile),
{
    if !exists {
        return Ok(InitTarget::Fresh);
    }
    if !force {
        let mut e = owned("capsule already exists: ");
        push_all(&mut e, path);
        return Err(e);
    }
    if is_symlink {
        let mut e = owned("refusing to replace symlinked capsule path: ");
        push_all(&mut e, path);
        return Err(e);
    }
    if is_dir {
        Ok(InitTarget::ReplaceDirectory)
    } else {
        Ok(InitTarget::ReplaceFile)
    }
}

} // verus!
