//! Pull-request identity: reading it from GitHub URLs and reconciling it with
//! what a capsule already records.
use vstd::prelude::*;

use crate::dev::kinds::{source_kind_name, PrRecordSourceKind};
use crate::dev::numbers::{find_chars, find_from, parse_u64, parse_u64_spec};
use crate::dev::pr::{
    comment_merge_fits, comment_merged, conflict_message, merge_pr_number_field, merge_pr_string_field,
    merge_review_comment_summary, merge_review_pack_summary, pack_merge_fits, pack_merged, PrEvidence,
    PR_SCHEMA,
};
use crate::text::{chars_of, decimal, owned, push_all, substring};

verus! {

/// The text after the first `github.com/` of `url`, up to the next one.
pub open spec fn pr_url_path(url: Seq<char>) -> Option<Seq<char>> {
    let p = find_from(url, "github.com/"@, 0);
    if p < 0 {
        None
    } else {
        let start = p + "github.com/"@.len();
        let q = find_from(url, "github.com/"@, start);
        Some(url.subrange(start, if q < 0 { url.len() as int } else { q }))
    }
}

/// The `k`-th piece of `s` split at `/`, if there are that many.
pub open spec fn nth_segment(s: Seq<char>, k: nat) -> Option<Seq<char>>
    decreases k,
{
    let i = find_from(s, seq!['/'], 0);
    if k == 0 {
        Some(if i < 0 { s } else { s.take(i) })
    } else if i < 0 {
        None
    } else {
        nth_segment(s.skip(i + 1), (k - 1) as nat)
    }
}

/// Whether `url` has the form `...github.com/<owner>/<repo>/pull...`.
pub open spec fn pr_url_ok(url: Seq<char>) -> bool {
    match pr_url_path(url) {
        Some(path) => {
            &&& nth_segment(path, 0) matches Some(o) && o.len() > 0
            &&& nth_segment(path, 1) matches Some(r) && r.len() > 0
            &&& nth_segment(path, 2) matches Some(p) && p == "pull"@
        },
        None => false,
    }
}

/// The `owner/repo` a pull-request URL names.
pub open spec fn repository_of_url(url: Seq<char>) -> Option<Seq<char>> {
    if pr_url_ok(url) {
        Some(nth_segment(pr_url_path(url).unwrap(), 0).unwrap() + "/"@ + nth_segment(pr_url_path(url).unwrap(), 1).unwrap())
    } else {
        None
    }
}

/// The number a pull-request URL names.
pub open spec fn number_of_url(url: Seq<char>) -> Option<u64> {
    if pr_url_ok(url) {
        match nth_segment(pr_url_path(url).unwrap(), 3) {
            Some(n) => parse_u64_spec(n),
            None => None,
        }
    } else {
        None
    }
}

/// The path part of a pull-request URL.
fn url_path(url: &str) -> (r: Option<String>)
    ensures
        match r {
            Some(p) => pr_url_path(url@) == Some(p@),
            None => pr_url_path(url@) is None,
        },
{
    let cs = chars_of(url);
    let pat = chars_of("github.com/");
    let p = match find_chars(&cs, &pat, 0) {
        Some(p) => p,
        None => return None,
    };
    let n = cs.len();
    assert(p + pat@.len() <= n);
    let start = p + pat.len();
    let end = match find_chars(&cs, &pat, start) {
        Some(q) => q,
        None => cs.len(),
    };
    Some(substring(&cs, start, end))
}

/// The `k`-th piece of `s` split at `/`.
fn segment(s: &str, k: usize) -> (r: Option<String>)
    ensures
        match r {
            Some(x) => nth_segment(s@, k as nat) == Some(x@),
            None => nth_segment(s@, k as nat) is None,
        },
{
    let mut cur = owned(s);
    let mut left = k;
    let slash = chars_of("/");
    proof {
        reveal_strlit("/");
    }
    assert(slash@ =~= seq!['/']);
    while left > 0
        invariant
            slash@ == seq!['/'],
            nth_segment(s@, k as nat) == nth_segment(cur@, left as nat),
        decreases left,
    {
        let cs = chars_of(cur.as_str());
        match find_chars(&cs, &slash, 0) {
            Some(i) => {
                let n = cs.len();
                cur = substring(&cs, i + 1, n);
                assert(cur@ =~= cs@.skip(i + 1));
            },
            None => return None,
        }
        left = left - 1;
    }
    let cs = chars_of(cur.as_str());
    match find_chars(&cs, &slash, 0) {
        Some(i) => {
            let t = substring(&cs, 0, i);
            assert(t@ =~= cs@.take(i as int));
            Some(t)
        },
        None => Some(cur),
    }
}

/// The pieces of the URL's path when it names a pull request.
fn url_parts(url: &str) -> (r: Option<String>)
    ensures
        match r {
            Some(p) => pr_url_ok(url@) && pr_url_path(url@) == Some(p@),
            None => !pr_url_ok(url@),
        },
{
    let path = match url_path(url) {
        Some(p) => p,
        None => return None,
    };
    let owner = segment(path.as_str(), 0);
    let repo = segment(path.as_str(), 1);
    let pull = segment(path.as_str(), 2);
    match (owner, repo, pull) {
        (Some(o), Some(r), Some(p)) => {
            if chars_of(o.as_str()).len() > 0 && chars_of(r.as_str()).len() > 0
                && crate::audit_gate::str_eq(p.as_str(), "pull") {
                Some(path)
            } else {
                None
            }
        },
        _ => None,
    }
}

/// The `owner/repo` a GitHub pull-request URL names.
pub fn repository_from_pr_url(url: &str) -> (r: Option<String>)
    ensures
        match r {
            Some(x) => repository_of_url(url@) == Some(x@),
            None => repository_of_url(url@) is None,
        },
{
    let path = match url_parts(url) {
        Some(p) => p,
        None => return None,
    };
    let owner = segment(path.as_str(), 0);
    let repo = segment(path.as_str(), 1);
    match (owner, repo) {
        (Some(o), Some(r)) => {
            let mut m = o;
            push_all(&mut m, "/");
            push_all(&mut m, r.as_str());
            Some(m)
        },
        _ => None,
    }
}

/// The number a GitHub pull-request URL names.
pub fn number_from_pr_url(url: &str) -> (r: Option<u64>)
    ensures
        r == number_of_url(url@),
{
    let path = match url_parts(url) {
        Some(p) => p,
        None => return None,
    };
    match segment(path.as_str(), 3) {
        Some(n) => parse_u64(n.as_str()),
        None => None,
    }
}

/// The view of an optional string.
pub open spec fn opt_view(o: Option<String>) -> Option<Seq<char>> {
    match o {
        Some(s) => Some(s@),
        None => None,
    }
}

/// Taking `i` into `e`: the new value, or the conflict message.
pub open spec fn step_str(e: Option<Seq<char>>, i: Option<Seq<char>>, field: Seq<char>) -> Result<Option<Seq<char>>, Seq<char>> {
    match i {
        None => Ok(e),
        Some(x) => match e {
            Some(y) => if y != x {
                Err(conflict_message(field, y, x))
            } else {
                Ok(Some(x))
            },
            None => Ok(Some(x)),
        },
    }
}

/// Taking `i` into `e`: the new value, or the conflict message.
pub open spec fn step_num(e: Option<u64>, i: Option<u64>, field: Seq<char>) -> Result<Option<u64>, Seq<char>> {
    match i {
        None => Ok(e),
        Some(x) => match e {
            Some(y) => if y != x {
                Err(conflict_message(field, decimal(y as nat), decimal(x as nat)))
            } else {
                Ok(Some(x))
            },
            None => Ok(Some(x)),
        },
    }
}

/// The message for a provider source that leaves the PR unidentified.
pub open spec fn identity_missing_message(kind: PrRecordSourceKind) -> Seq<char> {
    "PR evidence source kind "@ + source_kind_name(kind)
        + " requires explicit PR identity; pass --repo and --number or provide a GitHub pull request URL"@
}

/// The repository and number a PR ends with once its URL and the given
/// identity are taken in, in that order; or the message of the first refusal.
pub open spec fn identity_result(
    url: Option<Seq<char>>,
    repo: Option<Seq<char>>,
    number: Option<u64>,
    kind: PrRecordSourceKind,
    repo_arg: Option<Seq<char>>,
    number_arg: Option<u64>,
) -> Result<(Option<Seq<char>>, Option<u64>), Seq<char>> {
    let url_repo = match url {
        Some(u) => repository_of_url(u),
        None => None,
    };
    let url_number = match url {
        Some(u) => number_of_url(u),
        None => None,
    };
    match step_str(repo, url_repo, "repository"@) {
        Err(m) => Err(m),
        Ok(r1) => match step_num(number, url_number, "number"@) {
            Err(m) => Err(m),
            Ok(n1) => match step_str(r1, repo_arg, "repository"@) {
                Err(m) => Err(m),
                Ok(r2) => match step_num(n1, number_arg, "number"@) {
                    Err(m) => Err(m),
                    Ok(n2) => if kind != PrRecordSourceKind::Normalized && (r2 is None || n2 is None) {
                        Err(identity_missing_message(kind))
                    } else {
                        Ok((r2, n2))
                    },
                },
            },
        },
    }
}

/// Takes the PR's identity from its URL and from the given repository and
/// number; refuses conflicting values, and provider sources left without a
/// repository and number.
pub fn apply_pr_record_identity(
    pr: &mut PrEvidence,
    source_kind: PrRecordSourceKind,
    repository: Option<String>,
    number: Option<u64>,
) -> (r: Result<(), String>)
    ensures
        match identity_result(opt_view(old(pr).url), opt_view(old(pr).repository), old(pr).number, source_kind,
            opt_view(repository), number) {
            Ok((rp, n)) => r is Ok && opt_view(final(pr).repository) == rp && final(pr).number == n,
            Err(m) => r matches Err(e) && e@ == m,
        },
        final(pr).url == old(pr).url,
        final(pr).state == old(pr).state,
        final(pr).checks == old(pr).checks,
        final(pr).review_threads == old(pr).review_threads,
        final(pr).sources == old(pr).sources,
        final(pr).schema == old(pr).schema,
        final(pr).is_draft == old(pr).is_draft,
        final(pr).mergeable == old(pr).mergeable,
        final(pr).merge_state_status == old(pr).merge_state_status,
        final(pr).review_decision == old(pr).review_decision,
        final(pr).head_sha == old(pr).head_sha,
        final(pr).head_ref_name == old(pr).head_ref_name,
        final(pr).base_ref_name == old(pr).base_ref_name,
        final(pr).base_ref_oid == old(pr).base_ref_oid,
{
    let url_repo = match &pr.url {
        Some(u) => repository_from_pr_url(u.as_str()),
        None => None,
    };
    let url_number = match &pr.url {
        Some(u) => number_from_pr_url(u.as_str()),
        None => None,
    };
    merge_pr_string_field(&mut pr.repository, url_repo, "repository")?;
    merge_pr_number_field(&mut pr.number, url_number, "number")?;
    merge_pr_string_field(&mut pr.repository, repository, "repository")?;
    merge_pr_number_field(&mut pr.number, number, "number")?;
    let normalized = match source_kind {
        PrRecordSourceKind::Normalized => true,
        _ => false,
    };
    if !normalized && (pr.repository.is_none() || pr.number.is_none()) {
        let mut m = owned("PR evidence source kind ");
        push_all(&mut m, source_kind.as_str());
        push_all(&mut m, " requires explicit PR identity; pass --repo and --number or provide a GitHub pull request URL");
        return Err(m);
    }
    Ok(())
}

/// The newer value when there is one, else the old.
pub open spec fn prefer<T>(e: Option<T>, i: Option<T>) -> Option<T> {
    if i is Some {
        i
    } else {
        e
    }
}

/// The state after a merge: a known incoming state wins; an unknown one turns
/// `not_created` into `unknown`.
pub open spec fn merged_state(e: Seq<char>, i: Seq<char>) -> Seq<char> {
    if i != "unknown"@ {
        i
    } else if e == "not_created"@ {
        "unknown"@
    } else {
        e
    }
}

/// Whether merging `incoming` from a source of kind `kind` keeps review-thread
/// counts within `u64`.
pub open spec fn provider_merge_fits(existing: PrEvidence, incoming: PrEvidence, kind: PrRecordSourceKind) -> bool {
    &&& kind == PrRecordSourceKind::GhReviewComments ==> comment_merge_fits(existing.review_threads, incoming.review_threads)
    &&& kind == PrRecordSourceKind::ReviewPackRemaining ==> pack_merge_fits(existing.review_threads, incoming.review_threads)
}

/// The identity after a merge, or the message of the first conflict.
pub open spec fn merged_identity(existing: PrEvidence, incoming: PrEvidence) -> Result<(Option<Seq<char>>, Option<u64>, Option<Seq<char>>), Seq<char>> {
    match step_str(opt_view(existing.repository), opt_view(incoming.repository), "repository"@) {
        Err(m) => Err(m),
        Ok(r) => match step_num(existing.number, incoming.number, "number"@) {
            Err(m) => Err(m),
            Ok(n) => match step_str(opt_view(existing.url), opt_view(incoming.url), "url"@) {
                Err(m) => Err(m),
                Ok(u) => Ok((r, n, u)),
            },
        },
    }
}

/// The fields of a merged record other than its identity.
pub open spec fn merged_fields(e: PrEvidence, i: PrEvidence, kind: PrRecordSourceKind, m: PrEvidence) -> bool {
    &&& m.schema == e.schema
    &&& m.state@ == merged_state(e.state@, i.state@)
    &&& m.mergeable == prefer(e.mergeable, i.mergeable)
    &&& m.is_draft == prefer(e.is_draft, i.is_draft)
    &&& m.merge_state_status == prefer(e.merge_state_status, i.merge_state_status)
    &&& m.review_decision == (if i.review_decision is Some && (kind != PrRecordSourceKind::GhReviews
        || e.review_decision is None) {
        i.review_decision
    } else {
        e.review_decision
    })
    &&& m.head_sha == prefer(e.head_sha, i.head_sha)
    &&& m.head_ref_name == prefer(e.head_ref_name, i.head_ref_name)
    &&& m.base_ref_name == prefer(e.base_ref_name, i.base_ref_name)
    &&& m.base_ref_oid == prefer(e.base_ref_oid, i.base_ref_oid)
    &&& m.checks@ == (match kind {
        PrRecordSourceKind::GhPrView => if i.checks@.len() > 0 { i.checks@ } else { e.checks@ },
        PrRecordSourceKind::GhPrChecks => i.checks@,
        _ => e.checks@,
    })
    &&& m.review_threads == (match kind {
        PrRecordSourceKind::GhPrView => if i.review_threads.authoritative { i.review_threads } else { e.review_threads },
        PrRecordSourceKind::GhReviewThreads => i.review_threads,
        PrRecordSourceKind::GhReviewComments => comment_merged(e.review_threads, i.review_threads),
        PrRecordSourceKind::ReviewPackRemaining => pack_merged(e.review_threads, i.review_threads),
        _ => e.review_threads,
    })
    &&& m.sources@ == e.sources@ + i.sources@
}

/// A copy of an optional string.
fn opt_clone(o: &Option<String>) -> (r: Option<String>)
    ensures
        r == *o,
{
    match o {
        Some(s) => Some(s.clone()),
        None => None,
    }
}

/// Takes in the fields a provider source knows, as `merged_fields` says.
#[verifier::rlimit(60)]
fn merge_known_fields(existing: &mut PrEvidence, incoming: PrEvidence, source_kind: PrRecordSourceKind)
    requires
        source_kind != PrRecordSourceKind::Normalized,
        provider_merge_fits(*old(existing), incoming, source_kind),
    ensures
        merged_fields(*old(existing), incoming, source_kind, *final(existing)),
        final(existing).repository == old(existing).repository,
        final(existing).number == old(existing).number,
        final(existing).url == old(existing).url,
{
    let ghost i0 = incoming;
    let PrEvidence {
        schema: _,
        repository: _,
        number: _,
        url: _,
        state,
        is_draft,
        mergeable,
        merge_state_status,
        review_decision,
        head_sha,
        head_ref_name,
        base_ref_name,
        base_ref_oid,
        checks,
        review_threads,
        sources,
    } = incoming;
    if !crate::audit_gate::str_eq(state.as_str(), "unknown") {
        existing.state = state;
    } else if crate::audit_gate::str_eq(existing.state.as_str(), "not_created") {
        existing.state = owned("unknown");
    }
    if mergeable.is_some() {
        existing.mergeable = mergeable;
    }
    if is_draft.is_some() {
        existing.is_draft = is_draft;
    }
    if merge_state_status.is_some() {
        existing.merge_state_status = merge_state_status;
    }
    let reviews = match source_kind {
        PrRecordSourceKind::GhReviews => true,
        _ => false,
    };
    if review_decision.is_some() && (!reviews || existing.review_decision.is_none()) {
        existing.review_decision = review_decision;
    }
    if head_sha.is_some() {
        existing.head_sha = head_sha;
    }
    if head_ref_name.is_some() {
        existing.head_ref_name = head_ref_name;
    }
    if base_ref_name.is_some() {
        existing.base_ref_name = base_ref_name;
    }
    if base_ref_oid.is_some() {
        existing.base_ref_oid = base_ref_oid;
    }
    match source_kind {
        PrRecordSourceKind::GhPrView => {
            if checks.len() > 0 {
                existing.checks = checks;
            }
            if review_threads.authoritative {
                existing.review_threads = review_threads;
            }
        },
        PrRecordSourceKind::GhPrChecks => {
            existing.checks = checks;
        },
        PrRecordSourceKind::GhReviews => {},
        PrRecordSourceKind::GhReviewThreads => {
            existing.review_threads = review_threads;
        },
        PrRecordSourceKind::GhReviewComments => {
            merge_review_comment_summary(&mut existing.review_threads, review_threads);
        },
        PrRecordSourceKind::ReviewPackRemaining => {
            merge_review_pack_summary(&mut existing.review_threads, review_threads);
        },
        PrRecordSourceKind::Normalized => {},
    }
    let mut sources = sources;
    let ghost before = existing.sources@;
    existing.sources.append(&mut sources);
    assert(existing.sources@ == before + i0.sources@);
}

/// Merges the evidence of one provider source into what the capsule records.
/// A normalized snapshot replaces the record; a provider source adds what it
/// knows, each kind owning its part (checks, review threads, decisions), and
/// conflicting identity is refused.
pub fn merge_provider_pr_evidence(existing: PrEvidence, incoming: PrEvidence, source_kind: PrRecordSourceKind) -> (r: Result<PrEvidence, String>)
    requires
        provider_merge_fits(existing, incoming, source_kind),
    ensures
        source_kind == PrRecordSourceKind::Normalized ==> r == Ok::<PrEvidence, String>(incoming),
        source_kind != PrRecordSourceKind::Normalized && (existing.schema@ != PR_SCHEMA@ || incoming.schema@ != PR_SCHEMA@)
            ==> (r matches Err(m) && m@ == "cannot merge PR evidence with unexpected schema"@),
        source_kind != PrRecordSourceKind::Normalized && existing.schema@ == PR_SCHEMA@ && incoming.schema@ == PR_SCHEMA@
            ==> match merged_identity(existing, incoming) {
            Err(msg) => r matches Err(m) && m@ == msg,
            Ok((rp, n, u)) => r matches Ok(m) && opt_view(m.repository) == rp && m.number == n
                && opt_view(m.url) == u && merged_fields(existing, incoming, source_kind, m),
        },
{
    let normalized = match source_kind {
        PrRecordSourceKind::Normalized => true,
        _ => false,
    };
    if normalized {
        return Ok(incoming);
    }
    if !crate::audit_gate::str_eq(existing.schema.as_str(), PR_SCHEMA)
        || !crate::audit_gate::str_eq(incoming.schema.as_str(), PR_SCHEMA) {
        return Err(owned("cannot merge PR evidence with unexpected schema"));
    }
    let mut existing = existing;
    let ghost e0 = existing;
    merge_pr_string_field(&mut existing.repository, opt_clone(&incoming.repository), "repository")?;
    merge_pr_number_field(&mut existing.number, incoming.number, "number")?;
    merge_pr_string_field(&mut existing.url, opt_clone(&incoming.url), "url")?;
    let ghost e1 = existing;
    assert(provider_merge_fits(e1, incoming, source_kind));
    merge_known_fields(&mut existing, incoming, source_kind);
    Ok(existing)
}

} // verus!
