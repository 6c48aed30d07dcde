//! Pull-request evidence read from what the GitHub CLI prints: a `gh pr view`
//! document, `gh pr checks` rows, reviews, review threads and review
//! comments, each parsed into a [`Json`] value first.
use vstd::prelude::*;

use crate::audit_gate::str_eq;
use crate::dev::identity::opt_view;
use crate::dev::numbers::{ascii_lower, parse_u64, parse_u64_spec};
use crate::dev::identity::{identity_result, repository_of_url};
use crate::dev::kinds::{source_kind_name, PrRecordSourceKind};
use crate::dev::pr::{CheckRecord, PrEvidence, PrEvidenceSource, ReviewThreadSummary, PR_SCHEMA};
use crate::dev::time::{canonical_utc, utc_canonical};
use crate::json::{get, json_text, member_of, render_json, Json};
use crate::text::{chars_of, owned, substring, trim_bounds, trim_spec};

verus! {

/// `s` with ASCII letters lowered.
pub open spec fn lower(s: Seq<char>) -> Seq<char> {
    s.map_values(|c: char| ascii_lower(c))
}

/// `s` with ASCII letters lowered, as `str::to_ascii_lowercase` does.
pub fn ascii_lowercase(s: &str) -> (r: String)
    ensures
        r@ == lower(s@),
{
    let cs = chars_of(s);
    let mut out = String::new();
    let mut i: usize = 0;
    while i < cs.len()
        invariant
            i <= cs@.len(),
            cs@ == s@,
            out@ == lower(cs@.take(i as int)),
        decreases cs@.len() - i,
    {
        let c = cs[i];
        let l = if 'A' <= c && c <= 'Z' {
            ((c as u8) + 32) as char
        } else {
            c
        };
        assert(l == ascii_lower(c));
        crate::text::push_char(&mut out, l);
        assert(lower(cs@.take(i + 1)) =~= lower(cs@.take(i as int)).push(l));
        i = i + 1;
    }
    assert(cs@.take(cs@.len() as int) =~= s@);
    out
}

/// The member `key` of `v`, by reference.
pub fn field<'a>(v: &'a Json, key: &str) -> (r: Option<&'a Json>)
    ensures
        match r {
            Some(x) => get(*v, key@) == Some(*x),
            None => get(*v, key@) is None,
        },
{
    match v {
        Json::Object(es) => member_of(es, key),
        _ => None,
    }
}

/// The value at the member path `path` of `v`, as a JSON pointer of plain
/// member names reads it.
pub open spec fn at_path(v: Json, path: Seq<Seq<char>>) -> Option<Json>
    decreases path.len(),
{
    if path.len() == 0 {
        Some(v)
    } else {
        match get(v, path[0]) {
            Some(w) => at_path(w, path.drop_first()),
            None => None,
        }
    }
}

/// The trimmed text of the string member `key` of `v`, unless it is blank.
pub open spec fn opt_string(v: Json, key: Seq<char>) -> Option<Seq<char>> {
    match get(v, key) {
        Some(Json::Str(s)) => if trim_spec(s@).len() > 0 {
            Some(trim_spec(s@))
        } else {
            None
        },
        _ => None,
    }
}

/// The member `key` of `v` as an unsigned integer, when it is a number whose
/// text is one.
pub open spec fn opt_u64(v: Json, key: Seq<char>) -> Option<u64> {
    match get(v, key) {
        Some(Json::Number(t)) => parse_u64_spec(t@),
        _ => None,
    }
}

/// The member `key` of `v`, when it is a boolean.
pub open spec fn opt_bool(v: Json, key: Seq<char>) -> Option<bool> {
    match get(v, key) {
        Some(Json::Bool(b)) => Some(b),
        _ => None,
    }
}

/// The text a scalar identifies something by: a string's trimmed text unless
/// it is blank, or a number's text.
pub open spec fn scalar_key(o: Option<Json>) -> Option<Seq<char>> {
    match o {
        Some(Json::Str(s)) => if trim_spec(s@).len() > 0 {
            Some(trim_spec(s@))
        } else {
            None
        },
        Some(Json::Number(t)) => Some(t@),
        _ => None,
    }
}

/// The trimmed text of `s`, and whether it is not empty.
fn trimmed(s: &str) -> (r: (String, bool))
    ensures
        r.0@ == trim_spec(s@),
        r.1 == (trim_spec(s@).len() > 0),
{
    let cs = chars_of(s);
    let (lo, hi) = trim_bounds(&cs, 0, cs.len());
    assert(cs@.subrange(0, cs@.len() as int) =~= s@);
    (substring(&cs, lo, hi), hi > lo)
}

/// The trimmed text of the string member `key` of `v`, unless it is blank.
pub fn optional_string(v: &Json, key: &str) -> (r: Option<String>)
    ensures
        opt_view(r) == opt_string(*v, key@),
{
    match field(v, key) {
        Some(Json::Str(s)) => {
            let (t, nonblank) = trimmed(s.as_str());
            if nonblank {
                Some(t)
            } else {
                None
            }
        },
        _ => None,
    }
}

/// The member `key` of `v` as an unsigned integer.
pub fn optional_u64(v: &Json, key: &str) -> (r: Option<u64>)
    ensures
        r == opt_u64(*v, key@),
{
    match field(v, key) {
        Some(Json::Number(t)) => parse_u64(t.as_str()),
        _ => None,
    }
}

/// The member `key` of `v`, when it is a boolean.
pub fn optional_bool(v: &Json, key: &str) -> (r: Option<bool>)
    ensures
        r == opt_bool(*v, key@),
{
    match field(v, key) {
        Some(Json::Bool(b)) => Some(*b),
        _ => None,
    }
}

/// The text a scalar identifies something by (see [`scalar_key`]).
pub fn json_scalar_key(o: Option<&Json>) -> (r: Option<String>)
    ensures
        opt_view(r) == scalar_key(match o { Some(x) => Some(*x), None => None }),
{
    match o {
        Some(Json::Str(s)) => {
            let (t, nonblank) = trimmed(s.as_str());
            if nonblank {
                Some(t)
            } else {
                None
            }
        },
        Some(Json::Number(t)) => Some(owned(t.as_str())),
        _ => None,
    }
}

/// A check's lifecycle status from its `status` field.
pub open spec fn status_from_status(s: Seq<char>) -> Seq<char> {
    let l = lower(s);
    if l == "completed"@ || l == "complete"@ {
        "completed"@
    } else if l == "in_progress"@ || l == "in progress"@ || l == "running"@ {
        "in_progress"@
    } else {
        l
    }
}

/// Whether `l` is a state that ends a check.
pub open spec fn is_final_state(l: Seq<char>) -> bool {
    l == "success"@ || l == "failure"@ || l == "error"@ || l == "cancelled"@ || l == "canceled"@ || l == "skipped"@
}

/// A check's lifecycle status from its `state` field.
pub open spec fn status_from_state(s: Seq<char>) -> Seq<char> {
    let l = lower(s);
    if is_final_state(l) {
        "completed"@
    } else if l == "in_progress"@ || l == "in progress"@ || l == "running"@ {
        "in_progress"@
    } else {
        l
    }
}

/// A check's lifecycle status from its `bucket` field.
pub open spec fn status_from_bucket(s: Seq<char>) -> Seq<char> {
    let l = lower(s);
    if l == "pass"@ || l == "fail"@ || l == "cancel"@ || l == "skipping"@ {
        "completed"@
    } else {
        l
    }
}

/// A check's lifecycle status: from `status`, else `state`, else `bucket`.
pub open spec fn check_status(v: Json) -> Option<Seq<char>> {
    match opt_string(v, "status"@) {
        Some(s) => Some(status_from_status(s)),
        None => match opt_string(v, "state"@) {
            Some(s) => Some(status_from_state(s)),
            None => match opt_string(v, "bucket"@) {
                Some(s) => Some(status_from_bucket(s)),
                None => None,
            },
        },
    }
}

/// The conclusion a check's `state` names, lowered, when it names one.
pub open spec fn conclusion_from_state(s: Seq<char>) -> Option<Seq<char>> {
    if is_final_state(lower(s)) {
        Some(lower(s))
    } else {
        None
    }
}

/// The conclusion a check's `bucket` names.
pub open spec fn conclusion_from_bucket(s: Seq<char>) -> Option<Seq<char>> {
    if s == "pass"@ {
        Some("success"@)
    } else if s == "fail"@ {
        Some("failure"@)
    } else if s == "cancel"@ {
        Some("cancelled"@)
    } else if s == "skipping"@ {
        Some("skipped"@)
    } else {
        None
    }
}

/// A check's conclusion, lowered: its `conclusion`, else the one its `state`
/// names, else the one its `bucket` names.
pub open spec fn check_conclusion(v: Json) -> Option<Seq<char>> {
    let c = match opt_string(v, "conclusion"@) {
        Some(c) => Some(c),
        None => {
            let from_state = match opt_string(v, "state"@) {
                Some(s) => conclusion_from_state(s),
                None => None,
            };
            match from_state {
                Some(c) => Some(c),
                None => match opt_string(v, "bucket"@) {
                    Some(b) => conclusion_from_bucket(b),
                    None => None,
                },
            }
        },
    };
    match c {
        Some(c) => Some(lower(c)),
        None => None,
    }
}

/// The first of `keys` that `v` has as a string that is not blank.
pub open spec fn first_string(v: Json, keys: Seq<Seq<char>>) -> Option<Seq<char>>
    decreases keys.len(),
{
    if keys.len() == 0 {
        None
    } else {
        match opt_string(v, keys[0]) {
            Some(s) => Some(s),
            None => first_string(v, keys.drop_first()),
        }
    }
}

/// A check's link: `detailsUrl`, else `targetUrl`, else `link`, else `url`.
pub open spec fn check_url(v: Json) -> Option<Seq<char>> {
    first_string(v, seq!["detailsUrl"@, "targetUrl"@, "link"@, "url"@])
}

/// The time text of member `key` of `v`: the trimmed string, unless it is
/// blank, GitHub's zero time, or not a time `chrono` parses.
pub open spec fn time_text(v: Json, key: Seq<char>) -> Option<Seq<char>> {
    match get(v, key) {
        Some(Json::Str(s)) => {
            let t = trim_spec(s@);
            if t.len() > 0 && !"0001-01-01T00:00:00"@.is_prefix_of(t) && utc_canonical(t) is Some {
                Some(t)
            } else {
                None
            }
        },
        _ => None,
    }
}

/// The first of `keys` that gives `v` a time text.
pub open spec fn first_time(v: Json, keys: Seq<Seq<char>>) -> Option<Seq<char>>
    decreases keys.len(),
{
    if keys.len() == 0 {
        None
    } else {
        match time_text(v, keys[0]) {
            Some(t) => Some(t),
            None => first_time(v, keys.drop_first()),
        }
    }
}

/// The time fields of a check, most telling first.
pub open spec fn check_time_keys() -> Seq<Seq<char>> {
    seq!["completedAt"@, "startedAt"@, "updatedAt"@, "createdAt"@]
}

/// A check record as values.
pub struct CheckView {
    pub name: Seq<char>,
    pub status: Seq<char>,
    pub conclusion: Option<Seq<char>>,
    pub url: Option<Seq<char>>,
    pub checked_at: Seq<char>,
}

/// The values of a check record.
pub open spec fn check_view(c: CheckRecord) -> CheckView {
    CheckView {
        name: c.name@,
        status: c.status@,
        conclusion: opt_view(c.conclusion),
        url: opt_view(c.url),
        checked_at: c.checked_at@,
    }
}

/// The check record a GitHub check object gives: named by `name` or
/// `context`, with its lifecycle status, conclusion and link, observed at its
/// latest time field (in `chrono`'s canonical form) or else at `checked_at`.
pub open spec fn check_of(v: Json, checked_at: Seq<char>) -> Result<CheckView, Seq<char>> {
    let name = match opt_string(v, "name"@) {
        Some(n) => Some(n),
        None => opt_string(v, "context"@),
    };
    match name {
        None => Err("GitHub check is missing name/context: "@ + json_text(v)),
        Some(n) => match check_status(v) {
            None => Err("GitHub check "@ + n + " is missing status/state/bucket"@),
            Some(st) => Ok(CheckView {
                name: n,
                status: st,
                conclusion: check_conclusion(v),
                url: check_url(v),
                checked_at: match first_time(v, check_time_keys()) {
                    Some(t) => utc_canonical(t).unwrap(),
                    None => checked_at,
                },
            }),
        },
    }
}

/// Whether `s` is one of the final states.
fn final_state(l: &str) -> (r: bool)
    ensures
        r == is_final_state(l@),
{
    str_eq(l, "success") || str_eq(l, "failure") || str_eq(l, "error") || str_eq(l, "cancelled")
        || str_eq(l, "canceled") || str_eq(l, "skipped")
}

/// A check's lifecycle status (see [`check_status`]).
pub fn check_lifecycle_status(v: &Json) -> (r: Option<String>)
    ensures
        opt_view(r) == check_status(*v),
{
    if let Some(s) = optional_string(v, "status") {
        let l = ascii_lowercase(s.as_str());
        if str_eq(l.as_str(), "completed") || str_eq(l.as_str(), "complete") {
            return Some(owned("completed"));
        }
        if str_eq(l.as_str(), "in_progress") || str_eq(l.as_str(), "in progress") || str_eq(l.as_str(), "running") {
            return Some(owned("in_progress"));
        }
        return Some(l);
    }
    if let Some(s) = optional_string(v, "state") {
        let l = ascii_lowercase(s.as_str());
        if final_state(l.as_str()) {
            return Some(owned("completed"));
        }
        if str_eq(l.as_str(), "in_progress") || str_eq(l.as_str(), "in progress") || str_eq(l.as_str(), "running") {
            return Some(owned("in_progress"));
        }
        return Some(l);
    }
    match optional_string(v, "bucket") {
        Some(s) => {
            let l = ascii_lowercase(s.as_str());
            if str_eq(l.as_str(), "pass") || str_eq(l.as_str(), "fail") || str_eq(l.as_str(), "cancel")
                || str_eq(l.as_str(), "skipping") {
                Some(owned("completed"))
            } else {
                Some(l)
            }
        },
        None => None,
    }
}

/// The conclusion a bucket names.
fn bucket_to_conclusion(s: &str) -> (r: Option<String>)
    ensures
        opt_view(r) == conclusion_from_bucket(s@),
{
    if str_eq(s, "pass") {
        Some(owned("success"))
    } else if str_eq(s, "fail") {
        Some(owned("failure"))
    } else if str_eq(s, "cancel") {
        Some(owned("cancelled"))
    } else if str_eq(s, "skipping") {
        Some(owned("skipped"))
    } else {
        None
    }
}

/// A check's conclusion (see [`check_conclusion`]).
fn conclusion_of(v: &Json) -> (r: Option<String>)
    ensures
        opt_view(r) == check_conclusion(*v),
{
    let c = match optional_string(v, "conclusion") {
        Some(c) => Some(c),
        None => {
            let from_state = match optional_string(v, "state") {
                Some(s) => {
                    let l = ascii_lowercase(s.as_str());
                    if final_state(l.as_str()) {
                        Some(l)
                    } else {
                        None
                    }
                },
                None => None,
            };
            match from_state {
                Some(c) => Some(c),
                None => match optional_string(v, "bucket") {
                    Some(b) => bucket_to_conclusion(b.as_str()),
                    None => None,
                },
            }
        },
    };
    match c {
        Some(c) => Some(ascii_lowercase(c.as_str())),
        None => None,
    }
}

/// A check's link (see [`check_url`]).
fn url_of(v: &Json) -> (r: Option<String>)
    ensures
        opt_view(r) == check_url(*v),
{
    let ghost keys = seq!["detailsUrl"@, "targetUrl"@, "link"@, "url"@];
    proof {
        reveal_with_fuel(first_string, 5);
    }
    assert(keys.drop_first() =~= seq!["targetUrl"@, "link"@, "url"@]);
    assert(keys.drop_first().drop_first() =~= seq!["link"@, "url"@]);
    assert(keys.drop_first().drop_first().drop_first() =~= seq!["url"@]);
    assert(keys.drop_first().drop_first().drop_first().drop_first() =~= Seq::<Seq<char>>::empty());
    if let Some(u) = optional_string(v, "detailsUrl") {
        return Some(u);
    }
    if let Some(u) = optional_string(v, "targetUrl") {
        return Some(u);
    }
    if let Some(u) = optional_string(v, "link") {
        return Some(u);
    }
    optional_string(v, "url")
}

/// The time text of member `key` of `v` and its canonical form (see
/// [`time_text`]).
fn time_field(v: &Json, key: &str) -> (r: Option<(String, String)>)
    ensures
        match r {
            Some((t, c)) => time_text(*v, key@) == Some(t@) && utc_canonical(t@) == Some(c@),
            None => time_text(*v, key@) is None,
        },
{
    match field(v, key) {
        Some(Json::Str(s)) => {
            let (t, nonblank) = trimmed(s.as_str());
            if !nonblank || crate::text::starts_with(t.as_str(), "0001-01-01T00:00:00") {
                return None;
            }
            match canonical_utc(t.as_str()) {
                Some(c) => Some((t, c)),
                None => None,
            }
        },
        _ => None,
    }
}

/// The first of four time fields that gives `v` a time text, with its
/// canonical form.
fn first_time4(v: &Json, a: &str, b: &str, c: &str, d: &str) -> (r: Option<(String, String)>)
    ensures
        match r {
            Some((t, k)) => first_time(*v, seq![a@, b@, c@, d@]) == Some(t@) && utc_canonical(t@) == Some(k@),
            None => first_time(*v, seq![a@, b@, c@, d@]) is None,
        },
{
    let ghost keys = seq![a@, b@, c@, d@];
    proof {
        reveal_with_fuel(first_time, 5);
    }
    assert(keys.drop_first() =~= seq![b@, c@, d@]);
    assert(keys.drop_first().drop_first() =~= seq![c@, d@]);
    assert(keys.drop_first().drop_first().drop_first() =~= seq![d@]);
    assert(keys.drop_first().drop_first().drop_first().drop_first() =~= Seq::<Seq<char>>::empty());
    if let Some(x) = time_field(v, a) {
        return Some(x);
    }
    if let Some(x) = time_field(v, b) {
        return Some(x);
    }
    if let Some(x) = time_field(v, c) {
        return Some(x);
    }
    time_field(v, d)
}

/// The check record a GitHub check object gives (see [`check_of`]).
pub fn check_from_github_value(v: &Json, checked_at: &str) -> (r: Result<CheckRecord, String>)
    ensures
        match check_of(*v, checked_at@) {
            Ok(c) => r matches Ok(x) && check_view(x) == c,
            Err(m) => r matches Err(e) && e@ == m,
        },
{
    let name = match optional_string(v, "name") {
        Some(n) => n,
        None => match optional_string(v, "context") {
            Some(n) => n,
            None => {
                let mut m = owned("GitHub check is missing name/context: ");
                crate::text::push_all(&mut m, render_json(v).as_str());
                return Err(m);
            },
        },
    };
    let status = match check_lifecycle_status(v) {
        Some(s) => s,
        None => {
            let mut m = owned("GitHub check ");
            crate::text::push_all(&mut m, name.as_str());
            crate::text::push_all(&mut m, " is missing status/state/bucket");
            return Err(m);
        },
    };
    let at = match first_time4(v, "completedAt", "startedAt", "updatedAt", "createdAt") {
        Some((_, c)) => c,
        None => owned(checked_at),
    };
    Ok(CheckRecord { name, status, conclusion: conclusion_of(v), url: url_of(v), checked_at: at })
}

/// The check records of `items`, in order; the first failing item's error.
pub open spec fn checks_of(items: Seq<Json>, checked_at: Seq<char>) -> Result<Seq<CheckView>, Seq<char>>
    decreases items.len(),
{
    if items.len() == 0 {
        Ok(seq![])
    } else {
        match checks_of(items.drop_last(), checked_at) {
            Err(m) => Err(m),
            Ok(cs) => match check_of(items.last(), checked_at) {
                Err(m) => Err(m),
                Ok(c) => Ok(cs.push(c)),
            },
        }
    }
}

/// The check records of a JSON array of checks; `label` names the source in
/// the error when it is not an array.
pub open spec fn checks_from(v: Json, label: Seq<char>, checked_at: Seq<char>) -> Result<Seq<CheckView>, Seq<char>> {
    match v {
        Json::Array(items) => checks_of(items@, checked_at),
        _ => Err(label + " source must be a JSON array"@),
    }
}

/// The check records of a JSON array of checks (see [`checks_from`]).
pub fn checks_from_array(v: &Json, label: &str, checked_at: &str) -> (r: Result<Vec<CheckRecord>, String>)
    ensures
        match checks_from(*v, label@, checked_at@) {
            Ok(cs) => r matches Ok(x) && x@.map_values(|c: CheckRecord| check_view(c)) == cs,
            Err(m) => r matches Err(e) && e@ == m,
        },
{
    match v {
        Json::Array(items) => {
            let mut out: Vec<CheckRecord> = Vec::new();
            let mut i: usize = 0;
            assert(items@.take(0) =~= Seq::<Json>::empty());
            assert(out@.map_values(|c: CheckRecord| check_view(c)) =~= Seq::<CheckView>::empty());
            while i < items.len()
                invariant
                    i <= items@.len(),
                    checks_from(*v, label@, checked_at@) == checks_of(items@, checked_at@),
                    checks_of(items@.take(i as int), checked_at@) == Ok::<Seq<CheckView>, Seq<char>>(
                        out@.map_values(|c: CheckRecord| check_view(c))),
                decreases items@.len() - i,
            {
                assert(items@.take(i + 1).drop_last() =~= items@.take(i as int));
                assert(items@.take(i + 1).last() == items@[i as int]);
                match check_from_github_value(&items[i], checked_at) {
                    Ok(c) => {
                        let ghost prev = out@;
                        let ghost cv = check_view(c);
                        out.push(c);
                        assert(out@.map_values(|c: CheckRecord| check_view(c)) =~= prev.map_values(
                            |c: CheckRecord| check_view(c)).push(cv));
                    },
                    Err(m) => {
                        assert(checks_of(items@.take(i + 1), checked_at@) == Err::<Seq<CheckView>, Seq<char>>(m@));
                        proof {
                            lemma_checks_err_stays(items@, (i + 1) as int, checked_at@);
                        }
                        return Err(m);
                    },
                }
                i = i + 1;
            }
            assert(items@.take(items@.len() as int) =~= items@);
            Ok(out)
        },
        _ => {
            let mut m = owned(label);
            crate::text::push_all(&mut m, " source must be a JSON array");
            Err(m)
        },
    }
}

/// Once a prefix of the checks fails, every longer prefix fails the same way.
proof fn lemma_checks_err_stays(items: Seq<Json>, k: int, checked_at: Seq<char>)
    requires
        0 < k <= items.len(),
        checks_of(items.take(k), checked_at) is Err,
    ensures
        checks_of(items, checked_at) == checks_of(items.take(k), checked_at),
    decreases items.len() - k,
{
    if k < items.len() {
        assert(items.take(k + 1).drop_last() =~= items.take(k));
        lemma_checks_err_stays(items, k + 1, checked_at);
    } else {
        assert(items.take(k) =~= items);
    }
}


/// The first of `paths` that leads somewhere in `v`, and what is there.
pub open spec fn first_at(v: Json, paths: Seq<Seq<Seq<char>>>) -> Option<Json>
    decreases paths.len(),
{
    if paths.len() == 0 {
        None
    } else {
        match at_path(v, paths[0]) {
            Some(w) => Some(w),
            None => first_at(v, paths.drop_first()),
        }
    }
}

/// Where a review-thread document may keep its threads, most nested first;
/// each ends in `tail`.
pub open spec fn thread_paths(tail: Seq<Seq<char>>) -> Seq<Seq<Seq<char>>> {
    seq![
        seq!["data"@, "repository"@, "pullRequest"@, "reviewThreads"@] + tail,
        seq!["repository"@, "pullRequest"@, "reviewThreads"@] + tail,
        seq!["pullRequest"@, "reviewThreads"@] + tail,
        seq!["reviewThreads"@] + tail,
        tail,
    ]
}

/// The thread nodes of a review-thread document: what the first of its
/// `nodes` paths leads to, when that is an array.
pub open spec fn thread_nodes(v: Json) -> Option<Seq<Json>> {
    match first_at(v, thread_paths(seq!["nodes"@])) {
        Some(Json::Array(items)) => Some(items@),
        _ => None,
    }
}

/// Whether a review-thread document says more pages follow: what the first
/// of its `pageInfo.hasNextPage` paths leads to, when that is a boolean.
pub open spec fn has_next_page(v: Json) -> Option<bool> {
    match first_at(v, thread_paths(seq!["pageInfo"@, "hasNextPage"@])) {
        Some(Json::Bool(b)) => Some(b),
        _ => None,
    }
}

/// The unresolved, resolved and outdated threads among `nodes`: resolved
/// when `isResolved`, else outdated when `isOutdated`, else unresolved; the
/// first node without a boolean `isResolved` is an error.
pub open spec fn thread_counts(nodes: Seq<Json>) -> Result<(nat, nat, nat), Seq<char>>
    decreases nodes.len(),
{
    if nodes.len() == 0 {
        Ok((0, 0, 0))
    } else {
        match thread_counts(nodes.drop_last()) {
            Err(m) => Err(m),
            Ok((u, r, o)) => {
                let n = nodes.last();
                match opt_bool(n, "isResolved"@) {
                    None => Err("GitHub review thread is missing isResolved: "@ + json_text(n)),
                    Some(true) => Ok((u, r + 1, o)),
                    Some(false) => if opt_bool(n, "isOutdated"@) == Some(true) {
                        Ok((u, r, o + 1))
                    } else {
                        Ok((u + 1, r, o))
                    },
                }
            },
        }
    }
}

/// A review-thread summary as values.
pub struct ThreadsView {
    pub unresolved: nat,
    pub total: nat,
    pub resolved: nat,
    pub outdated: nat,
    pub authoritative: bool,
    pub last_checked_at: Seq<char>,
}

/// The values of a review-thread summary.
pub open spec fn threads_view(t: ReviewThreadSummary) -> ThreadsView {
    ThreadsView {
        unresolved: t.unresolved as nat,
        total: t.total as nat,
        resolved: t.resolved as nat,
        outdated: t.outdated as nat,
        authoritative: t.authoritative,
        last_checked_at: t.last_checked_at@,
    }
}

/// The counts over pages of review threads: unresolved, resolved, outdated,
/// total, and what the last page says of a next one.
pub open spec fn page_counts(pages: Seq<Json>) -> Result<(nat, nat, nat, nat, Option<bool>), Seq<char>>
    decreases pages.len(),
{
    if pages.len() == 0 {
        Ok((0, 0, 0, 0, None))
    } else {
        match page_counts(pages.drop_last()) {
            Err(m) => Err(m),
            Ok((u, r, o, t, _)) => {
                let p = pages.last();
                match thread_nodes(p) {
                    None => Err("GitHub review-thread page is missing reviewThreads.nodes"@),
                    Some(ns) => match thread_counts(ns) {
                        Err(m) => Err(m),
                        Ok((pu, pr, po)) => Ok((u + pu, r + pr, o + po, t + ns.len(), has_next_page(p))),
                    },
                }
            },
        }
    }
}

/// The number of thread nodes over pages, counting a page without them as
/// none.
pub open spec fn page_nodes(pages: Seq<Json>) -> nat
    decreases pages.len(),
{
    if pages.len() == 0 {
        0
    } else {
        page_nodes(pages.drop_last()) + match thread_nodes(pages.last()) {
            Some(ns) => ns.len(),
            None => 0,
        }
    }
}

/// Whether a review-thread document is a list of pages: an array with an
/// object among its items.
pub open spec fn is_paged(v: Json) -> bool {
    match v {
        Json::Array(items) => exists|i: int| 0 <= i < items@.len() && items@[i] is Object,
        _ => false,
    }
}

/// Whether the thread counts of a review-thread document fit in 64 bits.
pub open spec fn threads_fit(v: Json) -> bool {
    match v {
        Json::Array(items) => is_paged(v) ==> page_nodes(items@) <= u64::MAX,
        _ => true,
    }
}

/// The review-thread summary a GraphQL document gives, checked at
/// `checked_at`: over its pages when it is a list of pages, else over its one
/// `nodes` list; authoritative when the (last) page says no page follows.
pub open spec fn graphql_threads(v: Json, checked_at: Seq<char>) -> Result<ThreadsView, Seq<char>> {
    if is_paged(v) {
        match v {
            Json::Array(items) => match page_counts(items@) {
                Err(m) => Err(m),
                Ok((u, r, o, t, next)) => Ok(ThreadsView {
                    unresolved: u,
                    total: t,
                    resolved: r,
                    outdated: o,
                    authoritative: next == Some(false),
                    last_checked_at: checked_at,
                }),
            },
            _ => Err(seq![]),
        }
    } else {
        match thread_nodes(v) {
            None => Err("GitHub review-thread source is missing reviewThreads.nodes"@),
            Some(ns) => match thread_counts(ns) {
                Err(m) => Err(m),
                Ok((u, r, o)) => Ok(ThreadsView {
                    unresolved: u,
                    total: ns.len(),
                    resolved: r,
                    outdated: o,
                    authoritative: has_next_page(v) == Some(false),
                    last_checked_at: checked_at,
                }),
            },
        }
    }
}

/// The texts of a list of keys.
pub open spec fn keys(p: Seq<&str>) -> Seq<Seq<char>> {
    p.map_values(|k: &str| k@)
}

/// What `path` leads to in `v`, by reference.
fn follow<'a>(v: &'a Json, path: &Vec<&str>) -> (r: Option<&'a Json>)
    ensures
        match r {
            Some(x) => at_path(*v, keys(path@)) == Some(*x),
            None => at_path(*v, keys(path@)) is None,
        },
{
    let ghost ks = keys(path@);
    let mut cur = v;
    let mut i: usize = 0;
    assert(ks.skip(0) =~= ks);
    while i < path.len()
        invariant
            i <= path@.len(),
            ks == keys(path@),
            at_path(*v, ks) == at_path(*cur, ks.skip(i as int)),
        decreases path@.len() - i,
    {
        assert(ks.skip(i as int)[0] == path@[i as int]@);
        assert(ks.skip(i as int).drop_first() =~= ks.skip(i + 1));
        match field(cur, path[i]) {
            Some(w) => cur = w,
            None => return None,
        }
        i = i + 1;
    }
    assert(ks.skip(i as int) =~= Seq::<Seq<char>>::empty());
    Some(cur)
}

/// The member paths of [`thread_paths`] that end in `nodes`.
fn node_path_list() -> (r: Vec<Vec<&'static str>>)
    ensures
        r@.len() == 5,
        forall|i: int| 0 <= i < 5 ==> #[trigger] keys(r@[i]@) == thread_paths(seq!["nodes"@])[i],
{
    let r: Vec<Vec<&'static str>> = vec![
        vec!["data", "repository", "pullRequest", "reviewThreads", "nodes"],
        vec!["repository", "pullRequest", "reviewThreads", "nodes"],
        vec!["pullRequest", "reviewThreads", "nodes"],
        vec!["reviewThreads", "nodes"],
        vec!["nodes"],
    ];
    let ghost ps = thread_paths(seq!["nodes"@]);
    assert(keys(r@[0]@) =~= ps[0]);
    assert(keys(r@[1]@) =~= ps[1]);
    assert(keys(r@[2]@) =~= ps[2]);
    assert(keys(r@[3]@) =~= ps[3]);
    assert(keys(r@[4]@) =~= ps[4]);
    r
}

/// The member paths of [`thread_paths`] that end in `pageInfo.hasNextPage`.
fn page_path_list() -> (r: Vec<Vec<&'static str>>)
    ensures
        r@.len() == 5,
        forall|i: int| 0 <= i < 5 ==> #[trigger] keys(r@[i]@) == thread_paths(seq!["pageInfo"@, "hasNextPage"@])[i],
{
    let r: Vec<Vec<&'static str>> = vec![
        vec!["data", "repository", "pullRequest", "reviewThreads", "pageInfo", "hasNextPage"],
        vec!["repository", "pullRequest", "reviewThreads", "pageInfo", "hasNextPage"],
        vec!["pullRequest", "reviewThreads", "pageInfo", "hasNextPage"],
        vec!["reviewThreads", "pageInfo", "hasNextPage"],
        vec!["pageInfo", "hasNextPage"],
    ];
    let ghost ps = thread_paths(seq!["pageInfo"@, "hasNextPage"@]);
    assert(keys(r@[0]@) =~= ps[0]);
    assert(keys(r@[1]@) =~= ps[1]);
    assert(keys(r@[2]@) =~= ps[2]);
    assert(keys(r@[3]@) =~= ps[3]);
    assert(keys(r@[4]@) =~= ps[4]);
    r
}

/// What the first of five paths leads to in `v`.
fn first_of_paths<'a>(v: &'a Json, paths: &Vec<Vec<&'static str>>, tail: Ghost<Seq<Seq<char>>>) -> (r: Option<&'a Json>)
    requires
        paths@.len() == 5,
        forall|i: int| 0 <= i < 5 ==> #[trigger] keys(paths@[i]@) == thread_paths(tail@)[i],
    ensures
        match r {
            Some(x) => first_at(*v, thread_paths(tail@)) == Some(*x),
            None => first_at(*v, thread_paths(tail@)) is None,
        },
{
    let ghost ps = thread_paths(tail@);
    let mut i: usize = 0;
    assert(ps.skip(0) =~= ps);
    while i < 5
        invariant
            i <= 5,
            paths@.len() == 5,
            ps == thread_paths(tail@),
            ps.len() == 5,
            forall|j: int| 0 <= j < 5 ==> #[trigger] keys(paths@[j]@) == ps[j],
            first_at(*v, ps) == first_at(*v, ps.skip(i as int)),
        decreases 5 - i,
    {
        assert(ps.skip(i as int)[0] == ps[i as int]);
        assert(ps.skip(i as int).drop_first() =~= ps.skip(i + 1));
        assert(keys(paths@[i as int]@) == ps[i as int]);
        if let Some(w) = follow(v, &paths[i]) {
            return Some(w);
        }
        i = i + 1;
    }
    assert(ps.skip(5) =~= Seq::<Seq<Seq<char>>>::empty());
    None
}

/// The thread nodes of a review-thread document (see [`thread_nodes`]).
fn review_thread_nodes(v: &Json) -> (r: Option<&Vec<Json>>)
    ensures
        match r {
            Some(x) => thread_nodes(*v) == Some(x@),
            None => thread_nodes(*v) is None,
        },
{
    let paths = node_path_list();
    let ghost t = seq!["nodes"@];
    match first_of_paths(v, &paths, Ghost(t)) {
        Some(Json::Array(items)) => Some(items),
        _ => None,
    }
}

/// Whether a review-thread document says more pages follow (see
/// [`has_next_page`]).
fn review_threads_has_next_page(v: &Json) -> (r: Option<bool>)
    ensures
        r == has_next_page(*v),
{
    let paths = page_path_list();
    let ghost t = seq!["pageInfo"@, "hasNextPage"@];
    match first_of_paths(v, &paths, Ghost(t)) {
        Some(Json::Bool(b)) => Some(*b),
        _ => None,
    }
}

/// Counts the unresolved, resolved and outdated threads among `nodes` (see
/// [`thread_counts`]).
pub fn count_review_thread_nodes(nodes: &Vec<Json>) -> (r: Result<(u64, u64, u64), String>)
    ensures
        match thread_counts(nodes@) {
            Ok((u, rs, o)) => r matches Ok(x) && x.0 == u && x.1 == rs && x.2 == o,
            Err(m) => r matches Err(e) && e@ == m,
        },
{
    let mut u: u64 = 0;
    let mut res: u64 = 0;
    let mut o: u64 = 0;
    let mut i: usize = 0;
    assert(nodes@.take(0) =~= Seq::<Json>::empty());
    while i < nodes.len()
        invariant
            i <= nodes@.len(),
            u + res + o == i,
            thread_counts(nodes@.take(i as int)) == Ok::<(nat, nat, nat), Seq<char>>((u as nat, res as nat, o as nat)),
        decreases nodes@.len() - i,
    {
        assert(nodes@.take(i + 1).drop_last() =~= nodes@.take(i as int));
        assert(nodes@.take(i + 1).last() == nodes@[i as int]);
        let n = &nodes[i];
        match optional_bool(n, "isResolved") {
            None => {
                let mut m = owned("GitHub review thread is missing isResolved: ");
                crate::text::push_all(&mut m, render_json(n).as_str());
                assert(thread_counts(nodes@.take(i + 1)) == Err::<(nat, nat, nat), Seq<char>>(m@));
                proof {
                    lemma_counts_err_stays(nodes@, (i + 1) as int);
                }
                return Err(m);
            },
            Some(true) => res = res + 1,
            Some(false) => if optional_bool(n, "isOutdated") == Some(true) {
                o = o + 1;
            } else {
                u = u + 1;
            },
        }
        i = i + 1;
    }
    assert(nodes@.take(nodes@.len() as int) =~= nodes@);
    Ok((u, res, o))
}

/// Once a prefix of the nodes fails, every longer prefix fails the same way.
proof fn lemma_counts_err_stays(nodes: Seq<Json>, k: int)
    requires
        0 < k <= nodes.len(),
        thread_counts(nodes.take(k)) is Err,
    ensures
        thread_counts(nodes) == thread_counts(nodes.take(k)),
    decreases nodes.len() - k,
{
    if k < nodes.len() {
        assert(nodes.take(k + 1).drop_last() =~= nodes.take(k));
        lemma_counts_err_stays(nodes, k + 1);
    } else {
        assert(nodes.take(k) =~= nodes);
    }
}

/// The counts of one page of threads never exceed its number of nodes.
proof fn lemma_counts_bounded(nodes: Seq<Json>)
    ensures
        thread_counts(nodes) matches Ok((u, r, o)) ==> u + r + o == nodes.len(),
    decreases nodes.len(),
{
    if nodes.len() > 0 {
        lemma_counts_bounded(nodes.drop_last());
    }
}


/// Whether a review-thread document is a list of pages (see [`is_paged`]).
fn paged(v: &Json) -> (r: bool)
    ensures
        r == is_paged(*v),
{
    match v {
        Json::Array(items) => {
            let mut i: usize = 0;
            while i < items.len()
                invariant
                    i <= items@.len(),
                    is_paged(*v) == exists|j: int| 0 <= j < items@.len() && items@[j] is Object,
                    forall|j: int| 0 <= j < i ==> !(items@[j] is Object),
                decreases items@.len() - i,
            {
                if let Json::Object(_) = &items[i] {
                    assert(items@[i as int] is Object);
                    return true;
                }
                i = i + 1;
            }
            false
        },
        _ => false,
    }
}

/// The page counts of a prefix never exceed those of the whole list.
proof fn lemma_page_nodes_prefix(pages: Seq<Json>, k: int)
    requires
        0 <= k <= pages.len(),
    ensures
        page_nodes(pages.take(k)) <= page_nodes(pages),
    decreases pages.len() - k,
{
    if k < pages.len() {
        assert(pages.take(k + 1).drop_last() =~= pages.take(k));
        lemma_page_nodes_prefix(pages, k + 1);
    } else {
        assert(pages.take(k) =~= pages);
    }
}

/// Once a prefix of the pages fails, every longer prefix fails the same way.
proof fn lemma_pages_err_stays(pages: Seq<Json>, k: int)
    requires
        0 < k <= pages.len(),
        page_counts(pages.take(k)) is Err,
    ensures
        page_counts(pages) == page_counts(pages.take(k)),
    decreases pages.len() - k,
{
    if k < pages.len() {
        assert(pages.take(k + 1).drop_last() =~= pages.take(k));
        lemma_pages_err_stays(pages, k + 1);
    } else {
        assert(pages.take(k) =~= pages);
    }
}

/// Whether the thread counts of a review-thread document fit in 64 bits (see
/// [`threads_fit`]).
pub fn review_thread_counts_fit(v: &Json) -> (r: bool)
    ensures
        r == threads_fit(*v),
{
    if !paged(v) {
        return true;
    }
    match v {
        Json::Array(items) => {
            let mut total: u64 = 0;
            let mut i: usize = 0;
            assert(items@.take(0) =~= Seq::<Json>::empty());
            while i < items.len()
                invariant
                    i <= items@.len(),
                    threads_fit(*v) == (page_nodes(items@) <= u64::MAX),
                    total == page_nodes(items@.take(i as int)),
                decreases items@.len() - i,
            {
                assert(items@.take(i + 1).drop_last() =~= items@.take(i as int));
                assert(items@.take(i + 1).last() == items@[i as int]);
                let n: usize = match review_thread_nodes(&items[i]) {
                    Some(ns) => ns.len(),
                    None => 0,
                };
                if total > u64::MAX - (n as u64) {
                    proof {
                        lemma_page_nodes_prefix(items@, i + 1);
                    }
                    return false;
                }
                total = total + n as u64;
                i = i + 1;
            }
            assert(items@.take(items@.len() as int) =~= items@);
            true
        },
        _ => true,
    }
}

/// The review-thread summary a GraphQL document gives (see
/// [`graphql_threads`]).
pub fn review_thread_summary_from_graphql(v: &Json, checked_at: &str) -> (r: Result<ReviewThreadSummary, String>)
    requires
        threads_fit(*v),
    ensures
        match graphql_threads(*v, checked_at@) {
            Ok(t) => r matches Ok(x) && threads_view(x) == t,
            Err(m) => r matches Err(e) && e@ == m,
        },
{
    if paged(v) {
        match v {
            Json::Array(pages) => {
                let mut u: u64 = 0;
                let mut res: u64 = 0;
                let mut o: u64 = 0;
                let mut total: u64 = 0;
                let mut next: Option<bool> = None;
                let mut i: usize = 0;
                assert(pages@.take(0) =~= Seq::<Json>::empty());
                proof {
                    lemma_page_nodes_prefix(pages@, 0);
                }
                while i < pages.len()
                    invariant
                        i <= pages@.len(),
                        page_nodes(pages@) <= u64::MAX,
                        graphql_threads(*v, checked_at@) == (match page_counts(pages@) {
                            Err(m) => Err(m),
                            Ok((u, r, o, t, next)) => Ok(ThreadsView {
                                unresolved: u,
                                total: t,
                                resolved: r,
                                outdated: o,
                                authoritative: next == Some(false),
                                last_checked_at: checked_at@,
                            }),
                        }),
                        page_counts(pages@.take(i as int)) == Ok::<(nat, nat, nat, nat, Option<bool>), Seq<char>>(
                            (u as nat, res as nat, o as nat, total as nat, next)),
                        total == page_nodes(pages@.take(i as int)),
                        u + res + o == total,
                    decreases pages@.len() - i,
                {
                    assert(pages@.take(i + 1).drop_last() =~= pages@.take(i as int));
                    assert(pages@.take(i + 1).last() == pages@[i as int]);
                    let p = &pages[i];
                    let nodes = match review_thread_nodes(p) {
                        Some(ns) => ns,
                        None => {
                            let m = owned("GitHub review-thread page is missing reviewThreads.nodes");
                            proof {
                                lemma_pages_err_stays(pages@, i + 1);
                            }
                            return Err(m);
                        },
                    };
                    let (pu, pr, po) = match count_review_thread_nodes(nodes) {
                        Ok(c) => c,
                        Err(m) => {
                            proof {
                                lemma_pages_err_stays(pages@, i + 1);
                            }
                            return Err(m);
                        },
                    };
                    proof {
                        lemma_counts_bounded(nodes@);
                        lemma_page_nodes_prefix(pages@, i + 1);
                    }
                    u = u + pu;
                    res = res + pr;
                    o = o + po;
                    total = total + nodes.len() as u64;
                    next = review_threads_has_next_page(p);
                    i = i + 1;
                }
                assert(pages@.take(pages@.len() as int) =~= pages@);
                Ok(ReviewThreadSummary {
                    unresolved: u,
                    total,
                    resolved: res,
                    outdated: o,
                    authoritative: next == Some(false),
                    last_checked_at: owned(checked_at),
                })
            },
            _ => Err(String::new()),
        }
    } else {
        let nodes = match review_thread_nodes(v) {
            Some(ns) => ns,
            None => return Err(owned("GitHub review-thread source is missing reviewThreads.nodes")),
        };
        let (u, res, o) = count_review_thread_nodes(nodes)?;
        Ok(ReviewThreadSummary {
            unresolved: u,
            total: nodes.len() as u64,
            resolved: res,
            outdated: o,
            authoritative: review_threads_has_next_page(v) == Some(false),
            last_checked_at: owned(checked_at),
        })
    }
}


/// The values behind a list of references.
pub open spec fn derefs(s: Seq<&Json>) -> Seq<Json> {
    s.map_values(|x: &Json| *x)
}

/// Whether every item is an array.
pub open spec fn all_arrays(items: Seq<Json>) -> bool {
    forall|i: int| 0 <= i < items.len() ==> #[trigger] items[i] is Array
}

/// The items of the arrays `pages`, in order.
pub open spec fn flatten(pages: Seq<Json>) -> Seq<Json>
    decreases pages.len(),
{
    if pages.len() == 0 {
        seq![]
    } else {
        flatten(pages.drop_last()) + match pages.last() {
            Json::Array(xs) => xs@,
            _ => seq![],
        }
    }
}

/// The entries of a JSON array, or of all its pages when every item is an
/// array; `label` names the source in the error when it is not an array.
pub open spec fn listed(v: Json, label: Seq<char>) -> Result<Seq<Json>, Seq<char>> {
    match v {
        Json::Array(items) => if all_arrays(items@) {
            Ok(flatten(items@))
        } else {
            Ok(items@)
        },
        _ => Err(label + " source must be a JSON array"@),
    }
}

/// The entries of a JSON array or of its pages (see [`listed`]).
pub fn array_or_paginated_arrays<'a>(v: &'a Json, label: &str) -> (r: Result<Vec<&'a Json>, String>)
    ensures
        match listed(*v, label@) {
            Ok(xs) => r matches Ok(x) && derefs(x@) == xs,
            Err(m) => r matches Err(e) && e@ == m,
        },
{
    match v {
        Json::Array(items) => {
            let mut all = true;
            let mut i: usize = 0;
            while i < items.len()
                invariant
                    i <= items@.len(),
                    all == forall|j: int| 0 <= j < i ==> #[trigger] items@[j] is Array,
                decreases items@.len() - i,
            {
                if let Json::Array(_) = &items[i] {
                } else {
                    all = false;
                }
                i = i + 1;
            }
            let mut out: Vec<&'a Json> = Vec::new();
            if all {
                let mut p: usize = 0;
                assert(items@.take(0) =~= Seq::<Json>::empty());
                assert(derefs(out@) =~= Seq::<Json>::empty());
                while p < items.len()
                    invariant
                        p <= items@.len(),
                        derefs(out@) == flatten(items@.take(p as int)),
                    decreases items@.len() - p,
                {
                    assert(items@.take(p + 1).drop_last() =~= items@.take(p as int));
                    assert(items@.take(p + 1).last() == items@[p as int]);
                    if let Json::Array(xs) = &items[p] {
                        let ghost before = derefs(out@);
                        let mut q: usize = 0;
                        while q < xs.len()
                            invariant
                                q <= xs@.len(),
                                derefs(out@) == before + xs@.take(q as int),
                            decreases xs@.len() - q,
                        {
                            let ghost prev = out@;
                            let x = &xs[q];
                            out.push(x);
                            assert(derefs(out@) =~= derefs(prev).push(*x));
                            assert(derefs(out@) =~= before + xs@.take(q + 1));
                            q = q + 1;
                        }
                        assert(xs@.take(xs@.len() as int) =~= xs@);
                    } else {
                        assert(derefs(out@) =~= flatten(items@.take(p + 1)));
                    }
                    p = p + 1;
                }
                assert(items@.take(items@.len() as int) =~= items@);
            } else {
                let mut p: usize = 0;
                while p < items.len()
                    invariant
                        p <= items@.len(),
                        derefs(out@) == items@.take(p as int),
                    decreases items@.len() - p,
                {
                    let ghost prev = out@;
                    let x = &items[p];
                    out.push(x);
                    assert(derefs(out@) =~= derefs(prev).push(*x));
                    assert(derefs(out@) =~= items@.take(p + 1));
                    p = p + 1;
                }
                assert(items@.take(items@.len() as int) =~= items@);
            }
            Ok(out)
        },
        _ => {
            let mut m = owned(label);
            crate::text::push_all(&mut m, " source must be a JSON array");
            Err(m)
        },
    }
}

/// The first index of an entry keyed `k`, or -1 when there is none.
pub open spec fn key_index<T>(es: Seq<(Seq<char>, T)>, k: Seq<char>) -> int
    decreases es.len(),
{
    if es.len() == 0 {
        -1
    } else {
        let j = key_index(es.drop_last(), k);
        if j >= 0 {
            j
        } else if es.last().0 == k {
            es.len() - 1
        } else {
            -1
        }
    }
}

/// [`key_index`] finds the first entry keyed `k`.
pub proof fn lemma_key_index<T>(es: Seq<(Seq<char>, T)>, k: Seq<char>)
    ensures
        -1 <= key_index(es, k) < es.len(),
        key_index(es, k) >= 0 ==> es[key_index(es, k)].0 == k,
        forall|j: int| 0 <= j < es.len() && (key_index(es, k) < 0 || j < key_index(es, k)) ==> #[trigger] es[j].0 != k,
    decreases es.len(),
{
    if es.len() > 0 {
        lemma_key_index(es.drop_last(), k);
        assert forall|j: int| 0 <= j < es.len() - 1 implies #[trigger] es[j] == es.drop_last()[j] by {}
    }
}

/// Finds the first entry keyed `k` (see [`key_index`]).
fn find_key<T>(es: &Vec<(String, T)>, k: &str, ghost_keys: Ghost<Seq<(Seq<char>, ())>>) -> (r: Option<usize>)
    requires
        ghost_keys@.len() == es@.len(),
        forall|j: int| 0 <= j < es@.len() ==> #[trigger] ghost_keys@[j].0 == es@[j].0@,
    ensures
        match r {
            Some(j) => key_index(ghost_keys@, k@) == j && j < es@.len(),
            None => key_index(ghost_keys@, k@) == -1,
        },
{
    proof {
        lemma_key_index(ghost_keys@, k@);
    }
    let mut i: usize = 0;
    while i < es.len()
        invariant
            i <= es@.len(),
            ghost_keys@.len() == es@.len(),
            forall|j: int| 0 <= j < es@.len() ==> #[trigger] ghost_keys@[j].0 == es@[j].0@,
            -1 <= key_index(ghost_keys@, k@) < ghost_keys@.len(),
            key_index(ghost_keys@, k@) >= 0 ==> ghost_keys@[key_index(ghost_keys@, k@)].0 == k@,
            forall|j: int| 0 <= j < ghost_keys@.len() && (key_index(ghost_keys@, k@) < 0 || j < key_index(ghost_keys@, k@))
                ==> #[trigger] ghost_keys@[j].0 != k@,
            forall|j: int| 0 <= j < i ==> #[trigger] ghost_keys@[j].0 != k@,
        decreases es@.len() - i,
    {
        if str_eq(es[i].0.as_str(), k) {
            assert(ghost_keys@[i as int].0 == k@);
            return Some(i);
        }
        i = i + 1;
    }
    None
}

/// The keys of a list of keyed entries, with nothing beside them.
pub open spec fn key_list<T>(es: Seq<(Seq<char>, T)>) -> Seq<(Seq<char>, ())> {
    es.map_values(|e: (Seq<char>, T)| (e.0, ()))
}

/// [`key_index`] looks at keys only.
pub proof fn lemma_key_index_keys<T>(es: Seq<(Seq<char>, T)>, k: Seq<char>)
    ensures
        key_index(key_list(es), k) == key_index(es, k),
    decreases es.len(),
{
    if es.len() > 0 {
        lemma_key_index_keys(es.drop_last(), k);
        assert(key_list(es).drop_last() =~= key_list(es.drop_last()));
    }
}

/// The thread a review comment belongs to: the one it replies to, else its
/// own, else its place in the list.
pub open spec fn comment_key(c: Json, index: int) -> Seq<char> {
    match scalar_key(get(c, "in_reply_to_id"@)) {
        Some(k) => "thread:"@ + k,
        None => match scalar_key(get(c, "inReplyToId"@)) {
            Some(k) => "thread:"@ + k,
            None => match scalar_key(get(c, "id"@)) {
                Some(k) => "thread:"@ + k,
                None => "comment-index:"@ + crate::text::decimal(index as nat),
            },
        },
    }
}

/// Whether a review comment is outdated: it has no position (or a null one)
/// but had one.
pub open spec fn comment_outdated(c: Json) -> bool {
    &&& (get(c, "position"@) is None || get(c, "position"@) matches Some(Json::Null))
    &&& (get(c, "original_position"@) is Some || get(c, "originalPosition"@) is Some || get(c, "originalLine"@)
        is Some || get(c, "original_line"@) is Some)
}

/// The threads of review comments `cs`, in order of first appearance, each
/// with whether all its comments are outdated.
pub open spec fn comment_threads(cs: Seq<Json>) -> Seq<(Seq<char>, bool)>
    decreases cs.len(),
{
    if cs.len() == 0 {
        seq![]
    } else {
        let es = comment_threads(cs.drop_last());
        let k = comment_key(cs.last(), cs.len() - 1);
        let o = comment_outdated(cs.last());
        let j = key_index(es, k);
        if j >= 0 {
            es.update(j, (k, es[j].1 && o))
        } else {
            es.push((k, o))
        }
    }
}

/// The number of entries marked true.
pub open spec fn count_marked(es: Seq<(Seq<char>, bool)>) -> nat
    decreases es.len(),
{
    if es.len() == 0 {
        0
    } else {
        count_marked(es.drop_last()) + if es.last().1 { 1nat } else { 0nat }
    }
}

/// The review-thread summary of REST review comments: the threads they form,
/// those whose comments are all outdated, and nothing known of resolution.
pub open spec fn rest_threads(cs: Seq<Json>, checked_at: Seq<char>) -> ThreadsView {
    ThreadsView {
        unresolved: 0,
        total: comment_threads(cs).len(),
        resolved: 0,
        outdated: count_marked(comment_threads(cs)),
        authoritative: false,
        last_checked_at: checked_at,
    }
}

/// The thread a review comment belongs to (see [`comment_key`]).
fn review_comment_thread_key(c: &Json, index: usize) -> (r: String)
    ensures
        r@ == comment_key(*c, index as int),
{
    let k = match json_scalar_key(field(c, "in_reply_to_id")) {
        Some(k) => Some(k),
        None => match json_scalar_key(field(c, "inReplyToId")) {
            Some(k) => Some(k),
            None => json_scalar_key(field(c, "id")),
        },
    };
    match k {
        Some(k) => {
            let mut m = owned("thread:");
            crate::text::push_all(&mut m, k.as_str());
            m
        },
        None => {
            let mut m = owned("comment-index:");
            crate::text::push_decimal(&mut m, index as u64);
            m
        },
    }
}

/// Whether a review comment is outdated (see [`comment_outdated`]).
fn review_comment_is_outdated(c: &Json) -> (r: bool)
    ensures
        r == comment_outdated(*c),
{
    let no_position = match field(c, "position") {
        None => true,
        Some(Json::Null) => true,
        _ => false,
    };
    no_position && (field(c, "original_position").is_some() || field(c, "originalPosition").is_some()
        || field(c, "originalLine").is_some() || field(c, "original_line").is_some())
}

/// The values of thread entries.
pub open spec fn thread_views(es: Seq<(String, bool)>) -> Seq<(Seq<char>, bool)> {
    es.map_values(|e: (String, bool)| (e.0@, e.1))
}

/// The review-thread summary of REST review comments (see [`rest_threads`]).
pub fn review_thread_summary_from_rest_comments(comments: &Vec<&Json>, checked_at: &str) -> (r: ReviewThreadSummary)
    ensures
        threads_view(r) == rest_threads(derefs(comments@), checked_at@),
{
    let ghost cs = derefs(comments@);
    let mut es: Vec<(String, bool)> = Vec::new();
    let mut i: usize = 0;
    assert(cs.take(0) =~= Seq::<Json>::empty());
    assert(thread_views(es@) =~= Seq::<(Seq<char>, bool)>::empty());
    while i < comments.len()
        invariant
            i <= comments@.len(),
            cs == derefs(comments@),
            thread_views(es@) == comment_threads(cs.take(i as int)),
            es@.len() <= i,
        decreases comments@.len() - i,
    {
        assert(cs.take(i + 1).drop_last() =~= cs.take(i as int));
        assert(cs.take(i + 1).last() == *comments@[i as int]);
        let c = comments[i];
        let k = review_comment_thread_key(c, i);
        let o = review_comment_is_outdated(c);
        let ghost views = thread_views(es@);
        proof {
            lemma_key_index_keys(views, k@);
            assert forall|j: int| 0 <= j < es@.len() implies #[trigger] key_list(views)[j].0 == es@[j].0@ by {}
        }
        match find_key(&es, k.as_str(), Ghost(key_list(views))) {
            Some(j) => {
                let ghost kv = k@;
                let prev = es[j].1;
                assert(prev == views[j as int].1);
                es.set(j, (k, prev && o));
                assert(thread_views(es@) =~= views.update(j as int, (kv, views[j as int].1 && o)));
            },
            None => {
                let ghost kv = k@;
                es.push((k, o));
                assert(thread_views(es@) =~= views.push((kv, o)));
            },
        }
        i = i + 1;
    }
    assert(cs.take(comments@.len() as int) =~= cs);
    let ghost final_views = thread_views(es@);
    let mut outdated: u64 = 0;
    let mut j: usize = 0;
    assert(final_views.take(0) =~= Seq::<(Seq<char>, bool)>::empty());
    while j < es.len()
        invariant
            j <= es@.len(),
            final_views == thread_views(es@),
            outdated == count_marked(final_views.take(j as int)),
            outdated <= j,
        decreases es@.len() - j,
    {
        assert(final_views.take(j + 1).drop_last() =~= final_views.take(j as int));
        if es[j].1 {
            outdated = outdated + 1;
        }
        j = j + 1;
    }
    assert(final_views.take(es@.len() as int) =~= final_views);
    ReviewThreadSummary {
        unresolved: 0,
        total: es.len() as u64,
        resolved: 0,
        outdated,
        authoritative: false,
        last_checked_at: owned(checked_at),
    }
}


/// The member `b` of the member `a` of `v`.
pub open spec fn get2(v: Json, a: Seq<char>, b: Seq<char>) -> Option<Json> {
    match get(v, a) {
        Some(w) => get(w, b),
        None => None,
    }
}

/// Who a review is by: the first of its user's or author's login or id, else
/// its own id, else its place in the list.
pub open spec fn author_key(r: Json, index: int) -> Seq<char> {
    match scalar_key(get2(r, "user"@, "login"@)) {
        Some(k) => "/user/login:"@ + k,
        None => match scalar_key(get2(r, "author"@, "login"@)) {
            Some(k) => "/author/login:"@ + k,
            None => match scalar_key(get2(r, "user"@, "id"@)) {
                Some(k) => "/user/id:"@ + k,
                None => match scalar_key(get2(r, "author"@, "id"@)) {
                    Some(k) => "/author/id:"@ + k,
                    None => match scalar_key(get(r, "id"@)) {
                        Some(k) => "review:"@ + k,
                        None => "review-index:"@ + crate::text::decimal(index as nat),
                    },
                },
            },
        },
    }
}

/// The time fields of a review, most telling first.
pub open spec fn review_time_keys() -> Seq<Seq<char>> {
    seq!["submitted_at"@, "submittedAt"@, "updated_at"@, "updatedAt"@]
}

/// `a` is an earlier time than `b`, as `chrono` compares them.
pub open spec fn earlier(a: Seq<char>, b: Seq<char>) -> bool {
    crate::dev::record::utc_after(b, a) == Some(true)
}

/// `a` and `b` are the same instant, as `chrono` compares them.
pub open spec fn same_instant(a: Seq<char>, b: Seq<char>) -> bool {
    crate::dev::record::utc_after(a, b) == Some(false) && crate::dev::record::utc_after(b, a) == Some(false)
}

/// Whether a review state settles the decision on its own.
pub open spec fn decisive(s: Seq<char>) -> bool {
    s == "approved"@ || s == "changes_requested"@
}

/// A participant's latest review so far: when, its place, and its state.
pub type LatestView = (Seq<char>, (Seq<char>, int, Seq<char>));

/// The latest reviews after participant `k`'s review at `at` (place `index`,
/// state `state`): a first review is kept; a later one replaces the kept one,
/// unless it is older (or as old and earlier in the list), or it is a comment
/// after an approval or a change request.
pub open spec fn review_step(es: Seq<LatestView>, k: Seq<char>, at: Seq<char>, index: int, state: Seq<char>) -> Seq<LatestView> {
    let j = key_index(es, k);
    if j < 0 {
        es.push((k, (at, index, state)))
    } else if earlier(at, es[j].1.0) || (same_instant(at, es[j].1.0) && index <= es[j].1.1) {
        es
    } else if state == "commented"@ && decisive(es[j].1.2) {
        es
    } else {
        es.update(j, (k, (at, index, state)))
    }
}

/// Each participant's latest review among `rs`, in order of first appearance; a
/// review without a state is an error. A review's time is its first time
/// field, else `checked_at`; its state is lowered.
pub open spec fn latest_reviews(rs: Seq<Json>, checked_at: Seq<char>) -> Result<Seq<LatestView>, Seq<char>>
    decreases rs.len(),
{
    if rs.len() == 0 {
        Ok(seq![])
    } else {
        match latest_reviews(rs.drop_last(), checked_at) {
            Err(m) => Err(m),
            Ok(es) => {
                let r = rs.last();
                match opt_string(r, "state"@) {
                    None => Err("GitHub review is missing state: "@ + json_text(r)),
                    Some(st) => Ok(review_step(es, author_key(r, rs.len() - 1), match first_time(r, review_time_keys()) {
                        Some(t) => t,
                        None => checked_at,
                    }, rs.len() - 1, lower(st))),
                }
            },
        }
    }
}

/// The states of the latest reviews.
pub open spec fn latest_states(es: Seq<LatestView>) -> Seq<Seq<char>> {
    es.map_values(|e: LatestView| e.1.2)
}

/// The review decision a list of GitHub reviews gives (see
/// [`crate::dev::pr::review_decision_of`]).
pub open spec fn reviews_decision(v: Json, checked_at: Seq<char>) -> Result<Option<Seq<char>>, Seq<char>> {
    match listed(v, "GitHub reviews"@) {
        Err(m) => Err(m),
        Ok(rs) => match latest_reviews(rs, checked_at) {
            Err(m) => Err(m),
            Ok(es) => Ok(crate::dev::pr::review_decision_of(latest_states(es))),
        },
    }
}

/// The scalar key at `a`.`b` of `v`.
fn scalar_at2(v: &Json, a: &str, b: &str) -> (r: Option<String>)
    ensures
        opt_view(r) == scalar_key(get2(*v, a@, b@)),
{
    match field(v, a) {
        Some(w) => json_scalar_key(field(w, b)),
        None => None,
    }
}

/// Who a review is by (see [`author_key`]).
fn review_author_key(r: &Json, index: usize) -> (k: String)
    ensures
        k@ == author_key(*r, index as int),
{
    let (prefix, key) = if let Some(k) = scalar_at2(r, "user", "login") {
        ("/user/login:", k)
    } else if let Some(k) = scalar_at2(r, "author", "login") {
        ("/author/login:", k)
    } else if let Some(k) = scalar_at2(r, "user", "id") {
        ("/user/id:", k)
    } else if let Some(k) = scalar_at2(r, "author", "id") {
        ("/author/id:", k)
    } else if let Some(k) = json_scalar_key(field(r, "id")) {
        ("review:", k)
    } else {
        let mut m = owned("review-index:");
        crate::text::push_decimal(&mut m, index as u64);
        return m;
    };
    let mut m = owned(prefix);
    crate::text::push_all(&mut m, key.as_str());
    m
}

/// The values of latest-review entries.
pub open spec fn latest_views(es: Seq<(String, (String, usize, String))>) -> Seq<LatestView> {
    es.map_values(|e: (String, (String, usize, String))| (e.0@, (e.1.0@, e.1.1 as int, e.1.2@)))
}

/// Once a prefix of the reviews fails, every longer prefix fails the same way.
proof fn lemma_reviews_err_stays(rs: Seq<Json>, k: int, checked_at: Seq<char>)
    requires
        0 < k <= rs.len(),
        latest_reviews(rs.take(k), checked_at) is Err,
    ensures
        latest_reviews(rs, checked_at) == latest_reviews(rs.take(k), checked_at),
    decreases rs.len() - k,
{
    if k < rs.len() {
        assert(rs.take(k + 1).drop_last() =~= rs.take(k));
        lemma_reviews_err_stays(rs, k + 1, checked_at);
    } else {
        assert(rs.take(k) =~= rs);
    }
}

/// The review decision a list of GitHub reviews gives (see
/// [`reviews_decision`]).
pub fn review_decision_from_reviews(v: &Json, checked_at: &str) -> (r: Result<Option<String>, String>)
    ensures
        match reviews_decision(*v, checked_at@) {
            Ok(d) => r matches Ok(x) && opt_view(x) == d,
            Err(m) => r matches Err(e) && e@ == m,
        },
{
    let reviews = array_or_paginated_arrays(v, "GitHub reviews")?;
    let ghost rs = derefs(reviews@);
    let mut es: Vec<(String, (String, usize, String))> = Vec::new();
    let mut i: usize = 0;
    assert(rs.take(0) =~= Seq::<Json>::empty());
    assert(latest_views(es@) =~= Seq::<LatestView>::empty());
    while i < reviews.len()
        invariant
            i <= reviews@.len(),
            rs == derefs(reviews@),
            reviews_decision(*v, checked_at@) == (match latest_reviews(rs, checked_at@) {
                Err(m) => Err(m),
                Ok(es) => Ok(crate::dev::pr::review_decision_of(latest_states(es))),
            }),
            latest_reviews(rs.take(i as int), checked_at@) == Ok::<Seq<LatestView>, Seq<char>>(latest_views(es@)),
        decreases reviews@.len() - i,
    {
        assert(rs.take(i + 1).drop_last() =~= rs.take(i as int));
        assert(rs.take(i + 1).last() == *reviews@[i as int]);
        let r = reviews[i];
        let state = match optional_string(r, "state") {
            Some(s) => ascii_lowercase(s.as_str()),
            None => {
                let mut m = owned("GitHub review is missing state: ");
                crate::text::push_all(&mut m, render_json(r).as_str());
                proof {
                    lemma_reviews_err_stays(rs, i + 1, checked_at@);
                }
                return Err(m);
            },
        };
        let at = match first_time4(r, "submitted_at", "submittedAt", "updated_at", "updatedAt") {
            Some((t, _)) => t,
            None => owned(checked_at),
        };
        let key = review_author_key(r, i);
        let ghost views = latest_views(es@);
        proof {
            lemma_key_index_keys(views, key@);
            assert forall|j: int| 0 <= j < es@.len() implies #[trigger] key_list(views)[j].0 == es@[j].0@ by {}
        }
        let ghost next = review_step(views, key@, at@, i as int, state@);
        match find_key(&es, key.as_str(), Ghost(key_list(views))) {
            None => {
                let ghost kv = key@;
                let ghost av = at@;
                let ghost sv = state@;
                es.push((key, (at, i, state)));
                assert(latest_views(es@) =~= views.push((kv, (av, i as int, sv))));
            },
            Some(j) => {
                let older = crate::dev::record::is_after(es[j].1.0.as_str(), at.as_str()) == Some(true);
                let same = crate::dev::record::is_after(at.as_str(), es[j].1.0.as_str()) == Some(false)
                    && crate::dev::record::is_after(es[j].1.0.as_str(), at.as_str()) == Some(false);
                let keep = older || (same && i <= es[j].1.1) || (str_eq(state.as_str(), "commented")
                    && crate::dev::pr::review_state_is_decisive(es[j].1.2.as_str()));
                if !keep {
                    let ghost kv = key@;
                    let ghost av = at@;
                    let ghost sv = state@;
                    es.set(j, (key, (at, i, state)));
                    assert(latest_views(es@) =~= views.update(j as int, (kv, (av, i as int, sv))));
                }
            },
        }
        assert(latest_views(es@) == next);
        i = i + 1;
    }
    assert(rs.take(reviews@.len() as int) =~= rs);
    let mut states: Vec<String> = Vec::new();
    let mut j: usize = 0;
    while j < es.len()
        invariant
            j <= es@.len(),
            crate::text::strs(states@) == latest_states(latest_views(es@)).take(j as int),
        decreases es@.len() - j,
    {
        let st = owned(es[j].1.2.as_str());
        assert(st@ == latest_states(latest_views(es@))[j as int]);
        let ghost prev = states@;
        states.push(st);
        assert(crate::text::strs(states@) =~= crate::text::strs(prev).push(st@));
        assert(crate::text::strs(states@) =~= latest_states(latest_views(es@)).take(j + 1));
        j = j + 1;
    }
    assert(latest_states(latest_views(es@)).take(es@.len() as int) =~= latest_states(latest_views(es@)));
    Ok(crate::dev::pr::review_decision_from_reviewer_states(&states))
}


/// The version of the readers that turn provider output into PR evidence.
pub const PR_SOURCE_PARSER_VERSION: &'static str = "codex-dev.pr-source-parser.v1";

/// Review threads that were not checked, as values.
pub open spec fn no_threads(checked_at: Seq<char>) -> ThreadsView {
    ThreadsView { unresolved: 0, total: 0, resolved: 0, outdated: 0, authoritative: false, last_checked_at: checked_at }
}

/// `pr` is partial evidence: state unknown, the given checks, review threads
/// and review decision, and nothing else.
pub open spec fn partial_is(pr: PrEvidence, checks: Seq<CheckView>, threads: ThreadsView, decision: Option<Seq<char>>) -> bool {
    &&& pr.schema@ == PR_SCHEMA@
    &&& pr.state@ == "unknown"@
    &&& pr.checks@.map_values(|c: CheckRecord| check_view(c)) == checks
    &&& threads_view(pr.review_threads) == threads
    &&& opt_view(pr.review_decision) == decision
    &&& pr.repository is None && pr.number is None && pr.url is None
    &&& pr.is_draft is None && pr.mergeable is None && pr.merge_state_status is None
    &&& pr.head_sha is None && pr.head_ref_name is None && pr.base_ref_name is None && pr.base_ref_oid is None
    &&& pr.sources@.len() == 0
}

/// Partial evidence (see [`partial_is`]).
fn partial(checks: Vec<CheckRecord>, threads: ReviewThreadSummary, decision: Option<String>) -> (r: PrEvidence)
    ensures
        partial_is(r, checks@.map_values(|c: CheckRecord| check_view(c)), threads_view(threads), opt_view(decision)),
{
    let mut pr = crate::dev::pr::partial_pr_evidence("unknown", checks, threads);
    pr.review_decision = decision;
    pr
}

/// Evidence from `gh pr checks` output: its checks.
pub fn normalize_gh_pr_checks(v: &Json, checked_at: &str) -> (r: Result<PrEvidence, String>)
    ensures
        match checks_from(*v, "gh pr checks"@, checked_at@) {
            Ok(cs) => r matches Ok(pr) && partial_is(pr, cs, no_threads(checked_at@), None),
            Err(m) => r matches Err(e) && e@ == m,
        },
{
    let checks = checks_from_array(v, "gh pr checks", checked_at)?;
    Ok(partial(checks, crate::dev::pr::empty_review_threads(checked_at), None))
}

/// Evidence from a list of GitHub reviews: the review decision of each
/// participant's latest review.
pub fn normalize_gh_reviews(v: &Json, checked_at: &str) -> (r: Result<PrEvidence, String>)
    ensures
        match reviews_decision(*v, checked_at@) {
            Ok(d) => r matches Ok(pr) && partial_is(pr, seq![], no_threads(checked_at@), d),
            Err(m) => r matches Err(e) && e@ == m,
        },
{
    let decision = review_decision_from_reviews(v, checked_at)?;
    let r = partial(Vec::new(), crate::dev::pr::empty_review_threads(checked_at), decision);
    assert(r.checks@.map_values(|c: CheckRecord| check_view(c)) =~= Seq::<CheckView>::empty());
    Ok(r)
}

/// Evidence from a GraphQL review-thread document: its thread summary.
pub fn normalize_gh_review_threads(v: &Json, checked_at: &str) -> (r: Result<PrEvidence, String>)
    requires
        threads_fit(*v),
    ensures
        match graphql_threads(*v, checked_at@) {
            Ok(t) => r matches Ok(pr) && partial_is(pr, seq![], t, None),
            Err(m) => r matches Err(e) && e@ == m,
        },
{
    let threads = review_thread_summary_from_graphql(v, checked_at)?;
    let r = partial(Vec::new(), threads, None);
    assert(r.checks@.map_values(|c: CheckRecord| check_view(c)) =~= Seq::<CheckView>::empty());
    Ok(r)
}

/// Evidence from a list of REST review comments: the threads they form.
pub fn normalize_gh_review_comments(v: &Json, checked_at: &str) -> (r: Result<PrEvidence, String>)
    ensures
        match listed(*v, "GitHub review comments"@) {
            Ok(cs) => r matches Ok(pr) && partial_is(pr, seq![], rest_threads(cs, checked_at@), None),
            Err(m) => r matches Err(e) && e@ == m,
        },
{
    let comments = array_or_paginated_arrays(v, "GitHub review comments")?;
    let threads = review_thread_summary_from_rest_comments(&comments, checked_at);
    let r = partial(Vec::new(), threads, None);
    assert(r.checks@.map_values(|c: CheckRecord| check_view(c)) =~= Seq::<CheckView>::empty());
    Ok(r)
}

/// Evidence from review-pack `remaining` output read from `path`: that many
/// unresolved threads, all of them, authoritatively.
pub fn normalize_review_pack_remaining(contents: &str, path: &str, checked_at: &str) -> (r: Result<PrEvidence, String>)
    ensures
        match crate::dev::numbers::review_pack_remaining(contents@) {
            Some(n) => r matches Ok(pr) && partial_is(pr, seq![], ThreadsView {
                unresolved: n as nat,
                total: n as nat,
                resolved: 0,
                outdated: 0,
                authoritative: true,
                last_checked_at: checked_at@,
            }, None),
            None => r matches Err(e) && e@ == "failed to parse "@ + path@,
        },
{
    match crate::dev::numbers::parse_review_pack_remaining(contents) {
        Ok(n) => {
            let threads = ReviewThreadSummary {
                unresolved: n,
                total: n,
                resolved: 0,
                outdated: 0,
                authoritative: true,
                last_checked_at: owned(checked_at),
            };
            let r = partial(Vec::new(), threads, None);
            assert(r.checks@.map_values(|c: CheckRecord| check_view(c)) =~= Seq::<CheckView>::empty());
            Ok(r)
        },
        Err(_) => {
            let mut m = owned("failed to parse ");
            crate::text::push_all(&mut m, path);
            Err(m)
        },
    }
}

/// Whether the review threads of a `gh pr view` document fit in 64 bits.
pub open spec fn pr_view_fits(v: Json) -> bool {
    match get(v, "reviewThreads"@) {
        Some(t) => threads_fit(t),
        None => true,
    }
}

/// The checks and review threads a `gh pr view` document gives: those of its
/// `statusCheckRollup` and `reviewThreads` when present, else none.
pub open spec fn pr_view_parts(v: Json, checked_at: Seq<char>) -> Result<(Seq<CheckView>, ThreadsView), Seq<char>> {
    let checks = match get(v, "statusCheckRollup"@) {
        Some(c) => checks_from(c, "GitHub statusCheckRollup"@, checked_at),
        None => Ok(seq![]),
    };
    match checks {
        Err(m) => Err(m),
        Ok(cs) => match get(v, "reviewThreads"@) {
            Some(t) => match graphql_threads(t, checked_at) {
                Err(m) => Err(m),
                Ok(tv) => Ok((cs, tv)),
            },
            None => Ok((cs, no_threads(checked_at))),
        },
    }
}

/// A string field, lowered.
pub open spec fn lowered(o: Option<Seq<char>>) -> Option<Seq<char>> {
    match o {
        Some(s) => Some(lower(s)),
        None => None,
    }
}

/// The state a `gh pr view` document gives: `draft` for a draft, else its
/// state lowered, else `unknown`.
pub open spec fn pr_view_state(v: Json) -> Seq<char> {
    if opt_bool(v, "isDraft"@) == Some(true) {
        "draft"@
    } else {
        lower(match opt_string(v, "state"@) {
            Some(s) => s,
            None => "unknown"@,
        })
    }
}

/// `pr` holds what a `gh pr view` document says, with the given checks and
/// review threads.
pub open spec fn pr_view_is(pr: PrEvidence, v: Json, checks: Seq<CheckView>, threads: ThreadsView) -> bool {
    &&& pr.schema@ == PR_SCHEMA@
    &&& pr.number == opt_u64(v, "number"@)
    &&& opt_view(pr.url) == opt_string(v, "url"@)
    &&& opt_view(pr.repository) == match opt_string(v, "url"@) {
        Some(u) => repository_of_url(u),
        None => None,
    }
    &&& pr.is_draft == opt_bool(v, "isDraft"@)
    &&& pr.state@ == pr_view_state(v)
    &&& opt_view(pr.mergeable) == lowered(opt_string(v, "mergeable"@))
    &&& opt_view(pr.merge_state_status) == lowered(opt_string(v, "mergeStateStatus"@))
    &&& opt_view(pr.review_decision) == lowered(opt_string(v, "reviewDecision"@))
    &&& opt_view(pr.head_sha) == opt_string(v, "headRefOid"@)
    &&& opt_view(pr.head_ref_name) == opt_string(v, "headRefName"@)
    &&& opt_view(pr.base_ref_name) == opt_string(v, "baseRefName"@)
    &&& opt_view(pr.base_ref_oid) == opt_string(v, "baseRefOid"@)
    &&& pr.checks@.map_values(|c: CheckRecord| check_view(c)) == checks
    &&& threads_view(pr.review_threads) == threads
    &&& pr.sources@.len() == 0
}

/// An optional string field, lowered.
fn lowered_string(v: &Json, key: &str) -> (r: Option<String>)
    ensures
        opt_view(r) == lowered(opt_string(*v, key@)),
{
    match optional_string(v, key) {
        Some(s) => Some(ascii_lowercase(s.as_str())),
        None => None,
    }
}

/// Evidence from a `gh pr view` document (see [`pr_view_is`]).
pub fn normalize_gh_pr_view(v: &Json, checked_at: &str) -> (r: Result<PrEvidence, String>)
    requires
        pr_view_fits(*v),
    ensures
        match pr_view_parts(*v, checked_at@) {
            Ok((cs, t)) => r matches Ok(pr) && pr_view_is(pr, *v, cs, t),
            Err(m) => r matches Err(e) && e@ == m,
        },
{
    let url = optional_string(v, "url");
    let repository = match &url {
        Some(u) => crate::dev::identity::repository_from_pr_url(u.as_str()),
        None => None,
    };
    let is_draft = optional_bool(v, "isDraft");
    let state = if is_draft == Some(true) {
        owned("draft")
    } else {
        match optional_string(v, "state") {
            Some(s) => ascii_lowercase(s.as_str()),
            None => ascii_lowercase("unknown"),
        }
    };
    let checks = match field(v, "statusCheckRollup") {
        Some(c) => checks_from_array(c, "GitHub statusCheckRollup", checked_at)?,
        None => Vec::new(),
    };
    let review_threads = match field(v, "reviewThreads") {
        Some(t) => review_thread_summary_from_graphql(t, checked_at)?,
        None => crate::dev::pr::empty_review_threads(checked_at),
    };
    let pr = PrEvidence {
        schema: owned(PR_SCHEMA),
        repository,
        number: optional_u64(v, "number"),
        url,
        state,
        is_draft,
        mergeable: lowered_string(v, "mergeable"),
        merge_state_status: lowered_string(v, "mergeStateStatus"),
        review_decision: lowered_string(v, "reviewDecision"),
        head_sha: optional_string(v, "headRefOid"),
        head_ref_name: optional_string(v, "headRefName"),
        base_ref_name: optional_string(v, "baseRefName"),
        base_ref_oid: optional_string(v, "baseRefOid"),
        checks,
        review_threads,
        sources: Vec::new(),
    };
    assert(pr.checks@.map_values(|c: CheckRecord| check_view(c)) =~= match pr_view_parts(*v, checked_at@) {
        Ok((cs, _)) => cs,
        Err(_) => seq![],
    });
    Ok(pr)
}


/// A check as a normalized snapshot gives it; times are RFC 3339 text.
#[derive(Clone, Debug)]
pub struct CheckSnapshotInput {
    pub name: String,
    pub status: String,
    pub conclusion: Option<String>,
    pub url: Option<String>,
    pub checked_at: Option<String>,
}

/// Review threads as a normalized snapshot gives them.
#[derive(Clone, Debug)]
pub struct ReviewThreadSnapshotInput {
    pub unresolved: u64,
    pub total: u64,
    pub resolved: u64,
    pub outdated: u64,
    pub authoritative: Option<bool>,
    pub last_checked_at: Option<String>,
}

/// A normalized PR snapshot, as read from its JSON file.
#[derive(Clone, Debug)]
pub struct PrSnapshotInput {
    pub schema: Option<String>,
    pub repository: Option<String>,
    pub number: Option<u64>,
    pub url: Option<String>,
    pub state: String,
    pub is_draft: Option<bool>,
    pub mergeable: Option<String>,
    pub merge_state_status: Option<String>,
    pub review_decision: Option<String>,
    pub head_sha: Option<String>,
    pub head_ref_name: Option<String>,
    pub base_ref_name: Option<String>,
    pub base_ref_oid: Option<String>,
    pub checks: Vec<CheckSnapshotInput>,
    pub review_threads: ReviewThreadSnapshotInput,
    pub sources: Vec<PrEvidenceSource>,
}

/// The check record a snapshot check gives: status and conclusion lowered,
/// observed at `checked_at` unless the snapshot says when.
pub open spec fn snapshot_check(c: CheckSnapshotInput, checked_at: Seq<char>) -> CheckView {
    CheckView {
        name: c.name@,
        status: lower(c.status@),
        conclusion: lowered(opt_view(c.conclusion)),
        url: opt_view(c.url),
        checked_at: match c.checked_at {
            Some(t) => t@,
            None => checked_at,
        },
    }
}

/// `pr` is the evidence a normalized snapshot gives: the schema set, state
/// and the vocabularies lowered, checks as [`snapshot_check`] says, threads
/// authoritative and checked at `checked_at` unless the snapshot says
/// otherwise, everything else as given.
pub open spec fn snapshot_evidence_is(pr: PrEvidence, s: PrSnapshotInput, checked_at: Seq<char>) -> bool {
    &&& pr.schema@ == PR_SCHEMA@
    &&& pr.repository == s.repository && pr.number == s.number && pr.url == s.url
    &&& pr.state@ == lower(s.state@)
    &&& pr.is_draft == s.is_draft
    &&& opt_view(pr.mergeable) == lowered(opt_view(s.mergeable))
    &&& opt_view(pr.merge_state_status) == lowered(opt_view(s.merge_state_status))
    &&& opt_view(pr.review_decision) == lowered(opt_view(s.review_decision))
    &&& pr.head_sha == s.head_sha && pr.head_ref_name == s.head_ref_name
    &&& pr.base_ref_name == s.base_ref_name && pr.base_ref_oid == s.base_ref_oid
    &&& pr.checks@.map_values(|c: CheckRecord| check_view(c)) == s.checks@.map_values(
        |c: CheckSnapshotInput| snapshot_check(c, checked_at))
    &&& threads_view(pr.review_threads) == ThreadsView {
        unresolved: s.review_threads.unresolved as nat,
        total: s.review_threads.total as nat,
        resolved: s.review_threads.resolved as nat,
        outdated: s.review_threads.outdated as nat,
        authoritative: match s.review_threads.authoritative {
            Some(b) => b,
            None => true,
        },
        last_checked_at: match s.review_threads.last_checked_at {
            Some(t) => t@,
            None => checked_at,
        },
    }
    &&& pr.sources == s.sources
}

/// Lowers an optional string.
fn lower_opt(o: Option<String>) -> (r: Option<String>)
    ensures
        opt_view(r) == lowered(opt_view(o)),
{
    match o {
        Some(s) => Some(ascii_lowercase(s.as_str())),
        None => None,
    }
}

impl PrSnapshotInput {
    /// The evidence this snapshot gives (see [`snapshot_evidence_is`]).
    pub fn into_pr_evidence(self, checked_at: &str) -> (r: PrEvidence)
        ensures
            snapshot_evidence_is(r, self, checked_at@),
    {
        let ghost me = self;
        let PrSnapshotInput {
            schema: _,
            repository,
            number,
            url,
            state,
            is_draft,
            mergeable,
            merge_state_status,
            review_decision,
            head_sha,
            head_ref_name,
            base_ref_name,
            base_ref_oid,
            checks: input_checks,
            review_threads,
            sources,
        } = self;
        let mut checks: Vec<CheckRecord> = Vec::new();
        let mut i: usize = 0;
        while i < input_checks.len()
            invariant
                i <= input_checks@.len(),
                input_checks == me.checks,
                checks@.map_values(|c: CheckRecord| check_view(c)) == input_checks@.take(i as int).map_values(
                    |c: CheckSnapshotInput| snapshot_check(c, checked_at@)),
            decreases input_checks@.len() - i,
        {
            let c = &input_checks[i];
            let at = match &c.checked_at {
                Some(t) => owned(t.as_str()),
                None => owned(checked_at),
            };
            let conclusion = match &c.conclusion {
                Some(x) => Some(ascii_lowercase(x.as_str())),
                None => None,
            };
            let url = match &c.url {
                Some(x) => Some(owned(x.as_str())),
                None => None,
            };
            let rec = CheckRecord {
                name: owned(c.name.as_str()),
                status: ascii_lowercase(c.status.as_str()),
                conclusion,
                url,
                checked_at: at,
            };
            assert(check_view(rec) == snapshot_check(input_checks@[i as int], checked_at@));
            let ghost prev = checks@;
            checks.push(rec);
            assert(checks@.map_values(|c: CheckRecord| check_view(c)) =~= prev.map_values(|c: CheckRecord| check_view(c)).push(
                check_view(rec)));
            assert(input_checks@.take(i + 1).map_values(|c: CheckSnapshotInput| snapshot_check(c, checked_at@))
                =~= input_checks@.take(i as int).map_values(|c: CheckSnapshotInput| snapshot_check(c, checked_at@)).push(
                snapshot_check(input_checks@[i as int], checked_at@)));
            i = i + 1;
        }
        assert(input_checks@.take(input_checks@.len() as int) =~= input_checks@);
        let threads = ReviewThreadSummary {
            unresolved: review_threads.unresolved,
            total: review_threads.total,
            resolved: review_threads.resolved,
            outdated: review_threads.outdated,
            authoritative: match review_threads.authoritative {
                Some(b) => b,
                None => true,
            },
            last_checked_at: match review_threads.last_checked_at {
                Some(t) => t,
                None => owned(checked_at),
            },
        };
        PrEvidence {
            schema: owned(PR_SCHEMA),
            repository,
            number,
            url,
            state: ascii_lowercase(state.as_str()),
            is_draft,
            mergeable: lower_opt(mergeable),
            merge_state_status: lower_opt(merge_state_status),
            review_decision: lower_opt(review_decision),
            head_sha,
            head_ref_name,
            base_ref_name,
            base_ref_oid,
            checks,
            review_threads: threads,
            sources,
        }
    }
}

/// A PR evidence source, read according to its kind: a normalized snapshot,
/// a JSON document printed by the GitHub CLI, or review-pack text.
pub enum PrRecordDocument {
    Normalized(PrSnapshotInput),
    GhPrView(Json),
    GhPrChecks(Json),
    GhReviews(Json),
    GhReviewThreads(Json),
    GhReviewComments(Json),
    ReviewPackRemaining(String),
}

/// The kind of source a document was read as.
pub open spec fn document_kind(d: PrRecordDocument) -> PrRecordSourceKind {
    match d {
        PrRecordDocument::Normalized(_) => PrRecordSourceKind::Normalized,
        PrRecordDocument::GhPrView(_) => PrRecordSourceKind::GhPrView,
        PrRecordDocument::GhPrChecks(_) => PrRecordSourceKind::GhPrChecks,
        PrRecordDocument::GhReviews(_) => PrRecordSourceKind::GhReviews,
        PrRecordDocument::GhReviewThreads(_) => PrRecordSourceKind::GhReviewThreads,
        PrRecordDocument::GhReviewComments(_) => PrRecordSourceKind::GhReviewComments,
        PrRecordDocument::ReviewPackRemaining(_) => PrRecordSourceKind::ReviewPackRemaining,
    }
}

/// Whether the thread counts a document gives fit in 64 bits.
pub open spec fn document_fits(d: PrRecordDocument) -> bool {
    match d {
        PrRecordDocument::GhPrView(v) => pr_view_fits(v),
        PrRecordDocument::GhReviewThreads(v) => threads_fit(v),
        _ => true,
    }
}

/// Whether the thread counts a document gives fit in 64 bits (see
/// [`document_fits`]).
pub fn pr_document_fits(d: &PrRecordDocument) -> (r: bool)
    ensures
        r == document_fits(*d),
{
    match d {
        PrRecordDocument::GhPrView(v) => match field(v, "reviewThreads") {
            Some(t) => review_thread_counts_fit(t),
            None => true,
        },
        PrRecordDocument::GhReviewThreads(v) => review_thread_counts_fit(v),
        _ => true,
    }
}

/// Why a document gives no evidence, if it gives none.
pub open spec fn document_error(d: PrRecordDocument, path: Seq<char>, checked_at: Seq<char>) -> Option<Seq<char>> {
    match d {
        PrRecordDocument::Normalized(_) => None,
        PrRecordDocument::GhPrView(v) => match pr_view_parts(v, checked_at) {
            Err(m) => Some(m),
            Ok(_) => None,
        },
        PrRecordDocument::GhPrChecks(v) => match checks_from(v, "gh pr checks"@, checked_at) {
            Err(m) => Some(m),
            Ok(_) => None,
        },
        PrRecordDocument::GhReviews(v) => match reviews_decision(v, checked_at) {
            Err(m) => Some(m),
            Ok(_) => None,
        },
        PrRecordDocument::GhReviewThreads(v) => match graphql_threads(v, checked_at) {
            Err(m) => Some(m),
            Ok(_) => None,
        },
        PrRecordDocument::GhReviewComments(v) => match listed(v, "GitHub review comments"@) {
            Err(m) => Some(m),
            Ok(_) => None,
        },
        PrRecordDocument::ReviewPackRemaining(t) => match crate::dev::numbers::review_pack_remaining(t@) {
            None => Some("failed to parse "@ + path),
            Some(_) => None,
        },
    }
}

/// `pr` is the evidence a document gives, when it gives any.
pub open spec fn document_evidence_is(pr: PrEvidence, d: PrRecordDocument, checked_at: Seq<char>) -> bool {
    match d {
        PrRecordDocument::Normalized(s) => snapshot_evidence_is(pr, s, checked_at),
        PrRecordDocument::GhPrView(v) => match pr_view_parts(v, checked_at) {
            Ok((cs, t)) => pr_view_is(pr, v, cs, t),
            Err(_) => false,
        },
        PrRecordDocument::GhPrChecks(v) => match checks_from(v, "gh pr checks"@, checked_at) {
            Ok(cs) => partial_is(pr, cs, no_threads(checked_at), None),
            Err(_) => false,
        },
        PrRecordDocument::GhReviews(v) => match reviews_decision(v, checked_at) {
            Ok(dec) => partial_is(pr, seq![], no_threads(checked_at), dec),
            Err(_) => false,
        },
        PrRecordDocument::GhReviewThreads(v) => match graphql_threads(v, checked_at) {
            Ok(t) => partial_is(pr, seq![], t, None),
            Err(_) => false,
        },
        PrRecordDocument::GhReviewComments(v) => match listed(v, "GitHub review comments"@) {
            Ok(cs) => partial_is(pr, seq![], rest_threads(cs, checked_at), None),
            Err(_) => false,
        },
        PrRecordDocument::ReviewPackRemaining(t) => match crate::dev::numbers::review_pack_remaining(t@) {
            Some(n) => partial_is(pr, seq![], ThreadsView {
                unresolved: n as nat,
                total: n as nat,
                resolved: 0,
                outdated: 0,
                authoritative: true,
                last_checked_at: checked_at,
            }, None),
            None => false,
        },
    }
}

/// The evidence a document read from `path` gives (see
/// [`document_evidence_is`] and [`document_error`]).
pub fn normalize_pr_document(d: PrRecordDocument, path: &str, checked_at: &str) -> (r: Result<PrEvidence, String>)
    requires
        document_fits(d),
    ensures
        match document_error(d, path@, checked_at@) {
            Some(m) => r matches Err(e) && e@ == m,
            None => r matches Ok(pr) && document_evidence_is(pr, d, checked_at@),
        },
{
    match d {
        PrRecordDocument::Normalized(s) => Ok(s.into_pr_evidence(checked_at)),
        PrRecordDocument::GhPrView(v) => normalize_gh_pr_view(&v, checked_at),
        PrRecordDocument::GhPrChecks(v) => normalize_gh_pr_checks(&v, checked_at),
        PrRecordDocument::GhReviews(v) => normalize_gh_reviews(&v, checked_at),
        PrRecordDocument::GhReviewThreads(v) => normalize_gh_review_threads(&v, checked_at),
        PrRecordDocument::GhReviewComments(v) => normalize_gh_review_comments(&v, checked_at),
        PrRecordDocument::ReviewPackRemaining(t) => normalize_review_pack_remaining(t.as_str(), path, checked_at),
    }
}

/// `r` is `pr` once its identity is settled (see
/// [`crate::dev::identity::identity_result`]) and the source recorded: of
/// kind `kind`, read by this parser version at `retrieved_at`, by `command`,
/// from `path`.
pub open spec fn stamped_is(
    r: Result<PrEvidence, String>,
    pr: PrEvidence,
    kind: PrRecordSourceKind,
    repository: Option<Seq<char>>,
    number: Option<u64>,
    retrieved_at: Seq<char>,
    command: Option<String>,
    path: Seq<char>,
) -> bool {
    match identity_result(opt_view(pr.url), opt_view(pr.repository), pr.number, kind, repository, number) {
        Err(m) => r matches Err(e) && e@ == m,
        Ok((rp, n)) => r matches Ok(x) && {
            &&& opt_view(x.repository) == rp && x.number == n
            &&& x.url == pr.url && x.state == pr.state && x.schema == pr.schema
            &&& x.is_draft == pr.is_draft && x.mergeable == pr.mergeable
            &&& x.merge_state_status == pr.merge_state_status && x.review_decision == pr.review_decision
            &&& x.head_sha == pr.head_sha && x.head_ref_name == pr.head_ref_name
            &&& x.base_ref_name == pr.base_ref_name && x.base_ref_oid == pr.base_ref_oid
            &&& x.checks == pr.checks && x.review_threads == pr.review_threads
            &&& x.sources@.len() == pr.sources@.len() + 1
            &&& x.sources@.take(pr.sources@.len() as int) == pr.sources@
            &&& {
                let s = x.sources@.last();
                &&& s.kind@ == source_kind_name(kind)
                &&& s.parser_version@ == PR_SOURCE_PARSER_VERSION@
                &&& s.retrieved_at@ == retrieved_at
                &&& s.command == command
                &&& opt_view(s.path) == Some(path)
            }
        },
    }
}

/// Settles `pr`'s identity and records its source (see [`stamped_is`]).
pub fn stamp_pr_record_source(
    pr: PrEvidence,
    kind: PrRecordSourceKind,
    repository: Option<String>,
    number: Option<u64>,
    retrieved_at: &str,
    command: Option<String>,
    path: &str,
) -> (r: Result<PrEvidence, String>)
    ensures
        stamped_is(r, pr, kind, opt_view(repository), number, retrieved_at@, command, path@),
{
    let ghost before = pr;
    let mut pr = pr;
    crate::dev::identity::apply_pr_record_identity(&mut pr, kind, repository, number)?;
    let ghost mid = pr.sources@;
    pr.sources.push(PrEvidenceSource {
        kind: owned(kind.as_str()),
        parser_version: owned(PR_SOURCE_PARSER_VERSION),
        retrieved_at: owned(retrieved_at),
        command,
        path: Some(owned(path)),
    });
    assert(pr.sources@.take(mid.len() as int) =~= mid);
    Ok(pr)
}

/// Reads PR evidence from a source document and stamps it (see
/// [`normalize_pr_document`] and [`stamp_pr_record_source`]); the source is
/// retrieved at `retrieved_at` when given, else at `checked_at`.
pub fn normalize_pr_record_source(
    d: PrRecordDocument,
    path: &str,
    checked_at: &str,
    retrieved_at: Option<String>,
    repository: Option<String>,
    number: Option<u64>,
    command: Option<String>,
) -> (r: Result<PrEvidence, String>)
    requires
        document_fits(d),
    ensures
        match document_error(d, path@, checked_at@) {
            Some(m) => r matches Err(e) && e@ == m,
            None => exists|pr: PrEvidence| #[trigger] document_evidence_is(pr, d, checked_at@) && stamped_is(r, pr,
                document_kind(d), opt_view(repository), number, match retrieved_at {
                    Some(t) => t@,
                    None => checked_at@,
                }, command, path@),
        },
{
    let kind = match &d {
        PrRecordDocument::Normalized(_) => PrRecordSourceKind::Normalized,
        PrRecordDocument::GhPrView(_) => PrRecordSourceKind::GhPrView,
        PrRecordDocument::GhPrChecks(_) => PrRecordSourceKind::GhPrChecks,
        PrRecordDocument::GhReviews(_) => PrRecordSourceKind::GhReviews,
        PrRecordDocument::GhReviewThreads(_) => PrRecordSourceKind::GhReviewThreads,
        PrRecordDocument::GhReviewComments(_) => PrRecordSourceKind::GhReviewComments,
        PrRecordDocument::ReviewPackRemaining(_) => PrRecordSourceKind::ReviewPackRemaining,
    };
    let ghost dd = d;
    let retrieved = match retrieved_at {
        Some(t) => t,
        None => owned(checked_at),
    };
    let pr = normalize_pr_document(d, path, checked_at)?;
    let ghost p = pr;
    let r = stamp_pr_record_source(pr, kind, repository, number, retrieved.as_str(), command, path);
    assert(document_evidence_is(p, dd, checked_at@));
    r
}

} // verus!
