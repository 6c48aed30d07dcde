//! The last step of an audit: suppressed findings go, severity overrides
//! apply, duplicates go, and the rest is ordered for reading.
use vstd::prelude::*;

use crate::bun::config::AuditConfig;
use crate::bun::detect::{views, FindingView};
use crate::bun::types::{severity_rank, Finding, Severity};
use crate::dev::ledger::{lex_less, str_less};
use crate::text::{decimal, decimal_string, owned, push_all, strs};

verus! {

/// The severity `overrides` gives rule `rule_id`, if any (the first entry for it).
pub open spec fn override_for(overrides: Seq<(String, Severity)>, rule_id: Seq<char>) -> Option<Severity>
    decreases overrides.len(),
{
    if overrides.len() == 0 {
        None
    } else if overrides[0].0@ == rule_id {
        Some(overrides[0].1)
    } else {
        override_for(overrides.drop_first(), rule_id)
    }
}

/// Whether a finding survives suppression: its rule is not disabled and its
/// suppression key is not in the baseline.
pub open spec fn kept(f: FindingView, disabled: Seq<Seq<char>>, baseline: Seq<Seq<char>>) -> bool {
    !disabled.contains(f.rule_id) && !baseline.contains(f.suppression_key)
}

/// `f` with the overriding severity of its rule, if any.
pub open spec fn overridden(f: FindingView, overrides: Seq<(String, Severity)>) -> FindingView {
    match override_for(overrides, f.rule_id) {
        Some(s) => FindingView { severity: s, ..f },
        None => f,
    }
}

/// The findings that survive suppression, with their severities overridden,
/// in order.
pub open spec fn suppressed(fs: Seq<FindingView>, c: AuditConfig) -> Seq<FindingView>
    decreases fs.len(),
{
    if fs.len() == 0 {
        seq![]
    } else {
        let rest = suppressed(fs.drop_last(), c);
        if kept(fs.last(), strs(c.disabled_rules@), strs(c.baseline_keys@)) {
            rest.push(overridden(fs.last(), c.severity_overrides@))
        } else {
            rest
        }
    }
}

/// The identity of a finding: rule, file, line, column and message joined by `::`.
pub open spec fn dedup_key(f: FindingView) -> Seq<char> {
    f.rule_id + "::"@ + f.file + "::"@ + decimal(f.line) + "::"@ + decimal(f.column) + "::"@ + f.message
}

/// The first finding of each identity, in order.
pub open spec fn unique(fs: Seq<FindingView>) -> Seq<FindingView>
    decreases fs.len(),
{
    if fs.len() == 0 {
        seq![]
    } else {
        let rest = unique(fs.drop_last());
        if rest.map_values(|g: FindingView| dedup_key(g)).contains(dedup_key(fs.last())) {
            rest
        } else {
            rest.push(fs.last())
        }
    }
}

/// Whether `a` is reported before `b`: higher severity first, then by file,
/// line, column and rule id.
pub open spec fn reported_before(a: FindingView, b: FindingView) -> bool {
    if severity_rank(a.severity) != severity_rank(b.severity) {
        severity_rank(a.severity) > severity_rank(b.severity)
    } else if a.file != b.file {
        lex_less(a.file, b.file)
    } else if a.line != b.line {
        a.line < b.line
    } else if a.column != b.column {
        a.column < b.column
    } else {
        lex_less(a.rule_id, b.rule_id)
    }
}

/// Where `x` goes among the ordered `s`: before the first finding it is
/// reported before, after all others.
pub open spec fn insertion_point(s: Seq<FindingView>, x: FindingView) -> nat
    decreases s.len(),
{
    if s.len() == 0 {
        0
    } else if reported_before(x, s[0]) {
        0
    } else {
        1 + insertion_point(s.drop_first(), x)
    }
}

/// `fs` in report order, keeping the given order among findings that tie (a
/// stable sort by [`reported_before`]).
pub open spec fn in_report_order(fs: Seq<FindingView>) -> Seq<FindingView>
    decreases fs.len(),
{
    if fs.len() == 0 {
        seq![]
    } else {
        let s = in_report_order(fs.drop_last());
        s.insert(insertion_point(s, fs.last()) as int, fs.last())
    }
}

/// The normalized findings: suppressed ones removed, severities overridden,
/// duplicates removed, in report order.
pub open spec fn normalized(fs: Seq<FindingView>, c: AuditConfig) -> Seq<FindingView> {
    in_report_order(unique(suppressed(fs, c)))
}

proof fn lemma_insertion_point_bound(s: Seq<FindingView>, x: FindingView)
    ensures
        insertion_point(s, x) <= s.len(),
    decreases s.len(),
{
    if s.len() > 0 && !reported_before(x, s[0]) {
        lemma_insertion_point_bound(s.drop_first(), x);
    }
}

proof fn lemma_in_report_order_len(fs: Seq<FindingView>)
    ensures
        in_report_order(fs).len() == fs.len(),
    decreases fs.len(),
{
    if fs.len() > 0 {
        lemma_in_report_order_len(fs.drop_last());
        lemma_insertion_point_bound(in_report_order(fs.drop_last()), fs.last());
    }
}

/// A copy of an optional string.
fn copy_opt(o: &Option<String>) -> (r: Option<String>)
    ensures
        crate::bun::detect::opt_view(r) == crate::bun::detect::opt_view(*o),
{
    match o {
        Some(s) => Some(owned(s.as_str())),
        None => None,
    }
}

/// A copy of a finding.
pub fn copy_finding(f: &Finding) -> (r: Finding)
    ensures
        r@ == f@,
{
    Finding {
        rule_id: owned(f.rule_id.as_str()),
        category: owned(f.category.as_str()),
        severity: f.severity,
        confidence: f.confidence,
        file: owned(f.file.as_str()),
        line: f.line,
        column: f.column,
        message: owned(f.message.as_str()),
        why: copy_opt(&f.why),
        suggested_fix: copy_opt(&f.suggested_fix),
        snippet: copy_opt(&f.snippet),
        suppression_key: owned(f.suppression_key.as_str()),
    }
}

/// The severity `overrides` gives rule `rule_id`.
fn override_of(overrides: &Vec<(String, Severity)>, rule_id: &str) -> (r: Option<Severity>)
    ensures
        r == override_for(overrides@, rule_id@),
{
    let mut i: usize = 0;
    assert(overrides@.skip(0) =~= overrides@);
    while i < overrides.len()
        invariant
            i <= overrides@.len(),
            override_for(overrides@, rule_id@) == override_for(overrides@.skip(i as int), rule_id@),
        decreases overrides@.len() - i,
    {
        assert(overrides@.skip(i as int)[0] == overrides@[i as int]);
        assert(overrides@.skip(i as int).drop_first() =~= overrides@.skip(i + 1));
        if crate::audit_gate::str_eq(overrides[i].0.as_str(), rule_id) {
            return Some(overrides[i].1);
        }
        i = i + 1;
    }
    None
}

/// The identity of a finding.
fn key_of(f: &Finding) -> (r: String)
    ensures
        r@ == dedup_key(f@),
{
    let mut k = owned(f.rule_id.as_str());
    push_all(&mut k, "::");
    push_all(&mut k, f.file.as_str());
    push_all(&mut k, "::");
    let l = decimal_string(f.line as u64);
    push_all(&mut k, l.as_str());
    push_all(&mut k, "::");
    let c = decimal_string(f.column as u64);
    push_all(&mut k, c.as_str());
    push_all(&mut k, "::");
    push_all(&mut k, f.message.as_str());
    k
}

/// Whether `a` is reported before `b`.
fn before(a: &Finding, b: &Finding) -> (r: bool)
    ensures
        r == reported_before(a@, b@),
{
    let ra = a.severity.rank();
    let rb = b.severity.rank();
    if ra != rb {
        return ra > rb;
    }
    if !crate::audit_gate::str_eq(a.file.as_str(), b.file.as_str()) {
        return str_less(a.file.as_str(), b.file.as_str());
    }
    if a.line != b.line {
        return a.line < b.line;
    }
    if a.column != b.column {
        return a.column < b.column;
    }
    str_less(a.rule_id.as_str(), b.rule_id.as_str())
}

/// Normalizes an audit's findings (see [`normalized`]): drops those whose rule
/// is disabled or whose suppression key is baselined, applies the configured
/// severity overrides, keeps the first finding of each identity, and orders
/// them by severity (highest first), file, line, column and rule id, keeping
/// the original order among ties.
pub fn normalize_findings(findings: Vec<Finding>, config: &AuditConfig) -> (r: Vec<Finding>)
    ensures
        views(r@) == normalized(views(findings@), *config),
        forall|i: int, k: int| 0 <= i < r@.len() && 0 <= k < config.severity_overrides@.len()
            && (#[trigger] config.severity_overrides@[k]).0@ == (#[trigger] r@[i]).rule_id@
            && (forall|j: int| 0 <= j < k ==> (#[trigger] config.severity_overrides@[j]).0@ != config.severity_overrides@[k].0@)
            ==> r@[i].severity == config.severity_overrides@[k].1,
{
    let r = normalize_findings_inner(findings, config);
    proof {
        assert forall|i: int, k: int| 0 <= i < r@.len() && 0 <= k < config.severity_overrides@.len()
            && (#[trigger] config.severity_overrides@[k]).0@ == (#[trigger] r@[i]).rule_id@
            && (forall|j: int| 0 <= j < k ==> (#[trigger] config.severity_overrides@[j]).0@ != config.severity_overrides@[k].0@)
            implies r@[i].severity == config.severity_overrides@[k].1 by {
            assert(views(r@)[i] == r@[i]@);
            law_normalize_applies_overrides(views(findings@), *config, i, k);
        }
    }
    r
}

/// The normalized findings (see [`normalized`]).
fn normalize_findings_inner(findings: Vec<Finding>, config: &AuditConfig) -> (r: Vec<Finding>)
    ensures
        views(r@) == normalized(views(findings@), *config),
{
    let ghost fv = views(findings@);
    // Suppression and severity overrides.
    let mut kept_list: Vec<Finding> = Vec::new();
    let mut kept_keys: Vec<String> = Vec::new();
    let mut i: usize = 0;
    assert(views(kept_list@) =~= seq![]);
    while i < findings.len()
        invariant
            i <= findings@.len(),
            fv == views(findings@),
            views(kept_list@) == suppressed(fv.take(i as int), *config),
        decreases findings@.len() - i,
    {
        let ghost t = fv.take(i + 1);
        assert(t.drop_last() =~= fv.take(i as int));
        assert(t.last() == findings@[i as int]@);
        let f = copy_finding(&findings[i]);
        let disabled = crate::bun::release_sync::has_id(&config.disabled_rules, f.rule_id.as_str());
        let baselined = crate::bun::release_sync::has_id(&config.baseline_keys, f.suppression_key.as_str());
        if !disabled && !baselined {
            let mut g = f;
            match override_of(&config.severity_overrides, g.rule_id.as_str()) {
                Some(s) => {
                    g.severity = s;
                },
                None => {},
            }
            let ghost before_push = views(kept_list@);
            kept_list.push(g);
            assert(views(kept_list@) =~= before_push.push(overridden(t.last(), config.severity_overrides@)));
        }
        i = i + 1;
    }
    assert(fv.take(findings@.len() as int) =~= fv);
    let ghost sv = views(kept_list@);
    // Duplicates.
    let mut uniq: Vec<Finding> = Vec::new();
    let mut j: usize = 0;
    assert(views(uniq@) =~= seq![]);
    while j < kept_list.len()
        invariant
            j <= kept_list@.len(),
            sv == views(kept_list@),
            views(uniq@) == unique(sv.take(j as int)),
            strs(kept_keys@) == views(uniq@).map_values(|g: FindingView| dedup_key(g)),
        decreases kept_list@.len() - j,
    {
        let ghost t = sv.take(j + 1);
        assert(t.drop_last() =~= sv.take(j as int));
        assert(t.last() == kept_list@[j as int]@);
        let k = key_of(&kept_list[j]);
        if !crate::bun::release_sync::has_id(&kept_keys, k.as_str()) {
            let ghost before_push = views(uniq@);
            let ghost keys_before = strs(kept_keys@);
            let f = copy_finding(&kept_list[j]);
            uniq.push(f);
            kept_keys.push(k);
            assert(views(uniq@) =~= before_push.push(t.last()));
            assert(strs(kept_keys@) =~= keys_before.push(dedup_key(t.last())));
            assert(strs(kept_keys@) =~= views(uniq@).map_values(|g: FindingView| dedup_key(g)));
        }
        j = j + 1;
    }
    assert(sv.take(kept_list@.len() as int) =~= sv);
    let ghost uv = views(uniq@);
    // Report order.
    let mut out: Vec<Finding> = Vec::new();
    let mut m: usize = 0;
    assert(views(out@) =~= seq![]);
    while m < uniq.len()
        invariant
            m <= uniq@.len(),
            uv == views(uniq@),
            views(out@) == in_report_order(uv.take(m as int)),
            out@.len() == m,
        decreases uniq@.len() - m,
    {
        let ghost t = uv.take(m + 1);
        assert(t.drop_last() =~= uv.take(m as int));
        assert(t.last() == uniq@[m as int]@);
        let f = copy_finding(&uniq[m]);
        let ghost s = views(out@);
        let mut k: usize = 0;
        assert(s.skip(0) =~= s);
        while k < out.len() && !before(&f, &out[k])
            invariant
                k <= out@.len(),
                s == views(out@),
                insertion_point(s, f@) == k + insertion_point(s.skip(k as int), f@),
            decreases out@.len() - k,
        {
            assert(s.skip(k as int)[0] == out@[k as int]@);
            assert(s.skip(k as int).drop_first() =~= s.skip(k + 1));
            k = k + 1;
        }
        proof {
            if k < out@.len() {
                assert(s.skip(k as int)[0] == out@[k as int]@);
            }
            assert(insertion_point(s, f@) == k);
            lemma_in_report_order_len(t);
        }
        out.insert(k, f);
        assert(views(out@) =~= s.insert(k as int, t.last()));
        m = m + 1;
    }
    assert(uv.take(uniq@.len() as int) =~= uv);
    out
}

} // verus!

verus! {

/// Reporting order is transitive.
proof fn lemma_reported_before_transitive(a: FindingView, b: FindingView, c: FindingView)
    requires
        reported_before(a, b),
        reported_before(b, c),
    ensures
        reported_before(a, c),
{
    if severity_rank(a.severity) == severity_rank(b.severity) && severity_rank(b.severity) == severity_rank(c.severity) {
        if a.file != b.file && b.file != c.file {
            crate::order::lemma_lex_transitive(a.file, b.file, c.file);
            if a.file == c.file {
                crate::order::lemma_lex_irreflexive(a.file);
            }
        } else if a.file == b.file && b.file == c.file {
            if a.line == b.line && b.line == c.line && a.column == b.column && b.column == c.column {
                crate::order::lemma_lex_transitive(a.rule_id, b.rule_id, c.rule_id);
            }
        }
    }
}

/// Reporting order is asymmetric.
proof fn lemma_reported_before_asymmetric(a: FindingView, b: FindingView)
    requires
        reported_before(a, b),
    ensures
        !reported_before(b, a),
{
    if reported_before(b, a) {
        lemma_reported_before_transitive(a, b, a);
        crate::order::lemma_lex_irreflexive(a.file);
        crate::order::lemma_lex_irreflexive(a.rule_id);
    }
}

/// Whether no finding of `s` is reported before an earlier one.
pub open spec fn in_order(s: Seq<FindingView>) -> bool {
    forall|i: int, j: int| 0 <= i < j < s.len() ==> !reported_before(#[trigger] s[j], #[trigger] s[i])
}

/// Whether no two findings of `s` share an identity.
pub open spec fn keys_distinct(s: Seq<FindingView>) -> bool {
    forall|i: int, j: int| 0 <= i < j < s.len() ==> dedup_key(#[trigger] s[i]) != dedup_key(#[trigger] s[j])
}

proof fn lemma_insertion_point_props(s: Seq<FindingView>, x: FindingView)
    ensures
        insertion_point(s, x) <= s.len(),
        forall|i: int| 0 <= i < insertion_point(s, x) ==> !reported_before(x, #[trigger] s[i]),
        insertion_point(s, x) < s.len() ==> reported_before(x, s[insertion_point(s, x) as int]),
    decreases s.len(),
{
    if s.len() > 0 && !reported_before(x, s[0]) {
        lemma_insertion_point_props(s.drop_first(), x);
        assert forall|i: int| 0 <= i < insertion_point(s, x) implies !reported_before(x, #[trigger] s[i]) by {
            if i > 0 {
                assert(s[i] == s.drop_first()[i - 1]);
            }
        }
    }
}

/// Report order keeps the findings, keeps identities distinct, and is in order.
#[verifier::rlimit(60)]
proof fn lemma_report_order(fs: Seq<FindingView>)
    ensures
        in_report_order(fs).len() == fs.len(),
        forall|e: FindingView| #[trigger] in_report_order(fs).contains(e) <==> fs.contains(e),
        keys_distinct(fs) ==> keys_distinct(in_report_order(fs)),
        in_order(in_report_order(fs)),
    decreases fs.len(),
{
    if fs.len() > 0 {
        let p = fs.drop_last();
        let x = fs.last();
        lemma_report_order(p);
        let s = in_report_order(p);
        lemma_insertion_point_props(s, x);
        let k = insertion_point(s, x) as int;
        let o = s.insert(k, x);
        assert(in_report_order(fs) == o);
        assert forall|e: FindingView| #[trigger] o.contains(e) <==> fs.contains(e) by {
            if o.contains(e) {
                let i = choose|i: int| 0 <= i < o.len() && o[i] == e;
                if i < k {
                    assert(s[i] == e);
                    assert(s.contains(e));
                    assert(in_report_order(p).contains(e));
                    assert(p.contains(e));
                } else if i > k {
                    assert(s[i - 1] == e);
                    assert(s.contains(e));
                    assert(in_report_order(p).contains(e));
                    assert(p.contains(e));
                } else {
                    assert(fs[fs.len() - 1] == e);
                }
                if p.contains(e) {
                    let q = choose|q: int| 0 <= q < p.len() && p[q] == e;
                    assert(fs[q] == e);
                }
            }
            if fs.contains(e) {
                let q = choose|q: int| 0 <= q < fs.len() && fs[q] == e;
                if q == fs.len() - 1 {
                    assert(o[k] == e);
                } else {
                    assert(p[q] == e);
                    assert(p.contains(e));
                    assert(in_report_order(p).contains(e));
                    assert(s.contains(e));
                    let i = choose|i: int| 0 <= i < s.len() && s[i] == e;
                    if i < k {
                        assert(o[i] == e);
                    } else {
                        assert(o[i + 1] == e);
                    }
                }
            }
        }
        if keys_distinct(fs) {
            assert forall|i: int, j: int| 0 <= i < j < p.len() implies dedup_key(#[trigger] p[i]) != dedup_key(#[trigger] p[j]) by {
                assert(p[i] == fs[i] && p[j] == fs[j]);
            }
            assert forall|i: int| 0 <= i < s.len() implies dedup_key(#[trigger] s[i]) != dedup_key(x) by {
                assert(s.contains(s[i]));
                let q = choose|q: int| 0 <= q < p.len() && p[q] == s[i];
                assert(fs[q] == s[i]);
            }
            assert forall|i: int, j: int| 0 <= i < j < o.len() implies dedup_key(#[trigger] o[i]) != dedup_key(#[trigger] o[j]) by {
                if i < k && j < k {
                    assert(o[i] == s[i] && o[j] == s[j]);
                } else if i < k && j == k {
                    assert(o[i] == s[i]);
                } else if i < k {
                    assert(o[i] == s[i] && o[j] == s[j - 1]);
                } else if i == k {
                    assert(o[j] == s[j - 1]);
                } else {
                    assert(o[i] == s[i - 1] && o[j] == s[j - 1]);
                }
            }
        }
        assert forall|i: int, j: int| 0 <= i < j < o.len() implies !reported_before(#[trigger] o[j], #[trigger] o[i]) by {
            if i < k && j < k {
                assert(o[i] == s[i] && o[j] == s[j]);
            } else if i < k && j == k {
                assert(o[i] == s[i]);
            } else if i < k {
                assert(o[i] == s[i] && o[j] == s[j - 1]);
                if reported_before(s[j - 1], s[i]) {
                }
            } else if i == k {
                assert(o[j] == s[j - 1]);
                if reported_before(s[j - 1], x) {
                    if j - 1 == k {
                        lemma_reported_before_asymmetric(x, s[k]);
                    } else {
                        lemma_reported_before_transitive(s[j - 1], x, s[k]);
                    }
                }
            } else {
                assert(o[i] == s[i - 1] && o[j] == s[j - 1]);
            }
        }
    }
}

/// Report order leaves findings already in order as they are.
proof fn lemma_report_order_fixed(y: Seq<FindingView>)
    requires
        in_order(y),
    ensures
        in_report_order(y) == y,
    decreases y.len(),
{
    if y.len() > 0 {
        let p = y.drop_last();
        assert forall|i: int, j: int| 0 <= i < j < p.len() implies !reported_before(#[trigger] p[j], #[trigger] p[i]) by {
            assert(p[i] == y[i] && p[j] == y[j]);
        }
        lemma_report_order_fixed(p);
        lemma_insertion_point_props(p, y.last());
        let k = insertion_point(p, y.last()) as int;
        if k < p.len() {
            assert(reported_before(y.last(), p[k]));
            assert(p[k] == y[k]);
            assert(!reported_before(y[y.len() - 1], y[k]));
        }
        assert(p.insert(k, y.last()) =~= y);
    }
}

/// What suppression keeps is kept again, with the same severity.
proof fn lemma_suppressed_elems(fs: Seq<FindingView>, c: AuditConfig)
    ensures
        forall|i: int| 0 <= i < suppressed(fs, c).len() ==> kept(#[trigger] suppressed(fs, c)[i], strs(c.disabled_rules@), strs(c.baseline_keys@))
            && overridden(suppressed(fs, c)[i], c.severity_overrides@) == suppressed(fs, c)[i],
    decreases fs.len(),
{
    if fs.len() > 0 {
        lemma_suppressed_elems(fs.drop_last(), c);
    }
}

/// Suppression leaves alone findings it would keep unchanged.
proof fn lemma_suppressed_fixed(y: Seq<FindingView>, c: AuditConfig)
    requires
        forall|i: int| 0 <= i < y.len() ==> kept(#[trigger] y[i], strs(c.disabled_rules@), strs(c.baseline_keys@))
            && overridden(y[i], c.severity_overrides@) == y[i],
    ensures
        suppressed(y, c) == y,
    decreases y.len(),
{
    if y.len() > 0 {
        let p = y.drop_last();
        assert forall|i: int| 0 <= i < p.len() implies kept(#[trigger] p[i], strs(c.disabled_rules@), strs(c.baseline_keys@))
            && overridden(p[i], c.severity_overrides@) == p[i] by {
            assert(p[i] == y[i]);
        }
        lemma_suppressed_fixed(p, c);
        assert(y.last() == y[y.len() - 1]);
        assert(p.push(y.last()) =~= y);
    }
}

/// The first finding of each identity comes from `fs`, each identity once.
proof fn lemma_unique_props(fs: Seq<FindingView>)
    ensures
        forall|i: int| 0 <= i < unique(fs).len() ==> fs.contains(#[trigger] unique(fs)[i]),
        keys_distinct(unique(fs)),
    decreases fs.len(),
{
    if fs.len() > 0 {
        let p = fs.drop_last();
        lemma_unique_props(p);
        let u = unique(p);
        assert forall|i: int| 0 <= i < u.len() implies fs.contains(#[trigger] u[i]) by {
            assert(p.contains(u[i]));
            let q = choose|q: int| 0 <= q < p.len() && p[q] == u[i];
            assert(fs[q] == u[i]);
        }
        if !u.map_values(|g: FindingView| dedup_key(g)).contains(dedup_key(fs.last())) {
            let v = u.push(fs.last());
            assert(fs[fs.len() - 1] == fs.last());
            assert forall|i: int, j: int| 0 <= i < j < v.len() implies dedup_key(#[trigger] v[i]) != dedup_key(#[trigger] v[j]) by {
                if j == u.len() {
                    assert(u.map_values(|g: FindingView| dedup_key(g))[i] == dedup_key(u[i]));
                }
            }
        }
    }
}

/// Deduplication leaves findings with distinct identities as they are.
proof fn lemma_unique_fixed(y: Seq<FindingView>)
    requires
        keys_distinct(y),
    ensures
        unique(y) == y,
    decreases y.len(),
{
    if y.len() > 0 {
        let p = y.drop_last();
        assert forall|i: int, j: int| 0 <= i < j < p.len() implies dedup_key(#[trigger] p[i]) != dedup_key(#[trigger] p[j]) by {
            assert(p[i] == y[i] && p[j] == y[j]);
        }
        lemma_unique_fixed(p);
        if p.map_values(|g: FindingView| dedup_key(g)).contains(dedup_key(y.last())) {
            let ks = p.map_values(|g: FindingView| dedup_key(g));
            let q = choose|q: int| 0 <= q < ks.len() && #[trigger] ks[q] == dedup_key(y.last());
            assert(p[q] == y[q]);
            assert(dedup_key(y[q]) != dedup_key(y[y.len() - 1]));
        }
        assert(p.push(y.last()) =~= y);
    }
}

/// Normalizing findings a second time changes nothing: what is left is kept,
/// already overridden, free of duplicates and in report order.
pub proof fn lemma_normalize_idempotent(fs: Seq<FindingView>, c: AuditConfig)
    ensures
        normalized(normalized(fs, c), c) == normalized(fs, c),
{
    let s = suppressed(fs, c);
    let u = unique(s);
    let n = in_report_order(u);
    lemma_suppressed_elems(fs, c);
    lemma_unique_props(s);
    lemma_report_order(u);
    assert forall|i: int| 0 <= i < n.len() implies kept(#[trigger] n[i], strs(c.disabled_rules@), strs(c.baseline_keys@))
        && overridden(n[i], c.severity_overrides@) == n[i] by {
        assert(n.contains(n[i]));
        assert(u.contains(n[i]));
        let q = choose|q: int| 0 <= q < u.len() && u[q] == n[i];
        assert(s.contains(u[q]));
        let r = choose|r: int| 0 <= r < s.len() && s[r] == u[q];
    }
    lemma_suppressed_fixed(n, c);
    lemma_unique_fixed(n);
    lemma_report_order_fixed(n);
}

} // verus!

verus! {

/// The severity override of rule `rule_id` is the first entry naming it.
proof fn lemma_override_first(ovs: Seq<(String, Severity)>, rule_id: Seq<char>, k: int)
    requires
        0 <= k < ovs.len(),
        ovs[k].0@ == rule_id,
        forall|j: int| 0 <= j < k ==> (#[trigger] ovs[j]).0@ != rule_id,
    ensures
        override_for(ovs, rule_id) == Some(ovs[k].1),
    decreases k,
{
    if k > 0 {
        assert(ovs[0].0@ != rule_id);
        let t = ovs.drop_first();
        assert forall|j: int| 0 <= j < k - 1 implies (#[trigger] t[j]).0@ != rule_id by {
            assert(t[j] == ovs[j + 1]);
        }
        lemma_override_first(t, rule_id, k - 1);
    }
}

/// Every normalized finding whose rule has a severity override carries the
/// severity of the first override entry for that rule.
pub proof fn law_normalize_applies_overrides(fs: Seq<FindingView>, c: AuditConfig, i: int, k: int)
    requires
        0 <= i < normalized(fs, c).len(),
        0 <= k < c.severity_overrides@.len(),
        c.severity_overrides@[k].0@ == normalized(fs, c)[i].rule_id,
        forall|j: int| 0 <= j < k ==> (#[trigger] c.severity_overrides@[j]).0@ != c.severity_overrides@[k].0@,
    ensures
        normalized(fs, c)[i].severity == c.severity_overrides@[k].1,
{
    let s = suppressed(fs, c);
    let u = unique(s);
    let n = in_report_order(u);
    lemma_suppressed_elems(fs, c);
    lemma_unique_props(s);
    lemma_report_order(u);
    let e = n[i];
    assert(n.contains(e));
    assert(u.contains(e));
    let q = choose|q: int| 0 <= q < u.len() && u[q] == e;
    assert(s.contains(u[q]));
    let r = choose|r: int| 0 <= r < s.len() && s[r] == u[q];
    assert(overridden(s[r], c.severity_overrides@) == s[r]);
    lemma_override_first(c.severity_overrides@, e.rule_id, k);
}

} // verus!
