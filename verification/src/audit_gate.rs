//! The CI layer shared by the static auditors: path exclusion by glob,
//! occurrence-sensitive fingerprints, and a baseline of accepted findings.
use vstd::prelude::*;

use crate::text::{chars_of, decimal, owned, push_all, push_decimal, string_of};
use vstd::utf8::encode_utf8;

verus! {

/// How serious a finding is, shared across the auditors.
#[derive(Debug, Clone, Copy, PartialEq, Eq, Structural, PartialOrd, Ord)]
pub enum GateSeverity {
    Low,
    Medium,
    High,
}

/// The lowercase name the auditors emit for a severity.
pub open spec fn gate_severity_name(s: GateSeverity) -> Seq<char> {
    match s {
        GateSeverity::Low => "low"@,
        GateSeverity::Medium => "medium"@,
        GateSeverity::High => "high"@,
    }
}

/// The SARIF level for a severity (SARIF has no "medium").
pub open spec fn gate_sarif_level(s: GateSeverity) -> Seq<char> {
    match s {
        GateSeverity::High => "error"@,
        GateSeverity::Medium => "warning"@,
        GateSeverity::Low => "note"@,
    }
}

/// Whether two string slices hold the same characters.
pub fn str_eq(a: &str, b: &str) -> (r: bool)
    ensures
        r == (a@ == b@),
{
    let x = chars_of(a);
    let y = chars_of(b);
    if x.len() != y.len() {
        return false;
    }
    let mut i: usize = 0;
    while i < x.len()
        invariant
            x@ == a@,
            y@ == b@,
            x.len() == y.len(),
            i <= x.len(),
            forall|j: int| 0 <= j < i ==> x@[j] == y@[j],
        decreases x.len() - i,
    {
        if x[i] != y[i] {
            return false;
        }
        i = i + 1;
    }
    assert(x@ =~= y@);
    true
}

impl GateSeverity {
    /// Parse the lowercase form the auditors already emit.
    pub fn parse(value: &str) -> (r: Option<GateSeverity>)
        ensures
            r matches Some(s) ==> gate_severity_name(s) == value@,
            r is None ==> (forall|s: GateSeverity| gate_severity_name(s) != value@),
    {
        if str_eq(value, "low") {
            Some(GateSeverity::Low)
        } else if str_eq(value, "medium") {
            Some(GateSeverity::Medium)
        } else if str_eq(value, "high") {
            Some(GateSeverity::High)
        } else {
            proof {
                assert forall|s: GateSeverity| gate_severity_name(s) != value@ by {
                    match s {
                        GateSeverity::Low => {},
                        GateSeverity::Medium => {},
                        GateSeverity::High => {},
                    }
                }
            }
            None
        }
    }

    /// The lowercase name of this severity.
    pub fn as_str(self) -> (r: &'static str)
        ensures
            r@ == gate_severity_name(self),
    {
        match self {
            GateSeverity::Low => "low",
            GateSeverity::Medium => "medium",
            GateSeverity::High => "high",
        }
    }

    /// The SARIF level of this severity: `error`, `warning` or `note`.
    pub fn sarif_level(self) -> (r: &'static str)
        ensures
            r@ == gate_sarif_level(self),
    {
        match self {
            GateSeverity::High => "error",
            GateSeverity::Medium => "warning",
            GateSeverity::Low => "note",
        }
    }
}

/// Parsing the name of a severity gives that severity back, and the names of
/// distinct severities are distinct.
pub proof fn lemma_gate_severity_name_round_trip(s: GateSeverity, t: GateSeverity)
    ensures
        gate_severity_name(s) == gate_severity_name(t) ==> s == t,
{
    reveal_strlit("low");
    reveal_strlit("medium");
    reveal_strlit("high");
    if gate_severity_name(s) == gate_severity_name(t) && s != t {
        match (s, t) {
            (GateSeverity::Low, GateSeverity::Medium) => {
                assert(gate_severity_name(s).len() != gate_severity_name(t).len());
            },
            (GateSeverity::Medium, GateSeverity::Low) => {
                assert(gate_severity_name(s).len() != gate_severity_name(t).len());
            },
            (GateSeverity::Low, GateSeverity::High) => {
                assert(gate_severity_name(s)[0] != gate_severity_name(t)[0]);
            },
            (GateSeverity::High, GateSeverity::Low) => {
                assert(gate_severity_name(s)[0] != gate_severity_name(t)[0]);
            },
            (GateSeverity::Medium, GateSeverity::High) => {
                assert(gate_severity_name(s).len() != gate_severity_name(t).len());
            },
            (GateSeverity::High, GateSeverity::Medium) => {
                assert(gate_severity_name(s).len() != gate_severity_name(t).len());
            },
            _ => {},
        }
    }
}

/// One finding, normalized across the auditors.
#[derive(Debug, Clone, PartialEq, Eq)]
pub struct GateFinding {
    pub id: String,
    pub severity: GateSeverity,
    pub file: String,
    pub line: u32,
    pub message: String,
}

/// The rule-and-file part of a finding's identity: `id::file`.
pub open spec fn site_of(f: GateFinding) -> Seq<char> {
    f.id@ + "::"@ + f.file@
}

/// The sites of a result set, in order.
pub open spec fn sites_of(fs: Seq<GateFinding>) -> Seq<Seq<char>> {
    fs.map_values(|f: GateFinding| site_of(f))
}

/// How many of the first `n` entries of `xs` equal `x`.
pub open spec fn count_prefix(xs: Seq<Seq<char>>, x: Seq<char>, n: int) -> nat
    decreases n,
{
    if n <= 0 {
        0
    } else {
        count_prefix(xs, x, n - 1) + if xs[n - 1] == x {
            1nat
        } else {
            0nat
        }
    }
}

/// Which occurrence of its site the finding at `i` is, counting from zero.
pub open spec fn occurrence(fs: Seq<GateFinding>, i: int) -> nat {
    count_prefix(sites_of(fs), site_of(fs[i]), i)
}

/// The fingerprint of the finding at `i`: `id::file::ordinal`.
pub open spec fn fingerprint_at(fs: Seq<GateFinding>, i: int) -> Seq<char> {
    site_of(fs[i]) + "::"@ + decimal(occurrence(fs, i))
}

impl GateFinding {
    /// The rule-and-file part of the identity, shared by every occurrence.
    fn site(&self) -> (r: String)
        ensures
            r@ == site_of(*self),
    {
        let mut out = String::new();
        push_all(&mut out, self.id.as_str());
        push_all(&mut out, "::");
        push_all(&mut out, self.file.as_str());
        out
    }
}

proof fn lemma_count_prefix_bound(xs: Seq<Seq<char>>, x: Seq<char>, n: int)
    requires
        0 <= n,
    ensures
        count_prefix(xs, x, n) <= n,
    decreases n,
{
    if n > 0 {
        lemma_count_prefix_bound(xs, x, n - 1);
    }
}

/// The count of `x` among the first `n` entries never falls as `n` grows.
proof fn lemma_count_prefix_monotone(xs: Seq<Seq<char>>, x: Seq<char>, m: int, n: int)
    requires
        0 <= m <= n,
    ensures
        count_prefix(xs, x, m) <= count_prefix(xs, x, n),
    decreases n - m,
{
    if m < n {
        lemma_count_prefix_monotone(xs, x, m, n - 1);
    }
}

/// A text followed by `::` and a run of digits splits back into the two.
proof fn lemma_split_digit_suffix(s1: Seq<char>, d1: Seq<char>, s2: Seq<char>, d2: Seq<char>)
    requires
        s1 + "::"@ + d1 == s2 + "::"@ + d2,
        d1.len() >= 1,
        d2.len() >= 1,
        crate::text::all_digits(d1),
        crate::text::all_digits(d2),
    ensures
        s1 == s2,
        d1 == d2,
{
    reveal_strlit("::");
    let t = s1 + "::"@ + d1;
    let u = s2 + "::"@ + d2;
    let n = t.len();
    if d1.len() < d2.len() {
        let k = n - d1.len() - 1;
        assert(t[k] == ':');
        assert(u[k] == d2[k - s2.len() - 2]);
        assert('0' <= d2[k - s2.len() - 2] <= '9');
    } else if d2.len() < d1.len() {
        let k = n - d2.len() - 1;
        assert(u[k] == ':');
        assert(t[k] == d1[k - s1.len() - 2]);
        assert('0' <= d1[k - s1.len() - 2] <= '9');
    }
    assert(s1.len() == s2.len());
    assert forall|i: int| 0 <= i < s1.len() implies s1[i] == s2[i] by {
        assert(t[i] == u[i]);
    }
    assert forall|i: int| 0 <= i < d1.len() implies d1[i] == d2[i] by {
        assert(t[s1.len() + 2 + i] == u[s2.len() + 2 + i]);
    }
    assert(s1 =~= s2);
    assert(d1 =~= d2);
}

/// No two findings of a result set share a fingerprint: findings at the same
/// site differ in their ordinal, and a fingerprint's site and ordinal can be
/// read back from it.
pub proof fn lemma_fingerprints_distinct(fs: Seq<GateFinding>, i: int, j: int)
    requires
        0 <= i < j < fs.len(),
    ensures
        fingerprint_at(fs, i) != fingerprint_at(fs, j),
{
    let oi = occurrence(fs, i);
    let oj = occurrence(fs, j);
    crate::text::lemma_decimal_digits(oi);
    crate::text::lemma_decimal_digits(oj);
    if fingerprint_at(fs, i) == fingerprint_at(fs, j) {
        lemma_split_digit_suffix(site_of(fs[i]), decimal(oi), site_of(fs[j]), decimal(oj));
        crate::text::lemma_decimal_injective(oi, oj);
        let xs = sites_of(fs);
        let x = site_of(fs[i]);
        assert(xs[i] == x);
        assert(xs[j] == x);
        lemma_count_prefix_monotone(xs, x, i + 1, j);
        assert(count_prefix(xs, x, i + 1) == count_prefix(xs, x, i) + 1);
    }
}

/// Fingerprints for a whole result set, one per finding.
///
/// Identity is `rule-id::file::ordinal`; line numbers and messages are not
/// part of it, and the ordinal counts earlier findings with the same site.
pub fn fingerprints(findings: &[GateFinding]) -> (r: Vec<String>)
    ensures
        r.len() == findings@.len(),
        forall|i: int| 0 <= i < r.len() ==> #[trigger] r@[i]@ == fingerprint_at(findings@, i),
{
    let mut sites: Vec<String> = Vec::new();
    let mut out: Vec<String> = Vec::new();
    let ghost fs = findings@;
    let mut i: usize = 0;
    while i < findings.len()
        invariant
            fs == findings@,
            i <= fs.len(),
            sites.len() == i,
            out.len() == i,
            forall|j: int| 0 <= j < i ==> #[trigger] sites@[j]@ == sites_of(fs)[j],
            forall|j: int| 0 <= j < i ==> #[trigger] out@[j]@ == fingerprint_at(fs, j),
        decreases fs.len() - i,
    {
        let site = findings[i].site();
        let mut count: usize = 0;
        let mut j: usize = 0;
        while j < i
            invariant
                fs == findings@,
                i < fs.len(),
                j <= i,
                sites.len() == i,
                site@ == site_of(fs[i as int]),
                forall|k: int| 0 <= k < i ==> #[trigger] sites@[k]@ == sites_of(fs)[k],
                count == count_prefix(sites_of(fs), site_of(fs[i as int]), j as int),
            decreases i - j,
        {
            proof {
                lemma_count_prefix_bound(sites_of(fs), site_of(fs[i as int]), j as int);
            }
            if sites[j] == site {
                count = count + 1;
            }
            j = j + 1;
        }
        let mut value = String::new();
        push_all(&mut value, site.as_str());
        push_all(&mut value, "::");
        push_decimal(&mut value, count as u64);
        assert(value@ == fingerprint_at(fs, i as int));
        sites.push(site);
        out.push(value);
        i = i + 1;
    }
    out
}


/// Whether `**` is directly followed by a separator in `p` (which starts with `**`).
pub open spec fn dstar_boundary(p: Seq<u8>) -> bool {
    p.len() > 2 && p[2] == 47u8
}

/// What a pattern starting with `**` (and its separator, if any) leaves to match.
pub open spec fn dstar_rest(p: Seq<u8>) -> Seq<u8> {
    if dstar_boundary(p) {
        p.skip(3)
    } else {
        p.skip(2)
    }
}

/// Whether splitting `s` at `k` respects the component boundary `**/` asks for.
pub open spec fn boundary_ok(needs_boundary: bool, s: Seq<u8>, k: int) -> bool {
    !needs_boundary || k == 0 || s[k - 1] == 47u8
}

/// The byte-level glob semantics behind [`glob_matches`]: `**` crosses
/// separators (keeping a component boundary before what follows `**/`), `*`
/// stops at `/`, `?` is one non-separator byte, and anything else is literal.
pub open spec fn bytes_match(p: Seq<u8>, s: Seq<u8>) -> bool
    decreases p.len(), s.len() + 2,
{
    if p.len() == 0 {
        s.len() == 0
    } else if p.len() >= 2 && p[0] == 42u8 && p[1] == 42u8 {
        dstar_rest(p).len() == 0 || dstar_from(dstar_rest(p), s, dstar_boundary(p), 0)
    } else if p[0] == 42u8 {
        star_from(p.skip(1), s, 0)
    } else if p[0] == 63u8 {
        s.len() > 0 && s[0] != 47u8 && bytes_match(p.skip(1), s.skip(1))
    } else {
        s.len() > 0 && s[0] == p[0] && bytes_match(p.skip(1), s.skip(1))
    }
}

/// Whether `rest` matches `s.skip(j)` for some boundary-respecting split
/// `k <= j <= s.len()`: the choices `**` has.
pub open spec fn dstar_from(rest: Seq<u8>, s: Seq<u8>, needs_boundary: bool, k: int) -> bool
    decreases rest.len() + 1, s.len() + 1 - k,
{
    if 0 <= k <= s.len() {
        (boundary_ok(needs_boundary, s, k) && bytes_match(rest, s.skip(k))) || dstar_from(
            rest,
            s,
            needs_boundary,
            k + 1,
        )
    } else {
        false
    }
}

/// Whether `p1` matches `s.skip(j)` for some `j >= k` reached from `k`
/// without crossing a separator: the choices `*` has.
pub open spec fn star_from(p1: Seq<u8>, s: Seq<u8>, k: int) -> bool
    decreases p1.len() + 1, s.len() + 1 - k,
{
    if 0 <= k <= s.len() {
        bytes_match(p1, s.skip(k)) || (k < s.len() && s[k] != 47u8 && star_from(p1, s, k + 1))
    } else {
        false
    }
}

fn matches_from(pattern: &[u8], pi: usize, path: &[u8], si: usize) -> (r: bool)
    requires
        pi <= pattern@.len(),
        si <= path@.len(),
    ensures
        r == bytes_match(pattern@.skip(pi as int), path@.skip(si as int)),
    decreases pattern@.len() - pi,
{
    let ghost p = pattern@.skip(pi as int);
    let ghost s = path@.skip(si as int);
    if pi == pattern.len() {
        return si == path.len();
    }
    assert(p.len() > 0 && p[0] == pattern@[pi as int]);
    let next: usize = pi + 1;
    assert(p.skip(1) =~= pattern@.skip(next as int));
    if next < pattern.len() && pattern[pi] == 42u8 && pattern[next] == 42u8 {
        let mut ri: usize = next + 1;
        let needs_boundary = ri < pattern.len() && pattern[ri] == 47u8;
        if needs_boundary {
            ri = ri + 1;
        }
        let ghost rest = dstar_rest(p);
        assert(rest =~= pattern@.skip(ri as int));
        assert(needs_boundary == dstar_boundary(p));
        if ri == pattern.len() {
            return true;
        }
        let mut pos: usize = si;
        loop
            invariant
                si <= pos <= path@.len(),
                ri <= pattern@.len(),
                pi < ri,
                s == path@.skip(si as int),
                p == pattern@.skip(pi as int),
                rest == pattern@.skip(ri as int),
                bytes_match(p, s) == dstar_from(rest, s, needs_boundary, 0),
                dstar_from(rest, s, needs_boundary, 0) == dstar_from(
                    rest,
                    s,
                    needs_boundary,
                    pos - si,
                ),
            decreases path@.len() - pos,
        {
            let ghost k = pos - si;
            let ok = !needs_boundary || pos == si || path[pos - 1] == 47u8;
            assert(s.skip(k) =~= path@.skip(pos as int));
            if pos > si {
                assert(s[k - 1] == path@[pos - 1]);
            }
            assert(ok == boundary_ok(needs_boundary, s, k as int));
            if ok && matches_from(pattern, ri, path, pos) {
                return true;
            }
            if pos == path.len() {
                assert(!dstar_from(rest, s, needs_boundary, k + 1));
                return false;
            }
            pos = pos + 1;
        }
    }
    if pattern[pi] == 42u8 {
        let mut pos: usize = si;
        loop
            invariant
                si <= pos <= path@.len(),
                next == pi + 1,
                next <= pattern@.len(),
                s == path@.skip(si as int),
                p == pattern@.skip(pi as int),
                p.skip(1) == pattern@.skip(next as int),
                bytes_match(p, s) == star_from(p.skip(1), s, 0),
                star_from(p.skip(1), s, 0) == star_from(p.skip(1), s, pos - si),
            decreases path@.len() - pos,
        {
            let ghost k = pos - si;
            assert(s.skip(k) =~= path@.skip(pos as int));
            if matches_from(pattern, next, path, pos) {
                return true;
            }
            if pos == path.len() || path[pos] == 47u8 {
                if pos < path.len() {
                    assert(s[k] == path@[pos as int]);
                }
                return false;
            }
            assert(s[k] == path@[pos as int]);
            pos = pos + 1;
        }
    }
    if si == path.len() {
        return false;
    }
    assert(s.skip(1) =~= path@.skip(si + 1));
    assert(s[0] == path@[si as int]);
    if pattern[pi] == 63u8 {
        path[si] != 47u8 && matches_from(pattern, next, path, si + 1)
    } else {
        path[si] == pattern[pi] && matches_from(pattern, next, path, si + 1)
    }
}


/// A pattern with no separator and no wildcard: it names a path component.
pub open spec fn is_bare_pattern(p: Seq<char>) -> bool {
    !p.contains('/') && !p.contains('*') && !p.contains('?')
}

/// Whether `part` occurs in `path` as a whole `/`-separated component.
pub open spec fn component_at(path: Seq<char>, part: Seq<char>, i: int) -> bool {
    &&& 0 <= i
    &&& i + part.len() <= path.len()
    &&& path.subrange(i, i + part.len()) == part
    &&& (i == 0 || path[i - 1] == '/')
    &&& (i + part.len() == path.len() || path[i + part.len()] == '/')
}

/// Whether some `/`-separated component of `path` is exactly `part`.
pub open spec fn has_component(path: Seq<char>, part: Seq<char>) -> bool {
    exists|i: int| #[trigger] component_at(path, part, i)
}

/// What [`glob_matches`] decides for a pattern and a path.
pub open spec fn glob_spec(pattern: Seq<char>, path: Seq<char>) -> bool {
    if is_bare_pattern(pattern) {
        has_component(path, pattern)
    } else {
        bytes_match(encode_utf8(pattern), encode_utf8(path))
    }
}

fn contains_char(v: &Vec<char>, c: char) -> (r: bool)
    ensures
        r == v@.contains(c),
{
    let mut i: usize = 0;
    while i < v.len()
        invariant
            i <= v@.len(),
            forall|j: int| 0 <= j < i ==> v@[j] != c,
        decreases v@.len() - i,
    {
        if v[i] == c {
            return true;
        }
        i = i + 1;
    }
    false
}

/// Whether `a[start..start + b.len()]` equals `b`.
fn region_eq(a: &Vec<char>, start: usize, b: &Vec<char>) -> (r: bool)
    requires
        start + b@.len() <= a@.len(),
    ensures
        r == (a@.subrange(start as int, start + b@.len()) == b@),
{
    let mut j: usize = 0;
    while j < b.len()
        invariant
            start + b.len() <= a.len(),
            j <= b@.len(),
            forall|k: int| 0 <= k < j ==> a@[start + k] == b@[k],
        decreases b@.len() - j,
    {
        if a[start + j] != b[j] {
            assert(a@.subrange(start as int, start + b@.len())[j as int] != b@[j as int]);
            return false;
        }
        j = j + 1;
    }
    assert(a@.subrange(start as int, start + b@.len()) =~= b@);
    true
}

/// Whether some `/`-separated component of `path` equals `part`.
fn has_component_exec(path: &Vec<char>, part: &Vec<char>) -> (r: bool)
    ensures
        r == has_component(path@, part@),
{
    if part.len() > path.len() {
        assert forall|i: int| !#[trigger] component_at(path@, part@, i) by {}
        return false;
    }
    let last = path.len() - part.len();
    let mut i: usize = 0;
    loop
        invariant
            part.len() <= path.len(),
            last == path.len() - part.len(),
            i <= last,
            forall|k: int| 0 <= k < i ==> !#[trigger] component_at(path@, part@, k),
        decreases last - i,
    {
        let left_ok = i == 0 || path[i - 1] == '/';
        let right_ok = i == last || path[i + part.len()] == '/';
        if left_ok && right_ok && region_eq(path, i, part) {
            assert(component_at(path@, part@, i as int));
            return true;
        }
        assert(!component_at(path@, part@, i as int));
        if i == last {
            assert forall|k: int| !#[trigger] component_at(path@, part@, k) by {}
            return false;
        }
        i = i + 1;
    }
}

/// Match a path against a glob supporting `*`, `**` and `?`.
///
/// A pattern with no separator and no wildcard matches any path component,
/// so `node_modules` excludes every `node_modules` directory. Otherwise `*`
/// does not cross a `/`; `**` does.
pub fn glob_matches(pattern: &str, path: &str) -> (r: bool)
    ensures
        r == glob_spec(pattern@, path@),
{
    let p = chars_of(pattern);
    if !contains_char(&p, '/') && !contains_char(&p, '*') && !contains_char(&p, '?') {
        let s = chars_of(path);
        return has_component_exec(&s, &p);
    }
    let pb = pattern.as_bytes();
    let sb = path.as_bytes();
    assert(pb@.skip(0) =~= pb@);
    assert(sb@.skip(0) =~= sb@);
    matches_from(pb, 0, sb, 0)
}

/// `s` with every occurrence of `from` replaced by `to`.
pub open spec fn replace_char(s: Seq<char>, from: char, to: char) -> Seq<char> {
    s.map_values(|c: char| if c == from { to } else { c })
}

/// Whether a path matches any exclusion pattern, after normalizing Windows
/// separators to `/`.
pub fn is_excluded(path: &str, patterns: &[String]) -> (r: bool)
    ensures
        r == exists|i: int|
            0 <= i < patterns@.len() && #[trigger] glob_spec(
                patterns@[i]@,
                replace_char(path@, '\\', '/'),
            ),
{
    let chars = chars_of(path);
    let mut normalized_chars: Vec<char> = Vec::new();
    let mut i: usize = 0;
    while i < chars.len()
        invariant
            i <= chars@.len(),
            normalized_chars@ == replace_char(chars@.take(i as int), '\\', '/'),
        decreases chars@.len() - i,
    {
        let c = chars[i];
        normalized_chars.push(if c == '\\' { '/' } else { c });
        i = i + 1;
        assert(chars@.take(i as int) =~= chars@.take(i - 1).push(c));
        assert(normalized_chars@ =~= replace_char(chars@.take(i as int), '\\', '/'));
    }
    assert(chars@.take(chars@.len() as int) =~= chars@);
    let normalized = string_of(normalized_chars.as_slice());
    let ghost target = replace_char(path@, '\\', '/');
    assert(normalized@ == target);
    let mut k: usize = 0;
    while k < patterns.len()
        invariant
            k <= patterns@.len(),
            normalized@ == target,
            target == replace_char(path@, '\\', '/'),
            forall|j: int| 0 <= j < k ==> !#[trigger] glob_spec(patterns@[j]@, target),
        decreases patterns@.len() - k,
    {
        if glob_matches(patterns[k].as_str(), normalized.as_str()) {
            assert(glob_spec(patterns@[k as int]@, target));
            return true;
        }
        k = k + 1;
    }
    false
}


/// The schema marker a baseline file carries.
pub const BASELINE_SCHEMA: &'static str = "audit-gate.baseline.v1";

/// The fingerprints of a result set, as a set.
pub open spec fn fingerprint_set(fs: Seq<GateFinding>) -> Set<Seq<char>> {
    Set::new(|x: Seq<char>| exists|i: int| 0 <= i < fs.len() && #[trigger] fingerprint_at(fs, i) == x)
}

/// For each finding, whether its fingerprint is absent from `accepted`.
pub open spec fn unseen_spec(accepted: Set<Seq<char>>, fs: Seq<GateFinding>) -> Seq<bool> {
    Seq::new(fs.len(), |i: int| !accepted.contains(fingerprint_at(fs, i)))
}

/// Whether some string in `v` has the characters `x`.
pub open spec fn holds_string(v: Seq<String>, x: Seq<char>) -> bool {
    exists|j: int| 0 <= j < v.len() && #[trigger] v[j]@ == x
}

/// Whether `x` is the fingerprint of one of the first `n` findings.
pub open spec fn among_first(fs: Seq<GateFinding>, n: int, x: Seq<char>) -> bool {
    exists|k: int| 0 <= k < n && #[trigger] fingerprint_at(fs, k) == x
}

/// Known findings a repository has chosen to accept for now.
#[derive(Debug, Default)]
pub struct Baseline {
    /// Schema marker so a stale file fails loudly rather than matching nothing.
    pub schema: String,
    /// Fingerprints, each held once.
    pub findings: Vec<String>,
}

impl Baseline {
    /// The fingerprints this baseline accepts.
    pub open spec fn accepted(&self) -> Set<Seq<char>> {
        Set::new(|x: Seq<char>| exists|j: int| 0 <= j < self.findings@.len() && #[trigger] self.findings@[j]@ == x)
    }

    /// Whether no fingerprint is held twice.
    pub open spec fn distinct(&self) -> bool {
        forall|a: int, b: int|
            0 <= a < b < self.findings@.len() ==> #[trigger] self.findings@[a]@ != #[trigger] self.findings@[b]@
    }

    /// A baseline accepting exactly the findings given, under the current schema.
    pub fn from_findings(findings: &[GateFinding]) -> (r: Baseline)
        ensures
            r.schema@ == BASELINE_SCHEMA@,
            r.accepted() == fingerprint_set(findings@),
            r.distinct(),
            crate::dev::ledger::strictly_sorted(crate::text::strs(r.findings@)),
    {
        let prints = fingerprints(findings);
        let mut kept: Vec<String> = Vec::new();
        let mut i: usize = 0;
        while i < prints.len()
            invariant
                i <= prints@.len(),
                prints@.len() == findings@.len(),
                forall|k: int| 0 <= k < prints@.len() ==> #[trigger] prints@[k]@ == fingerprint_at(findings@, k),
                forall|x: Seq<char>|
                    #![trigger holds_string(kept@, x)]
                    #![trigger among_first(findings@, i as int, x)]
                    holds_string(kept@, x) <==> among_first(findings@, i as int, x),
                forall|a: int, b: int| 0 <= a < b < kept@.len() ==> #[trigger] kept@[a]@ != #[trigger] kept@[b]@,
            decreases prints@.len() - i,
        {
            let mut present = false;
            let mut j: usize = 0;
            while j < kept.len()
                invariant
                    j <= kept@.len(),
                    i < prints@.len(),
                    present == exists|m: int| 0 <= m < j && #[trigger] kept@[m]@ == prints@[i as int]@,
                decreases kept@.len() - j,
            {
                if kept[j] == prints[i] {
                    present = true;
                }
                j = j + 1;
            }
            let ghost before = kept@;
            if !present {
                let value = prints[i].clone();
                kept.push(value);
                assert(kept@[before.len() as int]@ == fingerprint_at(findings@, i as int));
            }
            proof {
                assert forall|x: Seq<char>|
                    holds_string(kept@, x) <==> among_first(findings@, i + 1, x) by {
                    if among_first(findings@, i + 1, x) {
                        let k = choose|k: int| 0 <= k < i + 1 && #[trigger] fingerprint_at(findings@, k) == x;
                        if k < i {
                            assert(among_first(findings@, i as int, x));
                            assert(holds_string(before, x));
                            let j2 = choose|j2: int| 0 <= j2 < before.len() && #[trigger] before[j2]@ == x;
                            assert(kept@[j2]@ == x);
                        } else if present {
                            let m = choose|m: int| 0 <= m < before.len() && #[trigger] before[m]@ == prints@[i as int]@;
                            assert(kept@[m]@ == x);
                        } else {
                            assert(kept@[before.len() as int]@ == x);
                        }
                    }
                    if holds_string(kept@, x) {
                        let j2 = choose|j2: int| 0 <= j2 < kept@.len() && #[trigger] kept@[j2]@ == x;
                        if j2 < before.len() {
                            assert(before[j2]@ == x);
                            assert(holds_string(before, x));
                            assert(among_first(findings@, i as int, x));
                            let k = choose|k: int| 0 <= k < i && #[trigger] fingerprint_at(findings@, k) == x;
                            assert(fingerprint_at(findings@, k) == x);
                        } else {
                            assert(fingerprint_at(findings@, i as int) == x);
                        }
                    }
                }
            }
            i = i + 1;
        }
        let sorted = crate::order::sort_strings(&kept);
        proof {
            broadcast use vstd::seq_lib::group_to_multiset_ensures;
            let ks = crate::text::strs(kept@);
            let ss = crate::text::strs(sorted@);
            assert forall|a: int, b: int| 0 <= a < ks.len() && 0 <= b < ks.len() && a != b implies ks[a] != ks[b] by {
                if a < b {
                    assert(kept@[a]@ != kept@[b]@);
                } else {
                    assert(kept@[b]@ != kept@[a]@);
                }
            }
            assert(ks.no_duplicates());
            ks.lemma_multiset_has_no_duplicates();
            assert forall|x: Seq<char>| ss.to_multiset().contains(x) implies ss.to_multiset().count(x) == 1 by {
                assert(ks.to_multiset().count(x) == ss.to_multiset().count(x));
            }
            ss.lemma_multiset_has_no_duplicates_conv();
            assert forall|a: int, b: int| 0 <= a < b < ss.len() implies crate::dev::ledger::lex_less(#[trigger] ss[a], #[trigger] ss[b]) by {
                assert(ss[a] != ss[b]);
                assert(!crate::dev::ledger::lex_less(ss[b], ss[a]));
                crate::order::lemma_lex_total(ss[a], ss[b]);
            }
            assert forall|x: Seq<char>| holds_string(sorted@, x) == holds_string(kept@, x) by {
                if holds_string(sorted@, x) {
                    let j = choose|j: int| 0 <= j < sorted@.len() && #[trigger] sorted@[j]@ == x;
                    assert(ss[j] == x);
                    assert(ss.contains(x));
                    assert(ks.to_multiset().count(x) == ss.to_multiset().count(x));
                    assert(ks.contains(x));
                    let k = choose|k: int| 0 <= k < ks.len() && ks[k] == x;
                    assert(kept@[k]@ == x);
                }
                if holds_string(kept@, x) {
                    let j = choose|j: int| 0 <= j < kept@.len() && #[trigger] kept@[j]@ == x;
                    assert(ks[j] == x);
                    assert(ks.contains(x));
                    assert(ks.to_multiset().count(x) == ss.to_multiset().count(x));
                    assert(ss.contains(x));
                    let k = choose|k: int| 0 <= k < ss.len() && ss[k] == x;
                    assert(sorted@[k]@ == x);
                }
            }
            assert forall|a: int, b: int| 0 <= a < b < sorted@.len() implies #[trigger] sorted@[a]@ != #[trigger] sorted@[b]@ by {
                assert(ss[a] != ss[b]);
            }
        }
        let r = Baseline { schema: owned(BASELINE_SCHEMA), findings: sorted };
        assert forall|x: Seq<char>| r.accepted().contains(x) == fingerprint_set(findings@).contains(x) by {
            assert(r.accepted().contains(x) == holds_string(sorted@, x));
            assert(fingerprint_set(findings@).contains(x) == among_first(findings@, prints@.len() as int, x));
        }
        assert(r.accepted() =~= fingerprint_set(findings@));
        r
    }

    /// Which of `findings` are absent from this baseline, in the same order.
    ///
    /// Takes the whole set because identity is occurrence-sensitive.
    pub fn unseen(&self, findings: &[GateFinding]) -> (r: Vec<bool>)
        ensures
            r@ == unseen_spec(self.accepted(), findings@),
    {
        let prints = fingerprints(findings);
        let mut out: Vec<bool> = Vec::new();
        let mut i: usize = 0;
        while i < prints.len()
            invariant
                i <= prints@.len(),
                prints@.len() == findings@.len(),
                forall|k: int| 0 <= k < prints@.len() ==> #[trigger] prints@[k]@ == fingerprint_at(findings@, k),
                out@.len() == i,
                forall|k: int| 0 <= k < i ==> #[trigger] out@[k] == unseen_spec(self.accepted(), findings@)[k],
            decreases prints@.len() - i,
        {
            let mut present = false;
            let mut j: usize = 0;
            while j < self.findings.len()
                invariant
                    j <= self.findings@.len(),
                    i < prints@.len(),
                    present == exists|m: int| 0 <= m < j && #[trigger] self.findings@[m]@ == prints@[i as int]@,
                decreases self.findings@.len() - j,
            {
                if self.findings[j] == prints[i] {
                    present = true;
                }
                j = j + 1;
            }
            assert(present == self.accepted().contains(fingerprint_at(findings@, i as int)));
            out.push(!present);
            i = i + 1;
        }
        assert(out@ =~= unseen_spec(self.accepted(), findings@));
        out
    }
}

} // verus!
