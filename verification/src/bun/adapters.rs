//! The auditor's adapters: checks on Vercel settings, GitHub Actions
//! workflows, Dockerfiles and monorepo scripts, and where in a file a match
//! is reported.
use vstd::prelude::*;

use crate::bun::detect::{
    create_finding, finding_at, finding_with, one_if, opt_view, push_finding, push_simple_if, simple, views, FindingOptions,
    FindingView, RepoSignalsView, RootFiles, has_bun_lockfile, signals_view,
};
use crate::json::{as_str, get, Json};
use crate::bun::types::{Confidence, Finding, Severity};
use crate::text::{chars_of, owned, substring, trim_end_bound, trim_end_spec};

verus! {

/// UTF-8 encoding distributes over concatenation.
pub proof fn lemma_utf8_concat(a: Seq<char>, b: Seq<char>)
    ensures
        vstd::utf8::encode_utf8(a + b) == vstd::utf8::encode_utf8(a) + vstd::utf8::encode_utf8(b),
    decreases a.len(),
{
    if a.len() == 0 {
        assert(a + b =~= b);
        assert(vstd::utf8::encode_utf8(a) =~= seq![]);
        assert(vstd::utf8::encode_utf8(a + b) =~= vstd::utf8::encode_utf8(a) + vstd::utf8::encode_utf8(b));
    } else {
        assert((a + b)[0] == a[0]);
        assert((a + b).drop_first() =~= a.drop_first() + b);
        lemma_utf8_concat(a.drop_first(), b);
        assert(vstd::utf8::encode_utf8(a + b) =~= vstd::utf8::encode_utf8(a) + vstd::utf8::encode_utf8(b));
    }
}

/// Every character takes at least one UTF-8 byte.
pub proof fn lemma_utf8_len_ge(s: Seq<char>)
    ensures
        vstd::utf8::encode_utf8(s).len() >= s.len(),
    decreases s.len(),
{
    if s.len() > 0 {
        lemma_utf8_len_ge(s.drop_first());
        assert(vstd::utf8::encode_scalar(s[0] as u32).len() >= 1);
    }
}

/// A piece of `s` takes no more UTF-8 bytes than `s`.
pub proof fn lemma_utf8_subrange(s: Seq<char>, lo: int, hi: int)
    requires
        0 <= lo <= hi <= s.len(),
    ensures
        vstd::utf8::encode_utf8(s.subrange(lo, hi)).len() <= vstd::utf8::encode_utf8(s).len(),
{
    let a = s.subrange(0, lo);
    let m = s.subrange(lo, hi);
    let b = s.subrange(hi, s.len() as int);
    assert(s =~= a + m + b);
    lemma_utf8_concat(a + m, b);
    lemma_utf8_concat(a, m);
}

/// The number of newlines in `s`.
pub open spec fn newline_count(s: Seq<char>) -> nat
    decreases s.len(),
{
    if s.len() == 0 {
        0
    } else {
        newline_count(s.drop_last()) + if s.last() == '\n' { 1nat } else { 0nat }
    }
}

/// Where the last line of `s` starts: just after its last newline, or 0.
pub open spec fn line_start(s: Seq<char>) -> nat
    decreases s.len(),
{
    if s.len() == 0 {
        0
    } else if s.last() == '\n' {
        s.len()
    } else {
        line_start(s.drop_last())
    }
}

/// The index of the first newline of `c` at or after `i`, or the length of `c`.
pub open spec fn line_end(c: Seq<char>, i: int) -> int
    decreases c.len() - i,
{
    if i >= c.len() {
        c.len() as int
    } else if c[i] == '\n' {
        i
    } else {
        line_end(c, i + 1)
    }
}

/// The line number of a match that `p` precedes (counting from 1).
pub open spec fn hit_line(p: Seq<char>) -> nat {
    newline_count(p) + 1
}

/// The column of a match that `p` precedes: one past the UTF-8 byte length of
/// the part of its line before it.
pub open spec fn hit_column(p: Seq<char>) -> nat {
    vstd::utf8::encode_utf8(p.subrange(line_start(p) as int, p.len() as int)).len() + 1
}

/// The line of `c` holding the match that `p` precedes, without trailing
/// whitespace.
pub open spec fn hit_snippet(c: Seq<char>, p: Seq<char>) -> Seq<char> {
    trim_end_spec(c.subrange(line_start(p) as int, line_end(c, p.len() as int)))
}

/// The finding `rule_id` about `rel`, pointing at the match that `p` precedes
/// in the content `c`.
pub open spec fn hit_finding(
    root: Seq<char>,
    rule_id: Seq<char>,
    severity: Severity,
    rel: Seq<char>,
    message: Seq<char>,
    fix: Option<Seq<char>>,
    c: Seq<char>,
    p: Seq<char>,
) -> FindingView {
    finding_at(root, rule_id, severity, rel, message, Some(hit_line(p) as usize), Some(hit_column(p) as usize),
        Some(hit_snippet(c, p)), None, fix, Confidence::High)
}

/// The finding `rule_id` about `rel`, pointing at the first match (when there
/// is one, `p` preceding it) in the content `c`.
pub open spec fn line_hit_finding(
    root: Seq<char>,
    rule_id: Seq<char>,
    severity: Severity,
    rel: Seq<char>,
    message: Seq<char>,
    fix: Option<Seq<char>>,
    c: Seq<char>,
    p: Option<Seq<char>>,
) -> FindingView {
    match p {
        Some(p) => hit_finding(root, rule_id, severity, rel, message, fix, c, p),
        None => simple(root, rule_id, severity, rel, message, fix, Confidence::High),
    }
}

/// Whether the content `c` is short enough that byte columns fit in `usize`.
pub open spec fn fits(c: Seq<char>) -> bool {
    vstd::utf8::encode_utf8(c).len() < usize::MAX
}

/// Where the match at `i` of `cs` sits: its line, its byte column, and the
/// bounds of its line.
fn locate(cs: &Vec<char>, i: usize) -> (r: (usize, usize, usize))
    requires
        i <= cs@.len(),
        cs@.len() < usize::MAX,
    ensures
        r.0 == hit_line(cs@.take(i as int)),
        r.1 == line_start(cs@.take(i as int)),
        r.2 == line_end(cs@, i as int),
        r.1 <= i <= r.2 <= cs@.len(),
{
    let mut count: usize = 0;
    let mut start: usize = 0;
    let mut k: usize = 0;
    while k < i
        invariant
            k <= i <= cs@.len(),
            count == newline_count(cs@.take(k as int)),
            start == line_start(cs@.take(k as int)),
            count <= k,
            start <= k,
        decreases i - k,
    {
        assert(cs@.take(k + 1).drop_last() =~= cs@.take(k as int));
        if cs[k] == '\n' {
            count = count + 1;
            start = k + 1;
        }
        k = k + 1;
    }
    let mut e = i;
    while e < cs.len() && cs[e] != '\n'
        invariant
            i <= e <= cs@.len(),
            line_end(cs@, i as int) == line_end(cs@, e as int),
        decreases cs@.len() - e,
    {
        e = e + 1;
    }
    (count + 1, start, e)
}

/// The options of a finding pointing at the match that `prefix` precedes in
/// `content`, with the suggested fix `fix`.
fn hit_options(content: &str, prefix: &str, fix: Option<String>) -> (r: FindingOptions)
    requires
        prefix@.is_prefix_of(content@),
        fits(content@),
    ensures
        r.line == Some(hit_line(prefix@) as usize),
        r.column == Some(hit_column(prefix@) as usize),
        crate::bun::detect::opt_view(r.snippet) == Some(hit_snippet(content@, prefix@)),
        r.why is None,
        r.suggested_fix == fix,
        r.confidence == Confidence::High,
{
    let cs = chars_of(content);
    proof {
        lemma_utf8_len_ge(content@);
    }
    let i = chars_of(prefix).len();
    assert(cs@.take(i as int) =~= prefix@);
    let (line, start, end) = locate(&cs, i);
    let before = substring(&cs, start, i);
    proof {
        lemma_utf8_subrange(content@, start as int, i as int);
        assert(before@ =~= prefix@.subrange(start as int, prefix@.len() as int));
    }
    let column = before.as_str().as_bytes().len() + 1;
    let stop = trim_end_bound(&cs, start, end);
    let snippet = substring(&cs, start, stop);
    FindingOptions {
        line: Some(line),
        column: Some(column),
        snippet: Some(snippet),
        why: None,
        suggested_fix: fix,
        confidence: Confidence::High,
    }
}

/// Whether a line, trimmed at its end, continues onto the next one.
pub open spec fn continues(t: Seq<char>) -> bool {
    t.len() > 0 && t.last() == '\\'
}

/// Where the command that spans from `ls` to at least `e` ends: lines ending in
/// a backslash continue onto the next line.
pub open spec fn block_end(c: Seq<char>, ls: int, e: int) -> int
    decreases c.len() - e,
{
    if !continues(trim_end_spec(c.subrange(ls, e))) || e >= c.len() {
        e
    } else {
        let next = line_end(c, e + 1);
        if next < c.len() && next > e {
            block_end(c, ls, next)
        } else {
            c.len() as int
        }
    }
}

/// The command (with its continuation lines) holding the match at `st` of `c`.
pub open spec fn command_block(c: Seq<char>, st: int) -> Seq<char> {
    let ls = line_start(c.take(st)) as int;
    c.subrange(ls, block_end(c, ls, line_end(c, st)))
}

/// The pattern of a `bun install` step.
pub open spec fn bun_install_pattern() -> Seq<char> {
    "\\bbun install\\b"@
}

/// The pattern of an install in frozen-lockfile mode.
pub open spec fn bun_frozen_pattern() -> Seq<char> {
    "(?s)\\bbun install\\b.*--frozen-lockfile\\b|\\bbun ci\\b"@
}

/// The first of the matches that `ps` precede whose command does not run in
/// frozen-lockfile mode.
pub open spec fn unfrozen_from(c: Seq<char>, ps: Seq<Seq<char>>) -> Option<Seq<char>>
    decreases ps.len(),
{
    if ps.len() == 0 {
        None
    } else if !crate::pattern::regex_finds(bun_frozen_pattern(), command_block(c, ps[0].len() as int)) {
        Some(ps[0])
    } else {
        unfrozen_from(c, ps.drop_first())
    }
}

/// The first `bun install` of `c` that does not run in frozen-lockfile mode.
pub open spec fn first_unfrozen_install(c: Seq<char>) -> Option<Seq<char>> {
    unfrozen_from(c, crate::pattern::regex_match_prefixes(bun_install_pattern(), c))
}

proof fn lemma_line_end_bounds(c: Seq<char>, i: int)
    requires
        0 <= i <= c.len(),
    ensures
        i <= line_end(c, i) <= c.len(),
    decreases c.len() - i,
{
    if i < c.len() && c[i] != '\n' {
        lemma_line_end_bounds(c, i + 1);
    }
}

/// The end of the command that spans from `ls` to at least `e` in `cs`.
fn command_end(cs: &Vec<char>, ls: usize, e: usize) -> (r: usize)
    requires
        ls <= e <= cs@.len(),
        cs@.len() < usize::MAX,
    ensures
        r == block_end(cs@, ls as int, e as int),
        ls <= r <= cs@.len(),
{
    let mut end = e;
    while true
        invariant
            ls <= end <= cs@.len(),
            cs@.len() < usize::MAX,
            block_end(cs@, ls as int, e as int) == block_end(cs@, ls as int, end as int),
        decreases cs@.len() - end,
    {
        let stop = trim_end_bound(cs, ls, end);
        let cont = stop > ls && cs[stop - 1] == '\\';
        proof {
            if stop > ls {
                assert(cs@.subrange(ls as int, stop as int).last() == cs@[stop - 1]);
            }
        }
        if !cont || end >= cs.len() {
            return end;
        }
        let mut next = end + 1;
        proof {
            lemma_line_end_bounds(cs@, next as int);
        }
        while next < cs.len() && cs[next] != '\n'
            invariant
                end < next <= cs@.len(),
                line_end(cs@, end + 1) == line_end(cs@, next as int),
            decreases cs@.len() - next,
        {
            next = next + 1;
        }
        if next < cs.len() {
            end = next;
        } else {
            return cs.len();
        }
    }
    end
}

/// The first `bun install` of `content` that does not run in frozen-lockfile
/// mode, as the text before it.
fn find_unfrozen_install(content: &str) -> (r: Option<String>)
    requires
        fits(content@),
    ensures
        crate::bun::detect::opt_view(r) == first_unfrozen_install(content@),
        match r {
            Some(p) => p@.is_prefix_of(content@),
            None => true,
        },
{
    let ps = crate::pattern::regex_find_prefixes("\\bbun install\\b", content);
    let cs = chars_of(content);
    proof {
        lemma_utf8_len_ge(content@);
    }
    let ghost all = crate::text::strs(ps@);
    let mut i: usize = 0;
    assert(all.skip(0) =~= all);
    while i < ps.len()
        invariant
            i <= ps@.len(),
            cs@ == content@,
            cs@.len() < usize::MAX,
            all == crate::text::strs(ps@),
            forall|j: int| 0 <= j < ps@.len() ==> (#[trigger] ps@[j])@.is_prefix_of(content@),
            first_unfrozen_install(content@) == unfrozen_from(content@, all.skip(i as int)),
        decreases ps@.len() - i,
    {
        assert(all.skip(i as int)[0] == ps@[i as int]@);
        assert(all.skip(i as int).drop_first() =~= all.skip(i + 1));
        let st = chars_of(ps[i].as_str()).len();
        assert(ps@[i as int]@.is_prefix_of(content@));
        assert(cs@.take(st as int) =~= ps@[i as int]@);
        let (_line, ls, e) = locate(&cs, st);
        let end = command_end(&cs, ls, e);
        let block = substring(&cs, ls, end);
        if !crate::pattern::regex_match("(?s)\\bbun install\\b.*--frozen-lockfile\\b|\\bbun ci\\b", block.as_str()) {
            return Some(ps[i].clone());
        }
        i = i + 1;
    }
    None
}

/// Whether every readable source file is short enough for byte columns.
pub open spec fn sources_fit(sources: Seq<(String, Option<String>)>) -> bool {
    forall|i: int| 0 <= i < sources.len() ==> match (#[trigger] sources[i]).1 {
        Some(c) => fits(c@),
        None => true,
    }
}

/// What the Vercel adapter says of one JavaScript-like file: a `Bun.serve(`
/// call is not supported in Vercel Functions.
pub open spec fn bun_serve_findings(root: Seq<char>, rel: Seq<char>, c: Seq<char>) -> Seq<FindingView> {
    if !match crate::paths::extension_of(rel) {
        Some(e) => crate::bun::audit::js_like_extension(e),
        None => false,
    } {
        seq![]
    } else {
        match crate::pattern::regex_first_match_prefix("\\bBun\\.serve\\s*\\("@, c) {
            Some(p) => seq![hit_finding(root, "vercel-bun-runtime-limitations"@, Severity::Warn, rel,
                "Bun.serve() is not supported in Vercel Functions; use a supported handler or framework adapter."@, None, c, p)],
            None => seq![],
        }
    }
}

/// What the Vercel adapter says of the files `sources`, in order.
pub open spec fn bun_serve_per_source(root: Seq<char>, sources: Seq<(String, Option<String>)>) -> Seq<FindingView>
    decreases sources.len(),
{
    if sources.len() == 0 {
        seq![]
    } else {
        bun_serve_per_source(root, sources.drop_last()) + match sources.last().1 {
            Some(c) => bun_serve_findings(root, sources.last().0@, c@),
            None => seq![],
        }
    }
}

/// What the Vercel adapter says: how `vercel.json` pins `bunVersion`, a Bun
/// runtime without a Bun lockfile, middleware that does not declare the Node.js
/// runtime, and `Bun.serve()` calls.
pub open spec fn vercel_findings(
    root: Seq<char>,
    s: RepoSignalsView,
    f: RootFiles,
    vercel_json: Option<Json>,
    middleware: Option<Seq<char>>,
    sources: Seq<(String, Option<String>)>,
) -> Seq<FindingView> {
    (match vercel_json {
        Some(j) => match as_str(get(j, "bunVersion"@)) {
            Some(v) => one_if(v != "1.x"@, simple(root, "vercel-bun-runtime-enable"@, Severity::Warn, "vercel.json"@,
                "bunVersion is \""@ + v + "\". Prefer \"1.x\" unless you have a strong pinning reason."@, None,
                Confidence::High)),
            None => seq![simple(root, "vercel-bun-runtime-enable"@, Severity::Info, "vercel.json"@,
                "vercel.json exists but no bunVersion was detected. If you intend to use Bun runtime, set bunVersion."@,
                None, Confidence::High)],
        },
        None => seq![],
    }) + one_if(s.vercel_bun_enabled && !has_bun_lockfile(f), simple(root, "vercel-bun-install-detection"@,
        Severity::Warn, "vercel.json"@,
        "Bun runtime is enabled but no Bun lockfile is committed. Add and commit bun.lock or bun.lockb to ensure Bun installs on Vercel."@,
        None, Confidence::High)) + one_if(s.vercel_bun_enabled && match middleware {
        Some(m) => !crate::pattern::regex_finds("runtime\\s*=\\s*['\"]nodejs['\"]"@, m),
        None => false,
    }, simple(root, "vercel-bun-runtime-limitations"@, Severity::Info, "middleware.ts"@,
        "When using Vercel Routing Middleware with Bun runtime, middleware should declare the nodejs runtime."@, None,
        Confidence::Medium)) + if s.vercel_bun_enabled {
        bun_serve_per_source(root, sources)
    } else {
        seq![]
    }
}

/// Appends the finding `rule_id` about `rel` pointing at the first match (if
/// any, `prefix` preceding it) in `content`.
fn push_line_hit(
    out: &mut Vec<Finding>,
    root: &str,
    rule_id: &str,
    severity: Severity,
    rel: &str,
    message: &str,
    fix: Option<&str>,
    content: &str,
    prefix: Option<String>,
)
    requires
        fits(content@),
        match prefix {
            Some(p) => p@.is_prefix_of(content@),
            None => true,
        },
    ensures
        views(final(out)@) == views(old(out)@).push(line_hit_finding(root@, rule_id@, severity, rel@, message@, match fix {
            Some(x) => Some(x@),
            None => None,
        }, content@, opt_view(prefix))),
{
    let fix_owned = match fix {
        Some(x) => Some(owned(x)),
        None => None,
    };
    let opts = match prefix {
        Some(p) => hit_options(content, p.as_str(), fix_owned),
        None => FindingOptions { line: None, column: None, snippet: None, why: None, suggested_fix: fix_owned, confidence: Confidence::High },
    };
    let f = create_finding(root, rule_id, severity, rel, message, opts);
    push_finding(out, f);
}

/// Appends what the Vercel adapter says of one JavaScript-like file.
fn push_bun_serve(out: &mut Vec<Finding>, root: &str, rel: &str, content: &str)
    requires
        fits(content@),
    ensures
        views(final(out)@) == views(old(out)@) + bun_serve_findings(root@, rel@, content@),
{
    if crate::bun::audit::is_js_like(rel) {
        match crate::pattern::regex_find_prefix("\\bBun\\.serve\\s*\\(", content) {
            Some(p) => {
                let opts = hit_options(content, p.as_str(), None);
                let f = create_finding(root, "vercel-bun-runtime-limitations", Severity::Warn, rel,
                    "Bun.serve() is not supported in Vercel Functions; use a supported handler or framework adapter.", opts);
                push_finding(out, f);
            },
            None => {},
        }
    }
    assert(views(out@) =~= views(old(out)@) + bun_serve_findings(root@, rel@, content@));
}

/// The Vercel adapter's findings (see [`vercel_findings`]).
pub fn run_vercel_adapter(
    root: &str,
    signals: &crate::bun::audit::RepoSignals,
    files: &RootFiles,
    vercel_json: &Option<Json>,
    middleware: &Option<String>,
    sources: &Vec<(String, Option<String>)>,
) -> (r: Vec<Finding>)
    requires
        sources_fit(sources@),
    ensures
        views(r@) == vercel_findings(root@, signals_view(*signals), *files, *vercel_json, opt_view(*middleware), sources@),
{
    let mut out: Vec<Finding> = Vec::new();
    assert(views(out@) =~= seq![]);
    match vercel_json {
        Some(j) => {
            let version = match j {
                Json::Object(es) => crate::json::str_of(crate::json::member_of(es, "bunVersion")),
                _ => None,
            };
            match version {
                Some(v) => {
                    let mut m = owned("bunVersion is \"");
                    crate::text::push_all(&mut m, v.as_str());
                    crate::text::push_all(&mut m, "\". Prefer \"1.x\" unless you have a strong pinning reason.");
                    let c = !crate::audit_gate::str_eq(v.as_str(), "1.x");
                    push_simple_if(&mut out, c, root, "vercel-bun-runtime-enable", Severity::Warn, "vercel.json", m.as_str(),
                        None, Confidence::High);
                },
                None => {
                    push_simple_if(&mut out, true, root, "vercel-bun-runtime-enable", Severity::Info, "vercel.json",
                        "vercel.json exists but no bunVersion was detected. If you intend to use Bun runtime, set bunVersion.",
                        None, Confidence::High);
                },
            }
        },
        None => {},
    }
    let ghost a1 = views(out@);
    let lockfile = files.bun_lockb || files.bun_lock;
    push_simple_if(&mut out, signals.vercel_bun_enabled && !lockfile, root, "vercel-bun-install-detection", Severity::Warn,
        "vercel.json",
        "Bun runtime is enabled but no Bun lockfile is committed. Add and commit bun.lock or bun.lockb to ensure Bun installs on Vercel.",
        None, Confidence::High);
    let mw = match middleware {
        Some(m) => !crate::pattern::regex_match("runtime\\s*=\\s*['\"]nodejs['\"]", m.as_str()),
        None => false,
    };
    push_simple_if(&mut out, signals.vercel_bun_enabled && mw, root, "vercel-bun-runtime-limitations", Severity::Info,
        "middleware.ts",
        "When using Vercel Routing Middleware with Bun runtime, middleware should declare the nodejs runtime.", None,
        Confidence::Medium);
    let ghost a3 = views(out@);
    if signals.vercel_bun_enabled {
        let mut i: usize = 0;
        while i < sources.len()
            invariant
                i <= sources@.len(),
                sources_fit(sources@),
                views(out@) == a3 + bun_serve_per_source(root@, sources@.take(i as int)),
            decreases sources@.len() - i,
        {
            let ghost t = sources@.take(i + 1);
            assert(t.drop_last() =~= sources@.take(i as int));
            assert(t.last() == sources@[i as int]);
            let ghost before = views(out@);
            let (rel, content) = &sources[i];
            match content {
                Some(c) => {
                    assert(sources@[i as int].1 == Some(*c));
                    push_bun_serve(&mut out, root, rel.as_str(), c.as_str());
                    assert(views(out@) == before + bun_serve_findings(root@, t.last().0@, c@));
                },
                None => {
                    assert(views(out@) =~= before + seq![]);
                },
            }
            assert(views(out@) =~= a3 + bun_serve_per_source(root@, t));
            i = i + 1;
        }
        assert(sources@.take(sources@.len() as int) =~= sources@);
    }
    assert(views(out@) =~= vercel_findings(root@, signals_view(*signals), *files, *vercel_json, opt_view(*middleware), sources@));
    out
}

/// The pattern of an npm, pnpm or yarn install step.
pub open spec fn other_install_pattern() -> Seq<char> {
    "\\b(npm ci|npm install|pnpm install|yarn install)\\b"@
}

/// What the frozen-lockfile check says of a file `rel` with content `c`: with
/// a Bun lockfile at the root, the first `bun install` that does not run in
/// frozen-lockfile mode.
pub open spec fn unfrozen_findings(root: Seq<char>, f: RootFiles, rel: Seq<char>, c: Seq<char>, message: Seq<char>) -> Seq<FindingView> {
    if has_bun_lockfile(f) {
        match first_unfrozen_install(c) {
            Some(p) => seq![hit_finding(root, "pm-bun-install-ci-frozen-lockfile"@, Severity::Info, rel, message,
                Some("Prefer `bun install --frozen-lockfile` or `bun ci` in CI."@), c, p)],
            None => seq![],
        }
    } else {
        seq![]
    }
}

/// Whether `rel` is a GitHub Actions workflow file: a `.yml` or `.yaml` file
/// under `.github/workflows/`.
pub open spec fn is_workflow_file(rel: Seq<char>) -> bool {
    ".github/workflows/"@.is_prefix_of(rel) && match crate::paths::file_name_of(rel) {
        Some(n) => ".yml"@.is_suffix_of(n) || ".yaml"@.is_suffix_of(n),
        None => false,
    }
}

/// What the GitHub Actions adapter says of one file.
pub open spec fn workflow_findings(root: Seq<char>, s: RepoSignalsView, f: RootFiles, rel: Seq<char>, c: Seq<char>) -> Seq<FindingView> {
    if !is_workflow_file(rel) {
        seq![]
    } else {
        one_if(s.bun_first && crate::pattern::regex_finds(other_install_pattern(), c), line_hit_finding(root,
            "scripts-no-npm-in-bun-repos"@, Severity::Warn, rel,
            "GitHub Actions workflow uses npm/pnpm/yarn install steps in a Bun-first repo."@, None, c,
            crate::pattern::regex_first_match_prefix(other_install_pattern(), c)))
        + one_if(crate::pattern::regex_finds("\\bnpx\\b"@, c), line_hit_finding(root, "pm-bunx-vs-npx"@, Severity::Warn, rel,
            "GitHub Actions workflow uses npx. Prefer bunx in Bun-first repos."@, None, c,
            crate::pattern::regex_first_match_prefix("\\bnpx\\b"@, c)))
        + unfrozen_findings(root, f, rel, c, "GitHub Actions workflow runs `bun install` without frozen lockfile mode."@)
    }
}

/// What the Docker adapter says of one file.
pub open spec fn dockerfile_findings(root: Seq<char>, s: RepoSignalsView, f: RootFiles, rel: Seq<char>, c: Seq<char>) -> Seq<FindingView> {
    if !crate::bun::audit::is_dockerfile_spec(rel) {
        seq![]
    } else {
        one_if(s.bun_first && crate::pattern::regex_finds("\\bFROM\\s+node[:\\s]"@, c), line_hit_finding(root,
            "runtime-bun-vs-node-choose"@, Severity::Info, rel, "Dockerfile still uses a Node base image in a Bun-first repo."@,
            Some("Use an explicit Bun image or document why Node remains required."@), c,
            crate::pattern::regex_first_match_prefix("\\bFROM\\s+node[:\\s]"@, c)))
        + one_if(s.bun_first && crate::pattern::regex_finds(other_install_pattern(), c), line_hit_finding(root,
            "scripts-no-npm-in-bun-repos"@, Severity::Warn, rel,
            "Dockerfile uses npm/pnpm/yarn install commands in a Bun-first repo."@, None, c,
            crate::pattern::regex_first_match_prefix(other_install_pattern(), c)))
        + unfrozen_findings(root, f, rel, c, "Dockerfile runs `bun install` without frozen lockfile mode."@)
    }
}

/// What the GitHub Actions adapter (`docker` false) or the Docker adapter
/// (`docker` true) says of the files `sources`, in order.
pub open spec fn ci_per_source(root: Seq<char>, s: RepoSignalsView, f: RootFiles, docker: bool, sources: Seq<(String, Option<String>)>) -> Seq<FindingView>
    decreases sources.len(),
{
    if sources.len() == 0 {
        seq![]
    } else {
        ci_per_source(root, s, f, docker, sources.drop_last()) + match sources.last().1 {
            Some(c) => if docker {
                dockerfile_findings(root, s, f, sources.last().0@, c@)
            } else {
                workflow_findings(root, s, f, sources.last().0@, c@)
            },
            None => seq![],
        }
    }
}

/// Appends what the frozen-lockfile check says of one file.
fn push_unfrozen(out: &mut Vec<Finding>, root: &str, f: &RootFiles, rel: &str, content: &str, message: &str)
    requires
        fits(content@),
    ensures
        views(final(out)@) == views(old(out)@) + unfrozen_findings(root@, *f, rel@, content@, message@),
{
    if f.bun_lockb || f.bun_lock {
        match find_unfrozen_install(content) {
            Some(p) => {
                let opts = hit_options(content, p.as_str(), Some(owned("Prefer `bun install --frozen-lockfile` or `bun ci` in CI.")));
                let fnd = create_finding(root, "pm-bun-install-ci-frozen-lockfile", Severity::Info, rel, message, opts);
                push_finding(out, fnd);
            },
            None => {},
        }
    }
    assert(views(out@) =~= views(old(out)@) + unfrozen_findings(root@, *f, rel@, content@, message@));
}

/// Whether `rel` is a GitHub Actions workflow file.
fn workflow_file(rel: &str) -> (r: bool)
    ensures
        r == is_workflow_file(rel@),
{
    if !crate::text::starts_with(rel, ".github/workflows/") {
        return false;
    }
    match crate::paths::file_name(rel) {
        Some(n) => ends_with(n.as_str(), ".yml") || ends_with(n.as_str(), ".yaml"),
        None => false,
    }
}

/// Whether `s` ends with `suffix`.
fn ends_with(s: &str, suffix: &str) -> (r: bool)
    ensures
        r == suffix@.is_suffix_of(s@),
{
    let cs = chars_of(s);
    let ps = chars_of(suffix);
    if ps.len() > cs.len() {
        return false;
    }
    let at = cs.len() - ps.len();
    let r = crate::text::has_prefix_at(&cs, at, suffix);
    proof {
        assert(cs@.subrange(at as int, at + suffix@.len()) =~= s@.subrange(s@.len() - suffix@.len(), s@.len() as int));
    }
    r
}

/// Appends what the GitHub Actions adapter says of one file.
fn push_workflow(out: &mut Vec<Finding>, root: &str, s: &crate::bun::audit::RepoSignals, f: &RootFiles, rel: &str, content: &str)
    requires
        fits(content@),
    ensures
        views(final(out)@) == views(old(out)@) + workflow_findings(root@, signals_view(*s), *f, rel@, content@),
{
    let ghost start = views(out@);
    if workflow_file(rel) {
        if s.bun_first && crate::pattern::regex_match("\\b(npm ci|npm install|pnpm install|yarn install)\\b", content) {
            let p = crate::pattern::regex_find_prefix("\\b(npm ci|npm install|pnpm install|yarn install)\\b", content);
            push_line_hit(out, root, "scripts-no-npm-in-bun-repos", Severity::Warn, rel,
                "GitHub Actions workflow uses npm/pnpm/yarn install steps in a Bun-first repo.", None, content, p);
        }
        let ghost a1 = views(out@);
        if crate::pattern::regex_match("\\bnpx\\b", content) {
            let p = crate::pattern::regex_find_prefix("\\bnpx\\b", content);
            push_line_hit(out, root, "pm-bunx-vs-npx", Severity::Warn, rel,
                "GitHub Actions workflow uses npx. Prefer bunx in Bun-first repos.", None, content, p);
        }
        let ghost a2 = views(out@);
        push_unfrozen(out, root, f, rel, content, "GitHub Actions workflow runs `bun install` without frozen lockfile mode.");
    }
    assert(views(out@) =~= start + workflow_findings(root@, signals_view(*s), *f, rel@, content@));
}

/// Appends what the Docker adapter says of one file.
fn push_dockerfile(out: &mut Vec<Finding>, root: &str, s: &crate::bun::audit::RepoSignals, f: &RootFiles, rel: &str, content: &str)
    requires
        fits(content@),
    ensures
        views(final(out)@) == views(old(out)@) + dockerfile_findings(root@, signals_view(*s), *f, rel@, content@),
{
    let ghost start = views(out@);
    if crate::bun::audit::is_dockerfile(rel) {
        if s.bun_first && crate::pattern::regex_match("\\bFROM\\s+node[:\\s]", content) {
            let p = crate::pattern::regex_find_prefix("\\bFROM\\s+node[:\\s]", content);
            push_line_hit(out, root, "runtime-bun-vs-node-choose", Severity::Info, rel,
                "Dockerfile still uses a Node base image in a Bun-first repo.",
                Some("Use an explicit Bun image or document why Node remains required."), content, p);
        }
        let ghost a1 = views(out@);
        if s.bun_first && crate::pattern::regex_match("\\b(npm ci|npm install|pnpm install|yarn install)\\b", content) {
            let p = crate::pattern::regex_find_prefix("\\b(npm ci|npm install|pnpm install|yarn install)\\b", content);
            push_line_hit(out, root, "scripts-no-npm-in-bun-repos", Severity::Warn, rel,
                "Dockerfile uses npm/pnpm/yarn install commands in a Bun-first repo.", None, content, p);
        }
        let ghost a2 = views(out@);
        push_unfrozen(out, root, f, rel, content, "Dockerfile runs `bun install` without frozen lockfile mode.");
    }
    assert(views(out@) =~= start + dockerfile_findings(root@, signals_view(*s), *f, rel@, content@));
}

/// What the GitHub Actions adapter (`docker` false) or the Docker adapter
/// (`docker` true) says of the files `sources` (see [`ci_per_source`]).
fn ci_adapter(root: &str, s: &crate::bun::audit::RepoSignals, f: &RootFiles, docker: bool, sources: &Vec<(String, Option<String>)>) -> (r: Vec<Finding>)
    requires
        sources_fit(sources@),
    ensures
        views(r@) == ci_per_source(root@, signals_view(*s), *f, docker, sources@),
{
    let mut out: Vec<Finding> = Vec::new();
    assert(views(out@) =~= seq![]);
    let mut i: usize = 0;
    while i < sources.len()
        invariant
            i <= sources@.len(),
            sources_fit(sources@),
            views(out@) == ci_per_source(root@, signals_view(*s), *f, docker, sources@.take(i as int)),
        decreases sources@.len() - i,
    {
        let ghost t = sources@.take(i + 1);
        assert(t.drop_last() =~= sources@.take(i as int));
        assert(t.last() == sources@[i as int]);
        let ghost before = views(out@);
        let (rel, content) = &sources[i];
        match content {
            Some(c) => {
                assert(sources@[i as int].1 == Some(*c));
                if docker {
                    push_dockerfile(&mut out, root, s, f, rel.as_str(), c.as_str());
                } else {
                    push_workflow(&mut out, root, s, f, rel.as_str(), c.as_str());
                }
            },
            None => {
                assert(views(out@) =~= before + seq![]);
            },
        }
        assert(views(out@) =~= ci_per_source(root@, signals_view(*s), *f, docker, t));
        i = i + 1;
    }
    assert(sources@.take(sources@.len() as int) =~= sources@);
    out
}

/// The scripts the monorepo adapter looks at.
pub open spec fn is_workspace_task(name: Seq<char>) -> bool {
    name == "build"@ || name == "test"@ || name == "lint"@ || name == "typecheck"@
}

/// What the monorepo adapter says of the root scripts: a build, test, lint or
/// typecheck script that runs via `bun run` without `--filter`/`--workspaces`.
pub open spec fn monorepo_findings(root: Seq<char>, scripts: Seq<(String, String)>) -> Seq<FindingView>
    decreases scripts.len(),
{
    if scripts.len() == 0 {
        seq![]
    } else {
        let name = scripts.last().0@;
        let command = scripts.last().1@;
        monorepo_findings(root, scripts.drop_last()) + one_if(is_workspace_task(name)
            && crate::pattern::regex_finds("\\bbun\\s+run\\s+"@, command)
            && !crate::pattern::regex_finds("--filter|--workspaces"@, command), simple(root,
            "scripts-bun-filter-and-workspaces"@, Severity::Info, "package.json"@,
            "Root monorepo script \""@ + name + "\" runs via bun without --filter/--workspaces."@,
            Some("Use `bun run --workspaces <script>` or `bun run --filter <glob> <script>` when coordinating workspace tasks."@),
            Confidence::High))
    }
}

/// The monorepo adapter's findings (see [`monorepo_findings`]).
pub fn run_monorepo_adapter(root: &str, scripts: &Vec<(String, String)>) -> (r: Vec<Finding>)
    ensures
        views(r@) == monorepo_findings(root@, scripts@),
{
    let mut out: Vec<Finding> = Vec::new();
    assert(views(out@) =~= seq![]);
    let mut i: usize = 0;
    while i < scripts.len()
        invariant
            i <= scripts@.len(),
            views(out@) == monorepo_findings(root@, scripts@.take(i as int)),
        decreases scripts@.len() - i,
    {
        let ghost t = scripts@.take(i + 1);
        assert(t.drop_last() =~= scripts@.take(i as int));
        assert(t.last() == scripts@[i as int]);
        let (name, command) = &scripts[i];
        let n = name.as_str();
        let task = crate::audit_gate::str_eq(n, "build") || crate::audit_gate::str_eq(n, "test")
            || crate::audit_gate::str_eq(n, "lint") || crate::audit_gate::str_eq(n, "typecheck");
        let c = task && crate::pattern::regex_match("\\bbun\\s+run\\s+", command.as_str())
            && !crate::pattern::regex_match("--filter|--workspaces", command.as_str());
        let mut m = owned("Root monorepo script \"");
        crate::text::push_all(&mut m, n);
        crate::text::push_all(&mut m, "\" runs via bun without --filter/--workspaces.");
        push_simple_if(&mut out, c, root, "scripts-bun-filter-and-workspaces", Severity::Info, "package.json", m.as_str(),
            Some("Use `bun run --workspaces <script>` or `bun run --filter <glob> <script>` when coordinating workspace tasks."),
            Confidence::High);
        assert(views(out@) =~= monorepo_findings(root@, t));
        i = i + 1;
    }
    assert(scripts@.take(scripts@.len() as int) =~= scripts@);
    out
}

/// Whether some file of `sources` is a Dockerfile.
pub open spec fn any_dockerfile(sources: Seq<(String, Option<String>)>) -> bool {
    exists|i: int| 0 <= i < sources.len() && crate::bun::audit::is_dockerfile_spec((#[trigger] sources[i]).0@)
}

/// What the adapters say, in order: Vercel, GitHub Actions (when the
/// workflows directory exists), Docker (when there is a Dockerfile) and
/// monorepo (when the repository has workspaces), each only when it is
/// among the adapters the configuration selects.
pub open spec fn adapter_findings(
    root: Seq<char>,
    signals: crate::bun::audit::RepoSignals,
    f: RootFiles,
    configured: Seq<Seq<char>>,
    vercel_json: Option<Json>,
    middleware: Option<Seq<char>>,
    workflows_dir: bool,
    sources: Seq<(String, Option<String>)>,
    scripts: Seq<(String, String)>,
) -> Seq<FindingView> {
    let req = crate::bun::audit::adapter_list(signals, configured);
    let s = signals_view(signals);
    (if req.contains("vercel"@) {
        vercel_findings(root, s, f, vercel_json, middleware, sources)
    } else {
        seq![]
    }) + (if req.contains("github-actions"@) && workflows_dir {
        ci_per_source(root, s, f, false, sources)
    } else {
        seq![]
    }) + (if req.contains("docker"@) && any_dockerfile(sources) {
        ci_per_source(root, s, f, true, sources)
    } else {
        seq![]
    }) + (if req.contains("monorepo"@) && s.has_workspaces {
        monorepo_findings(root, scripts)
    } else {
        seq![]
    })
}

/// Whether some file of `sources` is a Dockerfile.
fn has_dockerfile(sources: &Vec<(String, Option<String>)>) -> (r: bool)
    ensures
        r == any_dockerfile(sources@),
{
    let mut i: usize = 0;
    while i < sources.len()
        invariant
            i <= sources@.len(),
            forall|j: int| 0 <= j < i ==> !crate::bun::audit::is_dockerfile_spec((#[trigger] sources@[j]).0@),
        decreases sources@.len() - i,
    {
        if crate::bun::audit::is_dockerfile(sources[i].0.as_str()) {
            return true;
        }
        i = i + 1;
    }
    false
}

/// Appends `more`.
fn append_findings(out: &mut Vec<Finding>, more: Vec<Finding>)
    ensures
        views(final(out)@) == views(old(out)@) + views(more@),
{
    let ghost m = more@;
    let mut rest = more;
    out.append(&mut rest);
    assert(views(out@) =~= views(old(out)@) + views(m));
}

/// The adapters' findings (see [`adapter_findings`]).
pub fn run_adapters(
    root: &str,
    signals: &crate::bun::audit::RepoSignals,
    files: &RootFiles,
    configured: &Vec<String>,
    vercel_json: &Option<Json>,
    middleware: &Option<String>,
    workflows_dir: bool,
    sources: &Vec<(String, Option<String>)>,
    scripts: &Vec<(String, String)>,
) -> (r: Vec<Finding>)
    requires
        sources_fit(sources@),
    ensures
        views(r@) == adapter_findings(root@, *signals, *files, crate::text::strs(configured@), *vercel_json,
            opt_view(*middleware), workflows_dir, sources@, scripts@),
{
    let requested = crate::bun::audit::resolve_adapter_ids(signals, configured);
    let mut out: Vec<Finding> = Vec::new();
    assert(views(out@) =~= seq![]);
    if crate::bun::release_sync::has_id(&requested, "vercel") {
        let v = run_vercel_adapter(root, signals, files, vercel_json, middleware, sources);
        append_findings(&mut out, v);
    }
    let ghost a1 = views(out@);
    if crate::bun::release_sync::has_id(&requested, "github-actions") && workflows_dir {
        let v = ci_adapter(root, signals, files, false, sources);
        append_findings(&mut out, v);
    }
    let ghost a2 = views(out@);
    if crate::bun::release_sync::has_id(&requested, "docker") && has_dockerfile(sources) {
        let v = ci_adapter(root, signals, files, true, sources);
        append_findings(&mut out, v);
    }
    let ghost a3 = views(out@);
    if crate::bun::release_sync::has_id(&requested, "monorepo") && signals.has_workspaces {
        let v = run_monorepo_adapter(root, scripts);
        append_findings(&mut out, v);
    }
    assert(views(out@) =~= adapter_findings(root@, *signals, *files, crate::text::strs(configured@), *vercel_json,
        opt_view(*middleware), workflows_dir, sources@, scripts@));
    out
}

} // verus!
