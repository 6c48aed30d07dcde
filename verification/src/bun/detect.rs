//! The auditor's detectors: the checks on the repository root's manifests and
//! configuration files, and how a finding is built.
use vstd::prelude::*;

use crate::bun::audit::{get_rule_category, rule_category};
use crate::bun::types::{Confidence, Finding, Severity};
use crate::paths::{join, path_join};
use crate::pattern::{regex_finds, regex_match};
use crate::text::{
    chars_of, has_prefix_at, lines, lines_spec, owned, push_all, remove_char, substring, trim_bounds,
    trim_spec, without_char,
};

verus! {

/// What a finding says, as values.
pub struct FindingView {
    pub rule_id: Seq<char>,
    pub category: Seq<char>,
    pub severity: Severity,
    pub confidence: Confidence,
    pub file: Seq<char>,
    pub line: nat,
    pub column: nat,
    pub message: Seq<char>,
    pub why: Option<Seq<char>>,
    pub suggested_fix: Option<Seq<char>>,
    pub snippet: Option<Seq<char>>,
    pub suppression_key: Seq<char>,
}

/// The characters of an optional string.
pub open spec fn opt_view(o: Option<String>) -> Option<Seq<char>> {
    match o {
        Some(s) => Some(s@),
        None => None,
    }
}

impl View for Finding {
    type V = FindingView;

    open spec fn view(&self) -> FindingView {
        FindingView {
            rule_id: self.rule_id@,
            category: self.category@,
            severity: self.severity,
            confidence: self.confidence,
            file: self.file@,
            line: self.line as nat,
            column: self.column as nat,
            message: self.message@,
            why: opt_view(self.why),
            suggested_fix: opt_view(self.suggested_fix),
            snippet: opt_view(self.snippet),
            suppression_key: self.suppression_key@,
        }
    }
}

/// Where in a file a finding points, and what else it carries.
#[derive(Clone, Debug)]
pub struct FindingOptions {
    pub line: Option<usize>,
    pub column: Option<usize>,
    pub snippet: Option<String>,
    pub why: Option<String>,
    pub suggested_fix: Option<String>,
    pub confidence: Confidence,
}

/// Options that point nowhere in particular, with high confidence.
pub fn plain_options() -> (r: FindingOptions)
    ensures
        r.line is None && r.column is None && r.snippet is None,
        r.why is None && r.suggested_fix is None,
        r.confidence == Confidence::High,
{
    FindingOptions { line: None, column: None, snippet: None, why: None, suggested_fix: None, confidence: Confidence::High }
}

/// Plain options with a suggested fix.
pub fn fix_options(fix: &str) -> (r: FindingOptions)
    ensures
        r.line is None && r.column is None && r.snippet is None,
        r.why is None,
        opt_view(r.suggested_fix) == Some(fix@),
        r.confidence == Confidence::High,
{
    FindingOptions { line: None, column: None, snippet: None, why: None, suggested_fix: Some(owned(fix)), confidence: Confidence::High }
}

/// The finding for rule `rule_id` about `rel` (relative to `root`).
pub open spec fn finding_at(
    root: Seq<char>,
    rule_id: Seq<char>,
    severity: Severity,
    rel: Seq<char>,
    message: Seq<char>,
    line: Option<usize>,
    column: Option<usize>,
    snippet: Option<Seq<char>>,
    why: Option<Seq<char>>,
    suggested_fix: Option<Seq<char>>,
    confidence: Confidence,
) -> FindingView {
    FindingView {
        rule_id,
        category: rule_category(rule_id),
        severity,
        confidence,
        file: path_join(root, rel),
        line: match line {
            Some(l) => l as nat,
            None => 1,
        },
        column: match column {
            Some(c) => c as nat,
            None => 1,
        },
        message,
        why,
        suggested_fix,
        snippet,
        suppression_key: rule_id + ":"@ + rel,
    }
}

/// The finding `create_finding` builds from `opts`.
pub open spec fn finding_with(
    root: Seq<char>,
    rule_id: Seq<char>,
    severity: Severity,
    rel: Seq<char>,
    message: Seq<char>,
    opts: FindingOptions,
) -> FindingView {
    finding_at(root, rule_id, severity, rel, message, opts.line, opts.column, opt_view(opts.snippet),
        opt_view(opts.why), opt_view(opts.suggested_fix), opts.confidence)
}

/// A finding for rule `rule_id` about the file `rel` under `root`: its
/// category comes from the rule id, its file is `rel` joined to `root`, its
/// position defaults to line 1, column 1, and it is suppressed by the key
/// `rule_id:rel`.
pub fn create_finding(root: &str, rule_id: &str, severity: Severity, rel: &str, message: &str, opts: FindingOptions) -> (r: Finding)
    ensures
        r@ == finding_with(root@, rule_id@, severity, rel@, message@, opts),
{
    let mut key = owned(rule_id);
    push_all(&mut key, ":");
    push_all(&mut key, rel);
    proof {
        reveal_strlit(":");
    }
    Finding {
        rule_id: owned(rule_id),
        category: owned(get_rule_category(rule_id)),
        severity,
        confidence: opts.confidence,
        file: join(root, rel),
        line: match opts.line {
            Some(l) => l,
            None => 1,
        },
        column: match opts.column {
            Some(c) => c,
            None => 1,
        },
        message: owned(message),
        why: opts.why,
        suggested_fix: opts.suggested_fix,
        snippet: opts.snippet,
        suppression_key: key,
    }
}

/// Whether a trimmed TOML line is a table header: it starts with `[` and ends
/// with `]`.
pub open spec fn is_table_header(t: Seq<char>) -> bool {
    t.len() > 0 && t[0] == '[' && t.last() == ']'
}

/// The value of the first `key=` line of the table whose header is `header`,
/// scanning `ls` with `in_table` telling whether the scan starts inside it.
/// Lines are compared trimmed and with their spaces removed.
pub open spec fn toml_scan(ls: Seq<Seq<char>>, header: Seq<char>, prefix: Seq<char>, in_table: bool) -> Option<Seq<char>>
    decreases ls.len(),
{
    if ls.len() == 0 {
        None
    } else {
        let t = trim_spec(ls[0]);
        if is_table_header(t) {
            toml_scan(ls.drop_first(), header, prefix, t == header)
        } else if !in_table {
            toml_scan(ls.drop_first(), header, prefix, in_table)
        } else {
            let n = remove_char(t, ' ');
            if prefix.is_prefix_of(n) {
                Some(n.subrange(prefix.len() as int, n.len() as int))
            } else {
                toml_scan(ls.drop_first(), header, prefix, in_table)
            }
        }
    }
}

/// The value `content` gives `key` in table `table`, read line by line.
pub open spec fn toml_value(content: Seq<char>, table: Seq<char>, key: Seq<char>) -> Option<Seq<char>> {
    toml_scan(lines_spec(content), "["@ + table + "]"@, key + "="@, false)
}

/// Whether the characters of `a` and `b` agree.
fn same_chars(a: &Vec<char>, lo: usize, hi: usize, b: &Vec<char>) -> (r: bool)
    requires
        lo <= hi <= a@.len(),
    ensures
        r == (a@.subrange(lo as int, hi as int) == b@),
{
    if hi - lo != b.len() {
        return false;
    }
    let mut k: usize = 0;
    while k < b.len()
        invariant
            lo + b@.len() == hi,
            hi <= a@.len(),
            k <= b@.len(),
            forall|j: int| 0 <= j < k ==> a@[lo + j] == b@[j],
        decreases b@.len() - k,
    {
        if a[lo + k] != b[k] {
            assert(a@.subrange(lo as int, hi as int)[k as int] != b@[k as int]);
            return false;
        }
        k = k + 1;
    }
    assert(a@.subrange(lo as int, hi as int) =~= b@);
    true
}

/// The value `content` gives `key` in table `table` (see [`toml_value`]).
pub fn toml_table_value(content: &str, table: &str, key: &str) -> (r: Option<String>)
    ensures
        opt_view(r) == toml_value(content@, table@, key@),
{
    let mut header = owned("[");
    push_all(&mut header, table);
    push_all(&mut header, "]");
    let header_chars = chars_of(header.as_str());
    let mut prefix = owned(key);
    push_all(&mut prefix, "=");
    let prefix_len = chars_of(prefix.as_str()).len();
    proof {
        reveal_strlit("[");
        reveal_strlit("]");
        reveal_strlit("=");
    }
    let ls = lines(content);
    let ghost all = ls@.map_values(|l: Vec<char>| l@);
    let mut in_table = false;
    let mut i: usize = 0;
    assert(all.skip(0) =~= all);
    while i < ls.len()
        invariant
            i <= ls@.len(),
            all == ls@.map_values(|l: Vec<char>| l@),
            all == lines_spec(content@),
            header_chars@ == "["@ + table@ + "]"@,
            prefix@ == key@ + "="@,
            prefix_len == prefix@.len(),
            toml_value(content@, table@, key@) == toml_scan(all.skip(i as int), header_chars@, prefix@, in_table),
        decreases ls@.len() - i,
    {
        let line = &ls[i];
        let ghost rest = all.skip(i as int);
        assert(rest[0] == line@);
        assert(rest.drop_first() =~= all.skip(i + 1));
        let (a, b) = trim_bounds(line, 0, line.len());
        assert(line@.subrange(0, line@.len() as int) =~= line@);
        let ghost t = line@.subrange(a as int, b as int);
        if a < b && line[a] == '[' && line[b - 1] == ']' {
            in_table = same_chars(line, a, b, &header_chars);
        } else if in_table {
            let n = without_char(line, a, b, ' ');
            if has_prefix_at(&n, 0, prefix.as_str()) {
                proof {
                    assert(prefix@ =~= n@.subrange(0, prefix@.len() as int));
                }
                return Some(substring(&n, prefix_len, n.len()));
            }
            proof {
                if prefix@.is_prefix_of(n@) {
                    assert(n@.subrange(0, prefix@.len() as int) =~= prefix@);
                }
            }
        }
        i = i + 1;
    }
    None
}

/// Whether table `table` of `content` sets `key` to a positive integer.
pub open spec fn toml_positive_int(content: Seq<char>, table: Seq<char>, key: Seq<char>) -> bool {
    match toml_value(content, table, key) {
        Some(v) => regex_finds("^[1-9]\\d*$"@, v),
        None => false,
    }
}

/// Whether table `table` of `content` sets `key` to the boolean `expected`.
pub open spec fn toml_bool(content: Seq<char>, table: Seq<char>, key: Seq<char>, expected: bool) -> bool {
    toml_value(content, table, key) == Some(if expected { "true"@ } else { "false"@ })
}

/// Whether table `table` of `content` sets `key` to a positive integer.
pub fn toml_table_has_positive_integer(content: &str, table: &str, key: &str) -> (r: bool)
    ensures
        r == toml_positive_int(content@, table@, key@),
{
    match toml_table_value(content, table, key) {
        Some(v) => regex_match("^[1-9]\\d*$", v.as_str()),
        None => false,
    }
}

/// Whether table `table` of `content` sets `key` to the boolean `expected`.
pub fn toml_table_has_bool(content: &str, table: &str, key: &str, expected: bool) -> (r: bool)
    ensures
        r == toml_bool(content@, table@, key@, expected),
{
    match toml_table_value(content, table, key) {
        Some(v) => {
            if expected {
                crate::audit_gate::str_eq(v.as_str(), "true")
            } else {
                crate::audit_gate::str_eq(v.as_str(), "false")
            }
        },
        None => false,
    }
}

/// The views of a list of findings.
pub open spec fn views(v: Seq<Finding>) -> Seq<FindingView> {
    v.map_values(|f: Finding| f@)
}

/// Appends `f`.
pub fn push_finding(out: &mut Vec<Finding>, f: Finding)
    ensures
        views(final(out)@) == views(old(out)@).push(f@),
{
    out.push(f);
    assert(views(out@) =~= views(old(out)@).push(f@));
}

/// Whether `t` occurs in `s`.
pub open spec fn has_text(s: Seq<char>, t: Seq<char>) -> bool {
    crate::dev::numbers::find_from(s, t, 0) >= 0
}

/// Whether `t` occurs in `s`.
pub fn contains_text(s: &str, t: &str) -> (r: bool)
    ensures
        r == has_text(s@, t@),
{
    let a = chars_of(s);
    let b = chars_of(t);
    crate::dev::numbers::find_chars(&a, &b, 0).is_some()
}

/// Whether `a` and `b` agree up to ASCII case.
pub open spec fn ascii_ci_eq(a: Seq<char>, b: Seq<char>) -> bool {
    a.len() == b.len() && forall|i: int| 0 <= i < a.len() ==> crate::dev::numbers::ascii_lower(#[trigger] a[i])
        == crate::dev::numbers::ascii_lower(b[i])
}

/// `c` with an ASCII uppercase letter lowered.
fn lower_ascii(c: char) -> (r: char)
    ensures
        r == crate::dev::numbers::ascii_lower(c),
{
    if 'A' <= c && c <= 'Z' {
        ((c as u8) + 32) as char
    } else {
        c
    }
}

/// Whether `a` and `b` agree up to ASCII case.
pub fn eq_ignore_ascii_case(a: &str, b: &str) -> (r: bool)
    ensures
        r == ascii_ci_eq(a@, b@),
{
    let x = chars_of(a);
    let y = chars_of(b);
    if x.len() != y.len() {
        return false;
    }
    let mut i: usize = 0;
    while i < x.len()
        invariant
            x@ == a@,
            y@ == b@,
            x@.len() == y@.len(),
            i <= x@.len(),
            forall|j: int| 0 <= j < i ==> crate::dev::numbers::ascii_lower(#[trigger] a@[j])
                == crate::dev::numbers::ascii_lower(b@[j]),
        decreases x@.len() - i,
    {
        if lower_ascii(x[i]) != lower_ascii(y[i]) {
            return false;
        }
        i = i + 1;
    }
    true
}

/// The root files whose presence the root checks consult.
#[derive(Clone, Copy, Debug)]
pub struct RootFiles {
    pub bun_lockb: bool,
    pub bun_lock: bool,
    pub package_lock: bool,
    pub pnpm_lock: bool,
    pub yarn_lock: bool,
    pub nvmrc: bool,
}

/// Whether a Bun lockfile is at the root.
pub open spec fn has_bun_lockfile(f: RootFiles) -> bool {
    f.bun_lockb || f.bun_lock
}

/// The lockfiles at the root, in a fixed order.
pub open spec fn present_lockfiles(f: RootFiles) -> Seq<Seq<char>> {
    (if f.bun_lockb { seq!["bun.lockb"@] } else { seq![] })
        + (if f.bun_lock { seq!["bun.lock"@] } else { seq![] })
        + (if f.package_lock { seq!["package-lock.json"@] } else { seq![] })
        + (if f.pnpm_lock { seq!["pnpm-lock.yaml"@] } else { seq![] })
        + (if f.yarn_lock { seq!["yarn.lock"@] } else { seq![] })
}

/// What the root checks read from `package.json`.
#[derive(Clone, Debug)]
pub struct PackageJsonFacts {
    pub package_manager: Option<String>,
    /// The scripts, as name and command.
    pub scripts: Vec<(String, String)>,
    /// The names of the development dependencies.
    pub dev_dependencies: Vec<String>,
    /// Whether `workspaces` is present and not null.
    pub has_workspaces: bool,
}

/// What the root checks read from `tsconfig.json`'s `compilerOptions`: the
/// string and boolean options where they have that type, and the string
/// entries of `types`.
#[derive(Clone, Debug)]
pub struct TsConfigFacts {
    pub module_resolution: Option<String>,
    pub target: Option<String>,
    pub module: Option<String>,
    pub allow_importing_ts_extensions: Option<bool>,
    pub verbatim_module_syntax: Option<bool>,
    pub no_emit: Option<bool>,
    pub types: Vec<String>,
}

/// The finding `rule_id` about `rel`, with no position.
pub open spec fn simple(root: Seq<char>, rule_id: Seq<char>, severity: Severity, rel: Seq<char>, message: Seq<char>, fix: Option<Seq<char>>, confidence: Confidence) -> FindingView {
    finding_at(root, rule_id, severity, rel, message, None, None, None, None, fix, confidence)
}

/// `seq![f]` when `cond` holds, else nothing.
pub open spec fn one_if(cond: bool, f: FindingView) -> Seq<FindingView> {
    if cond {
        seq![f]
    } else {
        seq![]
    }
}

/// What the package-manager checks say of one script.
pub open spec fn script_pm_findings(root: Seq<char>, s: RepoSignalsView, name: Seq<char>, command: Seq<char>) -> Seq<FindingView> {
    let q = "Script \""@ + name + "\""@;
    one_if(s.bun_first && has_text(command, "npx"@), simple(root, "pm-bunx-vs-npx"@, Severity::Warn, "package.json"@,
        q + " uses npx. Prefer bunx."@, Some("Replace `npx` with `bunx` in package.json scripts."@), Confidence::High))
    + one_if(s.bun_first && regex_finds("\\b(npm|pnpm|yarn)\\b"@, command), simple(root, "scripts-no-npm-in-bun-repos"@,
        Severity::Warn, "package.json"@, q + " uses another package manager. Prefer bun install/bun run/bunx for consistency."@,
        None, Confidence::High))
}

/// What the tooling checks say of one script.
pub open spec fn script_tool_findings(root: Seq<char>, name: Seq<char>, command: Seq<char>) -> Seq<FindingView> {
    let q = "Script \""@ + name + "\""@;
    one_if(regex_finds("\\bconcurrently\\b|\\bnpm-run-all\\b|\\brun-p\\b"@, command), simple(root,
        "scripts-bun-run-parallel-sequential"@, Severity::Info, "package.json"@,
        q + " uses an orchestration package. Bun supports --parallel/--sequential."@, None, Confidence::High))
    + one_if(has_text(command, "nodemon"@), simple(root, "runtime-watch-and-hot-reload"@, Severity::Info, "package.json"@,
        q + " uses nodemon. Bun has built-in --watch/--hot."@, None, Confidence::High))
    + one_if(regex_finds("\\b(ts-node|tsx)\\b"@, command), simple(root, "runtime-ts-direct-execution"@, Severity::Info,
        "package.json"@, q + " uses ts-node/tsx. If Bun is your runtime, prefer running TS directly with bun."@, None,
        Confidence::High))
}

/// What the Vercel checks say of one script.
pub open spec fn script_vercel_findings(root: Seq<char>, s: RepoSignalsView, name: Seq<char>, command: Seq<char>) -> Seq<FindingView> {
    one_if(s.vercel_bun_enabled && name == "dev"@ && trim_spec(command) == "next dev"@, simple(root,
        "vercel-nextjs-bun-runtime-scripts"@, Severity::Warn, "package.json"@,
        "Vercel Bun runtime is enabled, but the dev script still uses `next dev` directly."@,
        Some("Use `bun run --bun next dev`."@), Confidence::High))
    + one_if(s.vercel_bun_enabled && name == "build"@ && trim_spec(command) == "next build"@, simple(root,
        "vercel-nextjs-bun-runtime-scripts"@, Severity::Warn, "package.json"@,
        "Vercel Bun runtime is enabled, but the build script still uses `next build` directly."@,
        Some("Use `bun run --bun next build`."@), Confidence::High))
}

/// What the root checks say of one script: the package-manager checks, then
/// the tooling checks, then the Vercel checks.
pub open spec fn script_findings(root: Seq<char>, s: RepoSignalsView, name: Seq<char>, command: Seq<char>) -> Seq<FindingView> {
    script_pm_findings(root, s, name, command) + script_tool_findings(root, name, command)
        + script_vercel_findings(root, s, name, command)
}

/// The signals, as values.
pub struct RepoSignalsView {
    pub bun_first: bool,
    pub vercel_bun_enabled: bool,
    pub has_workspaces: bool,
}

/// The view of the repository signals.
pub open spec fn signals_view(s: crate::bun::audit::RepoSignals) -> RepoSignalsView {
    RepoSignalsView { bun_first: s.bun_first, vercel_bun_enabled: s.vercel_bun_enabled, has_workspaces: s.has_workspaces }
}

/// What the root checks say of the scripts `scripts`, in order.
pub open spec fn scripts_findings(root: Seq<char>, s: RepoSignalsView, scripts: Seq<(String, String)>) -> Seq<FindingView>
    decreases scripts.len(),
{
    if scripts.len() == 0 {
        seq![]
    } else {
        scripts_findings(root, s, scripts.drop_last()) + script_findings(root, s, scripts.last().0@, scripts.last().1@)
    }
}

/// `"Script \"name\""`.
fn script_quote(name: &str) -> (r: String)
    ensures
        r@ == "Script \""@ + name@ + "\""@,
{
    let mut q = owned("Script \"");
    push_all(&mut q, name);
    push_all(&mut q, "\"");
    q
}

/// `a` followed by `b`.
fn cat2(a: &str, b: &str) -> (r: String)
    ensures
        r@ == a@ + b@,
{
    let mut out = owned(a);
    push_all(&mut out, b);
    out
}

/// Appends the finding `rule_id` about `rel`, with no position.
pub(crate) fn push_simple(
    out: &mut Vec<Finding>,
    root: &str,
    rule_id: &str,
    severity: Severity,
    rel: &str,
    message: &str,
    fix: Option<&str>,
    confidence: Confidence,
)
    ensures
        views(final(out)@) == views(old(out)@).push(simple(root@, rule_id@, severity, rel@, message@, match fix {
            Some(x) => Some(x@),
            None => None,
        }, confidence)),
{
    let opts = FindingOptions {
        line: None,
        column: None,
        snippet: None,
        why: None,
        suggested_fix: match fix {
            Some(x) => Some(owned(x)),
            None => None,
        },
        confidence,
    };
    let f = create_finding(root, rule_id, severity, rel, message, opts);
    push_finding(out, f);
}

/// Appends the finding `rule_id` about `rel` when `cond` holds.
pub(crate) fn push_simple_if(
    out: &mut Vec<Finding>,
    cond: bool,
    root: &str,
    rule_id: &str,
    severity: Severity,
    rel: &str,
    message: &str,
    fix: Option<&str>,
    confidence: Confidence,
)
    ensures
        views(final(out)@) == views(old(out)@) + one_if(cond, simple(root@, rule_id@, severity, rel@, message@, match fix {
            Some(x) => Some(x@),
            None => None,
        }, confidence)),
{
    if cond {
        push_simple(out, root, rule_id, severity, rel, message, fix, confidence);
    }
    assert(views(out@) =~= views(old(out)@) + one_if(cond, simple(root@, rule_id@, severity, rel@, message@, match fix {
        Some(x) => Some(x@),
        None => None,
    }, confidence)));
}

/// Appends what the package-manager checks say of one script.
fn push_script_pm(out: &mut Vec<Finding>, root: &str, s: &crate::bun::audit::RepoSignals, name: &str, command: &str)
    ensures
        views(final(out)@) == views(old(out)@) + script_pm_findings(root@, signals_view(*s), name@, command@),
{
    let ghost start = views(out@);
    let q = script_quote(name);
    let m1 = cat2(q.as_str(), " uses npx. Prefer bunx.");
    let m2 = cat2(q.as_str(), " uses another package manager. Prefer bun install/bun run/bunx for consistency.");
    let c1 = s.bun_first && contains_text(command, "npx");
    let c2 = s.bun_first && regex_match("\\b(npm|pnpm|yarn)\\b", command);
    push_simple_if(out, c1, root, "pm-bunx-vs-npx", Severity::Warn, "package.json", m1.as_str(),
        Some("Replace `npx` with `bunx` in package.json scripts."), Confidence::High);
    push_simple_if(out, c2, root, "scripts-no-npm-in-bun-repos", Severity::Warn, "package.json", m2.as_str(), None, Confidence::High);
    assert(views(out@) =~= start + script_pm_findings(root@, signals_view(*s), name@, command@));
}

/// Appends what the tooling checks say of one script.
fn push_script_tools(out: &mut Vec<Finding>, root: &str, name: &str, command: &str)
    ensures
        views(final(out)@) == views(old(out)@) + script_tool_findings(root@, name@, command@),
{
    let ghost start = views(out@);
    let q = script_quote(name);
    let m3 = cat2(q.as_str(), " uses an orchestration package. Bun supports --parallel/--sequential.");
    let m4 = cat2(q.as_str(), " uses nodemon. Bun has built-in --watch/--hot.");
    let m5 = cat2(q.as_str(), " uses ts-node/tsx. If Bun is your runtime, prefer running TS directly with bun.");
    let c3 = regex_match("\\bconcurrently\\b|\\bnpm-run-all\\b|\\brun-p\\b", command);
    let c4 = contains_text(command, "nodemon");
    let c5 = regex_match("\\b(ts-node|tsx)\\b", command);
    push_simple_if(out, c3, root, "scripts-bun-run-parallel-sequential", Severity::Info, "package.json", m3.as_str(), None,
        Confidence::High);
    push_simple_if(out, c4, root, "runtime-watch-and-hot-reload", Severity::Info, "package.json", m4.as_str(), None,
        Confidence::High);
    push_simple_if(out, c5, root, "runtime-ts-direct-execution", Severity::Info, "package.json", m5.as_str(), None,
        Confidence::High);
    assert(views(out@) =~= start + script_tool_findings(root@, name@, command@));
}

/// Appends what the Vercel checks say of one script.
fn push_script_vercel(out: &mut Vec<Finding>, root: &str, s: &crate::bun::audit::RepoSignals, name: &str, command: &str)
    ensures
        views(final(out)@) == views(old(out)@) + script_vercel_findings(root@, signals_view(*s), name@, command@),
{
    let ghost start = views(out@);
    let cs = chars_of(command);
    let (lo, hi) = trim_bounds(&cs, 0, cs.len());
    assert(cs@.subrange(0, cs@.len() as int) =~= command@);
    let trimmed = substring(&cs, lo, hi);
    let c6 = s.vercel_bun_enabled && crate::audit_gate::str_eq(name, "dev") && crate::audit_gate::str_eq(trimmed.as_str(), "next dev");
    let c7 = s.vercel_bun_enabled && crate::audit_gate::str_eq(name, "build") && crate::audit_gate::str_eq(trimmed.as_str(), "next build");
    push_simple_if(out, c6, root, "vercel-nextjs-bun-runtime-scripts", Severity::Warn, "package.json",
        "Vercel Bun runtime is enabled, but the dev script still uses `next dev` directly.",
        Some("Use `bun run --bun next dev`."), Confidence::High);
    push_simple_if(out, c7, root, "vercel-nextjs-bun-runtime-scripts", Severity::Warn, "package.json",
        "Vercel Bun runtime is enabled, but the build script still uses `next build` directly.",
        Some("Use `bun run --bun next build`."), Confidence::High);
    assert(views(out@) =~= start + script_vercel_findings(root@, signals_view(*s), name@, command@));
}

/// Appends what the root checks say of one script.
#[verifier::rlimit(40)]
fn push_script_findings(out: &mut Vec<Finding>, root: &str, s: &crate::bun::audit::RepoSignals, name: &str, command: &str)
    ensures
        views(final(out)@) == views(old(out)@) + script_findings(root@, signals_view(*s), name@, command@),
{
    let ghost start = views(out@);
    push_script_pm(out, root, s, name, command);
    let ghost a = views(out@);
    push_script_tools(out, root, name, command);
    let ghost b = views(out@);
    push_script_vercel(out, root, s, name, command);
    let ghost pm = script_pm_findings(root@, signals_view(*s), name@, command@);
    let ghost tl = script_tool_findings(root@, name@, command@);
    let ghost vc = script_vercel_findings(root@, signals_view(*s), name@, command@);
    assert(a == start + pm);
    assert(b == a + tl);
    assert(views(out@) == b + vc);
    assert(script_findings(root@, signals_view(*s), name@, command@) == pm + tl + vc);
    assert(views(out@) =~= start + (pm + tl + vc));
}

/// What the lockfile check says: more than one lockfile at the root is an
/// error, reported on the first of them.
pub open spec fn lockfile_findings(root: Seq<char>, f: RootFiles) -> Seq<FindingView> {
    let names = present_lockfiles(f);
    one_if(names.len() > 1, simple(root, "pm-no-mixed-lockfiles"@, Severity::Error, names[0],
        "Multiple lockfiles detected: "@ + crate::text::join_spec(names, ", "@)
            + ". Pick one package manager and delete the others."@,
        Some("Remove non-Bun lockfiles and keep Bun's lockfile as the single source of truth."@), Confidence::High))
}

/// What the `packageManager` check says.
pub open spec fn package_manager_findings(root: Seq<char>, s: RepoSignalsView, pm: Option<Seq<char>>) -> Seq<FindingView> {
    match pm {
        None => seq![simple(root, "pm-package-manager-field"@, Severity::Info, "package.json"@,
            "Missing `packageManager` field."@,
            Some("Add `\"packageManager\": \"bun@"@ + crate::bun::types::VERIFIED_BUN_VERSION@
                + "\"` when the repo is Bun-first."@), Confidence::High)],
        Some(p) => one_if(s.bun_first && !"bun@"@.is_prefix_of(p), simple(root, "pm-package-manager-field"@,
            Severity::Warn, "package.json"@,
            "packageManager is \""@ + p + "\". If this repo is Bun-first, set it to \"bun@"@
                + crate::bun::types::VERIFIED_BUN_VERSION@ + "\"."@, None, Confidence::High)),
    }
}

/// Whether an optional option agrees with `expected` up to ASCII case.
pub open spec fn opt_ci_eq(v: Option<Seq<char>>, expected: Seq<char>) -> bool {
    match v {
        Some(x) => ascii_ci_eq(x, expected),
        None => false,
    }
}

/// The Bun-friendly compiler options `ts` lacks, as `key: value` text.
pub open spec fn missing_ts_options(ts: TsConfigFacts) -> Seq<Seq<char>> {
    (if opt_ci_eq(opt_view(ts.target), "ESNext"@) { seq![] } else { seq!["target: \"ESNext\""@] })
        + (if opt_ci_eq(opt_view(ts.module), "Preserve"@) { seq![] } else { seq!["module: \"Preserve\""@] })
        + (if ts.allow_importing_ts_extensions == Some(true) { seq![] } else { seq!["allowImportingTsExtensions: true"@] })
        + (if ts.verbatim_module_syntax == Some(true) { seq![] } else { seq!["verbatimModuleSyntax: true"@] })
        + (if ts.no_emit == Some(true) { seq![] } else { seq!["noEmit: true"@] })
}

/// What the `tsconfig.json` checks say.
pub open spec fn tsconfig_findings(root: Seq<char>, s: RepoSignalsView, has_bun_types: bool, ts: TsConfigFacts) -> Seq<FindingView> {
    let missing = missing_ts_options(ts);
    (match opt_view(ts.module_resolution) {
        Some(m) => one_if(!ascii_ci_eq(m, "bundler"@), simple(root, "tsconfig-module-resolution-bundler"@, Severity::Warn,
            "tsconfig.json"@, "compilerOptions.moduleResolution is \""@ + m + "\". Bun generally expects \"Bundler\"."@,
            None, Confidence::High)),
        None => seq![],
    }) + one_if(missing.len() > 0, simple(root, "tsconfig-bun-recommended"@, Severity::Info, "tsconfig.json"@,
        "tsconfig.json is missing Bun-friendly options: "@ + crate::text::join_spec(missing, ", "@) + "."@, None,
        Confidence::High)) + one_if((has_bun_types || s.bun_first) && !crate::text::strs(ts.types@).contains("bun-types"@),
        simple(root, "tsconfig-bun-types"@, Severity::Info, "tsconfig.json"@,
        "Consider adding compilerOptions.types: [\"bun-types\"] for Bun globals/types."@, None, Confidence::High))
}

/// Whether `m` is `bundler` up to ASCII case.
pub open spec fn is_bundler_any_case(m: Seq<char>) -> bool {
    m.len() == 7 && forall|i: int| 0 <= i < 7 ==> crate::dev::numbers::ascii_lower(#[trigger] m[i]) == "bundler"@[i]
}

/// A `moduleResolution` of `bundler` in any ASCII case draws no
/// module-resolution finding from the `tsconfig.json` checks.
pub proof fn law_bundler_any_case_accepted(root: Seq<char>, s: RepoSignalsView, has_bun_types: bool, ts: TsConfigFacts)
    requires
        ts.module_resolution matches Some(m) && is_bundler_any_case(m@),
    ensures
        forall|i: int| 0 <= i < tsconfig_findings(root, s, has_bun_types, ts).len()
            ==> (#[trigger] tsconfig_findings(root, s, has_bun_types, ts)[i]).rule_id != "tsconfig-module-resolution-bundler"@,
{
    reveal_strlit("bundler");
    reveal_strlit("tsconfig-module-resolution-bundler");
    reveal_strlit("tsconfig-bun-recommended");
    reveal_strlit("tsconfig-bun-types");
    let m = ts.module_resolution->0@;
    assert forall|i: int| 0 <= i < m.len() implies crate::dev::numbers::ascii_lower(#[trigger] m[i])
        == crate::dev::numbers::ascii_lower("bundler"@[i]) by {
        assert(crate::dev::numbers::ascii_lower("bundler"@[i]) == "bundler"@[i]);
    }
    assert(ascii_ci_eq(m, "bundler"@));
    let t = tsconfig_findings(root, s, has_bun_types, ts);
    assert forall|i: int| 0 <= i < t.len() implies (#[trigger] t[i]).rule_id != "tsconfig-module-resolution-bundler"@ by {
        if t[i].rule_id == "tsconfig-module-resolution-bundler"@ {
            assert(t[i].rule_id.len() == 34);
        }
    }
}

/// What the `package.json` checks (and, with them, the `tsconfig.json`
/// checks) say.
pub open spec fn package_findings(root: Seq<char>, s: RepoSignalsView, pkg: PackageJsonFacts, ts: Option<TsConfigFacts>) -> Seq<FindingView> {
    package_manager_findings(root, s, opt_view(pkg.package_manager)) + scripts_findings(root, s, pkg.scripts@)
        + match ts {
        Some(t) => tsconfig_findings(root, s, crate::text::strs(pkg.dev_dependencies@).contains("@types/bun"@), t),
        None => seq![],
    }
}

/// What the checks on `.gitignore`, `.nvmrc` and `bunfig.toml` say.
pub open spec fn config_file_findings(root: Seq<char>, s: RepoSignalsView, f: RootFiles, gitignore: Option<Seq<char>>, bunfig: Option<Seq<char>>) -> Seq<FindingView> {
    one_if(match gitignore {
        Some(g) => has_text(g, "bun.lockb"@) || has_text(g, "bun.lock"@),
        None => false,
    }, simple(root, "pm-commit-bun-lockb"@, Severity::Warn, ".gitignore"@,
        "Bun lockfiles are ignored. Prefer committing bun.lock or bun.lockb for deterministic installs."@, None,
        Confidence::High))
    + one_if(f.nvmrc && has_bun_lockfile(f), simple(root, "runtime-bun-vs-node-choose"@, Severity::Info, ".nvmrc"@,
        "Found both .nvmrc and a Bun lockfile. If Node is not required, consider removing Node-only runtime pinning."@,
        None, Confidence::High))
    + match bunfig {
        Some(b) => one_if(toml_positive_int(b, "test"@, "retry"@), simple(root, "test-bun-retry"@, Severity::Info,
            "bunfig.toml"@, "bunfig.toml sets a default test retry count. Keep retries low and prefer fixing flaky tests."@,
            None, Confidence::Medium))
            + one_if(has_bun_lockfile(f) && toml_bool(b, "install"@, "frozenLockfile"@, false), simple(root,
            "pm-bun-install-ci-frozen-lockfile"@, Severity::Info, "bunfig.toml"@,
            "bunfig.toml explicitly disables frozen lockfile installs. CI should prefer frozen lockfile mode."@,
            Some("Use `bun install --frozen-lockfile` or `bun ci` in CI."@), Confidence::High))
            + one_if(s.bun_first && toml_bool(b, "run"@, "bun"@, false), simple(root, "runtime-bun-run-bun-flag"@,
            Severity::Info, "bunfig.toml"@,
            "bunfig.toml disables run.bun. Binaries with Node shebangs may execute under Node instead of Bun."@,
            Some("Enable `[run] bun = true` when you intentionally want Bun to execute Node-shebang binaries."@),
            Confidence::High)),
        None => seq![],
    }
}

/// Everything the root checks say, in the order the auditor reports it.
pub open spec fn root_findings(
    root: Seq<char>,
    s: RepoSignalsView,
    f: RootFiles,
    pkg: Option<PackageJsonFacts>,
    ts: Option<TsConfigFacts>,
    gitignore: Option<Seq<char>>,
    bunfig: Option<Seq<char>>,
) -> Seq<FindingView> {
    lockfile_findings(root, f) + match pkg {
        Some(p) => package_findings(root, s, p, ts),
        None => seq![],
    } + config_file_findings(root, s, f, gitignore, bunfig)
}

/// Whether no finding of `fs` has the rule `id`.
pub open spec fn lacks_rule(fs: Seq<FindingView>, id: Seq<char>) -> bool {
    forall|i: int| 0 <= i < fs.len() ==> (#[trigger] fs[i]).rule_id != id
}

proof fn lemma_lacks_rule_concat(a: Seq<FindingView>, b: Seq<FindingView>, id: Seq<char>)
    requires
        lacks_rule(a, id),
        lacks_rule(b, id),
    ensures
        lacks_rule(a + b, id),
{
    assert forall|i: int| 0 <= i < (a + b).len() implies (#[trigger] (a + b)[i]).rule_id != id by {
        if i < a.len() {
            assert((a + b)[i] == a[i]);
        } else {
            assert((a + b)[i] == b[i - a.len()]);
        }
    }
}

proof fn lemma_one_if_lacks_rule(c: bool, f: FindingView, id: Seq<char>)
    requires
        f.rule_id.len() != id.len(),
    ensures
        lacks_rule(one_if(c, f), id),
{
}

proof fn lemma_script_lacks_module_resolution(root: Seq<char>, s: RepoSignalsView, name: Seq<char>, command: Seq<char>)
    ensures
        lacks_rule(script_findings(root, s, name, command), "tsconfig-module-resolution-bundler"@),
{
    let id = "tsconfig-module-resolution-bundler"@;
    reveal_strlit("tsconfig-module-resolution-bundler");
    reveal_strlit("pm-bunx-vs-npx");
    reveal_strlit("scripts-no-npm-in-bun-repos");
    reveal_strlit("scripts-bun-run-parallel-sequential");
    reveal_strlit("runtime-watch-and-hot-reload");
    reveal_strlit("runtime-ts-direct-execution");
    reveal_strlit("vercel-nextjs-bun-runtime-scripts");
    let pm = script_pm_findings(root, s, name, command);
    let tl = script_tool_findings(root, name, command);
    let vc = script_vercel_findings(root, s, name, command);
    assert(lacks_rule(pm, id)) by {
        assert(pm.len() <= 2);
    }
    assert(lacks_rule(tl, id)) by {
        assert(tl.len() <= 3);
    }
    assert(lacks_rule(vc, id)) by {
        assert(vc.len() <= 2);
    }
    lemma_lacks_rule_concat(pm, tl, id);
    lemma_lacks_rule_concat(pm + tl, vc, id);
}

proof fn lemma_scripts_lack_module_resolution(root: Seq<char>, s: RepoSignalsView, scripts: Seq<(String, String)>)
    ensures
        lacks_rule(scripts_findings(root, s, scripts), "tsconfig-module-resolution-bundler"@),
    decreases scripts.len(),
{
    if scripts.len() > 0 {
        lemma_scripts_lack_module_resolution(root, s, scripts.drop_last());
        lemma_script_lacks_module_resolution(root, s, scripts.last().0@, scripts.last().1@);
        lemma_lacks_rule_concat(
            scripts_findings(root, s, scripts.drop_last()),
            script_findings(root, s, scripts.last().0@, scripts.last().1@),
            "tsconfig-module-resolution-bundler"@,
        );
    }
}

proof fn lemma_other_root_checks_lack_module_resolution(
    root: Seq<char>,
    s: RepoSignalsView,
    f: RootFiles,
    pm: Option<Seq<char>>,
    gitignore: Option<Seq<char>>,
    bunfig: Option<Seq<char>>,
)
    ensures
        lacks_rule(lockfile_findings(root, f), "tsconfig-module-resolution-bundler"@),
        lacks_rule(package_manager_findings(root, s, pm), "tsconfig-module-resolution-bundler"@),
        lacks_rule(config_file_findings(root, s, f, gitignore, bunfig), "tsconfig-module-resolution-bundler"@),
{
    let id = "tsconfig-module-resolution-bundler"@;
    reveal_strlit("tsconfig-module-resolution-bundler");
    reveal_strlit("pm-no-mixed-lockfiles");
    reveal_strlit("pm-package-manager-field");
    reveal_strlit("pm-commit-bun-lockb");
    reveal_strlit("runtime-bun-vs-node-choose");
    reveal_strlit("test-bun-retry");
    reveal_strlit("pm-bun-install-ci-frozen-lockfile");
    reveal_strlit("runtime-bun-run-bun-flag");
    let c = config_file_findings(root, s, f, gitignore, bunfig);
    assert(lacks_rule(c, id)) by {
        assert forall|i: int| 0 <= i < c.len() implies (#[trigger] c[i]).rule_id != id by {
            let r = c[i].rule_id;
            assert(r == "pm-commit-bun-lockb"@ || r == "runtime-bun-vs-node-choose"@ || r == "test-bun-retry"@
                || r == "pm-bun-install-ci-frozen-lockfile"@ || r == "runtime-bun-run-bun-flag"@);
        }
    }
}

/// A `tsconfig.json` whose `moduleResolution` is `bundler` in any ASCII case
/// (`"Bundler"`, `"BUNDLER"`, ...) draws no module-resolution finding from the
/// whole root audit: none of the findings about the repository root has that
/// rule, whatever the lockfiles, scripts and configuration files say.
pub proof fn law_root_audit_accepts_bundler_any_case(
    root: Seq<char>,
    s: RepoSignalsView,
    f: RootFiles,
    pkg: PackageJsonFacts,
    ts: TsConfigFacts,
    gitignore: Option<Seq<char>>,
    bunfig: Option<Seq<char>>,
)
    requires
        ts.module_resolution matches Some(m) && is_bundler_any_case(m@),
    ensures
        forall|i: int| 0 <= i < root_findings(root, s, f, Some(pkg), Some(ts), gitignore, bunfig).len()
            ==> (#[trigger] root_findings(root, s, f, Some(pkg), Some(ts), gitignore, bunfig)[i]).rule_id
            != "tsconfig-module-resolution-bundler"@,
{
    let id = "tsconfig-module-resolution-bundler"@;
    let hb = crate::text::strs(pkg.dev_dependencies@).contains("@types/bun"@);
    law_bundler_any_case_accepted(root, s, hb, ts);
    assert(lacks_rule(tsconfig_findings(root, s, hb, ts), id));
    lemma_other_root_checks_lack_module_resolution(root, s, f, opt_view(pkg.package_manager), gitignore, bunfig);
    lemma_scripts_lack_module_resolution(root, s, pkg.scripts@);
    let a = package_manager_findings(root, s, opt_view(pkg.package_manager));
    let b = scripts_findings(root, s, pkg.scripts@);
    let c = tsconfig_findings(root, s, hb, ts);
    lemma_lacks_rule_concat(a, b, id);
    lemma_lacks_rule_concat(a + b, c, id);
    assert(package_findings(root, s, pkg, Some(ts)) == a + b + c);
    let l = lockfile_findings(root, f);
    let g = config_file_findings(root, s, f, gitignore, bunfig);
    lemma_lacks_rule_concat(l, a + b + c, id);
    lemma_lacks_rule_concat(l + (a + b + c), g, id);
    assert(root_findings(root, s, f, Some(pkg), Some(ts), gitignore, bunfig) == l + (a + b + c) + g);
    assert(lacks_rule(root_findings(root, s, f, Some(pkg), Some(ts), gitignore, bunfig), id));
}

/// The lockfiles at the root, in a fixed order.
fn lockfile_names(f: &RootFiles) -> (r: Vec<String>)
    ensures
        crate::text::strs(r@) == present_lockfiles(*f),
{
    let mut v: Vec<String> = Vec::new();
    let ghost mut e: Seq<Seq<char>> = seq![];
    if f.bun_lockb {
        v.push(owned("bun.lockb"));
        proof { e = e.push("bun.lockb"@); }
    }
    assert(crate::text::strs(v@) =~= e);
    if f.bun_lock {
        v.push(owned("bun.lock"));
        proof { e = e.push("bun.lock"@); }
    }
    assert(crate::text::strs(v@) =~= e);
    if f.package_lock {
        v.push(owned("package-lock.json"));
        proof { e = e.push("package-lock.json"@); }
    }
    assert(crate::text::strs(v@) =~= e);
    if f.pnpm_lock {
        v.push(owned("pnpm-lock.yaml"));
        proof { e = e.push("pnpm-lock.yaml"@); }
    }
    assert(crate::text::strs(v@) =~= e);
    if f.yarn_lock {
        v.push(owned("yarn.lock"));
        proof { e = e.push("yarn.lock"@); }
    }
    assert(crate::text::strs(v@) =~= e);
    assert(e =~= present_lockfiles(*f));
    v
}

/// Appends what the lockfile check says.
fn push_lockfile_findings(out: &mut Vec<Finding>, root: &str, f: &RootFiles)
    ensures
        views(final(out)@) == views(old(out)@) + lockfile_findings(root@, *f),
{
    let names = lockfile_names(f);
    if names.len() > 1 {
        let mut m = owned("Multiple lockfiles detected: ");
        let joined = crate::text::join_strings(&names, ", ");
        push_all(&mut m, joined.as_str());
        push_all(&mut m, ". Pick one package manager and delete the others.");
        assert(crate::text::strs(names@)[0] == names@[0]@);
        push_simple(out, root, "pm-no-mixed-lockfiles", Severity::Error, names[0].as_str(), m.as_str(),
            Some("Remove non-Bun lockfiles and keep Bun's lockfile as the single source of truth."), Confidence::High);
    }
    assert(views(out@) =~= views(old(out)@) + lockfile_findings(root@, *f));
}

/// Appends what the `packageManager` check says.
fn push_package_manager_findings(out: &mut Vec<Finding>, root: &str, s: &crate::bun::audit::RepoSignals, pm: &Option<String>)
    ensures
        views(final(out)@) == views(old(out)@) + package_manager_findings(root@, signals_view(*s), opt_view(*pm)),
{
    match pm {
        None => {
            let mut fix = owned("Add `\"packageManager\": \"bun@");
            push_all(&mut fix, crate::bun::types::VERIFIED_BUN_VERSION);
            push_all(&mut fix, "\"` when the repo is Bun-first.");
            push_simple(out, root, "pm-package-manager-field", Severity::Info, "package.json",
                "Missing `packageManager` field.", Some(fix.as_str()), Confidence::High);
        },
        Some(p) => {
            let mut m = owned("packageManager is \"");
            push_all(&mut m, p.as_str());
            push_all(&mut m, "\". If this repo is Bun-first, set it to \"bun@");
            push_all(&mut m, crate::bun::types::VERIFIED_BUN_VERSION);
            push_all(&mut m, "\".");
            let c = s.bun_first && !crate::text::starts_with(p.as_str(), "bun@");
            push_simple_if(out, c, root, "pm-package-manager-field", Severity::Warn, "package.json", m.as_str(), None,
                Confidence::High);
        },
    }
    assert(views(out@) =~= views(old(out)@) + package_manager_findings(root@, signals_view(*s), opt_view(*pm)));
}

/// Appends what the root checks say of the scripts, in order.
fn push_scripts_findings(out: &mut Vec<Finding>, root: &str, s: &crate::bun::audit::RepoSignals, scripts: &Vec<(String, String)>)
    ensures
        views(final(out)@) == views(old(out)@) + scripts_findings(root@, signals_view(*s), scripts@),
{
    let ghost start = views(out@);
    let mut i: usize = 0;
    while i < scripts.len()
        invariant
            i <= scripts@.len(),
            views(out@) == start + scripts_findings(root@, signals_view(*s), scripts@.take(i as int)),
        decreases scripts@.len() - i,
    {
        let ghost before = views(out@);
        let (name, command) = &scripts[i];
        push_script_findings(out, root, s, name.as_str(), command.as_str());
        proof {
            let t = scripts@.take(i + 1);
            assert(t.drop_last() =~= scripts@.take(i as int));
            assert(t.last() == scripts@[i as int]);
            assert(views(out@) =~= start + scripts_findings(root@, signals_view(*s), t));
        }
        i = i + 1;
    }
    assert(scripts@.take(scripts@.len() as int) =~= scripts@);
}

/// Whether the optional string agrees with `expected` up to ASCII case.
fn opt_eq_ignore_case(v: &Option<String>, expected: &str) -> (r: bool)
    ensures
        r == opt_ci_eq(opt_view(*v), expected@),
{
    match v {
        Some(x) => eq_ignore_ascii_case(x.as_str(), expected),
        None => false,
    }
}

/// The Bun-friendly compiler options `ts` lacks.
fn missing_options(ts: &TsConfigFacts) -> (r: Vec<String>)
    ensures
        crate::text::strs(r@) == missing_ts_options(*ts),
{
    let mut v: Vec<String> = Vec::new();
    let ghost mut e: Seq<Seq<char>> = seq![];
    if !opt_eq_ignore_case(&ts.target, "ESNext") {
        v.push(owned("target: \"ESNext\""));
        proof { e = e.push("target: \"ESNext\""@); }
    }
    assert(crate::text::strs(v@) =~= e);
    if !opt_eq_ignore_case(&ts.module, "Preserve") {
        v.push(owned("module: \"Preserve\""));
        proof { e = e.push("module: \"Preserve\""@); }
    }
    assert(crate::text::strs(v@) =~= e);
    if ts.allow_importing_ts_extensions != Some(true) {
        v.push(owned("allowImportingTsExtensions: true"));
        proof { e = e.push("allowImportingTsExtensions: true"@); }
    }
    assert(crate::text::strs(v@) =~= e);
    if ts.verbatim_module_syntax != Some(true) {
        v.push(owned("verbatimModuleSyntax: true"));
        proof { e = e.push("verbatimModuleSyntax: true"@); }
    }
    assert(crate::text::strs(v@) =~= e);
    if ts.no_emit != Some(true) {
        v.push(owned("noEmit: true"));
        proof { e = e.push("noEmit: true"@); }
    }
    assert(crate::text::strs(v@) =~= e);
    assert(e =~= missing_ts_options(*ts));
    v
}

/// Appends what the `tsconfig.json` checks say.
fn push_tsconfig_findings(out: &mut Vec<Finding>, root: &str, s: &crate::bun::audit::RepoSignals, has_bun_types: bool, ts: &TsConfigFacts)
    ensures
        views(final(out)@) == views(old(out)@) + tsconfig_findings(root@, signals_view(*s), has_bun_types, *ts),
        (ts.module_resolution matches Some(m) && is_bundler_any_case(m@)) ==> forall|i: int|
            old(out)@.len() <= i < final(out)@.len() ==> (#[trigger] final(out)@[i]).rule_id@ != "tsconfig-module-resolution-bundler"@,
{
    proof {
        if ts.module_resolution is Some && is_bundler_any_case(ts.module_resolution->0@) {
            law_bundler_any_case_accepted(root@, signals_view(*s), has_bun_types, *ts);
        }
    }
    let ghost start = views(out@);
    match &ts.module_resolution {
        Some(m) => {
            let mut msg = owned("compilerOptions.moduleResolution is \"");
            push_all(&mut msg, m.as_str());
            push_all(&mut msg, "\". Bun generally expects \"Bundler\".");
            let c = !eq_ignore_ascii_case(m.as_str(), "bundler");
            push_simple_if(out, c, root, "tsconfig-module-resolution-bundler", Severity::Warn, "tsconfig.json", msg.as_str(),
                None, Confidence::High);
        },
        None => {},
    }
    let ghost a1 = views(out@);
    let missing = missing_options(ts);
    let mut msg = owned("tsconfig.json is missing Bun-friendly options: ");
    let joined = crate::text::join_strings(&missing, ", ");
    push_all(&mut msg, joined.as_str());
    push_all(&mut msg, ".");
    push_simple_if(out, missing.len() > 0, root, "tsconfig-bun-recommended", Severity::Info, "tsconfig.json", msg.as_str(),
        None, Confidence::High);
    let ghost a2 = views(out@);
    let has_types = crate::bun::release_sync::has_id(&ts.types, "bun-types");
    push_simple_if(out, (has_bun_types || s.bun_first) && !has_types, root, "tsconfig-bun-types", Severity::Info,
        "tsconfig.json", "Consider adding compilerOptions.types: [\"bun-types\"] for Bun globals/types.", None,
        Confidence::High);
    assert(views(out@) =~= start + tsconfig_findings(root@, signals_view(*s), has_bun_types, *ts));
    proof {
        if ts.module_resolution is Some && is_bundler_any_case(ts.module_resolution->0@) {
            assert forall|i: int| old(out)@.len() <= i < out@.len() implies (#[trigger] out@[i]).rule_id@ != "tsconfig-module-resolution-bundler"@ by {
                assert(views(out@)[i] == out@[i]@);
                assert(views(out@)[i] == tsconfig_findings(root@, signals_view(*s), has_bun_types, *ts)[i - start.len()]);
            }
        }
    }
}

/// Appends what the `package.json` and `tsconfig.json` checks say.
fn push_package_findings(out: &mut Vec<Finding>, root: &str, s: &crate::bun::audit::RepoSignals, pkg: &PackageJsonFacts, ts: &Option<TsConfigFacts>)
    ensures
        views(final(out)@) == views(old(out)@) + package_findings(root@, signals_view(*s), *pkg, *ts),
{
    let ghost start = views(out@);
    push_package_manager_findings(out, root, s, &pkg.package_manager);
    push_scripts_findings(out, root, s, &pkg.scripts);
    match ts {
        Some(t) => {
            let has_bun_types = crate::bun::release_sync::has_id(&pkg.dev_dependencies, "@types/bun");
            push_tsconfig_findings(out, root, s, has_bun_types, t);
        },
        None => {},
    }
    assert(views(out@) =~= start + package_findings(root@, signals_view(*s), *pkg, *ts));
}

/// Appends what the checks on `.gitignore`, `.nvmrc` and `bunfig.toml` say.
fn push_config_file_findings(
    out: &mut Vec<Finding>,
    root: &str,
    s: &crate::bun::audit::RepoSignals,
    f: &RootFiles,
    gitignore: &Option<String>,
    bunfig: &Option<String>,
)
    ensures
        views(final(out)@) == views(old(out)@) + config_file_findings(root@, signals_view(*s), *f, opt_view(*gitignore), opt_view(*bunfig)),
{
    let ghost start = views(out@);
    let ignored = match gitignore {
        Some(g) => contains_text(g.as_str(), "bun.lockb") || contains_text(g.as_str(), "bun.lock"),
        None => false,
    };
    push_simple_if(out, ignored, root, "pm-commit-bun-lockb", Severity::Warn, ".gitignore",
        "Bun lockfiles are ignored. Prefer committing bun.lock or bun.lockb for deterministic installs.", None,
        Confidence::High);
    let bun_lockfile = f.bun_lockb || f.bun_lock;
    push_simple_if(out, f.nvmrc && bun_lockfile, root, "runtime-bun-vs-node-choose", Severity::Info, ".nvmrc",
        "Found both .nvmrc and a Bun lockfile. If Node is not required, consider removing Node-only runtime pinning.",
        None, Confidence::High);
    let ghost a2 = views(out@);
    match bunfig {
        Some(b) => {
            let c1 = toml_table_has_positive_integer(b.as_str(), "test", "retry");
            push_simple_if(out, c1, root, "test-bun-retry", Severity::Info, "bunfig.toml",
                "bunfig.toml sets a default test retry count. Keep retries low and prefer fixing flaky tests.", None,
                Confidence::Medium);
            let c2 = bun_lockfile && toml_table_has_bool(b.as_str(), "install", "frozenLockfile", false);
            push_simple_if(out, c2, root, "pm-bun-install-ci-frozen-lockfile", Severity::Info, "bunfig.toml",
                "bunfig.toml explicitly disables frozen lockfile installs. CI should prefer frozen lockfile mode.",
                Some("Use `bun install --frozen-lockfile` or `bun ci` in CI."), Confidence::High);
            let c3 = s.bun_first && toml_table_has_bool(b.as_str(), "run", "bun", false);
            push_simple_if(out, c3, root, "runtime-bun-run-bun-flag", Severity::Info, "bunfig.toml",
                "bunfig.toml disables run.bun. Binaries with Node shebangs may execute under Node instead of Bun.",
                Some("Enable `[run] bun = true` when you intentionally want Bun to execute Node-shebang binaries."),
                Confidence::High);
        },
        None => {},
    }
    assert(views(out@) =~= start + config_file_findings(root@, signals_view(*s), *f, opt_view(*gitignore), opt_view(*bunfig)));
}

/// The findings of the checks on the repository root's files, in the order the
/// auditor reports them: mixed lockfiles; then, when there is a `package.json`,
/// its `packageManager` field, each script (in the order given) and, when there
/// is a `tsconfig.json`, its compiler options; then an ignored Bun lockfile, an
/// `.nvmrc` beside a Bun lockfile, and the `bunfig.toml` settings.
pub fn audit_root_files(
    root: &str,
    signals: &crate::bun::audit::RepoSignals,
    files: &RootFiles,
    package_json: &Option<PackageJsonFacts>,
    tsconfig: &Option<TsConfigFacts>,
    gitignore: &Option<String>,
    bunfig: &Option<String>,
) -> (r: Vec<Finding>)
    ensures
        views(r@) == root_findings(root@, signals_view(*signals), *files, *package_json, *tsconfig,
            opt_view(*gitignore), opt_view(*bunfig)),
        (package_json is Some && tsconfig is Some && tsconfig->0.module_resolution is Some
            && is_bundler_any_case(tsconfig->0.module_resolution->0@)) ==> forall|i: int| 0 <= i < r@.len()
            ==> (#[trigger] r@[i]).rule_id@ != "tsconfig-module-resolution-bundler"@,
{
    proof {
        if package_json is Some && tsconfig is Some && tsconfig->0.module_resolution is Some
            && is_bundler_any_case(tsconfig->0.module_resolution->0@) {
            law_root_audit_accepts_bundler_any_case(root@, signals_view(*signals), *files, package_json->0,
                tsconfig->0, opt_view(*gitignore), opt_view(*bunfig));
        }
    }
    let mut out: Vec<Finding> = Vec::new();
    assert(views(out@) =~= seq![]);
    push_lockfile_findings(&mut out, root, files);
    let ghost a1 = views(out@);
    match package_json {
        Some(p) => push_package_findings(&mut out, root, signals, p, tsconfig),
        None => {},
    }
    let ghost a2 = views(out@);
    push_config_file_findings(&mut out, root, signals, files, gitignore, bunfig);
    assert(views(out@) =~= root_findings(root@, signals_view(*signals), *files, *package_json, *tsconfig,
        opt_view(*gitignore), opt_view(*bunfig)));
    assert forall|i: int| 0 <= i < out@.len() implies (#[trigger] out@[i]).rule_id@ == views(out@)[i].rule_id by {}
    out
}

/// The pattern of a `bunVersion: "..."` setting in `vercel.ts`.
pub open spec fn vercel_ts_pattern() -> Seq<char> {
    "bunVersion\\s*:\\s*[\"']([^\"']+)[\"']"@
}

/// Whether a `vercel.ts` enables the Bun runtime: it exports something, and its
/// first `bunVersion` setting names a version.
pub open spec fn vercel_ts_bun_runtime(text: Seq<char>) -> bool {
    let gs = crate::pattern::regex_first_groups(vercel_ts_pattern(), text);
    &&& has_text(text, "export"@)
    &&& gs.len() > 0
    &&& match gs[0] {
        Some(g) => trim_spec(g).len() > 0,
        None => false,
    }
}

/// Whether a `vercel.ts` enables the Bun runtime (see [`vercel_ts_bun_runtime`]).
pub fn vercel_ts_has_bun_runtime(text: &str) -> (r: bool)
    ensures
        r == vercel_ts_bun_runtime(text@),
{
    let gs = crate::pattern::regex_captures("bunVersion\\s*:\\s*[\"']([^\"']+)[\"']", text);
    let ghost view = gs@.map_values(|o: Option<String>| crate::pattern::opt_chars(o));
    if !contains_text(text, "export") || gs.len() == 0 {
        return false;
    }
    assert(view[0] == crate::pattern::opt_chars(gs@[0]));
    match &gs[0] {
        Some(g) => {
            let cs = chars_of(g.as_str());
            let (lo, hi) = trim_bounds(&cs, 0, cs.len());
            assert(cs@.subrange(0, cs@.len() as int) =~= g@);
            hi > lo
        },
        None => false,
    }
}

/// Whether the audit sees the Vercel Bun runtime enabled: by `vercel.json`
/// when there is one, else by `vercel.ts`.
pub open spec fn audit_vercel_bun_enabled(vercel_json: Option<crate::json::Json>, vercel_ts: Option<Seq<char>>) -> bool {
    match vercel_json {
        Some(j) => crate::bun::json::has_bun_runtime(j),
        None => match vercel_ts {
            Some(t) => vercel_ts_bun_runtime(t),
            None => false,
        },
    }
}

/// Whether the audit sees the Vercel Bun runtime enabled (see
/// [`audit_vercel_bun_enabled`]).
pub fn detect_vercel_bun_enabled(vercel_json: &Option<crate::json::Json>, vercel_ts: &Option<String>) -> (r: bool)
    ensures
        r == audit_vercel_bun_enabled(*vercel_json, opt_view(*vercel_ts)),
{
    match vercel_json {
        Some(j) => crate::bun::json::contains_bun_runtime_config(j),
        None => match vercel_ts {
            Some(t) => vercel_ts_has_bun_runtime(t.as_str()),
            None => false,
        },
    }
}

/// Whether some script invokes `bun` or `bunx`.
pub open spec fn scripts_use_bun(scripts: Seq<(String, String)>) -> bool {
    exists|i: int| 0 <= i < scripts.len() && regex_finds("\\bbun(x)?\\b"@, #[trigger] scripts[i].1@)
}

/// The repository signals: Bun-first when there is a Bun lockfile, a
/// `bun@` package manager, the Vercel Bun runtime, or a script that runs
/// `bun`/`bunx`; with workspaces when `package.json` declares them.
pub open spec fn inferred_signals(f: RootFiles, pkg: Option<PackageJsonFacts>, vercel_bun_enabled: bool) -> RepoSignalsView {
    RepoSignalsView {
        bun_first: has_bun_lockfile(f) || (match pkg {
            Some(p) => match opt_view(p.package_manager) {
                Some(pm) => "bun@"@.is_prefix_of(pm),
                None => false,
            },
            None => false,
        }) || vercel_bun_enabled || (match pkg {
            Some(p) => scripts_use_bun(p.scripts@),
            None => false,
        }),
        vercel_bun_enabled,
        has_workspaces: match pkg {
            Some(p) => p.has_workspaces,
            None => false,
        },
    }
}

/// Whether some script invokes `bun` or `bunx`.
fn any_script_uses_bun(scripts: &Vec<(String, String)>) -> (r: bool)
    ensures
        r == scripts_use_bun(scripts@),
{
    let mut i: usize = 0;
    while i < scripts.len()
        invariant
            i <= scripts@.len(),
            forall|j: int| 0 <= j < i ==> !regex_finds("\\bbun(x)?\\b"@, #[trigger] scripts@[j].1@),
        decreases scripts@.len() - i,
    {
        if regex_match("\\bbun(x)?\\b", scripts[i].1.as_str()) {
            return true;
        }
        i = i + 1;
    }
    false
}

/// The repository signals (see [`inferred_signals`]).
pub fn infer_signals(files: &RootFiles, package_json: &Option<PackageJsonFacts>, vercel_bun_enabled: bool) -> (r: crate::bun::audit::RepoSignals)
    ensures
        signals_view(r) == inferred_signals(*files, *package_json, vercel_bun_enabled),
{
    let pm_bun = match package_json {
        Some(p) => match &p.package_manager {
            Some(pm) => crate::text::starts_with(pm.as_str(), "bun@"),
            None => false,
        },
        None => false,
    };
    let scripts_bun = match package_json {
        Some(p) => any_script_uses_bun(&p.scripts),
        None => false,
    };
    crate::bun::audit::RepoSignals {
        bun_first: files.bun_lockb || files.bun_lock || pm_bun || vercel_bun_enabled || scripts_bun,
        vercel_bun_enabled,
        has_workspaces: match package_json {
            Some(p) => p.has_workspaces,
            None => false,
        },
    }
}

} // verus!
