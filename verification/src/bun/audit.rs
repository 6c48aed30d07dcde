//! The decisions behind the auditor's checks: rule categories, which files a
//! detector looks at, which adapters run, and the small config readers.
use vstd::prelude::*;

use crate::text::strs;
use crate::paths::{extension, extension_of, file_name, file_name_of};
use crate::text::{
    chars_of, has_prefix_at, owned, substring,
};

verus! {

/// What the auditor inferred about a repository.
#[derive(Clone, Copy, Debug, Default)]
pub struct RepoSignals {
    pub bun_first: bool,
    pub vercel_bun_enabled: bool,
    pub has_workspaces: bool,
}

/// The part of `s` before its first `c` (all of `s` when there is none).
pub open spec fn before_first(s: Seq<char>, c: char) -> Seq<char>
    decreases s.len(),
{
    if s.len() == 0 {
        s
    } else if s[0] == c {
        seq![]
    } else {
        seq![s[0]] + before_first(s.drop_first(), c)
    }
}

/// The category of a rule, named by the prefix before its first `-`.
pub open spec fn rule_category(rule_id: Seq<char>) -> Seq<char> {
    let p = before_first(rule_id, '-');
    if p == "pm"@ {
        "package-manager"@
    } else if p == "runtime"@ {
        "runtime"@
    } else if p == "vercel"@ {
        "vercel"@
    } else if p == "scripts"@ {
        "scripts"@
    } else if p == "tsconfig"@ {
        "typescript"@
    } else if p == "test"@ {
        "testing"@
    } else if p == "build"@ {
        "build"@
    } else if p == "perf"@ {
        "performance"@
    } else if p == "migrate"@ {
        "migration"@
    } else if p == "troubleshooting"@ {
        "troubleshooting"@
    } else {
        "other"@
    }
}

proof fn lemma_before_first(s: Seq<char>, c: char, k: int)
    requires
        0 <= k <= s.len(),
        forall|j: int| 0 <= j < k ==> s[j] != c,
        k == s.len() || s[k] == c,
    ensures
        before_first(s, c) == s.take(k),
    decreases s.len(),
{
    if s.len() > 0 && s[0] != c {
        assert forall|j: int| 0 <= j < k - 1 implies s.drop_first()[j] != c by {
            assert(s.drop_first()[j] == s[j + 1]);
        }
        if k - 1 < s.len() - 1 {
            assert(s.drop_first()[k - 1] == s[k]);
        }
        lemma_before_first(s.drop_first(), c, k - 1);
        assert(seq![s[0]] + s.drop_first().take(k - 1) =~= s.take(k));
    } else if s.len() > 0 {
        assert(s.take(k) =~= seq![]);
    }
}

/// The category of a rule id.
pub fn get_rule_category(rule_id: &str) -> (r: &'static str)
    ensures
        r@ == rule_category(rule_id@),
{
    let cs = chars_of(rule_id);
    let mut k: usize = 0;
    while k < cs.len() && cs[k] != '-'
        invariant
            k <= cs@.len(),
            forall|j: int| 0 <= j < k ==> cs@[j] != '-',
        decreases cs@.len() - k,
    {
        k = k + 1;
    }
    proof {
        lemma_before_first(cs@, '-', k as int);
    }
    let prefix = substring(&cs, 0, k);
    assert(cs@.subrange(0, k as int) =~= cs@.take(k as int));
    let p = prefix.as_str();
    assert(p@ == before_first(rule_id@, '-'));
    if crate::audit_gate::str_eq(p, "pm") {
        "package-manager"
    } else if crate::audit_gate::str_eq(p, "runtime") {
        "runtime"
    } else if crate::audit_gate::str_eq(p, "vercel") {
        "vercel"
    } else if crate::audit_gate::str_eq(p, "scripts") {
        "scripts"
    } else if crate::audit_gate::str_eq(p, "tsconfig") {
        "typescript"
    } else if crate::audit_gate::str_eq(p, "test") {
        "testing"
    } else if crate::audit_gate::str_eq(p, "build") {
        "build"
    } else if crate::audit_gate::str_eq(p, "perf") {
        "performance"
    } else if crate::audit_gate::str_eq(p, "migrate") {
        "migration"
    } else if crate::audit_gate::str_eq(p, "troubleshooting") {
        "troubleshooting"
    } else {
        "other"
    }
}

/// Whether a path names a Dockerfile: its final component starts with `Dockerfile`.
pub open spec fn is_dockerfile_spec(path: Seq<char>) -> bool {
    match file_name_of(path) {
        Some(n) => n.len() >= "Dockerfile"@.len() && n.take("Dockerfile"@.len() as int) == "Dockerfile"@,
        None => false,
    }
}

/// Whether a path names a Dockerfile.
pub fn is_dockerfile(path: &str) -> (r: bool)
    ensures
        r == is_dockerfile_spec(path@),
{
    match file_name(path) {
        Some(n) => {
            let cs = chars_of(n.as_str());
            let r = has_prefix_at(&cs, 0, "Dockerfile");
            assert(cs@.subrange(0, "Dockerfile"@.len() as int) =~= cs@.take("Dockerfile"@.len() as int));
            r
        },
        None => false,
    }
}

/// The extensions of JavaScript and TypeScript sources.
pub open spec fn js_like_extension(e: Seq<char>) -> bool {
    e == "ts"@ || e == "tsx"@ || e == "js"@ || e == "jsx"@ || e == "mjs"@ || e == "cjs"@
}

/// Whether a path names a JavaScript or TypeScript source.
pub fn is_js_like(path: &str) -> (r: bool)
    ensures
        r == match extension_of(path@) {
            Some(e) => js_like_extension(e),
            None => false,
        },
{
    match extension(path) {
        Some(e) => {
            let e = e.as_str();
            crate::audit_gate::str_eq(e, "ts") || crate::audit_gate::str_eq(e, "tsx")
                || crate::audit_gate::str_eq(e, "js") || crate::audit_gate::str_eq(e, "jsx")
                || crate::audit_gate::str_eq(e, "mjs") || crate::audit_gate::str_eq(e, "cjs")
        },
        None => false,
    }
}

/// Whether the configuration asks for automatic adapter selection: it names
/// none, or names `auto`.
pub open spec fn adapters_auto(configured: Seq<Seq<char>>) -> bool {
    configured.len() == 0 || configured.contains("auto"@)
}

/// The adapters chosen automatically: GitHub Actions and Docker, then Vercel
/// and monorepo when the repository uses them.
pub open spec fn auto_adapters(signals: RepoSignals) -> Seq<Seq<char>> {
    seq!["github-actions"@, "docker"@]
        + (if signals.vercel_bun_enabled { seq!["vercel"@] } else { seq![] })
        + (if signals.has_workspaces { seq!["monorepo"@] } else { seq![] })
}

/// The first occurrence of each item of `s`, in order.
pub open spec fn dedup(s: Seq<Seq<char>>) -> Seq<Seq<char>>
    decreases s.len(),
{
    if s.len() == 0 {
        s
    } else {
        let d = dedup(s.drop_last());
        if d.contains(s.last()) {
            d
        } else {
            d.push(s.last())
        }
    }
}

/// The adapters an audit runs, each once.
pub open spec fn adapter_list(signals: RepoSignals, configured: Seq<Seq<char>>) -> Seq<Seq<char>> {
    if adapters_auto(configured) {
        auto_adapters(signals)
    } else {
        dedup(configured)
    }
}

/// The adapters to run: the configured ones, or, when the configuration names
/// none or names `auto`, GitHub Actions and Docker plus Vercel and monorepo
/// when the repository uses them. Each is listed once.
pub fn resolve_adapter_ids(signals: &RepoSignals, configured: &Vec<String>) -> (r: Vec<String>)
    ensures
        strs(r@) == adapter_list(*signals, strs(configured@)),
{
    let mut auto = configured.len() == 0;
    let mut i: usize = 0;
    while i < configured.len()
        invariant
            i <= configured@.len(),
            auto == (configured@.len() == 0 || exists|j: int| 0 <= j < i && #[trigger] configured@[j]@ == "auto"@),
        decreases configured@.len() - i,
    {
        if crate::audit_gate::str_eq(configured[i].as_str(), "auto") {
            auto = true;
        }
        i = i + 1;
    }
    assert(auto == adapters_auto(strs(configured@))) by {
        if strs(configured@).contains("auto"@) {
            let j = choose|j: int| 0 <= j < strs(configured@).len() && strs(configured@)[j] == "auto"@;
            assert(configured@[j]@ == "auto"@);
        }
        if exists|j: int| 0 <= j < configured@.len() && #[trigger] configured@[j]@ == "auto"@ {
            let j = choose|j: int| 0 <= j < configured@.len() && #[trigger] configured@[j]@ == "auto"@;
            assert(strs(configured@)[j] == "auto"@);
        }
    }
    if auto {
        let mut out: Vec<String> = Vec::new();
        out.push(owned("github-actions"));
        out.push(owned("docker"));
        let ghost mut expect: Seq<Seq<char>> = seq!["github-actions"@, "docker"@];
        assert(strs(out@) =~= expect);
        if signals.vercel_bun_enabled {
            out.push(owned("vercel"));
            proof { expect = expect.push("vercel"@); }
        }
        assert(strs(out@) =~= expect);
        if signals.has_workspaces {
            out.push(owned("monorepo"));
            proof { expect = expect.push("monorepo"@); }
        }
        assert(strs(out@) =~= expect);
        assert(expect =~= auto_adapters(*signals));
        out
    } else {
        dedup_strings(configured)
    }
}

/// The first occurrence of each string of `v`, in order.
pub fn dedup_strings(items: &Vec<String>) -> (r: Vec<String>)
    ensures
        strs(r@) == dedup(strs(items@)),
{
    let mut out: Vec<String> = Vec::new();
    let mut k: usize = 0;
    while k < items.len()
        invariant
            k <= items@.len(),
            strs(out@) == dedup(strs(items@).take(k as int)),
        decreases items@.len() - k,
    {
        let v = items[k].clone();
        let ghost pre = strs(items@).take(k + 1);
        assert(pre.drop_last() =~= strs(items@).take(k as int));
        assert(pre.last() == v@);
        let mut present = false;
        let mut j: usize = 0;
        while j < out.len()
            invariant
                j <= out@.len(),
                present == exists|m: int| 0 <= m < j && #[trigger] out@[m]@ == v@,
            decreases out@.len() - j,
        {
            if out[j] == v {
                present = true;
            }
            j = j + 1;
        }
        proof {
            if present {
                let m = choose|m: int| 0 <= m < out@.len() && #[trigger] out@[m]@ == v@;
                assert(strs(out@)[m] == v@);
            } else if strs(out@).contains(v@) {
                let m = choose|m: int| 0 <= m < strs(out@).len() && strs(out@)[m] == v@;
                assert(out@[m]@ == v@);
            }
        }
        if !present {
            let ghost before = out@;
            out.push(v);
            assert(strs(out@) =~= strs(before).push(pre.last()));
        }
        k = k + 1;
    }
    assert(strs(items@).take(items@.len() as int) =~= strs(items@));
    out
}

} // verus!
