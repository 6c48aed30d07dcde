//! Mirroring Codex skills into Kimi: which candidate skills are enabled, which
//! one wins when names collide, and how the sync is summarized.
use vstd::prelude::*;

use crate::audit_gate::str_eq;
use crate::text::owned;
use toml::Value as Toml;

verus! {

/// Which skills a Kimi sync mirrors.
#[derive(Clone, Copy, Debug, PartialEq, Eq, Structural)]
pub enum KimiSyncScope {
    Focused,
    AllEnabled,
    GlobalOnly,
}

/// The wire name of a sync scope.
pub open spec fn scope_name(s: KimiSyncScope) -> Seq<char> {
    match s {
        KimiSyncScope::Focused => "focused"@,
        KimiSyncScope::AllEnabled => "all-enabled"@,
        KimiSyncScope::GlobalOnly => "global-only"@,
    }
}

impl KimiSyncScope {
    /// The wire name of this scope.
    pub fn as_str(self) -> (r: &'static str)
        ensures
            r@ == scope_name(self),
    {
        match self {
            KimiSyncScope::Focused => "focused",
            KimiSyncScope::AllEnabled => "all-enabled",
            KimiSyncScope::GlobalOnly => "global-only",
        }
    }
}

/// Distinct scopes have distinct wire names.
pub proof fn lemma_scope_names_distinct()
    ensures
        forall|a: KimiSyncScope, b: KimiSyncScope| scope_name(a) == scope_name(b) ==> a == b,
{
    reveal_strlit("focused");
    reveal_strlit("all-enabled");
    reveal_strlit("global-only");
    assert forall|a: KimiSyncScope, b: KimiSyncScope| scope_name(a) == scope_name(b) implies a == b by {
        let (x, y) = (scope_name(a), scope_name(b));
        assert(x.len() == y.len() && x[0] == y[0]);
    }
}

/// Where a candidate skill comes from.
#[derive(Clone, Copy, Debug, PartialEq, Eq, Structural)]
pub enum KimiSyncSourceKind {
    GlobalSkill,
    ProjectSkill,
    PluginSkill,
}

/// How serious a sync diagnostic is.
#[derive(Clone, Copy, Debug, PartialEq, Eq, Structural)]
pub enum KimiSyncDiagnosticSeverity {
    Warning,
    Error,
}

/// The counts of a sync.
#[derive(Clone, Copy, Debug, PartialEq, Eq)]
pub struct KimiSyncSummary {
    pub included: usize,
    pub excluded: usize,
    pub diagnostics: usize,
    pub errors: usize,
    pub warnings: usize,
}

/// A skill the sync mirrors.
#[derive(Clone, Debug, PartialEq, Eq)]
pub struct KimiSyncSkill {
    pub name: String,
    pub source_kind: KimiSyncSourceKind,
    pub plugin: Option<String>,
    pub source_path: String,
    pub mirror_path: String,
    pub priority: u8,
}

/// A skill the sync leaves out, and why.
#[derive(Clone, Debug, PartialEq, Eq)]
pub struct KimiSyncExcludedSkill {
    pub name: String,
    pub source_kind: KimiSyncSourceKind,
    pub plugin: Option<String>,
    pub source_path: String,
    pub reason: String,
}

/// A problem met while collecting skills.
#[derive(Clone, Debug, PartialEq, Eq)]
pub struct KimiSyncDiagnostic {
    pub severity: KimiSyncDiagnosticSeverity,
    pub code: String,
    pub message: String,
    pub path: Option<String>,
}

/// A skill found in one of the roots, before collisions are settled.
#[derive(Clone, Debug, PartialEq, Eq)]
pub struct SkillCandidate {
    pub name: String,
    pub source_kind: KimiSyncSourceKind,
    pub plugin: Option<String>,
    pub source_path: String,
    pub priority: u8,
}

/// One `[[skills.config]]` rule of the Codex configuration.
#[derive(Clone, Debug, PartialEq, Eq)]
pub struct SkillConfigRule {
    pub name: Option<String>,
    pub path: Option<String>,
    pub enabled: bool,
}

/// The plugin skills the user excludes by name, with the reason.
pub open spec fn forced_exclusion(plugin: Seq<char>, name: Seq<char>) -> Option<Seq<char>> {
    if plugin == "vercel"@ && name == "shadcn"@ {
        Some("excluded because the global official shadcn skill is preferred"@)
    } else {
        None
    }
}

/// Why a plugin skill is excluded by the user's standing exclusions, if it is.
pub fn forced_exclusion_reason(plugin: &str, name: &str) -> (r: Option<String>)
    ensures
        match (r, forced_exclusion(plugin@, name@)) {
            (Some(a), Some(b)) => a@ == b,
            (None, None) => true,
            _ => false,
        },
{
    if str_eq(plugin, "vercel") && str_eq(name, "shadcn") {
        Some(owned("excluded because the global official shadcn skill is preferred"))
    } else {
        None
    }
}

/// How a source kind reads in a reason.
pub open spec fn source_kind_word(k: KimiSyncSourceKind) -> Seq<char> {
    match k {
        KimiSyncSourceKind::GlobalSkill => "global"@,
        KimiSyncSourceKind::ProjectSkill => "project"@,
        KimiSyncSourceKind::PluginSkill => "plugin"@,
    }
}

/// How a source kind reads in a reason.
pub fn describe_source_kind(source_kind: KimiSyncSourceKind) -> (r: &'static str)
    ensures
        r@ == source_kind_word(source_kind),
{
    match source_kind {
        KimiSyncSourceKind::GlobalSkill => "global",
        KimiSyncSourceKind::ProjectSkill => "project",
        KimiSyncSourceKind::PluginSkill => "plugin",
    }
}

/// Whether rule `r` names the candidate: by its name, by `plugin:name`, or (as
/// `path_match` tells) by its directory or its `SKILL.md`.
pub open spec fn rule_matches(r: SkillConfigRule, c: SkillCandidate, path_match: bool) -> bool {
    ||| r.name matches Some(n) && n@ == c.name@
    ||| (r.name matches Some(n) && c.plugin matches Some(p) && n@ == p@ + ":"@ + c.name@)
    ||| (r.path is Some && path_match)
}

/// Whether the candidate is enabled after the rules `0..n`: the last matching
/// rule decides, and a skill no rule names is enabled.
pub open spec fn enabled_after(rules: Seq<SkillConfigRule>, c: SkillCandidate, path_matches: Seq<bool>, n: int) -> bool
    decreases n,
{
    if n <= 0 {
        true
    } else if rule_matches(rules[n - 1], c, path_matches[n - 1]) {
        rules[n - 1].enabled
    } else {
        enabled_after(rules, c, path_matches, n - 1)
    }
}

/// Whether the Codex configuration leaves a candidate enabled. `path_matches[i]`
/// tells whether rule `i`'s path names the candidate's directory or `SKILL.md`.
pub fn skill_enabled(rules: &Vec<SkillConfigRule>, path_matches: &Vec<bool>, candidate: &SkillCandidate) -> (r: bool)
    requires
        path_matches@.len() == rules@.len(),
    ensures
        r == enabled_after(rules@, *candidate, path_matches@, rules@.len() as int),
{
    let mut enabled = true;
    let mut i: usize = 0;
    while i < rules.len()
        invariant
            path_matches@.len() == rules@.len(),
            i <= rules@.len(),
            enabled == enabled_after(rules@, *candidate, path_matches@, i as int),
        decreases rules@.len() - i,
    {
        let rule = &rules[i];
        let mut matches = false;
        match &rule.name {
            Some(n) => {
                if str_eq(n.as_str(), candidate.name.as_str()) {
                    matches = true;
                }
                match &candidate.plugin {
                    Some(p) => {
                        let mut ns = p.clone();
                        crate::text::push_all(&mut ns, ":");
                        crate::text::push_all(&mut ns, candidate.name.as_str());
                        if str_eq(n.as_str(), ns.as_str()) {
                            matches = true;
                        }
                    },
                    None => {},
                }
            },
            None => {},
        }
        if rule.path.is_some() && path_matches[i] {
            matches = true;
        }
        if matches {
            enabled = rule.enabled;
        }
        i = i + 1;
    }
    enabled
}

/// An exclusion as its name, source kind, plugin, source path and reason.
pub type ExclusionView = (Seq<char>, KimiSyncSourceKind, Option<Seq<char>>, Seq<char>, Seq<char>);

/// The view of an optional string.
pub open spec fn opt_text(o: Option<String>) -> Option<Seq<char>> {
    match o {
        Some(s) => Some(s@),
        None => None,
    }
}

/// The view of an exclusion record.
pub open spec fn exclusion_view(x: KimiSyncExcludedSkill) -> ExclusionView {
    (x.name@, x.source_kind, opt_text(x.plugin), x.source_path@, x.reason@)
}

/// The views of a list of exclusion records.
pub open spec fn exclusion_views(v: Seq<KimiSyncExcludedSkill>) -> Seq<ExclusionView> {
    v.map_values(|x: KimiSyncExcludedSkill| exclusion_view(x))
}

/// The exclusion of candidate `c` for `reason`.
pub open spec fn excluded_as(c: SkillCandidate, reason: Seq<char>) -> ExclusionView {
    (c.name@, c.source_kind, opt_text(c.plugin), c.source_path@, reason)
}

/// Why a candidate loses to one of kind `k`.
pub open spec fn shadow_reason(k: KimiSyncSourceKind) -> Seq<char> {
    "shadowed by higher-priority "@ + source_kind_word(k) + " skill"@
}

/// After the first `n` candidates: for each name the index of the candidate
/// holding it, and the exclusions made so far. A later candidate displaces the
/// holder only with a strictly higher priority.
pub open spec fn collide(cs: Seq<SkillCandidate>, n: int) -> (Map<Seq<char>, int>, Seq<ExclusionView>)
    decreases n,
{
    if n <= 0 {
        (Map::empty(), seq![])
    } else {
        let (m, ex) = collide(cs, n - 1);
        let c = cs[n - 1];
        if m.contains_key(c.name@) {
            let e = cs[m[c.name@]];
            if e.priority >= c.priority {
                (m, ex.push(excluded_as(c, shadow_reason(e.source_kind))))
            } else {
                (m.insert(c.name@, n - 1), ex.push(excluded_as(e, shadow_reason(c.source_kind))))
            }
        } else {
            (m.insert(c.name@, n - 1), ex)
        }
    }
}

/// A copy of a candidate.
fn copy_candidate(c: &SkillCandidate) -> (r: SkillCandidate)
    ensures
        r == *c,
{
    SkillCandidate {
        name: c.name.clone(),
        source_kind: c.source_kind,
        plugin: match &c.plugin {
            Some(p) => Some(p.clone()),
            None => None,
        },
        source_path: c.source_path.clone(),
        priority: c.priority,
    }
}

/// The exclusion record of `c` for `reason`.
fn exclusion_of(c: &SkillCandidate, reason: String) -> (r: KimiSyncExcludedSkill)
    ensures
        exclusion_view(r) == excluded_as(*c, reason@),
{
    let d = copy_candidate(c);
    KimiSyncExcludedSkill {
        name: d.name,
        source_kind: d.source_kind,
        plugin: d.plugin,
        source_path: d.source_path,
        reason,
    }
}

/// The reason a candidate loses to one of kind `k`.
fn shadow_reason_text(k: KimiSyncSourceKind) -> (r: String)
    ensures
        r@ == shadow_reason(k),
{
    let mut m = owned("shadowed by higher-priority ");
    crate::text::push_all(&mut m, describe_source_kind(k));
    crate::text::push_all(&mut m, " skill");
    m
}

/// The candidates at `winners`, in order.
fn candidates_at(cs: &Vec<SkillCandidate>, winners: &Vec<usize>) -> (r: Vec<SkillCandidate>)
    requires
        forall|j: int| 0 <= j < winners@.len() ==> #[trigger] winners@[j] < cs@.len(),
    ensures
        r@.len() == winners@.len(),
        forall|i: int| 0 <= i < r@.len() ==> #[trigger] r@[i] == cs@[winners@[i] as int],
{
    let mut out: Vec<SkillCandidate> = Vec::new();
    let mut t: usize = 0;
    while t < winners.len()
        invariant
            t <= winners@.len(),
            forall|j: int| 0 <= j < winners@.len() ==> #[trigger] winners@[j] < cs@.len(),
            out@.len() == t,
            forall|i: int| 0 <= i < t ==> #[trigger] out@[i] == cs@[winners@[i] as int],
        decreases winners@.len() - t,
    {
        out.push(copy_candidate(&cs[winners[t]]));
        t = t + 1;
    }
    out
}

/// Keeps one candidate per name: the one with the highest priority, the first
/// of them on a tie. Each displaced candidate is recorded in `excluded` with
/// the kind that shadowed it. The kept candidates come in the order their
/// names first appear.
pub fn resolve_collisions(candidates: Vec<SkillCandidate>, excluded: &mut Vec<KimiSyncExcludedSkill>) -> (r: Vec<SkillCandidate>)
    ensures
        exclusion_views(final(excluded)@) == exclusion_views(old(excluded)@) + collide(candidates@, candidates@.len() as int).1,
        forall|i: int| 0 <= i < r@.len() ==> {
            let m = collide(candidates@, candidates@.len() as int).0;
            m.contains_key(#[trigger] r@[i].name@) && 0 <= m[r@[i].name@] < candidates@.len()
                && r@[i] == candidates@[m[r@[i].name@]]
        },
        forall|x: Seq<char>| #[trigger] collide(candidates@, candidates@.len() as int).0.contains_key(x)
            ==> exists|i: int| 0 <= i < r@.len() && r@[i].name@ == x,
        forall|i: int, j: int| 0 <= i < j < r@.len() ==> r@[i].name@ != r@[j].name@,
{
    let cs = candidates;
    let mut winners: Vec<usize> = Vec::new();
    let mut i: usize = 0;
    while i < cs.len()
        invariant
            i <= cs@.len(),
            exclusion_views(excluded@) == exclusion_views(old(excluded)@) + collide(cs@, i as int).1,
            forall|j: int| 0 <= j < winners@.len() ==> #[trigger] winners@[j] < i,
            forall|j: int, k: int| 0 <= j < k < winners@.len() ==> cs@[winners@[j] as int].name@ != cs@[winners@[k] as int].name@,
            forall|j: int| 0 <= j < winners@.len() ==> collide(cs@, i as int).0.contains_key(#[trigger] cs@[winners@[j] as int].name@)
                && collide(cs@, i as int).0[cs@[winners@[j] as int].name@] == winners@[j] as int,
            forall|x: Seq<char>| #[trigger] collide(cs@, i as int).0.contains_key(x)
                ==> exists|j: int| 0 <= j < winners@.len() && cs@[winners@[j] as int].name@ == x,
        decreases cs@.len() - i,
    {
        let c = &cs[i];
        let ghost m = collide(cs@, i as int).0;
        let mut found: Option<usize> = None;
        let mut j: usize = 0;
        while j < winners.len()
            invariant
                i < cs@.len(),
                *c == cs@[i as int],
                j <= winners@.len(),
                forall|k: int| 0 <= k < winners@.len() ==> #[trigger] winners@[k] < i,
                match found {
                    Some(f) => f < winners@.len() && cs@[winners@[f as int] as int].name@ == cs@[i as int].name@,
                    None => forall|k: int| 0 <= k < j ==> cs@[#[trigger] winners@[k] as int].name@ != cs@[i as int].name@,
                },
            decreases winners@.len() - j,
        {
            if found.is_none() && str_eq(cs[winners[j]].name.as_str(), c.name.as_str()) {
                assert(cs@[winners@[j as int] as int].name@ == cs@[i as int].name@);
                found = Some(j);
            }
            j = j + 1;
        }
        let ghost ex_before = excluded@;
        let ghost wb = winners@;
        match found {
            Some(f) => {
                assert(cs@[wb[f as int] as int].name@ == c.name@);
                let w = winners[f];
                let e = &cs[w];
                assert(m.contains_key(c.name@));
                assert(m[c.name@] == w as int);
                if e.priority >= c.priority {
                    excluded.push(exclusion_of(c, shadow_reason_text(e.source_kind)));
                    assert(exclusion_views(excluded@) =~= exclusion_views(ex_before).push(
                        excluded_as(*c, shadow_reason(e.source_kind))));
                } else {
                    excluded.push(exclusion_of(e, shadow_reason_text(c.source_kind)));
                    assert(exclusion_views(excluded@) =~= exclusion_views(ex_before).push(
                        excluded_as(*e, shadow_reason(c.source_kind))));
                    winners.set(f, i);
                    proof {
                        let m2 = collide(cs@, i + 1).0;
                        assert(m2 == m.insert(c.name@, i as int));
                        assert forall|k: int| 0 <= k < winners@.len() implies m2.contains_key(#[trigger] cs@[winners@[k] as int].name@)
                            && m2[cs@[winners@[k] as int].name@] == winners@[k] as int by {
                            if k != f {
                                assert(winners@[k] == wb[k]);
                                assert(cs@[wb[k] as int].name@ != cs@[wb[f as int] as int].name@);
                            }
                        }
                        assert forall|x: Seq<char>| #[trigger] m2.contains_key(x)
                            implies exists|k: int| 0 <= k < winners@.len() && cs@[winners@[k] as int].name@ == x by {
                            if x == c.name@ {
                                assert(cs@[winners@[f as int] as int].name@ == x);
                            } else {
                                assert(m.contains_key(x));
                                let k = choose|k: int| 0 <= k < wb.len() && cs@[wb[k] as int].name@ == x;
                                assert(k != f);
                                assert(winners@[k] == wb[k]);
                            }
                        }
                        assert forall|j: int, k: int| 0 <= j < k < winners@.len() implies
                            cs@[winners@[j] as int].name@ != cs@[winners@[k] as int].name@ by {
                            if j != f && k != f {
                                assert(winners@[j] == wb[j] && winners@[k] == wb[k]);
                            } else if j == f {
                                assert(winners@[k] == wb[k]);
                                assert(cs@[wb[j] as int].name@ != cs@[wb[k] as int].name@);
                            } else {
                                assert(winners@[j] == wb[j]);
                                assert(cs@[wb[j] as int].name@ != cs@[wb[k] as int].name@);
                            }
                        }
                    }
                }
            },
            None => {
                assert(!m.contains_key(c.name@)) by {
                    if m.contains_key(c.name@) {
                        let k = choose|k: int| 0 <= k < winners@.len() && cs@[winners@[k] as int].name@ == c.name@;
                        assert(cs@[winners@[k] as int].name@ != cs@[i as int].name@);
                    }
                }
                winners.push(i);
                proof {
                    let m2 = collide(cs@, i + 1).0;
                    assert(m2 == m.insert(c.name@, i as int));
                    assert forall|k: int| 0 <= k < winners@.len() implies m2.contains_key(#[trigger] cs@[winners@[k] as int].name@)
                        && m2[cs@[winners@[k] as int].name@] == winners@[k] as int by {
                        if k < wb.len() {
                            assert(winners@[k] == wb[k]);
                            assert(cs@[wb[k] as int].name@ != c.name@);
                        }
                    }
                    assert forall|x: Seq<char>| #[trigger] m2.contains_key(x)
                        implies exists|k: int| 0 <= k < winners@.len() && cs@[winners@[k] as int].name@ == x by {
                        if x == c.name@ {
                            assert(cs@[winners@[wb.len() as int] as int].name@ == x);
                        } else {
                            assert(m.contains_key(x));
                            let k = choose|k: int| 0 <= k < wb.len() && cs@[wb[k] as int].name@ == x;
                            assert(winners@[k] == wb[k]);
                        }
                    }
                    assert forall|j: int, k: int| 0 <= j < k < winners@.len() implies
                        cs@[winners@[j] as int].name@ != cs@[winners@[k] as int].name@ by {
                        assert(winners@[j] == wb[j]);
                        if k < wb.len() {
                            assert(winners@[k] == wb[k]);
                        } else {
                            assert(cs@[wb[j] as int].name@ != c.name@);
                        }
                    }
                }
            },
        }
        i = i + 1;
    }
    let r = candidates_at(&cs, &winners);
    proof {
        let m = collide(cs@, cs@.len() as int).0;
        assert forall|x: Seq<char>| #[trigger] m.contains_key(x) implies exists|i: int| 0 <= i < r@.len() && r@[i].name@ == x by {
            let j = choose|j: int| 0 <= j < winners@.len() && cs@[winners@[j] as int].name@ == x;
            assert(r@[j] == cs@[winners@[j] as int]);
        }
        assert forall|i: int| 0 <= i < r@.len() implies {
            m.contains_key(#[trigger] r@[i].name@) && 0 <= m[r@[i].name@] < cs@.len() && r@[i] == cs@[m[r@[i].name@]]
        } by {
            assert(r@[i] == cs@[winners@[i] as int]);
        }
        assert forall|i: int, j: int| 0 <= i < j < r@.len() implies r@[i].name@ != r@[j].name@ by {
            assert(r@[i] == cs@[winners@[i] as int]);
            assert(r@[j] == cs@[winners@[j] as int]);
        }
    }
    r
}

/// The holder of `x` after the first `n` candidates, as the law states it.
pub open spec fn keeps_first_highest(cs: Seq<SkillCandidate>, n: int, x: Seq<char>) -> bool {
    let m = collide(cs, n).0;
    &&& m.contains_key(x) <==> exists|i: int| 0 <= i < n && #[trigger] cs[i].name@ == x
    &&& m.contains_key(x) ==> {
        let w = m[x];
        &&& 0 <= w < n
        &&& cs[w].name@ == x
        &&& forall|i: int| 0 <= i < n && #[trigger] cs[i].name@ == x ==> cs[i].priority <= cs[w].priority
        &&& forall|i: int| 0 <= i < w && #[trigger] cs[i].name@ == x ==> cs[i].priority < cs[w].priority
    }
}

proof fn lemma_collide_prefix(cs: Seq<SkillCandidate>, n: int, x: Seq<char>)
    requires
        0 <= n <= cs.len(),
    ensures
        keeps_first_highest(cs, n, x),
    decreases n,
{
    if n > 0 {
        lemma_collide_prefix(cs, n - 1, x);
        let m = collide(cs, n - 1).0;
        let c = cs[n - 1];
        let m2 = collide(cs, n).0;
        if c.name@ == x {
            if m.contains_key(x) {
                let w = m[x];
                if cs[w].priority >= c.priority {
                    assert(m2 == m);
                } else {
                    assert(m2 == m.insert(x, n - 1));
                    assert forall|i: int| 0 <= i < n && #[trigger] cs[i].name@ == x implies cs[i].priority <= cs[n - 1].priority by {
                        if i < n - 1 {
                            assert(cs[i].priority <= cs[w].priority);
                        }
                    }
                    assert forall|i: int| 0 <= i < n - 1 && #[trigger] cs[i].name@ == x implies cs[i].priority < cs[n - 1].priority by {
                        assert(cs[i].priority <= cs[w].priority);
                    }
                }
            } else {
                assert(m2 == m.insert(x, n - 1));
                assert forall|i: int| 0 <= i < n - 1 implies #[trigger] cs[i].name@ != x by {}
            }
            assert(exists|i: int| 0 <= i < n && #[trigger] cs[i].name@ == x) by {
                assert(cs[n - 1].name@ == x);
            }
        } else {
            if m.contains_key(c.name@) {
                let w = m[c.name@];
                if cs[w].priority < c.priority {
                    assert(m2 == m.insert(c.name@, n - 1));
                }
            } else {
                assert(m2 == m.insert(c.name@, n - 1));
            }
            assert(m2.contains_key(x) == m.contains_key(x));
            if m.contains_key(x) {
                assert(m2[x] == m[x]);
            }
            if exists|i: int| 0 <= i < n && #[trigger] cs[i].name@ == x {
                let i = choose|i: int| 0 <= i < n && #[trigger] cs[i].name@ == x;
                assert(i < n - 1);
            }
        }
    }
}

/// Settling collisions keeps, for every name that occurs among the candidates,
/// exactly one candidate with that name: one with the highest priority among
/// them, and the first such when several share it.
pub proof fn lemma_collisions_keep_first_highest(cs: Seq<SkillCandidate>, x: Seq<char>)
    ensures
        keeps_first_highest(cs, cs.len() as int, x),
{
    lemma_collide_prefix(cs, cs.len() as int, x);
}

/// The directory name a project's mirror lives under: `global` without a
/// project, else the first 16 hex digits of the SHA-256 of its path.
pub open spec fn project_hash_of(project_root: Option<Seq<char>>) -> Seq<char> {
    match project_root {
        None => "global"@,
        Some(p) => crate::dev::digest::hex_of(crate::dev::digest::sha256_of(vstd::utf8::encode_utf8(p))).take(16),
    }
}

/// The directory name of a project's mirror.
pub fn project_hash(project_root: Option<&str>) -> (r: String)
    ensures
        r@ == project_hash_of(match project_root {
            Some(p) => Some(p@),
            None => None,
        }),
{
    match project_root {
        None => owned("global"),
        Some(p) => {
            let digest = crate::dev::digest::sha256_digest(p.as_bytes());
            let hex = crate::dev::digest::hex_string(&digest);
            let hc = crate::text::chars_of(hex.as_str());
            proof {
                lemma_hex_len(digest@);
            }
            let t = crate::text::substring(&hc, 0, 16);
            assert(hc@.subrange(0, 16) =~= hc@.take(16));
            t
        },
    }
}

proof fn lemma_hex_len(bytes: Seq<u8>)
    ensures
        crate::dev::digest::hex_of(bytes).len() == 2 * bytes.len(),
    decreases bytes.len(),
{
    if bytes.len() > 0 {
        lemma_hex_len(bytes.drop_last());
    }
}

/// Records a candidate: kept when the configuration leaves it enabled, else
/// excluded as disabled.
pub fn add_candidate(
    candidate: SkillCandidate,
    rules: &Vec<SkillConfigRule>,
    path_matches: &Vec<bool>,
    candidates: &mut Vec<SkillCandidate>,
    excluded: &mut Vec<KimiSyncExcludedSkill>,
)
    requires
        path_matches@.len() == rules@.len(),
    ensures
        enabled_after(rules@, candidate, path_matches@, rules@.len() as int) ==> final(candidates)@ == old(candidates)@.push(candidate)
            && final(excluded)@ == old(excluded)@,
        !enabled_after(rules@, candidate, path_matches@, rules@.len() as int) ==> final(candidates)@ == old(candidates)@
            && exclusion_views(final(excluded)@) == exclusion_views(old(excluded)@).push(
            excluded_as(candidate, "disabled by Codex skills.config"@)),
{
    if skill_enabled(rules, path_matches, &candidate) {
        candidates.push(candidate);
    } else {
        let ghost before = excluded@;
        let x = exclusion_of(&candidate, owned("disabled by Codex skills.config"));
        excluded.push(x);
        assert(exclusion_views(excluded@) =~= exclusion_views(before).push(
            excluded_as(candidate, "disabled by Codex skills.config"@)));
    }
}

/// How many diagnostics have severity `s`.
pub open spec fn count_severity(ds: Seq<KimiSyncDiagnostic>, s: KimiSyncDiagnosticSeverity) -> nat
    decreases ds.len(),
{
    if ds.len() == 0 {
        0
    } else {
        count_severity(ds.drop_last(), s) + if ds.last().severity == s { 1nat } else { 0nat }
    }
}

/// The counts of a sync: kept and excluded skills, diagnostics, and how many of
/// them are errors and warnings.
pub fn sync_summary(included: usize, excluded: usize, diagnostics: &Vec<KimiSyncDiagnostic>) -> (r: KimiSyncSummary)
    ensures
        r.included == included,
        r.excluded == excluded,
        r.diagnostics == diagnostics@.len(),
        r.errors == count_severity(diagnostics@, KimiSyncDiagnosticSeverity::Error),
        r.warnings == count_severity(diagnostics@, KimiSyncDiagnosticSeverity::Warning),
{
    let mut errors: usize = 0;
    let mut warnings: usize = 0;
    let mut i: usize = 0;
    while i < diagnostics.len()
        invariant
            i <= diagnostics@.len(),
            errors == count_severity(diagnostics@.take(i as int), KimiSyncDiagnosticSeverity::Error),
            warnings == count_severity(diagnostics@.take(i as int), KimiSyncDiagnosticSeverity::Warning),
            errors + warnings <= i,
        decreases diagnostics@.len() - i,
    {
        proof {
            let t = diagnostics@.take(i + 1);
            assert(t.drop_last() =~= diagnostics@.take(i as int));
        }
        match diagnostics[i].severity {
            KimiSyncDiagnosticSeverity::Error => errors = errors + 1,
            KimiSyncDiagnosticSeverity::Warning => warnings = warnings + 1,
        }
        i = i + 1;
    }
    assert(diagnostics@.take(diagnostics@.len() as int) =~= diagnostics@);
    KimiSyncSummary { included, excluded, diagnostics: diagnostics.len(), errors, warnings }
}

/// The sort key of an included skill: its name.
pub open spec fn included_key(c: SkillCandidate) -> Seq<Seq<char>> {
    seq![c.name@]
}

/// The sort key of an excluded skill: its name, then its source path.
pub open spec fn excluded_key(x: KimiSyncExcludedSkill) -> Seq<Seq<char>> {
    seq![x.name@, x.source_path@]
}

/// Whether `s` is the mirrored form of candidate `c` under `skills_root`.
pub open spec fn mirrored_as(s: KimiSyncSkill, c: SkillCandidate, skills_root: Seq<char>) -> bool {
    &&& s.name@ == c.name@
    &&& s.source_kind == c.source_kind
    &&& opt_text(s.plugin) == opt_text(c.plugin)
    &&& s.source_path@ == c.source_path@
    &&& s.priority == c.priority
    &&& s.mirror_path@ == crate::paths::path_join(skills_root, c.name@)
}

fn copy_opt(o: &Option<String>) -> (r: Option<String>)
    ensures
        opt_text(r) == opt_text(*o),
{
    match o {
        Some(s) => Some(owned(s.as_str())),
        None => None,
    }
}

/// The kept skills, mirrored under `skills_root` and ordered by name (ties
/// keep their order).
pub fn order_included(candidates: &Vec<SkillCandidate>, skills_root: &str) -> (r: Vec<KimiSyncSkill>)
    ensures
        r@.len() == candidates@.len(),
        forall|j: int| 0 <= j < r@.len() ==> mirrored_as(#[trigger] r@[j], candidates@[
            crate::order::stable_order(candidates@.map_values(|c: SkillCandidate| included_key(c)), candidates@.len() as nat)[j]],
            skills_root@),
{
    let mut keys: Vec<Vec<String>> = Vec::new();
    let mut i: usize = 0;
    while i < candidates.len()
        invariant
            i <= candidates@.len(),
            crate::order::key_view(keys@) == candidates@.take(i as int).map_values(|c: SkillCandidate| included_key(c)),
        decreases candidates@.len() - i,
    {
        let mut k: Vec<String> = Vec::new();
        k.push(owned(candidates[i].name.as_str()));
        assert(crate::text::strs(k@) =~= seq![candidates@[i as int].name@]);
        let ghost kv = crate::text::strs(k@);
        let ghost before = crate::order::key_view(keys@);
        keys.push(k);
        assert(crate::order::key_view(keys@) =~= before.push(kv));
        assert(candidates@.take(i + 1).map_values(|c: SkillCandidate| included_key(c)) =~= candidates@.take(i as int).map_values(
            |c: SkillCandidate| included_key(c)).push(included_key(candidates@[i as int])));
        i = i + 1;
    }
    assert(candidates@.take(candidates@.len() as int) =~= candidates@);
    let order = crate::order::stable_sort_indices(&keys);
    let mut out: Vec<KimiSyncSkill> = Vec::new();
    let mut j: usize = 0;
    while j < order.len()
        invariant
            j <= order@.len(),
            order@.len() == candidates@.len(),
            keys@.len() == candidates@.len(),
            forall|q: int| 0 <= q < order@.len() ==> (#[trigger] order@[q]) < keys@.len(),
            order@.map_values(|q: usize| q as int) == crate::order::stable_order(crate::order::key_view(keys@), keys@.len() as nat),
            crate::order::key_view(keys@) == candidates@.map_values(|c: SkillCandidate| included_key(c)),
            out@.len() == j,
            forall|q: int| 0 <= q < j ==> mirrored_as(#[trigger] out@[q], candidates@[
                crate::order::stable_order(candidates@.map_values(|c: SkillCandidate| included_key(c)), candidates@.len() as nat)[q]],
                skills_root@),
        decreases order@.len() - j,
    {
        let c = &candidates[order[j]];
        assert(order@.map_values(|q: usize| q as int)[j as int] == order@[j as int] as int);
        out.push(KimiSyncSkill {
            name: owned(c.name.as_str()),
            source_kind: c.source_kind,
            plugin: copy_opt(&c.plugin),
            source_path: owned(c.source_path.as_str()),
            mirror_path: crate::paths::join(skills_root, c.name.as_str()),
            priority: c.priority,
        });
        j = j + 1;
    }
    out
}

/// The excluded skills ordered by name, then source path (ties keep their order).
pub fn order_excluded(excluded: &Vec<KimiSyncExcludedSkill>) -> (r: Vec<KimiSyncExcludedSkill>)
    ensures
        exclusion_views(r@) == crate::order::stable_order(excluded@.map_values(|x: KimiSyncExcludedSkill| excluded_key(x)),
            excluded@.len() as nat).map_values(|q: int| exclusion_view(excluded@[q])),
{
    let mut keys: Vec<Vec<String>> = Vec::new();
    let mut i: usize = 0;
    while i < excluded.len()
        invariant
            i <= excluded@.len(),
            crate::order::key_view(keys@) == excluded@.take(i as int).map_values(|x: KimiSyncExcludedSkill| excluded_key(x)),
        decreases excluded@.len() - i,
    {
        let mut k: Vec<String> = Vec::new();
        k.push(owned(excluded[i].name.as_str()));
        k.push(owned(excluded[i].source_path.as_str()));
        assert(crate::text::strs(k@) =~= seq![excluded@[i as int].name@, excluded@[i as int].source_path@]);
        let ghost kv = crate::text::strs(k@);
        let ghost before = crate::order::key_view(keys@);
        keys.push(k);
        assert(crate::order::key_view(keys@) =~= before.push(kv));
        assert(excluded@.take(i + 1).map_values(|x: KimiSyncExcludedSkill| excluded_key(x)) =~= excluded@.take(i as int).map_values(
            |x: KimiSyncExcludedSkill| excluded_key(x)).push(excluded_key(excluded@[i as int])));
        i = i + 1;
    }
    assert(excluded@.take(excluded@.len() as int) =~= excluded@);
    let order = crate::order::stable_sort_indices(&keys);
    let ghost so = crate::order::stable_order(excluded@.map_values(|x: KimiSyncExcludedSkill| excluded_key(x)), excluded@.len() as nat);
    let mut out: Vec<KimiSyncExcludedSkill> = Vec::new();
    let mut j: usize = 0;
    assert(exclusion_views(out@) =~= so.take(0).map_values(|q: int| exclusion_view(excluded@[q])));
    while j < order.len()
        invariant
            j <= order@.len(),
            order@.len() == excluded@.len(),
            forall|q: int| 0 <= q < order@.len() ==> (#[trigger] order@[q]) < excluded@.len(),
            order@.map_values(|q: usize| q as int) == so,
            out@.len() == j,
            exclusion_views(out@) == so.take(j as int).map_values(|q: int| exclusion_view(excluded@[q])),
        decreases order@.len() - j,
    {
        let x = &excluded[order[j]];
        assert(order@.map_values(|q: usize| q as int)[j as int] == order@[j as int] as int);
        assert(so[j as int] == order@[j as int] as int);
        let ghost before = out@;
        out.push(KimiSyncExcludedSkill {
            name: owned(x.name.as_str()),
            source_kind: x.source_kind,
            plugin: copy_opt(&x.plugin),
            source_path: owned(x.source_path.as_str()),
            reason: owned(x.reason.as_str()),
        });
        assert(exclusion_view(out@[j as int]) == exclusion_view(excluded@[so[j as int]]));
        assert(exclusion_views(out@) =~= exclusion_views(before).push(exclusion_view(out@[j as int])));
        assert(so.take(j + 1).map_values(|q: int| exclusion_view(excluded@[q])) =~= so.take(j as int).map_values(
            |q: int| exclusion_view(excluded@[q])).push(exclusion_view(excluded@[so[j as int]])));
        j = j + 1;
    }
    assert(so.take(order@.len() as int) =~= so);
    out
}

/// The command that launches Kimi on the mirrored skills.
pub fn launch_command(skills_root: &str) -> (r: Vec<String>)
    ensures
        crate::text::strs(r@) == seq!["kimi"@, "--skills-dir"@, skills_root@],
{
    let mut v: Vec<String> = Vec::new();
    v.push(owned("kimi"));
    v.push(owned("--skills-dir"));
    v.push(owned(skills_root));
    assert(crate::text::strs(v@) =~= seq!["kimi"@, "--skills-dir"@, skills_root@]);
    v
}

/// Whether applying the sync may go ahead: not when any diagnostic is an error.
pub fn check_apply(summary: &KimiSyncSummary) -> (r: Result<(), String>)
    ensures
        r is Ok <==> summary.errors == 0,
        r matches Err(e) ==> e@ == "refusing to apply Kimi sync with error diagnostics"@,
{
    if summary.errors == 0 {
        Ok(())
    } else {
        Err(owned("refusing to apply Kimi sync with error diagnostics"))
    }
}

} // verus!

verus! {

/// What `toml::from_str::<toml::Table>` reads from a Codex configuration, if
/// the text parses: for each table item of the `skills.config` array, its
/// `name` and `path` strings and its `enabled` boolean (each only when present
/// with that type); and for each entry of the `plugins` table, in key order,
/// its key and its `enabled` boolean.
pub uninterp spec fn codex_config_items(text: Seq<char>) -> Option<(Seq<(Option<Seq<char>>, Option<Seq<char>>, Option<bool>)>, Seq<(Seq<char>, Option<bool>)>)>;

/// The characters of an optional string.
pub open spec fn opt_chars(o: Option<String>) -> Option<Seq<char>> {
    match o {
        Some(s) => Some(s@),
        None => None,
    }
}

/// The rule items as values.
pub open spec fn rule_items_view(v: Seq<(Option<String>, Option<String>, Option<bool>)>) -> Seq<(Option<Seq<char>>, Option<Seq<char>>, Option<bool>)> {
    v.map_values(|x: (Option<String>, Option<String>, Option<bool>)| (opt_chars(x.0), opt_chars(x.1), x.2))
}

/// The plugin items as values.
pub open spec fn plugin_items_view(v: Seq<(String, Option<bool>)>) -> Seq<(Seq<char>, Option<bool>)> {
    v.map_values(|x: (String, Option<bool>)| (x.0@, x.1))
}

/// Parses `text` with `toml::from_str::<toml::Table>` and picks out the
/// `skills.config` items and the `plugins` entries (see
/// [`codex_config_items`]); `None` when it does not parse.
#[verifier::external_body]
fn read_codex_config_items(text: &str) -> (r: Option<(Vec<(Option<String>, Option<String>, Option<bool>)>, Vec<(String, Option<bool>)>)>)
    ensures
        match r {
            Some((rules, plugins)) => codex_config_items(text@) == Some((rule_items_view(rules@), plugin_items_view(plugins@))),
            None => codex_config_items(text@) is None,
        },
{
    let v = toml::from_str::<Toml>(text).ok()?;
    let s = |x: Option<&Toml>| Some(x?.as_str()?.to_string());
    let rules = v.get("skills").and_then(|x| x.get("config")?.as_array()).into_iter().flatten()
        .filter_map(Toml::as_table)
        .map(|t| (s(t.get("name")), s(t.get("path")), t.get("enabled").and_then(Toml::as_bool))).collect();
    let plugins = v.get("plugins").and_then(Toml::as_table).into_iter().flatten()
        .map(|(k, x)| (k.clone(), x.get("enabled").and_then(Toml::as_bool))).collect();
    Some((rules, plugins))
}

/// A rule's path with a leading `~` or `~/` taken from the home directory
/// `home` (an empty path for `~` when there is none).
pub open spec fn expand_home(path: Seq<char>, home: Option<Seq<char>>) -> Seq<char> {
    if path == "~"@ {
        match home {
            Some(h) => h,
            None => seq![],
        }
    } else if path.len() >= 2 && path[0] == '~' && path[1] == '/' && home is Some {
        crate::paths::path_join(home->0, path.skip(2))
    } else {
        path
    }
}

/// The rule an item gives: its name, its path expanded, and `enabled` (true
/// when absent).
pub open spec fn rule_from_item(x: (Option<Seq<char>>, Option<Seq<char>>, Option<bool>), home: Option<Seq<char>>) -> (Option<Seq<char>>, Option<Seq<char>>, bool) {
    (x.0, match x.1 {
        Some(p) => Some(expand_home(p, home)),
        None => None,
    }, match x.2 {
        Some(b) => b,
        None => true,
    })
}

/// A rule as values.
pub open spec fn rule_view(r: SkillConfigRule) -> (Option<Seq<char>>, Option<Seq<char>>, bool) {
    (opt_chars(r.name), opt_chars(r.path), r.enabled)
}

/// The part of `key` before its first `@` and the part after it, if it has one.
pub open spec fn split_at_sign(key: Seq<char>) -> Option<(Seq<char>, Seq<char>)> {
    if exists|i: int| 0 <= i < key.len() && key[i] == '@' {
        let i = choose|i: int| 0 <= i < key.len() && key[i] == '@' && forall|j: int| 0 <= j < i ==> key[j] != '@';
        Some((key.take(i), key.skip(i + 1)))
    } else {
        None
    }
}

/// The plugin states the first `n` entries give: each `name@source` key sets
/// the state of `name` (a later key for the same name replaces an earlier
/// one, in place); keys without `@` are skipped; `enabled` is true when absent.
pub open spec fn plugin_states(items: Seq<(Seq<char>, Option<bool>)>, n: int) -> Seq<(Seq<char>, Seq<char>, bool)>
    decreases n,
{
    if n <= 0 {
        seq![]
    } else {
        let prev = plugin_states(items, n - 1);
        let it = items[n - 1];
        match split_at_sign(it.0) {
            None => prev,
            Some((name, source)) => {
                let st = (name, source, match it.1 { Some(b) => b, None => true });
                if exists|k: int| 0 <= k < prev.len() && prev[k].0 == name {
                    let k = choose|k: int| 0 <= k < prev.len() && prev[k].0 == name;
                    prev.update(k, st)
                } else {
                    prev.push(st)
                }
            },
        }
    }
}

/// The Codex configuration a sync reads: its skill rules, and each plugin's
/// source and whether it is enabled.
#[derive(Clone, Debug)]
pub struct CodexConfigValues {
    pub rules: Vec<SkillConfigRule>,
    pub plugins: Vec<(String, String, bool)>,
}

/// The plugin states as values.
pub open spec fn plugins_view(v: Seq<(String, String, bool)>) -> Seq<(Seq<char>, Seq<char>, bool)> {
    v.map_values(|x: (String, String, bool)| (x.0@, x.1@, x.2))
}

/// A rule path with `~` expanded (see [`expand_home`]).
fn expand_home_exec(path: &str, home: Option<&str>) -> (r: String)
    ensures
        r@ == expand_home(path@, match home { Some(h) => Some(h@), None => None }),
{
    if str_eq(path, "~") {
        return match home {
            Some(h) => owned(h),
            None => String::new(),
        };
    }
    let cs = crate::text::chars_of(path);
    if cs.len() >= 2 && cs[0] == '~' && cs[1] == '/' {
        match home {
            Some(h) => {
                let rest = crate::text::substring(&cs, 2, cs.len());
                assert(cs@.subrange(2, cs@.len() as int) =~= path@.skip(2));
                return crate::paths::join(h, rest.as_str());
            },
            None => {},
        }
    }
    owned(path)
}

/// Where the first `@` of `key` is, if anywhere.
fn find_at_sign(key: &str) -> (r: Option<usize>)
    ensures
        match r {
            Some(i) => i < key@.len() && key@[i as int] == '@' && forall|j: int| 0 <= j < i ==> key@[j] != '@',
            None => forall|j: int| 0 <= j < key@.len() ==> key@[j] != '@',
        },
{
    let cs = crate::text::chars_of(key);
    let mut i: usize = 0;
    while i < cs.len()
        invariant
            i <= cs@.len(),
            cs@ == key@,
            forall|j: int| 0 <= j < i ==> cs@[j] != '@',
        decreases cs@.len() - i,
    {
        if cs[i] == '@' {
            return Some(i);
        }
        i = i + 1;
    }
    None
}

/// Reads a Codex configuration (see [`codex_config_items`]): each
/// `skills.config` item becomes a rule (see [`rule_from_item`]) and the
/// `plugins` entries give the plugin states (see [`plugin_states`]). `None`
/// when the text is not TOML.
pub fn read_codex_config(text: &str, home: Option<&str>) -> (r: Option<CodexConfigValues>)
    ensures
        match r {
            None => codex_config_items(text@) is None,
            Some(c) => codex_config_items(text@) matches Some((items, plugins))
                && c.rules@.map_values(|x: SkillConfigRule| rule_view(x))
                    == items.map_values(|x: (Option<Seq<char>>, Option<Seq<char>>, Option<bool>)| rule_from_item(x, match home { Some(h) => Some(h@), None => None }))
                && plugins_view(c.plugins@) == plugin_states(plugins, plugins.len() as int),
        },
{
    let (items, plugin_items) = match read_codex_config_items(text) {
        Some(x) => x,
        None => return None,
    };
    let ghost hv = match home { Some(h) => Some(h@), None => None::<Seq<char>> };
    let ghost iv = rule_items_view(items@);
    let mut rules: Vec<SkillConfigRule> = Vec::new();
    let mut i: usize = 0;
    while i < items.len()
        invariant
            i <= items@.len(),
            iv == rule_items_view(items@),
            hv == match home { Some(h) => Some(h@), None => None::<Seq<char>> },
            rules@.map_values(|x: SkillConfigRule| rule_view(x))
                == iv.take(i as int).map_values(|x: (Option<Seq<char>>, Option<Seq<char>>, Option<bool>)| rule_from_item(x, hv)),
        decreases items@.len() - i,
    {
        let it = &items[i];
        let name = match &it.0 {
            Some(n) => Some(owned(n.as_str())),
            None => None,
        };
        let path = match &it.1 {
            Some(p) => Some(expand_home_exec(p.as_str(), home)),
            None => None,
        };
        let enabled = match it.2 {
            Some(b) => b,
            None => true,
        };
        let ghost before = rules@;
        rules.push(SkillConfigRule { name, path, enabled });
        assert(iv.take(i + 1) =~= iv.take(i as int).push(iv[i as int]));
        assert(rules@.map_values(|x: SkillConfigRule| rule_view(x)) =~= before.map_values(|x: SkillConfigRule| rule_view(x)).push(rule_view(rules@[i as int])));
        assert(rules@.map_values(|x: SkillConfigRule| rule_view(x))
            =~= iv.take(i + 1).map_values(|x: (Option<Seq<char>>, Option<Seq<char>>, Option<bool>)| rule_from_item(x, hv)));
        i = i + 1;
    }
    assert(iv.take(items@.len() as int) =~= iv);
    let ghost pv = plugin_items_view(plugin_items@);
    let mut plugins: Vec<(String, String, bool)> = Vec::new();
    let mut j: usize = 0;
    while j < plugin_items.len()
        invariant
            j <= plugin_items@.len(),
            pv == plugin_items_view(plugin_items@),
            plugins_view(plugins@) == plugin_states(pv, j as int),
            forall|a: int, b: int| 0 <= a < b < plugins@.len() ==> (#[trigger] plugins@[a]).0@ != (#[trigger] plugins@[b]).0@,
        decreases plugin_items@.len() - j,
    {
        let key = plugin_items[j].0.as_str();
        let ghost prev = plugins_view(plugins@);
        assert(pv[j as int] == (key@, plugin_items@[j as int].1));
        match find_at_sign(key) {
            None => {
                assert(split_at_sign(key@) is None);
            },
            Some(at) => {
                let cs = crate::text::chars_of(key);
                let name = crate::text::substring(&cs, 0, at);
                let source = crate::text::substring(&cs, at + 1, cs.len());
                let enabled = match plugin_items[j].1 {
                    Some(b) => b,
                    None => true,
                };
                proof {
                    assert(key@[at as int] == '@');
                    let c = choose|i: int| 0 <= i < key@.len() && key@[i] == '@' && forall|q: int| 0 <= q < i ==> key@[q] != '@';
                    if c < at {
                        assert(key@[c] != '@');
                    }
                    if c > at {
                        assert(key@[at as int] != '@');
                    }
                    assert(name@ =~= key@.take(at as int));
                    assert(source@ =~= key@.skip(at + 1));
                }
                let mut k: usize = 0;
                let mut found: Option<usize> = None;
                while k < plugins.len()
                    invariant
                        k <= plugins@.len(),
                        found is None ==> forall|q: int| 0 <= q < k ==> (#[trigger] plugins@[q]).0@ != name@,
                        found matches Some(f) ==> f < plugins@.len() && plugins@[f as int].0@ == name@,
                    decreases plugins@.len() - k,
                {
                    if found.is_none() && str_eq(plugins[k].0.as_str(), name.as_str()) {
                        found = Some(k);
                    }
                    k = k + 1;
                }
                match found {
                    Some(f) => {
                        let ghost st = (name@, source@, enabled);
                        assert(prev[f as int].0 == name@);
                        plugins.set(f, (name, source, enabled));
                        proof {
                            let cho = choose|q: int| 0 <= q < prev.len() && prev[q].0 == name@;
                            if cho != f {
                                if cho < f {
                                    assert(prev[cho].0 != prev[f as int].0);
                                } else {
                                    assert(prev[f as int].0 != prev[cho].0);
                                }
                            }
                            assert(plugins_view(plugins@) =~= prev.update(f as int, st));
                        }
                    },
                    None => {
                        plugins.push((name, source, enabled));
                        assert(plugins_view(plugins@) =~= prev.push((key@.take(at as int), key@.skip(at + 1), enabled)));
                    },
                }
            },
        }
        j = j + 1;
    }
    Some(CodexConfigValues { rules, plugins })
}

} // verus!

verus! {

/// What the mirror writer knows of a path it is about to write under the sync
/// root: both as components and as text, whether the sync root is a symlink,
/// and, when both could be resolved, the canonical sync root and the canonical
/// nearest existing ancestor of the path.
#[derive(Clone, Debug)]
pub struct SyncPathProbe {
    pub sync_root: Vec<String>,
    pub sync_root_text: String,
    pub path: Vec<String>,
    pub path_text: String,
    pub root_is_symlink: bool,
    pub canonical: Option<(Vec<String>, String, Vec<String>, String)>,
}

/// Whether the components `prefix` begin the components `path`.
pub open spec fn components_prefix(prefix: Seq<Seq<char>>, path: Seq<Seq<char>>) -> bool {
    prefix.len() <= path.len() && path.take(prefix.len() as int) == prefix
}

/// Why writing the probed path is refused, if it is: a `..` component, a path
/// outside the sync root, a symlinked sync root, a root that could not be
/// resolved, or a resolved ancestor outside the resolved root.
pub open spec fn sync_path_error(p: SyncPathProbe) -> Option<Seq<char>> {
    let root = crate::text::strs(p.sync_root@);
    let path = crate::text::strs(p.path@);
    if path.contains(".."@) {
        Some("refusing unsafe generated mirror path: "@ + p.path_text@)
    } else if !components_prefix(root, path) {
        Some("refusing to write outside Kimi sync root: "@ + p.path_text@ + " is not under "@ + p.sync_root_text@)
    } else if p.root_is_symlink {
        Some("refusing symlinked Kimi sync root: "@ + p.sync_root_text@)
    } else {
        match p.canonical {
            None => Some("failed to canonicalize "@ + p.sync_root_text@),
            Some((cr, crt, ca, cat)) => if !components_prefix(crate::text::strs(cr@), crate::text::strs(ca@)) {
                Some("refusing generated mirror path outside canonical Kimi sync root: "@ + cat@ + " is not under "@ + crt@)
            } else {
                None
            },
        }
    }
}

/// Whether the components `prefix` begin the components `path`.
fn has_component_prefix(prefix: &Vec<String>, path: &Vec<String>) -> (r: bool)
    ensures
        r == components_prefix(crate::text::strs(prefix@), crate::text::strs(path@)),
{
    let ghost a = crate::text::strs(prefix@);
    let ghost b = crate::text::strs(path@);
    if prefix.len() > path.len() {
        return false;
    }
    let mut i: usize = 0;
    while i < prefix.len()
        invariant
            i <= prefix@.len(),
            prefix@.len() <= path@.len(),
            a == crate::text::strs(prefix@),
            b == crate::text::strs(path@),
            forall|j: int| 0 <= j < i ==> b[j] == a[j],
        decreases prefix@.len() - i,
    {
        if !str_eq(prefix[i].as_str(), path[i].as_str()) {
            assert(b.take(a.len() as int)[i as int] != a[i as int]);
            return false;
        }
        i = i + 1;
    }
    assert(b.take(a.len() as int) =~= a);
    true
}

/// Whether some component is `..`.
fn has_parent_component(path: &Vec<String>) -> (r: bool)
    ensures
        r == crate::text::strs(path@).contains(".."@),
{
    let mut i: usize = 0;
    while i < path.len()
        invariant
            i <= path@.len(),
            forall|j: int| 0 <= j < i ==> path@[j]@ != ".."@,
        decreases path@.len() - i,
    {
        if str_eq(path[i].as_str(), "..") {
            assert(crate::text::strs(path@)[i as int] == ".."@);
            return true;
        }
        i = i + 1;
    }
    assert forall|j: int| 0 <= j < crate::text::strs(path@).len() implies crate::text::strs(path@)[j] != ".."@ by {
        assert(crate::text::strs(path@)[j] == path@[j]@);
    }
    false
}

/// Checks that the mirror writer may write the probed path (see
/// [`sync_path_error`]).
pub fn sync_path_safe(p: &SyncPathProbe) -> (r: Result<(), String>)
    ensures
        match r {
            Ok(_) => sync_path_error(*p) is None,
            Err(e) => sync_path_error(*p) == Some(e@),
        },
{
    if has_parent_component(&p.path) {
        return Err(crate::dev::ledger::cat("refusing unsafe generated mirror path: ", p.path_text.as_str()));
    }
    if !has_component_prefix(&p.sync_root, &p.path) {
        let mut m = owned("refusing to write outside Kimi sync root: ");
        crate::text::push_all(&mut m, p.path_text.as_str());
        crate::text::push_all(&mut m, " is not under ");
        crate::text::push_all(&mut m, p.sync_root_text.as_str());
        return Err(m);
    }
    if p.root_is_symlink {
        return Err(crate::dev::ledger::cat("refusing symlinked Kimi sync root: ", p.sync_root_text.as_str()));
    }
    match &p.canonical {
        None => Err(crate::dev::ledger::cat("failed to canonicalize ", p.sync_root_text.as_str())),
        Some((cr, crt, ca, cat)) => {
            if !has_component_prefix(cr, ca) {
                let mut m = owned("refusing generated mirror path outside canonical Kimi sync root: ");
                crate::text::push_all(&mut m, cat.as_str());
                crate::text::push_all(&mut m, " is not under ");
                crate::text::push_all(&mut m, crt.as_str());
                Err(m)
            } else {
                Ok(())
            }
        },
    }
}

} // verus!

verus! {

/// A skill found while collecting, with, for each Codex rule, whether the
/// rule's path names the skill's directory or `SKILL.md`.
#[derive(Clone, Debug)]
pub struct FoundSkill {
    pub candidate: SkillCandidate,
    pub path_matches: Vec<bool>,
}

/// The standing exclusion of a plugin skill, if it has one.
pub open spec fn forced_of(c: SkillCandidate) -> Option<Seq<char>> {
    if c.source_kind == KimiSyncSourceKind::PluginSkill && c.plugin is Some {
        forced_exclusion(c.plugin->0@, c.name@)
    } else {
        None
    }
}

/// After the first `n` found skills: the candidates kept and the exclusions
/// made, in order. A plugin skill with a standing exclusion is excluded with
/// its reason; otherwise the Codex rules decide (see [`enabled_after`]).
pub open spec fn gathered(rules: Seq<SkillConfigRule>, found: Seq<FoundSkill>, n: int) -> (Seq<SkillCandidate>, Seq<ExclusionView>)
    decreases n,
{
    if n <= 0 {
        (seq![], seq![])
    } else {
        let (cs, ex) = gathered(rules, found, n - 1);
        let f = found[n - 1];
        match forced_of(f.candidate) {
            Some(reason) => (cs, ex.push(excluded_as(f.candidate, reason))),
            None => if enabled_after(rules, f.candidate, f.path_matches@, rules.len() as int) {
                (cs.push(f.candidate), ex)
            } else {
                (cs, ex.push(excluded_as(f.candidate, "disabled by Codex skills.config"@)))
            },
        }
    }
}

/// Whether `w` is what settling the collisions among `cs` keeps: for each name
/// the candidate that holds it (see [`collide`]), each once.
pub open spec fn collision_winners(cs: Seq<SkillCandidate>, w: Seq<SkillCandidate>) -> bool {
    let m = collide(cs, cs.len() as int).0;
    &&& forall|i: int| 0 <= i < w.len() ==> m.contains_key(#[trigger] w[i].name@) && 0 <= m[w[i].name@] < cs.len()
        && w[i] == cs[m[w[i].name@]]
    &&& forall|x: Seq<char>| #[trigger] m.contains_key(x) ==> exists|i: int| 0 <= i < w.len() && w[i].name@ == x
    &&& forall|i: int, j: int| 0 <= i < j < w.len() ==> w[i].name@ != w[j].name@
}

/// The exclusions in report order: by name, then source path, equal keys
/// keeping their order.
pub open spec fn sorted_exclusions(ex: Seq<ExclusionView>) -> Seq<ExclusionView> {
    crate::order::stable_order(ex.map_values(|v: ExclusionView| seq![v.0, v.3]), ex.len()).map_values(|q: int| ex[q])
}

/// Where a sync writes: the sync root under the Kimi home, the mirror for
/// the project (see [`project_hash_of`]) and the skills directory in it.
pub open spec fn sync_skills_root(kimi_home: Seq<char>, project_root: Option<Seq<char>>) -> Seq<char> {
    crate::paths::path_join(crate::paths::path_join(crate::paths::path_join(
        crate::paths::path_join(kimi_home, "codex-sync"@), "effective"@), project_hash_of(project_root)), "skills"@)
}

/// The outcome of a Kimi sync, before anything is written.
#[derive(Clone, Debug)]
pub struct KimiSyncReport {
    pub dry_run: bool,
    pub scope: KimiSyncScope,
    pub ok: bool,
    pub sync_root: String,
    pub mirror_root: String,
    pub skills_root: String,
    pub included: Vec<KimiSyncSkill>,
    pub excluded: Vec<KimiSyncExcludedSkill>,
    pub diagnostics: Vec<KimiSyncDiagnostic>,
    pub summary: KimiSyncSummary,
    pub launch_command: Vec<String>,
}

/// The Kimi sync of the skills `found` (in collection order) under the Codex
/// `rules`: standing and rule exclusions, collisions settled by priority,
/// included skills sorted by name and mirrored under the project's skills
/// root, exclusions sorted by name and source path, the counts, and whether
/// the sync is clean. Applying a sync with error diagnostics is refused.
pub fn kimi_sync_report(
    rules: &Vec<SkillConfigRule>,
    found: &Vec<FoundSkill>,
    diagnostics: Vec<KimiSyncDiagnostic>,
    scope: KimiSyncScope,
    apply: bool,
    kimi_home: &str,
    project_root: Option<&str>,
) -> (r: Result<KimiSyncReport, String>)
    requires
        forall|i: int| 0 <= i < found@.len() ==> (#[trigger] found@[i]).path_matches@.len() == rules@.len(),
    ensures
        ({
            let g = gathered(rules@, found@, found@.len() as int);
            let errors = count_severity(diagnostics@, KimiSyncDiagnosticSeverity::Error);
            &&& (r is Err <==> apply && errors > 0)
            &&& r matches Err(e) ==> e@ == "refusing to apply Kimi sync with error diagnostics"@
            &&& r matches Ok(rep) ==> {
                let root = sync_skills_root(kimi_home@, match project_root { Some(p) => Some(p@), None => None });
                &&& rep.dry_run == !apply
                &&& rep.scope == scope
                &&& rep.ok == (errors == 0)
                &&& rep.skills_root@ == root
                &&& rep.diagnostics@ == diagnostics@
                &&& exclusion_views(rep.excluded@) == sorted_exclusions(g.1 + collide(g.0, g.0.len() as int).1)
                &&& exists|w: Seq<SkillCandidate>| #[trigger] collision_winners(g.0, w) && rep.included@.len() == w.len()
                    && forall|j: int| 0 <= j < rep.included@.len() ==> mirrored_as(#[trigger] rep.included@[j],
                        w[crate::order::stable_order(w.map_values(|c: SkillCandidate| included_key(c)), w.len())[j]], root)
                &&& rep.summary.included == rep.included@.len()
                &&& rep.summary.excluded == rep.excluded@.len()
                &&& rep.summary.diagnostics == diagnostics@.len()
                &&& rep.summary.errors == errors
                &&& rep.summary.warnings == count_severity(diagnostics@, KimiSyncDiagnosticSeverity::Warning)
                &&& crate::text::strs(rep.launch_command@) == seq!["kimi"@, "--skills-dir"@, root]
            }
        }),
{
    let mut candidates: Vec<SkillCandidate> = Vec::new();
    let mut excluded: Vec<KimiSyncExcludedSkill> = Vec::new();
    let mut i: usize = 0;
    while i < found.len()
        invariant
            i <= found@.len(),
            forall|k: int| 0 <= k < found@.len() ==> (#[trigger] found@[k]).path_matches@.len() == rules@.len(),
            candidates@ == gathered(rules@, found@, i as int).0,
            exclusion_views(excluded@) == gathered(rules@, found@, i as int).1,
        decreases found@.len() - i,
    {
        let f = &found[i];
        let c = copy_candidate(&f.candidate);
        let forced = match (&c.source_kind, &c.plugin) {
            (KimiSyncSourceKind::PluginSkill, Some(p)) => forced_exclusion_reason(p.as_str(), c.name.as_str()),
            _ => None,
        };
        proof {
            assert(forced_of(c) == match forced { Some(x) => Some(x@), None => None::<Seq<char>> });
        }
        match forced {
            Some(reason) => {
                let ghost before = excluded@;
                let x = exclusion_of(&c, reason);
                excluded.push(x);
                assert(exclusion_views(excluded@) =~= exclusion_views(before).push(excluded_as(c, reason@)));
            },
            None => {
                add_candidate(c, rules, &f.path_matches, &mut candidates, &mut excluded);
            },
        }
        i = i + 1;
    }
    let ghost g0 = candidates@;
    let ghost ex0 = exclusion_views(excluded@);
    let winners = resolve_collisions(candidates, &mut excluded);
    let sync_root = crate::paths::join(kimi_home, "codex-sync");
    let effective = crate::paths::join(sync_root.as_str(), "effective");
    let hash = project_hash(project_root);
    let mirror_root = crate::paths::join(effective.as_str(), hash.as_str());
    let skills_root = crate::paths::join(mirror_root.as_str(), "skills");
    let included = order_included(&winners, skills_root.as_str());
    let ordered = order_excluded(&excluded);
    proof {
        let ev = exclusion_views(excluded@);
        assert(excluded@.map_values(|x: KimiSyncExcludedSkill| excluded_key(x))
            =~= ev.map_values(|v: ExclusionView| seq![v.0, v.3]));
        crate::order::lemma_stable_order_in_range(ev.map_values(|v: ExclusionView| seq![v.0, v.3]), ev.len());
        assert(exclusion_views(ordered@) =~= sorted_exclusions(ev));
        assert(collision_winners(g0, winners@));
    }
    let summary = sync_summary(included.len(), ordered.len(), &diagnostics);
    let launch = launch_command(skills_root.as_str());
    if apply {
        check_apply(&summary)?;
    }
    Ok(KimiSyncReport {
        dry_run: !apply,
        scope,
        ok: summary.errors == 0,
        sync_root,
        mirror_root,
        skills_root,
        included,
        excluded: ordered,
        diagnostics,
        summary,
        launch_command: launch,
    })
}

} // verus!
