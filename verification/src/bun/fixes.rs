//! Safe rewrites of `package.json`: the fixes the auditor can make without
//! review, planned as the rewritten document.
use vstd::prelude::*;

use crate::bun::config::AuditConfig;
use crate::bun::detect::RootFiles;
use crate::bun::types::{FixKind, PlannedFix, VERIFIED_BUN_VERSION};
use crate::dev::ledger::{lex_less, str_less};
use crate::json::{member, pretty_text, render_json_pretty, Json};
use crate::pattern::regex_finds;
use crate::text::{join_spec, owned, push_all, strs, trim_spec};

verus! {

/// The rule that asks for a `packageManager` field.
pub const PACKAGE_MANAGER_RULE: &'static str = "pm-package-manager-field";
/// The rule that prefers `bunx` to `npx`.
pub const NPX_RULE: &'static str = "pm-bunx-vs-npx";
/// The rule that runs Next.js through Bun when Vercel's Bun runtime is on.
pub const VERCEL_SCRIPTS_RULE: &'static str = "vercel-nextjs-bun-runtime-scripts";

/// Whether the configuration lets a fix for `rule_id` be made: the rule is
/// not disabled and its finding on `package.json` is not in the baseline.
pub open spec fn fix_allowed(config: AuditConfig, rule_id: Seq<char>) -> bool {
    &&& !strs(config.disabled_rules@).contains(rule_id)
    &&& !strs(config.baseline_keys@).contains(rule_id + ":package.json"@)
}

/// Whether `v` holds a string with the characters `x`.
fn holds(v: &Vec<String>, x: &str) -> (r: bool)
    ensures
        r == strs(v@).contains(x@),
{
    let mut i: usize = 0;
    while i < v.len()
        invariant
            i <= v@.len(),
            forall|j: int| 0 <= j < i ==> strs(v@)[j] != x@,
        decreases v@.len() - i,
    {
        if crate::audit_gate::str_eq(v[i].as_str(), x) {
            assert(strs(v@)[i as int] == x@);
            return true;
        }
        i = i + 1;
    }
    false
}

/// Whether the configuration lets a fix for `rule_id` be made (see
/// [`fix_allowed`]).
pub fn fix_allows(config: &AuditConfig, rule_id: &str) -> (r: bool)
    ensures
        r == fix_allowed(*config, rule_id@),
{
    if holds(&config.disabled_rules, rule_id) {
        return false;
    }
    let mut key = owned(rule_id);
    push_all(&mut key, ":package.json");
    !holds(&config.baseline_keys, key.as_str())
}

/// Whether a repository is Bun-first for the fixes: a Bun lockfile at the
/// root, a `packageManager` naming Bun, or Bun's types among the development
/// dependencies.
pub open spec fn bun_first_for_fixes(f: RootFiles, es: Seq<(String, Json)>) -> bool {
    ||| f.bun_lockb || f.bun_lock
    ||| member(es, "packageManager"@) matches Some(Json::Str(s)) && "bun@"@.is_prefix_of(s@)
    ||| member(es, "devDependencies"@) matches Some(Json::Object(deps)) && (member(deps@, "@types/bun"@) is Some
        || member(deps@, "bun-types"@) is Some)
}

/// Whether a repository is Bun-first for the fixes (see
/// [`bun_first_for_fixes`]).
pub fn is_bun_first_repo(files: &RootFiles, es: &Vec<(String, Json)>) -> (r: bool)
    ensures
        r == bun_first_for_fixes(*files, es@),
{
    if files.bun_lockb || files.bun_lock {
        return true;
    }
    if let Some(Json::Str(s)) = crate::json::member_of(es, "packageManager") {
        if crate::text::starts_with(s.as_str(), "bun@") {
            return true;
        }
    }
    match crate::json::member_of(es, "devDependencies") {
        Some(Json::Object(deps)) => crate::json::member_of(deps, "@types/bun").is_some()
            || crate::json::member_of(deps, "bun-types").is_some(),
        _ => false,
    }
}

/// The position of the member `k`, or -1.
pub open spec fn member_index(es: Seq<(String, Json)>, k: Seq<char>) -> int
    decreases es.len(),
{
    if es.len() == 0 {
        -1
    } else if es[0].0@ == k {
        0
    } else {
        let j = member_index(es.drop_first(), k);
        if j < 0 {
            -1
        } else {
            j + 1
        }
    }
}

/// Where a new member `k` goes: before the first key that sorts after it,
/// so that members sorted by key stay sorted.
pub open spec fn sorted_slot(es: Seq<(String, Json)>, k: Seq<char>) -> nat
    decreases es.len(),
{
    if es.len() == 0 || lex_less(k, es[0].0@) {
        0
    } else {
        1 + sorted_slot(es.drop_first(), k)
    }
}

/// The members `es` with member `k` set to `v`: replaced in place when
/// present, else inserted in key order.
pub open spec fn member_set(es: Seq<(String, Json)>, k: Seq<char>, v: Json, after: Seq<(String, Json)>) -> bool {
    let i = member_index(es, k);
    if i >= 0 {
        after == es.update(i, (es[i].0, v))
    } else {
        exists|s: String| s@ == k && after == es.insert(sorted_slot(es, k) as int, (s, v))
    }
}

/// [`member_index`] finds the first member keyed `k`, the one a lookup
/// finds.
proof fn lemma_member_index(es: Seq<(String, Json)>, k: Seq<char>)
    ensures
        -1 <= member_index(es, k) < es.len(),
        member_index(es, k) >= 0 ==> es[member_index(es, k)].0@ == k && member(es, k) == Some(es[member_index(es, k)].1),
        member_index(es, k) < 0 ==> member(es, k) is None,
        forall|j: int| 0 <= j < es.len() && (member_index(es, k) < 0 || j < member_index(es, k)) ==> #[trigger] es[j].0@ != k,
    decreases es.len(),
{
    if es.len() > 0 && es[0].0@ != k {
        let t = es.drop_first();
        lemma_member_index(t, k);
        assert forall|j: int| 0 <= j < es.len() && (member_index(es, k) < 0 || j < member_index(es, k)) implies #[trigger] es[j].0@
            != k by {
            if j > 0 {
                assert(es[j] == t[j - 1]);
            }
        }
    }
}

/// The first index with key `k` found by a scan is the member's position.
proof fn lemma_found_at(es: Seq<(String, Json)>, k: Seq<char>, i: int)
    requires
        0 <= i < es.len(),
        es[i].0@ == k,
        forall|j: int| 0 <= j < i ==> #[trigger] es[j].0@ != k,
    ensures
        member_index(es, k) == i,
{
    lemma_member_index(es, k);
    let m = member_index(es, k);
    if m < 0 || i < m {
        assert(es[i].0@ != k);
    } else if m < i {
        assert(es[m].0@ != k);
    }
}

/// A scan that finds no key `k` shows the member is missing.
proof fn lemma_not_found(es: Seq<(String, Json)>, k: Seq<char>)
    requires
        forall|j: int| 0 <= j < es.len() ==> #[trigger] es[j].0@ != k,
    ensures
        member_index(es, k) < 0,
{
    lemma_member_index(es, k);
    if member_index(es, k) >= 0 {
        assert(es[member_index(es, k)].0@ == k);
    }
}

/// Sets member `k` of `es` to `v` (see [`member_set`]).
pub fn set_member(es: &mut Vec<(String, Json)>, k: &str, v: Json)
    ensures
        member_set(old(es)@, k@, v, final(es)@),
{
    let ghost before = es@;
    let mut i: usize = 0;
    while i < es.len()
        invariant
            i <= es@.len(),
            es@ == before,
            before == old(es)@,
            forall|j: int| 0 <= j < i ==> #[trigger] before[j].0@ != k@,
        decreases es@.len() - i,
    {
        if crate::audit_gate::str_eq(es[i].0.as_str(), k) {
            proof {
                lemma_found_at(before, k@, i as int);
            }
            let (name, _) = es.remove(i);
            let ghost vv = v;
            es.insert(i, (name, v));
            assert(es@ =~= before.update(i as int, (before[i as int].0, vv)));
            assert(member_set(before, k@, vv, es@));
            return;
        }
        i = i + 1;
    }
    proof {
        lemma_not_found(before, k@);
    }
    let mut slot: usize = 0;
    let ghost s = before;
    assert(s.skip(0) =~= s);
    while slot < es.len() && !str_less(k, es[slot].0.as_str())
        invariant
            slot <= es@.len(),
            es@ == before,
            sorted_slot(before, k@) == slot + sorted_slot(before.skip(slot as int), k@),
        decreases es@.len() - slot,
    {
        assert(before.skip(slot as int)[0] == before[slot as int]);
        assert(before.skip(slot as int).drop_first() =~= before.skip(slot + 1));
        slot = slot + 1;
    }
    proof {
        if slot < es@.len() {
            assert(before.skip(slot as int)[0] == before[slot as int]);
        } else {
            assert(before.skip(slot as int) =~= Seq::<(String, Json)>::empty());
        }
    }
    let name = owned(k);
    let ghost nv = (name, v);
    es.insert(slot, (name, v));
    assert(es@ == before.insert(slot as int, nv));
}

/// The `packageManager` text of the members, empty when it is missing or
/// not a string.
pub open spec fn package_manager_text(es: Seq<(String, Json)>) -> Seq<char> {
    match member(es, "packageManager"@) {
        Some(Json::Str(s)) => s@,
        _ => seq![],
    }
}

/// The pinned `packageManager` value.
pub open spec fn pinned_bun() -> Seq<char> {
    "bun@"@ + VERIFIED_BUN_VERSION@
}

/// Whether the `packageManager` fix applies: the field is empty or missing,
/// the repository is Bun-first, and the configuration allows it.
pub open spec fn adds_package_manager(es: Seq<(String, Json)>, bun_first: bool, config: AuditConfig) -> bool {
    package_manager_text(es).len() == 0 && bun_first && fix_allowed(config, PACKAGE_MANAGER_RULE@)
}

/// Pins `packageManager` to the verified Bun release when the fix applies
/// (see [`adds_package_manager`]), noting the rule and what was done.
pub fn normalize_package_manager(
    es: &mut Vec<(String, Json)>,
    bun_first: bool,
    config: &AuditConfig,
    rule_ids: &mut Vec<String>,
    descriptions: &mut Vec<String>,
)
    ensures
        adds_package_manager(old(es)@, bun_first, *config) ==> {
            &&& exists|v: String| v@ == pinned_bun() && member_set(old(es)@, "packageManager"@, Json::Str(v), final(es)@)
            &&& strs(final(rule_ids)@) == strs(old(rule_ids)@).push(PACKAGE_MANAGER_RULE@)
            &&& strs(final(descriptions)@) == strs(old(descriptions)@).push("add packageManager "@ + pinned_bun())
        },
        !adds_package_manager(old(es)@, bun_first, *config) ==> {
            &&& final(es)@ == old(es)@
            &&& final(rule_ids)@ == old(rule_ids)@
            &&& final(descriptions)@ == old(descriptions)@
        },
{
    let empty = match crate::json::member_of(es, "packageManager") {
        Some(Json::Str(s)) => s.as_str().unicode_len() == 0,
        _ => true,
    };
    if empty && bun_first && fix_allows(config, PACKAGE_MANAGER_RULE) {
        let mut value = owned("bun@");
        push_all(&mut value, VERIFIED_BUN_VERSION);
        let ghost vv = value;
        set_member(es, "packageManager", Json::Str(value));
        let ghost prev_ids = rule_ids@;
        rule_ids.push(owned(PACKAGE_MANAGER_RULE));
        assert(strs(rule_ids@) =~= strs(prev_ids).push(PACKAGE_MANAGER_RULE@));
        let mut d = owned("add packageManager bun@");
        push_all(&mut d, VERIFIED_BUN_VERSION);
        let ghost prev_ds = descriptions@;
        let ghost dv = d@;
        descriptions.push(d);
        assert(strs(descriptions@) =~= strs(prev_ds).push(dv));
        assert("add packageManager bun@"@ + VERIFIED_BUN_VERSION@ =~= "add packageManager "@ + pinned_bun()) by {
            reveal_strlit("add packageManager bun@");
            reveal_strlit("add packageManager ");
            reveal_strlit("bun@");
        }
    }
}

/// Names a pair of intermediate values, so that a statement about some pair
/// can be proved by pointing at one.
pub open spec fn stages<A, B>(a: A, b: B) -> bool {
    true
}

/// Names three intermediate values (see [`stages`]).
pub open spec fn stages3<A, B, C>(a: A, b: B, c: C) -> bool {
    true
}

/// The pattern of an `npx` invocation.
pub open spec fn npx_pattern() -> Seq<char> {
    "\\bnpx\\b"@
}

/// Whether the value is a script command that invokes `npx`.
pub open spec fn invokes_npx(v: Json) -> bool {
    v matches Json::Str(c) && regex_finds(npx_pattern(), c@)
}

/// `after` is `before` with every command that invokes `npx` rewritten to use
/// `bunx`, member by member.
pub open spec fn npx_rewritten(before: Seq<(String, Json)>, after: Seq<(String, Json)>) -> bool {
    &&& after.len() == before.len()
    &&& forall|i: int| 0 <= i < before.len() ==> (#[trigger] after[i]).0 == before[i].0 && if invokes_npx(before[i].1) {
        after[i].1 matches Json::Str(x) && before[i].1 matches Json::Str(c)
            && x@ == crate::pattern::regex_replaced(npx_pattern(), c@, "bunx"@)
    } else {
        after[i].1 == before[i].1
    }
}

/// Rewrites every script that invokes `npx` to use `bunx`; whether one was.
fn rewrite_npx(sc: &mut Vec<(String, Json)>) -> (r: bool)
    ensures
        npx_rewritten(old(sc)@, final(sc)@),
        r == exists|i: int| 0 <= i < old(sc)@.len() && invokes_npx(#[trigger] old(sc)@[i].1),
{
    let ghost before = sc@;
    let mut rewrote = false;
    let mut i: usize = 0;
    while i < sc.len()
        invariant
            i <= sc@.len(),
            sc@.len() == before.len(),
            forall|j: int| i <= j < before.len() ==> #[trigger] sc@[j] == before[j],
            forall|j: int| 0 <= j < i ==> (#[trigger] sc@[j]).0 == before[j].0 && if invokes_npx(before[j].1) {
                sc@[j].1 matches Json::Str(x) && before[j].1 matches Json::Str(c)
                    && x@ == crate::pattern::regex_replaced(npx_pattern(), c@, "bunx"@)
            } else {
                sc@[j].1 == before[j].1
            },
            rewrote == exists|j: int| 0 <= j < i && invokes_npx(#[trigger] before[j].1),
        decreases sc@.len() - i,
    {
        let hit = match &sc[i].1 {
            Json::Str(c) => crate::pattern::regex_match("\\bnpx\\b", c.as_str()),
            _ => false,
        };
        if hit {
            let (name, value) = sc.remove(i);
            let command = match &value {
                Json::Str(c) => crate::pattern::regex_replace_all("\\bnpx\\b", c.as_str(), "bunx"),
                _ => String::new(),
            };
            sc.insert(i, (name, Json::Str(command)));
            rewrote = true;
            assert(invokes_npx(before[i as int].1));
        } else {
            assert(!invokes_npx(before[i as int].1));
        }
        i = i + 1;
    }
    rewrote
}

/// Whether script `name` runs `command` directly (up to surrounding
/// whitespace).
pub open spec fn runs_directly(sc: Seq<(String, Json)>, name: Seq<char>, command: Seq<char>) -> bool {
    member(sc, name) matches Some(Json::Str(s)) && trim_spec(s@) == command
}

/// Whether script `name` runs `command` directly (see [`runs_directly`]).
fn script_runs(sc: &Vec<(String, Json)>, name: &str, command: &str) -> (r: bool)
    ensures
        r == runs_directly(sc@, name@, command@),
{
    match crate::json::member_of(sc, name) {
        Some(Json::Str(s)) => {
            let cs = crate::text::chars_of(s.as_str());
            let (lo, hi) = crate::text::trim_bounds(&cs, 0, cs.len());
            assert(cs@.subrange(0, cs@.len() as int) =~= s@);
            crate::audit_gate::str_eq(crate::text::substring(&cs, lo, hi).as_str(), command)
        },
        _ => false,
    }
}

/// `after` is `before` with script `name` set to `command` when `hit`, else
/// `before` itself.
pub open spec fn script_set(before: Seq<(String, Json)>, hit: bool, name: Seq<char>, command: Seq<char>, after: Seq<(String, Json)>) -> bool {
    if hit {
        exists|v: String| v@ == command && member_set(before, name, Json::Str(v), after)
    } else {
        after == before
    }
}

/// What the script fixes make of the scripts `sc0`: `npx` rewritten to
/// `bunx` when the repository is Bun-first and the rule allowed (giving
/// `sc1`), then, when Vercel's Bun runtime is on and its rule allowed, the
/// Next.js `dev` and `build` scripts run through Bun (giving `sc2`, then
/// `sc3`); with the rules and descriptions each step adds.
pub open spec fn scripts_fixed(
    sc0: Seq<(String, Json)>,
    bun_first: bool,
    vercel: bool,
    config: AuditConfig,
    sc3: Seq<(String, Json)>,
    rules: Seq<Seq<char>>,
    descriptions: Seq<Seq<char>>,
) -> bool {
    exists|sc1: Seq<(String, Json)>, sc2: Seq<(String, Json)>| #![trigger stages(sc1, sc2)] {
        let npx = bun_first && fix_allowed(config, NPX_RULE@);
        let rewrote = npx && exists|i: int| 0 <= i < sc0.len() && invokes_npx(#[trigger] sc0[i].1);
        let next = vercel && fix_allowed(config, VERCEL_SCRIPTS_RULE@);
        let dev = next && runs_directly(sc1, "dev"@, "next dev"@);
        let build = next && runs_directly(sc2, "build"@, "next build"@);
        &&& stages(sc1, sc2)
        &&& (if npx { npx_rewritten(sc0, sc1) } else { sc1 == sc0 })
        &&& script_set(sc1, dev, "dev"@, "bun run --bun next dev"@, sc2)
        &&& script_set(sc2, build, "build"@, "bun run --bun next build"@, sc3)
        &&& rules == (if rewrote { seq![NPX_RULE@] } else { seq![] }) + (if dev || build {
            seq![VERCEL_SCRIPTS_RULE@]
        } else {
            seq![]
        })
        &&& descriptions == (if rewrote { seq!["rewrite npx invocations to bunx"@] } else { seq![] }) + (if dev || build {
            seq!["normalize Next.js dev/build scripts for Bun runtime"@]
        } else {
            seq![]
        })
    }
}

/// Applies the script fixes to the scripts object `sc` (see
/// [`scripts_fixed`]), noting the rules and what was done.
pub fn fix_scripts(
    sc: &mut Vec<(String, Json)>,
    bun_first: bool,
    vercel_bun_enabled: bool,
    config: &AuditConfig,
    rule_ids: &mut Vec<String>,
    descriptions: &mut Vec<String>,
)
    ensures
        exists|rules: Seq<Seq<char>>, ds: Seq<Seq<char>>| #![trigger stages(rules, ds)] stages(rules, ds) && scripts_fixed(old(sc)@, bun_first, vercel_bun_enabled, *config,
            final(sc)@, rules, ds) && strs(final(rule_ids)@) == strs(old(rule_ids)@) + rules && strs(final(descriptions)@)
            == strs(old(descriptions)@) + ds,
{
    let ghost sc0 = sc@;
    let ghost ids0 = strs(rule_ids@);
    let ghost ds0 = strs(descriptions@);
    let npx = bun_first && fix_allows(config, NPX_RULE);
    let mut rewrote = false;
    if npx {
        rewrote = rewrite_npx(sc);
    }
    let ghost sc1 = sc@;
    if rewrote {
        rule_ids.push(owned(NPX_RULE));
        descriptions.push(owned("rewrite npx invocations to bunx"));
    }
    let ghost ids1 = strs(rule_ids@);
    let ghost ds1 = strs(descriptions@);
    let next = vercel_bun_enabled && fix_allows(config, VERCEL_SCRIPTS_RULE);
    let dev = next && script_runs(sc, "dev", "next dev");
    if dev {
        set_member(sc, "dev", Json::Str(owned("bun run --bun next dev")));
    }
    let ghost sc2 = sc@;
    let build = next && script_runs(sc, "build", "next build");
    if build {
        set_member(sc, "build", Json::Str(owned("bun run --bun next build")));
    }
    if dev || build {
        rule_ids.push(owned(VERCEL_SCRIPTS_RULE));
        descriptions.push(owned("normalize Next.js dev/build scripts for Bun runtime"));
    }
    let ghost rules = (if rewrote { seq![NPX_RULE@] } else { seq![] }) + (if dev || build {
        seq![VERCEL_SCRIPTS_RULE@]
    } else {
        seq![]
    });
    let ghost ds = (if rewrote { seq!["rewrite npx invocations to bunx"@] } else { seq![] }) + (if dev || build {
        seq!["normalize Next.js dev/build scripts for Bun runtime"@]
    } else {
        seq![]
    });
    assert(strs(rule_ids@) =~= ids0 + rules);
    assert(strs(descriptions@) =~= ds0 + ds);
    assert(stages(sc1, sc2));
    assert(scripts_fixed(sc0, bun_first, vercel_bun_enabled, *config, sc@, rules, ds));
    assert(stages(rules, ds));
}

/// What the fixes make of the members `es0` of `package.json`: the
/// `packageManager` pin (giving `es1`), then the script fixes on the
/// `scripts` object when there is one (giving `es2`); with the rules and
/// descriptions, in order.
pub open spec fn fixes_made(
    es0: Seq<(String, Json)>,
    files: RootFiles,
    vercel: bool,
    config: AuditConfig,
    es2: Seq<(String, Json)>,
    rules: Seq<Seq<char>>,
    descriptions: Seq<Seq<char>>,
) -> bool {
    let bun_first = bun_first_for_fixes(files, es0);
    let pin = adds_package_manager(es0, bun_first, config);
    exists|es1: Seq<(String, Json)>, r2: Seq<Seq<char>>, d2: Seq<Seq<char>>| #![trigger stages3(es1, r2, d2)] {
        &&& stages3(es1, r2, d2)
        &&& (if pin {
            exists|v: String| v@ == pinned_bun() && member_set(es0, "packageManager"@, Json::Str(v), es1)
        } else {
            es1 == es0
        })
        &&& rules == (if pin { seq![PACKAGE_MANAGER_RULE@] } else { seq![] }) + r2
        &&& descriptions == (if pin { seq!["add packageManager "@ + pinned_bun()] } else { seq![] }) + d2
        &&& match member(es1, "scripts"@) {
            Some(Json::Object(sc)) => {
                let i = member_index(es1, "scripts"@);
                exists|sc2: Vec<(String, Json)>| scripts_fixed(sc@, bun_first, vercel, config, sc2@, r2, d2)
                    && es2 == es1.update(i, (es1[i].0, Json::Object(sc2)))
            },
            _ => es2 == es1 && r2.len() == 0 && d2.len() == 0,
        }
    }
}

/// The planned fix of `package.json` at `path` (content `before`) once the
/// fixes are made: the first rule, all of them, a safe fix whose description
/// lists what was done, and the rewritten document as `serde_json` writes it
/// pretty, with a final newline.
pub open spec fn planned_fix_is(
    f: PlannedFix,
    path: Seq<char>,
    before: Seq<char>,
    doc: Seq<(String, Json)>,
    rules: Seq<Seq<char>>,
    descriptions: Seq<Seq<char>>,
) -> bool {
    &&& f.rule_id@ == rules[0]
    &&& strs(f.rule_ids@) == rules
    &&& f.kind == FixKind::Safe
    &&& f.file@ == path
    &&& f.description@ == "Update package.json to "@ + join_spec(descriptions, "; "@) + "."@
    &&& f.before matches Some(b) && b@ == before
    &&& f.after matches Some(a) && exists|d: Vec<(String, Json)>| d@ == doc && a@ == pretty_text(Json::Object(d), seq![])
        + "\n"@
}

/// Finds the member `k`.
fn find_member(es: &Vec<(String, Json)>, k: &str) -> (r: Option<usize>)
    ensures
        match r {
            Some(i) => member_index(es@, k@) == i && i < es@.len(),
            None => member_index(es@, k@) < 0,
        },
{
    let mut i: usize = 0;
    while i < es.len()
        invariant
            i <= es@.len(),
            forall|j: int| 0 <= j < i ==> #[trigger] es@[j].0@ != k@,
        decreases es@.len() - i,
    {
        if crate::audit_gate::str_eq(es[i].0.as_str(), k) {
            proof {
                lemma_found_at(es@, k@, i as int);
            }
            return Some(i);
        }
        i = i + 1;
    }
    proof {
        lemma_not_found(es@, k@);
    }
    None
}

/// Plans the safe fixes of the `package.json` at `path`, whose content is
/// `before` and whose parsed document is `package` (see [`fixes_made`] and
/// [`planned_fix_is`]); no fix when the document is not an object or no
/// rule applies.
pub fn plan_safe_fixes(
    path: &str,
    before: &str,
    package: Json,
    files: &RootFiles,
    vercel_bun_enabled: bool,
    config: &AuditConfig,
) -> (r: Vec<PlannedFix>)
    ensures
        match package {
            Json::Object(es0) => exists|es2: Seq<(String, Json)>, rules: Seq<Seq<char>>, ds: Seq<Seq<char>>|
                #![trigger stages3(es2, rules, ds)] {
                &&& stages3(es2, rules, ds)
                &&& fixes_made(es0@, *files, vercel_bun_enabled, *config, es2, rules, ds)
                &&& rules.len() == 0 ==> r@.len() == 0
                &&& rules.len() > 0 ==> r@.len() == 1 && planned_fix_is(r@[0], path@, before@, es2, rules, ds)
            },
            _ => r@.len() == 0,
        },
{
    let mut es = match package {
        Json::Object(es) => es,
        _ => return Vec::new(),
    };
    let ghost es0 = es@;
    let bun_first = is_bun_first_repo(files, &es);
    let mut rule_ids: Vec<String> = Vec::new();
    let mut descriptions: Vec<String> = Vec::new();
    normalize_package_manager(&mut es, bun_first, config, &mut rule_ids, &mut descriptions);
    let ghost es1 = es@;
    let ghost ids1 = strs(rule_ids@);
    let ghost ds1 = strs(descriptions@);
    let ghost pin = adds_package_manager(es0, bun_first, *config);
    assert(ids1 =~= (if pin { seq![PACKAGE_MANAGER_RULE@] } else { seq![] }));
    assert(ds1 =~= (if pin { seq!["add packageManager "@ + pinned_bun()] } else { seq![] }));
    assert(pin ==> exists|v: String| v@ == pinned_bun() && member_set(es0, "packageManager"@, Json::Str(v), es1));
    assert(!pin ==> es1 == es0);
    let ghost mut r2: Seq<Seq<char>> = seq![];
    let ghost mut d2: Seq<Seq<char>> = seq![];
    proof {
        lemma_member_index(es1, "scripts"@);
    }
    if let Some(i) = find_member(&es, "scripts") {
        let (name, value) = es.remove(i);
        match value {
            Json::Object(mut sc) => {
                let ghost sc0 = sc@;
                let ghost vv = Json::Object(sc);
                assert(member(es1, "scripts"@) == Some(vv));
                fix_scripts(&mut sc, bun_first, vercel_bun_enabled, config, &mut rule_ids, &mut descriptions);
                proof {
                    let (rr, dd) = choose|rr: Seq<Seq<char>>, dd: Seq<Seq<char>>| #![trigger stages(rr, dd)]
                        stages(rr, dd) && scripts_fixed(sc0, bun_first, vercel_bun_enabled, *config, sc@, rr, dd) && strs(rule_ids@)
                        == ids1 + rr && strs(descriptions@) == ds1 + dd;
                    r2 = rr;
                    d2 = dd;
                }
                let ghost sc2 = sc;
                es.insert(i, (name, Json::Object(sc)));
                assert(es@ =~= es1.update(i as int, (es1[i as int].0, Json::Object(sc2))));
                assert(scripts_fixed(sc0, bun_first, vercel_bun_enabled, *config, sc2@, r2, d2));
                assert(member_index(es1, "scripts"@) == i);
                assert(stages3(es1, r2, d2));
                assert(fixes_made(es0, *files, vercel_bun_enabled, *config, es@, strs(rule_ids@), strs(descriptions@)));
            },
            other => {
                es.insert(i, (name, other));
                assert(es@ =~= es1);
                assert(strs(rule_ids@) =~= ids1 + r2);
                assert(strs(descriptions@) =~= ds1 + d2);
            },
        }
    } else {
        assert(strs(rule_ids@) =~= ids1 + r2);
        assert(strs(descriptions@) =~= ds1 + d2);
    }
    assert(stages3(es1, r2, d2));
    assert(fixes_made(es0, *files, vercel_bun_enabled, *config, es@, strs(rule_ids@), strs(descriptions@)));
    assert(stages3(es@, strs(rule_ids@), strs(descriptions@)));
    if rule_ids.len() == 0 {
        return Vec::new();
    }
    let first = owned(rule_ids[0].as_str());
    let mut description = owned("Update package.json to ");
    push_all(&mut description, crate::text::join_strings(&descriptions, "; ").as_str());
    push_all(&mut description, ".");
    let doc = Json::Object(es);
    let mut after = render_json_pretty(&doc);
    push_all(&mut after, "\n");
    let mut out: Vec<PlannedFix> = Vec::new();
    out.push(PlannedFix {
        rule_id: first,
        rule_ids,
        kind: FixKind::Safe,
        file: owned(path),
        description,
        before: Some(owned(before)),
        after: Some(after),
    });
    out
}

} // verus!
