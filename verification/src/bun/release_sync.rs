//! Release sync: how the Bun release notes relate to the rule set, whether the
//! installed skill is intact, and the two index files a sync regenerates.
use vstd::prelude::*;

use crate::audit_gate::str_eq;
use crate::bun::audit::{dedup, dedup_strings};
use crate::bun::types::{
    CapabilityClassification, CapabilityReport, ReleaseReference, ReleaseSyncReport,
    REF_BUN_BUILTINS, REF_BUN_CAPABILITIES, REF_BUN_CLI, REF_BUN_PM_FALLBACKS,
    REF_BUN_RELEASE_NOTES, REF_VERCEL_BUN_RUNTIME, VERIFIED_BUN_VERSION,
};
use crate::dev::digest::{hex_of, hex_string, sha256_digest, sha256_of};
use crate::pattern::{opt_chars, regex_captures, regex_finds, regex_first_groups, regex_match};
use crate::text::{concat3, join_spec, join_strings, owned, push_all, starts_with, strs};

verus! {

/// What a release sync reads from the skill: the three reference documents as
/// text (empty where unreadable), their raw bytes (`None` where the file is
/// absent), and the ids of the rule files.
#[derive(Clone, Debug)]
pub struct ReleaseSyncSources {
    pub bun_release_notes: String,
    pub capabilities: String,
    pub vercel_runtime: String,
    pub bun_release_notes_bytes: Option<Vec<u8>>,
    pub capabilities_bytes: Option<Vec<u8>>,
    pub vercel_runtime_bytes: Option<Vec<u8>>,
    pub rule_ids: Vec<String>,
}

/// The number of capability topics a release sync classifies.
pub const CAPABILITY_TOPICS: usize = 7;

/// The topic of capability `k`.
pub open spec fn capability_topic(k: int) -> Seq<char> {
    if k == 0 {
        "bun webview automation"@
    } else if k == 1 {
        "bun markdown ansi"@
    } else if k == 2 {
        "bun cron callback overload"@
    } else if k == 3 {
        "bun build compile browser"@
    } else if k == 4 {
        "bun parallel sequential scripts"@
    } else if k == 5 {
        "bun test retry"@
    } else {
        "vercel bunVersion and next scripts"@
    }
}

/// The document capability `k` is looked up in.
pub open spec fn capability_source(k: int) -> Seq<char> {
    if k < 6 {
        "bun-release-notes"@
    } else {
        "vercel-bun-runtime"@
    }
}

/// The rules that cover capability `k`.
pub open spec fn capability_rules(k: int) -> Seq<Seq<char>> {
    if k == 0 {
        seq!["runtime-webview-automation"@, "runtime-bun-native-apis"@]
    } else if k == 1 {
        seq!["runtime-markdown-entrypoints"@, "runtime-bun-native-apis"@]
    } else if k == 2 {
        seq!["runtime-cron-in-process-vs-os"@]
    } else if k == 3 {
        seq!["build-bun-compile-browser"@, "build-bun-build-bundler"@]
    } else if k == 4 {
        seq!["scripts-bun-run-parallel-sequential"@]
    } else if k == 5 {
        seq!["test-bun-retry"@, "test-bun-test-runner"@]
    } else {
        seq!["vercel-bun-runtime-enable"@, "vercel-nextjs-bun-runtime-scripts"@]
    }
}

/// Whether the documents mention capability `k`.
pub open spec fn capability_matched(k: int, bun: Seq<char>, caps: Seq<char>, vercel: Seq<char>) -> bool {
    if k == 0 {
        regex_finds("\\bBun\\.WebView\\b"@, bun) && regex_finds("\\bBun\\.WebView\\b"@, caps)
    } else if k == 1 {
        regex_finds("\\bBun\\.markdown\\.ansi\\b"@, bun) && regex_finds("\\bmarkdown\\.ansi\\b"@, caps)
    } else if k == 2 {
        regex_finds("\\bin-process\\b"@, bun) && regex_finds("\\bBun\\.cron\\(schedule, handler\\)\\b"@, caps)
    } else if k == 3 {
        regex_finds("\\bbun build --compile --target=browser\\b"@, bun)
    } else if k == 4 {
        regex_finds("--parallel|--sequential"@, bun)
    } else if k == 5 {
        regex_finds("\\bbun test --retry\\b"@, bun) || regex_finds("\\b--retry\\b"@, caps)
    } else {
        regex_finds("bunVersion|bun run --bun next dev|bun run --bun next build"@, vercel)
    }
}

/// How a capability is classified: documentation only when the documents do
/// not mention it; present when every rule covering it exists; else a rule is
/// missing.
pub open spec fn classify(matched: bool, rules: Seq<Seq<char>>, rule_ids: Seq<Seq<char>>) -> CapabilityClassification {
    if !matched {
        CapabilityClassification::DocsOnly
    } else if forall|i: int| 0 <= i < rules.len() ==> rule_ids.contains(#[trigger] rules[i]) {
        CapabilityClassification::CapabilityPresent
    } else {
        CapabilityClassification::MissingRule
    }
}

/// Whether `e` is the report on capability `k` for the given sources.
pub open spec fn capability_entry_is(e: CapabilityReport, k: int, src: ReleaseSyncSources) -> bool {
    &&& e.topic@ == capability_topic(k)
    &&& e.source@ == capability_source(k)
    &&& e.matched == capability_matched(k, src.bun_release_notes@, src.capabilities@, src.vercel_runtime@)
    &&& strs(e.rules@) == capability_rules(k)
    &&& e.classification == classify(e.matched, capability_rules(k), strs(src.rule_ids@))
}

/// The recorded hash of a reference file: the lowercase hex SHA-256 of its
/// bytes, or `missing` when the file is absent.
pub open spec fn reference_hash(bytes: Option<Vec<u8>>) -> Seq<char> {
    match bytes {
        Some(b) => hex_of(sha256_of(b@)),
        None => "missing"@,
    }
}

/// Whether `ids` holds a string with the characters of `id`.
pub(crate) fn has_id(ids: &Vec<String>, id: &str) -> (r: bool)
    ensures
        r == strs(ids@).contains(id@),
{
    let mut i: usize = 0;
    while i < ids.len()
        invariant
            i <= ids@.len(),
            forall|j: int| 0 <= j < i ==> ids@[j]@ != id@,
        decreases ids@.len() - i,
    {
        if str_eq(ids[i].as_str(), id) {
            assert(strs(ids@)[i as int] == id@);
            return true;
        }
        i = i + 1;
    }
    assert forall|j: int| 0 <= j < strs(ids@).len() implies strs(ids@)[j] != id@ by {
        assert(strs(ids@)[j] == ids@[j]@);
    }
    false
}

/// The owned strings of the given rule ids.
fn rule_list(a: &str, b: Option<&str>) -> (r: Vec<String>)
    ensures
        strs(r@) == (match b {
            Some(b) => seq![a@, b@],
            None => seq![a@],
        }),
{
    let mut v: Vec<String> = Vec::new();
    v.push(owned(a));
    match b {
        Some(b) => {
            v.push(owned(b));
        },
        None => {},
    }
    assert(strs(v@) =~= (match b {
        Some(b) => seq![a@, b@],
        None => seq![a@],
    }));
    v
}

/// The report on capability `k`.
fn capability_entry(k: usize, src: &ReleaseSyncSources) -> (e: CapabilityReport)
    requires
        k < CAPABILITY_TOPICS,
    ensures
        capability_entry_is(e, k as int, *src),
{
    let bun = src.bun_release_notes.as_str();
    let caps = src.capabilities.as_str();
    let vercel = src.vercel_runtime.as_str();
    let (topic, source, matched, rules) = if k == 0 {
        (
            "bun webview automation",
            "bun-release-notes",
            regex_match("\\bBun\\.WebView\\b", bun) && regex_match("\\bBun\\.WebView\\b", caps),
            rule_list("runtime-webview-automation", Some("runtime-bun-native-apis")),
        )
    } else if k == 1 {
        (
            "bun markdown ansi",
            "bun-release-notes",
            regex_match("\\bBun\\.markdown\\.ansi\\b", bun) && regex_match("\\bmarkdown\\.ansi\\b", caps),
            rule_list("runtime-markdown-entrypoints", Some("runtime-bun-native-apis")),
        )
    } else if k == 2 {
        (
            "bun cron callback overload",
            "bun-release-notes",
            regex_match("\\bin-process\\b", bun) && regex_match("\\bBun\\.cron\\(schedule, handler\\)\\b", caps),
            rule_list("runtime-cron-in-process-vs-os", None),
        )
    } else if k == 3 {
        (
            "bun build compile browser",
            "bun-release-notes",
            regex_match("\\bbun build --compile --target=browser\\b", bun),
            rule_list("build-bun-compile-browser", Some("build-bun-build-bundler")),
        )
    } else if k == 4 {
        (
            "bun parallel sequential scripts",
            "bun-release-notes",
            regex_match("--parallel|--sequential", bun),
            rule_list("scripts-bun-run-parallel-sequential", None),
        )
    } else if k == 5 {
        (
            "bun test retry",
            "bun-release-notes",
            regex_match("\\bbun test --retry\\b", bun) || regex_match("\\b--retry\\b", caps),
            rule_list("test-bun-retry", Some("test-bun-test-runner")),
        )
    } else {
        (
            "vercel bunVersion and next scripts",
            "vercel-bun-runtime",
            regex_match("bunVersion|bun run --bun next dev|bun run --bun next build", vercel),
            rule_list("vercel-bun-runtime-enable", Some("vercel-nextjs-bun-runtime-scripts")),
        )
    };
    let mut all = true;
    let mut i: usize = 0;
    while i < rules.len()
        invariant
            i <= rules@.len(),
            all == forall|j: int| 0 <= j < i ==> strs(src.rule_ids@).contains(#[trigger] strs(rules@)[j]),
        decreases rules@.len() - i,
    {
        let known = has_id(&src.rule_ids, rules[i].as_str());
        assert(strs(rules@)[i as int] == rules@[i as int]@);
        if !known {
            all = false;
        }
        i = i + 1;
    }
    let classification = if !matched {
        CapabilityClassification::DocsOnly
    } else if all {
        CapabilityClassification::CapabilityPresent
    } else {
        CapabilityClassification::MissingRule
    };
    CapabilityReport {
        topic: owned(topic),
        source: owned(source),
        matched,
        rules,
        classification,
    }
}

/// The recorded hash of a reference file's bytes.
fn reference_hash_of(bytes: &Option<Vec<u8>>) -> (r: String)
    ensures
        r@ == reference_hash(*bytes),
{
    match bytes {
        Some(b) => {
            let digest = sha256_digest(b.as_slice());
            hex_string(&digest)
        },
        None => owned("missing"),
    }
}

/// The release-sync report: when it was made, the pinned Bun version, the hash
/// of each of the three reference documents, and how each capability topic
/// relates to the rule set.
pub fn create_release_sync_report(src: &ReleaseSyncSources, synced_at: &str) -> (r: ReleaseSyncReport)
    ensures
        r.synced_at@ == synced_at@,
        r.verified_bun_version@ == VERIFIED_BUN_VERSION@,
        r.references@.len() == 3,
        r.references@[0].file@ == REF_BUN_RELEASE_NOTES@,
        r.references@[0].hash@ == reference_hash(src.bun_release_notes_bytes),
        r.references@[1].file@ == REF_BUN_CAPABILITIES@,
        r.references@[1].hash@ == reference_hash(src.capabilities_bytes),
        r.references@[2].file@ == REF_VERCEL_BUN_RUNTIME@,
        r.references@[2].hash@ == reference_hash(src.vercel_runtime_bytes),
        r.capability_map@.len() == CAPABILITY_TOPICS,
        forall|k: int| 0 <= k < CAPABILITY_TOPICS ==> capability_entry_is(#[trigger] r.capability_map@[k], k, *src),
{
    let mut capability_map: Vec<CapabilityReport> = Vec::new();
    let mut k: usize = 0;
    while k < CAPABILITY_TOPICS
        invariant
            k <= CAPABILITY_TOPICS,
            capability_map@.len() == k,
            forall|j: int| 0 <= j < k ==> capability_entry_is(#[trigger] capability_map@[j], j, *src),
        decreases CAPABILITY_TOPICS - k,
    {
        let e = capability_entry(k, src);
        capability_map.push(e);
        k = k + 1;
    }
    let mut references: Vec<ReleaseReference> = Vec::new();
    references.push(ReleaseReference {
        file: owned(REF_BUN_RELEASE_NOTES),
        hash: reference_hash_of(&src.bun_release_notes_bytes),
    });
    references.push(ReleaseReference {
        file: owned(REF_BUN_CAPABILITIES),
        hash: reference_hash_of(&src.capabilities_bytes),
    });
    references.push(ReleaseReference {
        file: owned(REF_VERCEL_BUN_RUNTIME),
        hash: reference_hash_of(&src.vercel_runtime_bytes),
    });
    ReleaseSyncReport {
        synced_at: owned(synced_at),
        verified_bun_version: owned(VERIFIED_BUN_VERSION),
        references,
        capability_map,
    }
}

/// The rule-id prefix of group `k` of the rules index, in priority order.
pub open spec fn rule_prefix(k: int) -> Seq<char> {
    if k == 0 {
        "pm-"@
    } else if k == 1 {
        "runtime-"@
    } else if k == 2 {
        "vercel-"@
    } else if k == 3 {
        "scripts-"@
    } else if k == 4 {
        "tsconfig-"@
    } else if k == 5 {
        "test-"@
    } else if k == 6 {
        "build-"@
    } else if k == 7 {
        "perf-"@
    } else if k == 8 {
        "migrate-"@
    } else {
        "troubleshooting-"@
    }
}

/// The number of rule groups.
pub const RULE_GROUPS: usize = 10;

/// The prefix of group `k`, as a string.
fn rule_prefix_str(k: usize) -> (r: &'static str)
    requires
        k < RULE_GROUPS,
    ensures
        r@ == rule_prefix(k as int),
{
    if k == 0 {
        "pm-"
    } else if k == 1 {
        "runtime-"
    } else if k == 2 {
        "vercel-"
    } else if k == 3 {
        "scripts-"
    } else if k == 4 {
        "tsconfig-"
    } else if k == 5 {
        "test-"
    } else if k == 6 {
        "build-"
    } else if k == 7 {
        "perf-"
    } else if k == 8 {
        "migrate-"
    } else {
        "troubleshooting-"
    }
}

/// Whether `id` starts with one of the rule-group prefixes.
pub open spec fn has_rule_prefix(id: Seq<char>) -> bool {
    exists|k: int| 0 <= k < RULE_GROUPS && #[trigger] rule_prefix(k).is_prefix_of(id)
}

/// The pattern a backticked word of `SKILL.md` is taken from.
pub open spec fn backticked_word_pattern() -> Seq<char> {
    "`([a-z0-9-]+)`"@
}

/// The shape of a rule id: lowercase words joined by single hyphens.
pub open spec fn rule_shape_pattern() -> Seq<char> {
    "^[a-z0-9]+(?:-[a-z0-9]+)+$"@
}

/// Whether a backticked word of `SKILL.md` names a rule: it does not end in a
/// hyphen, has the shape of a rule id, and starts with a rule-group prefix.
pub open spec fn names_a_rule(id: Seq<char>) -> bool {
    &&& !(id.len() > 0 && id.last() == '-')
    &&& regex_finds(rule_shape_pattern(), id)
    &&& has_rule_prefix(id)
}

/// The groups that took part in a match, in order.
pub open spec fn present_groups(gs: Seq<Option<Seq<char>>>) -> Seq<Seq<char>>
    decreases gs.len(),
{
    if gs.len() == 0 {
        seq![]
    } else {
        let rest = present_groups(gs.drop_last());
        match gs.last() {
            Some(g) => rest.push(g),
            None => rest,
        }
    }
}

/// The words of `ids` that name a rule of which there is no rule file.
pub open spec fn unknown_rules(ids: Seq<Seq<char>>, rule_ids: Seq<Seq<char>>) -> Seq<Seq<char>>
    decreases ids.len(),
{
    if ids.len() == 0 {
        seq![]
    } else {
        let rest = unknown_rules(ids.drop_last(), rule_ids);
        if names_a_rule(ids.last()) && !rule_ids.contains(ids.last()) {
            rest.push(ids.last())
        } else {
            rest
        }
    }
}

/// The rules `SKILL.md` names (each once, in the order it first names them)
/// of which there is no rule file.
pub open spec fn missing_rules(skill_md: Seq<char>, rule_ids: Seq<Seq<char>>) -> Seq<Seq<char>> {
    unknown_rules(dedup(present_groups(regex_first_groups(backticked_word_pattern(), skill_md))), rule_ids)
}

/// Why the installed skill is not intact, if it is not: a rule that `SKILL.md`
/// names has no rule file, the rules index or the references index is missing,
/// or `references/` holds a directory.
pub open spec fn integrity_error(
    skill_md: Seq<char>,
    rule_ids: Seq<Seq<char>>,
    has_rules_index: bool,
    has_references_index: bool,
    references_flat: bool,
) -> Option<Seq<char>> {
    let missing = missing_rules(skill_md, rule_ids);
    if missing.len() > 0 {
        Some("missing rule files for ids:\n- "@ + join_spec(missing, "\n- "@))
    } else if !has_rules_index {
        Some("missing rules/_index.md"@)
    } else if !has_references_index {
        Some("missing references/index.md"@)
    } else if !references_flat {
        Some("references/ must be flat"@)
    } else {
        None
    }
}

/// The present groups among `gs`.
fn collect_present(gs: Vec<Option<String>>) -> (r: Vec<String>)
    ensures
        strs(r@) == present_groups(gs@.map_values(|o: Option<String>| opt_chars(o))),
{
    let ghost view = gs@.map_values(|o: Option<String>| opt_chars(o));
    let mut out: Vec<String> = Vec::new();
    let mut i: usize = 0;
    while i < gs.len()
        invariant
            i <= gs@.len(),
            view == gs@.map_values(|o: Option<String>| opt_chars(o)),
            strs(out@) == present_groups(view.take(i as int)),
        decreases gs@.len() - i,
    {
        let ghost t = view.take(i + 1);
        assert(t.drop_last() =~= view.take(i as int));
        assert(t.last() == opt_chars(gs@[i as int]));
        match &gs[i] {
            Some(g) => {
                let ghost before = out@;
                out.push(g.clone());
                assert(strs(out@) =~= strs(before).push(g@));
            },
            None => {},
        }
        i = i + 1;
    }
    assert(view.take(gs@.len() as int) =~= view);
    out
}

/// Whether `id` starts with one of the rule-group prefixes.
fn starts_with_rule_prefix(id: &str) -> (r: bool)
    ensures
        r == has_rule_prefix(id@),
{
    let mut k: usize = 0;
    while k < RULE_GROUPS
        invariant
            k <= RULE_GROUPS,
            forall|j: int| 0 <= j < k ==> !(#[trigger] rule_prefix(j)).is_prefix_of(id@),
        decreases RULE_GROUPS - k,
    {
        if starts_with(id, rule_prefix_str(k)) {
            return true;
        }
        k = k + 1;
    }
    false
}

/// Whether a backticked word names a rule.
fn word_names_a_rule(id: &str) -> (r: bool)
    ensures
        r == names_a_rule(id@),
{
    let cs = crate::text::chars_of(id);
    if cs.len() > 0 && cs[cs.len() - 1] == '-' {
        return false;
    }
    regex_match("^[a-z0-9]+(?:-[a-z0-9]+)+$", id) && starts_with_rule_prefix(id)
}

/// Checks that the installed skill is intact: every rule `SKILL.md` names in
/// backticks has a rule file, both index files exist, and `references/` holds
/// no directory. The error lists the missing rules in the order `SKILL.md`
/// first names them.
pub fn check_skill_integrity(
    skill_md: &str,
    rule_ids: &Vec<String>,
    has_rules_index: bool,
    has_references_index: bool,
    references_flat: bool,
) -> (r: Result<(), String>)
    ensures
        match r {
            Ok(_) => integrity_error(skill_md@, strs(rule_ids@), has_rules_index, has_references_index, references_flat) is None,
            Err(e) => integrity_error(skill_md@, strs(rule_ids@), has_rules_index, has_references_index, references_flat) == Some(e@),
        },
{
    let groups = regex_captures("`([a-z0-9-]+)`", skill_md);
    let words = collect_present(groups);
    let ids = dedup_strings(&words);
    let ghost all = strs(ids@);
    let mut missing: Vec<String> = Vec::new();
    let mut i: usize = 0;
    while i < ids.len()
        invariant
            i <= ids@.len(),
            all == strs(ids@),
            strs(missing@) == unknown_rules(all.take(i as int), strs(rule_ids@)),
        decreases ids@.len() - i,
    {
        let ghost t = all.take(i + 1);
        assert(t.drop_last() =~= all.take(i as int));
        assert(t.last() == ids@[i as int]@);
        let id = ids[i].as_str();
        if word_names_a_rule(id) && !has_id(rule_ids, id) {
            let ghost before = missing@;
            missing.push(owned(id));
            assert(strs(missing@) =~= strs(before).push(ids@[i as int]@));
        }
        i = i + 1;
    }
    assert(all.take(ids@.len() as int) =~= all);
    if missing.len() > 0 {
        let mut msg = owned("missing rule files for ids:\n- ");
        let joined = join_strings(&missing, "\n- ");
        push_all(&mut msg, joined.as_str());
        return Err(msg);
    }
    if !has_rules_index {
        return Err(owned("missing rules/_index.md"));
    }
    if !has_references_index {
        return Err(owned("missing references/index.md"));
    }
    if !references_flat {
        return Err(owned("references/ must be flat"));
    }
    Ok(())
}

/// The heading of group `k` of the rules index.
pub open spec fn group_title(k: int) -> Seq<char> {
    if k == 0 {
        "Package Manager + Lockfiles (P1)"@
    } else if k == 1 {
        "Runtime Selection (P1)"@
    } else if k == 2 {
        "Vercel Bun Runtime (P1)"@
    } else if k == 3 {
        "Scripts + Monorepos (P2)"@
    } else if k == 4 {
        "TypeScript + Tooling (P2)"@
    } else if k == 5 {
        "Testing (P3)"@
    } else if k == 6 {
        "Build + Bundling (P3)"@
    } else if k == 7 {
        "Performance (P4)"@
    } else if k == 8 {
        "Migration (P5)"@
    } else {
        "Troubleshooting (P5)"@
    }
}

/// The heading of group `k`, as a string.
fn group_title_str(k: usize) -> (r: &'static str)
    requires
        k < RULE_GROUPS,
    ensures
        r@ == group_title(k as int),
{
    if k == 0 {
        "Package Manager + Lockfiles (P1)"
    } else if k == 1 {
        "Runtime Selection (P1)"
    } else if k == 2 {
        "Vercel Bun Runtime (P1)"
    } else if k == 3 {
        "Scripts + Monorepos (P2)"
    } else if k == 4 {
        "TypeScript + Tooling (P2)"
    } else if k == 5 {
        "Testing (P3)"
    } else if k == 6 {
        "Build + Bundling (P3)"
    } else if k == 7 {
        "Performance (P4)"
    } else if k == 8 {
        "Migration (P5)"
    } else {
        "Troubleshooting (P5)"
    }
}

/// The names of `names` that start with `prefix`, in order.
pub open spec fn with_prefix(names: Seq<Seq<char>>, prefix: Seq<char>) -> Seq<Seq<char>>
    decreases names.len(),
{
    if names.len() == 0 {
        seq![]
    } else {
        let rest = with_prefix(names.drop_last(), prefix);
        if prefix.is_prefix_of(names.last()) {
            rest.push(names.last())
        } else {
            rest
        }
    }
}

/// The names of `names` that start with none of the group prefixes, in order.
pub open spec fn ungrouped(names: Seq<Seq<char>>) -> Seq<Seq<char>>
    decreases names.len(),
{
    if names.len() == 0 {
        seq![]
    } else {
        let rest = ungrouped(names.drop_last());
        if has_rule_prefix(names.last()) {
            rest
        } else {
            rest.push(names.last())
        }
    }
}

/// The index line of a rule.
pub open spec fn bullet(name: Seq<char>) -> Seq<char> {
    "- `"@ + name + "`"@
}

/// The index lines of the rules `names`, in order.
pub open spec fn bullets(names: Seq<Seq<char>>) -> Seq<Seq<char>>
    decreases names.len(),
{
    if names.len() == 0 {
        seq![]
    } else {
        bullets(names.drop_last()).push(bullet(names.last()))
    }
}

/// A section of the rules index: nothing when it has no rules, else its
/// heading, a blank line, a line per rule and a blank line.
pub open spec fn section(title: Seq<char>, names: Seq<Seq<char>>) -> Seq<Seq<char>> {
    if names.len() == 0 {
        seq![]
    } else {
        seq!["## "@ + title, ""@] + bullets(names) + seq![""@]
    }
}

/// The sections of the first `k` groups.
pub open spec fn group_sections(names: Seq<Seq<char>>, k: nat) -> Seq<Seq<char>>
    decreases k,
{
    if k == 0 {
        seq![]
    } else {
        group_sections(names, (k - 1) as nat)
            + section(group_title(k - 1), with_prefix(names, rule_prefix(k - 1)))
    }
}

/// The lines of the rules index of the rules `names`.
pub open spec fn rules_index_lines(names: Seq<Seq<char>>) -> Seq<Seq<char>> {
    seq![
        "# Rules Index"@,
        ""@,
        "Open `SKILL.md` first to route by priority. Prefer opening specific rules over references."@,
        ""@,
    ] + group_sections(names, RULE_GROUPS as nat) + section("Other"@, ungrouped(names))
}

/// The names of `names` that start with `prefix`.
fn names_with_prefix(names: &Vec<String>, prefix: &str) -> (r: Vec<String>)
    ensures
        strs(r@) == with_prefix(strs(names@), prefix@),
{
    let mut out: Vec<String> = Vec::new();
    let mut i: usize = 0;
    while i < names.len()
        invariant
            i <= names@.len(),
            strs(out@) == with_prefix(strs(names@).take(i as int), prefix@),
        decreases names@.len() - i,
    {
        let ghost t = strs(names@).take(i + 1);
        assert(t.drop_last() =~= strs(names@).take(i as int));
        assert(t.last() == names@[i as int]@);
        if starts_with(names[i].as_str(), prefix) {
            let ghost before = out@;
            out.push(names[i].clone());
            assert(strs(out@) =~= strs(before).push(names@[i as int]@));
        }
        i = i + 1;
    }
    assert(strs(names@).take(names@.len() as int) =~= strs(names@));
    out
}

/// The names of `names` outside every group.
fn ungrouped_names(names: &Vec<String>) -> (r: Vec<String>)
    ensures
        strs(r@) == ungrouped(strs(names@)),
{
    let mut out: Vec<String> = Vec::new();
    let mut i: usize = 0;
    while i < names.len()
        invariant
            i <= names@.len(),
            strs(out@) == ungrouped(strs(names@).take(i as int)),
        decreases names@.len() - i,
    {
        let ghost t = strs(names@).take(i + 1);
        assert(t.drop_last() =~= strs(names@).take(i as int));
        assert(t.last() == names@[i as int]@);
        if !starts_with_rule_prefix(names[i].as_str()) {
            let ghost before = out@;
            out.push(names[i].clone());
            assert(strs(out@) =~= strs(before).push(names@[i as int]@));
        }
        i = i + 1;
    }
    assert(strs(names@).take(names@.len() as int) =~= strs(names@));
    out
}

/// Appends the section titled `title` of the rules `names`.
fn push_section(out: &mut Vec<String>, title: &str, names: &Vec<String>)
    ensures
        strs(final(out)@) == strs(old(out)@) + section(title@, strs(names@)),
{
    if names.len() == 0 {
        assert(strs(names@).len() == 0);
        assert(strs(out@) =~= strs(out@) + section(title@, strs(names@)));
        return;
    }
    let ghost start = strs(out@);
    assert(start == strs(old(out)@));
    let mut heading = owned("## ");
    push_all(&mut heading, title);
    out.push(heading);
    out.push(owned(""));
    assert(strs(out@) =~= start + seq!["## "@ + title@, ""@]);
    let mut i: usize = 0;
    while i < names.len()
        invariant
            i <= names@.len(),
            strs(out@) == start + seq!["## "@ + title@, ""@] + bullets(strs(names@).take(i as int)),
        decreases names@.len() - i,
    {
        let ghost t = strs(names@).take(i + 1);
        assert(t.drop_last() =~= strs(names@).take(i as int));
        let ghost before = out@;
        out.push(concat3("- `", names[i].as_str(), "`"));
        assert(strs(out@) =~= strs(before).push(bullet(names@[i as int]@)));
        i = i + 1;
    }
    assert(strs(names@).take(names@.len() as int) =~= strs(names@));
    let ghost before = out@;
    out.push(owned(""));
    assert(strs(out@) =~= strs(before).push(""@));
    assert(strs(names@).len() == names@.len());
    assert(strs(out@) =~= start + section(title@, strs(names@)));
}

/// The content of `rules/_index.md` for the rules `names` (in the order given):
/// a heading and a routing hint, a section per rule group that has rules, and
/// an `Other` section for the rest, ending in a newline.
pub fn build_rules_index_content(names: &Vec<String>) -> (r: String)
    ensures
        r@ == join_spec(rules_index_lines(strs(names@)), "\n"@) + "\n"@,
{
    let mut out: Vec<String> = Vec::new();
    out.push(owned("# Rules Index"));
    out.push(owned(""));
    out.push(owned("Open `SKILL.md` first to route by priority. Prefer opening specific rules over references."));
    out.push(owned(""));
    let ghost head = seq![
        "# Rules Index"@,
        ""@,
        "Open `SKILL.md` first to route by priority. Prefer opening specific rules over references."@,
        ""@,
    ];
    assert(strs(out@) =~= head);
    let mut k: usize = 0;
    while k < RULE_GROUPS
        invariant
            k <= RULE_GROUPS,
            strs(out@) == head + group_sections(strs(names@), k as nat),
        decreases RULE_GROUPS - k,
    {
        let group = names_with_prefix(names, rule_prefix_str(k));
        push_section(&mut out, group_title_str(k), &group);
        assert(head + group_sections(strs(names@), (k + 1) as nat) =~= head + group_sections(strs(names@), k as nat)
            + section(group_title(k as int), with_prefix(strs(names@), rule_prefix(k as int))));
        k = k + 1;
    }
    let rest = ungrouped_names(names);
    push_section(&mut out, "Other", &rest);
    assert(strs(out@) =~= rules_index_lines(strs(names@)));
    let mut text = join_strings(&out, "\n");
    push_all(&mut text, "\n");
    text
}

/// The lines of `references/index.md`: the pinned Bun version, how to refresh
/// the vendor-backed references, where each reference lives, and lookup commands.
pub open spec fn references_index_lines() -> Seq<Seq<char>> {
    seq![
        "# References Index"@,
        ""@,
        "Prefer rules for decisions, references for exact commands and API detail."@,
        ""@,
        "Verified version pin:"@,
        ""@,
        "- Bun CLI `"@ + VERIFIED_BUN_VERSION@ + "`"@,
        "- Bun release `v"@ + VERIFIED_BUN_VERSION@ + "`"@,
        ""@,
        "Refresh vendor-backed refs:"@,
        ""@,
        "```bash"@,
        "bun-platform release-sync"@,
        "bun-platform release-sync --status --format json"@,
        "bun-platform release-sync --dry-run --format json"@,
        "```"@,
        ""@,
        "## Bun"@,
        ""@,
        "- Bun release notes snapshot:\n  - `"@ + REF_BUN_RELEASE_NOTES@ + "`"@,
        "- Bun capability map:\n  - `"@ + REF_BUN_CAPABILITIES@ + "`"@,
        "- Bun CLI reference:\n  - `"@ + REF_BUN_CLI@ + "`"@,
        "- Bun runtime APIs reference:\n  - `"@ + REF_BUN_BUILTINS@ + "`"@,
        "- Package-manager fallback lanes:\n  - `"@ + REF_BUN_PM_FALLBACKS@ + "`"@,
        ""@,
        "## Vercel"@,
        ""@,
        "- Bun runtime docs:\n  - `"@ + REF_VERCEL_BUN_RUNTIME@ + "`"@,
        ""@,
        "## Fast Lookup"@,
        ""@,
        "```bash"@,
        "rg -n \"Bun.WebView|markdown\\\\.ansi|Bun\\\\.cron|availableParallelism|stripANSI\" ~/.agents/skills/bun-dev/references/"@ + REF_BUN_CAPABILITIES@,
        "rg -n \"bun (install|add|update|audit|outdated|pm|build|test|run)\" ~/.agents/skills/bun-dev/references/"@ + REF_BUN_CLI@,
        "rg -n \"Node runtime|pnpm|npm|Yarn|package manager only\" ~/.agents/skills/bun-dev/references/"@ + REF_BUN_PM_FALLBACKS@,
        "rg -n \"bunVersion|Bun\\\\.serve|runtime\" ~/.agents/skills/bun-dev/references/"@ + REF_VERCEL_BUN_RUNTIME@,
        "```"@,
        ""@,
    ]
}

/// `a` followed by `b`.
fn cat(a: &str, b: &str) -> (r: String)
    ensures
        r@ == a@ + b@,
{
    let mut out = owned(a);
    push_all(&mut out, b);
    out
}

/// The content of `references/index.md`, ending in a newline.
pub fn build_references_index_content() -> (r: String)
    ensures
        r@ == join_spec(references_index_lines(), "\n"@) + "\n"@,
{
    let mut out: Vec<String> = Vec::new();
    out.push(owned("# References Index"));
    out.push(owned(""));
    out.push(owned("Prefer rules for decisions, references for exact commands and API detail."));
    out.push(owned(""));
    out.push(owned("Verified version pin:"));
    out.push(owned(""));
    out.push(concat3("- Bun CLI `", VERIFIED_BUN_VERSION, "`"));
    out.push(concat3("- Bun release `v", VERIFIED_BUN_VERSION, "`"));
    out.push(owned(""));
    out.push(owned("Refresh vendor-backed refs:"));
    out.push(owned(""));
    out.push(owned("```bash"));
    out.push(owned("bun-platform release-sync"));
    out.push(owned("bun-platform release-sync --status --format json"));
    out.push(owned("bun-platform release-sync --dry-run --format json"));
    out.push(owned("```"));
    out.push(owned(""));
    out.push(owned("## Bun"));
    out.push(owned(""));
    out.push(concat3("- Bun release notes snapshot:\n  - `", REF_BUN_RELEASE_NOTES, "`"));
    out.push(concat3("- Bun capability map:\n  - `", REF_BUN_CAPABILITIES, "`"));
    out.push(concat3("- Bun CLI reference:\n  - `", REF_BUN_CLI, "`"));
    out.push(concat3("- Bun runtime APIs reference:\n  - `", REF_BUN_BUILTINS, "`"));
    out.push(concat3("- Package-manager fallback lanes:\n  - `", REF_BUN_PM_FALLBACKS, "`"));
    out.push(owned(""));
    out.push(owned("## Vercel"));
    out.push(owned(""));
    out.push(concat3("- Bun runtime docs:\n  - `", REF_VERCEL_BUN_RUNTIME, "`"));
    out.push(owned(""));
    out.push(owned("## Fast Lookup"));
    out.push(owned(""));
    out.push(owned("```bash"));
    out.push(cat("rg -n \"Bun.WebView|markdown\\\\.ansi|Bun\\\\.cron|availableParallelism|stripANSI\" ~/.agents/skills/bun-dev/references/", REF_BUN_CAPABILITIES));
    out.push(cat("rg -n \"bun (install|add|update|audit|outdated|pm|build|test|run)\" ~/.agents/skills/bun-dev/references/", REF_BUN_CLI));
    out.push(cat("rg -n \"Node runtime|pnpm|npm|Yarn|package manager only\" ~/.agents/skills/bun-dev/references/", REF_BUN_PM_FALLBACKS));
    out.push(cat("rg -n \"bunVersion|Bun\\\\.serve|runtime\" ~/.agents/skills/bun-dev/references/", REF_VERCEL_BUN_RUNTIME));
    out.push(owned("```"));
    out.push(owned(""));
    assert(strs(out@) =~= references_index_lines());
    let mut text = join_strings(&out, "\n");
    push_all(&mut text, "\n");
    text
}

} // verus!
