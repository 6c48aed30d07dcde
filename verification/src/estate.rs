//! The agent configuration estate auditor: the checks it runs on skills,
//! overrides, agent files, skill farms and guides, and how it reports them.
use vstd::prelude::*;

use crate::audit_gate::str_eq;
use crate::text::{chars_of, decimal, decimal_string, lines, lines_spec, owned, push_all, strs};

verus! {

/// Keep an agent guide file under this many lines.
pub const GUIDE_MAX_LINES: usize = 200;
/// Keep a `SKILL.md` body under this many lines.
pub const SKILL_MAX_LINES: usize = 500;
/// A `SKILL.md` above this many bytes is skipped by the loader.
pub const SKILL_MAX_BYTES: u64 = 131072;
/// The frontmatter `description` cap, in characters.
pub const DESC_MAX_CHARS: usize = 1024;
/// Descriptions beyond this many characters cost the listing dearly.
pub const DESC_TARGET_CHARS: usize = 280;

/// How serious a finding is.
#[derive(Clone, Copy, Debug, PartialEq, Eq, Structural)]
pub enum Severity {
    Low,
    Medium,
    High,
}

/// The rank of a severity: high ranks highest.
pub open spec fn rank(s: Severity) -> nat {
    match s {
        Severity::Low => 0,
        Severity::Medium => 1,
        Severity::High => 2,
    }
}

/// The `Debug` name of a severity.
pub open spec fn severity_name(s: Severity) -> Seq<char> {
    match s {
        Severity::Low => "Low"@,
        Severity::Medium => "Medium"@,
        Severity::High => "High"@,
    }
}

impl Severity {
    /// The rank of this severity (see [`rank`]).
    pub fn rank(self) -> (r: u8)
        ensures
            r == rank(self),
    {
        match self {
            Severity::Low => 0,
            Severity::Medium => 1,
            Severity::High => 2,
        }
    }

    /// The name of this severity as the Markdown report prints it.
    pub fn name(self) -> (r: &'static str)
        ensures
            r@ == severity_name(self),
    {
        match self {
            Severity::Low => "Low",
            Severity::Medium => "Medium",
            Severity::High => "High",
        }
    }

    /// Whether this severity is at or above `min`.
    pub fn at_least(self, min: Severity) -> (r: bool)
        ensures
            r == (rank(self) >= rank(min)),
    {
        self.rank() >= min.rank()
    }
}

/// One finding of the configuration audit.
#[derive(Clone, Debug)]
pub struct Finding {
    pub id: &'static str,
    pub severity: Severity,
    pub subject: String,
    pub message: String,
    pub suggestion: &'static str,
}

/// What a finding says, as values.
pub struct FindingView {
    pub id: Seq<char>,
    pub severity: Severity,
    pub subject: Seq<char>,
    pub message: Seq<char>,
    pub suggestion: Seq<char>,
}

impl View for Finding {
    type V = FindingView;

    open spec fn view(&self) -> FindingView {
        FindingView {
            id: self.id@,
            severity: self.severity,
            subject: self.subject@,
            message: self.message@,
            suggestion: self.suggestion@,
        }
    }
}

/// The views of a list of findings.
pub open spec fn views(v: Seq<Finding>) -> Seq<FindingView> {
    v.map_values(|f: Finding| f@)
}

/// The finding with the given parts.
pub open spec fn fv(id: Seq<char>, severity: Severity, subject: Seq<char>, message: Seq<char>, suggestion: Seq<char>) -> FindingView {
    FindingView { id, severity, subject, message, suggestion }
}

/// Appends a finding.
fn push(out: &mut Vec<Finding>, id: &'static str, severity: Severity, subject: String, message: String, suggestion: &'static str)
    ensures
        views(final(out)@) == views(old(out)@).push(fv(id@, severity, subject@, message@, suggestion@)),
{
    out.push(Finding { id, severity, subject, message, suggestion });
    assert(views(out@) =~= views(old(out)@).push(fv(id@, severity, subject@, message@, suggestion@)));
}

/// The frontmatter fields the audit reads.
#[derive(Clone, Debug)]
pub struct Frontmatter {
    pub name: Option<String>,
    pub description: Option<String>,
    pub disable_model_invocation: bool,
}

/// What `serde_yaml_ng` reads from a YAML block, if it parses to a mapping:
/// its `name` and `description` strings and its `disable-model-invocation`
/// boolean (false when absent).
pub uninterp spec fn yaml_fields(block: Seq<char>) -> Option<(Option<Seq<char>>, Option<Seq<char>>, bool)>;

/// The characters of an optional string.
pub open spec fn opt_chars(o: Option<String>) -> Option<Seq<char>> {
    match o {
        Some(s) => Some(s@),
        None => None,
    }
}

/// Parses `block` with `serde_yaml_ng::from_str` into a `Value` and, when it is
/// a mapping, reads `name` and `description` as strings and
/// `disable-model-invocation` as a boolean. The contract names the result;
/// YAML itself is not stated.
#[verifier::external_body]
fn read_yaml_fields(block: &str) -> (r: Option<Frontmatter>)
    ensures
        match r {
            Some(f) => yaml_fields(block@) == Some((opt_chars(f.name), opt_chars(f.description), f.disable_model_invocation)),
            None => yaml_fields(block@) is None,
        },
{
    let value: serde_yaml_ng::Value = serde_yaml_ng::from_str(block).ok()?;
    let map = value.as_mapping()?;
    let text = |key: &str| map.get(serde_yaml_ng::Value::String(key.to_string())).and_then(|v| v.as_str()).map(str::to_string);
    Some(Frontmatter {
        name: text("name"),
        description: text("description"),
        disable_model_invocation: map.get(serde_yaml_ng::Value::String("disable-model-invocation".to_string()))
            .and_then(serde_yaml_ng::Value::as_bool).unwrap_or(false),
    })
}

/// The frontmatter block of `text`: what lies between a leading `---\n` and the
/// next `\n---`.
pub open spec fn frontmatter_block(text: Seq<char>) -> Option<Seq<char>> {
    if "---\n"@.is_prefix_of(text) {
        let rest = text.skip(4);
        let end = crate::dev::numbers::find_from(rest, "\n---"@, 0);
        if end >= 0 {
            Some(rest.take(end))
        } else {
            None
        }
    } else {
        None
    }
}

/// The frontmatter of `text`, when it has a block that parses to a mapping.
pub open spec fn frontmatter_of(text: Seq<char>) -> Option<(Option<Seq<char>>, Option<Seq<char>>, bool)> {
    match frontmatter_block(text) {
        Some(b) => yaml_fields(b),
        None => None,
    }
}

/// Parses the frontmatter of a skill or agent file (see [`frontmatter_of`]).
pub fn parse_frontmatter(text: &str) -> (r: Option<Frontmatter>)
    ensures
        match r {
            Some(f) => frontmatter_of(text@) == Some((opt_chars(f.name), opt_chars(f.description), f.disable_model_invocation)),
            None => frontmatter_of(text@) is None,
        },
{
    if !crate::text::starts_with(text, "---\n") {
        return None;
    }
    let cs = chars_of(text);
    proof {
        reveal_strlit("---\n");
    }
    let rest = crate::text::substring(&cs, 4, cs.len());
    let rc = chars_of(rest.as_str());
    let pat = chars_of("\n---");
    match crate::dev::numbers::find_chars(&rc, &pat, 0) {
        Some(end) => {
            let block = crate::text::substring(&rc, 0, end);
            assert(rc@.subrange(0, end as int) =~= rest@.take(end as int));
            assert(rest@ =~= text@.skip(4));
            read_yaml_fields(block.as_str())
        },
        None => {
            assert(rest@ =~= text@.skip(4));
            None
        },
    }
}

/// What `str::to_lowercase` makes of `s`.
pub uninterp spec fn lowercase(s: Seq<char>) -> Seq<char>;

/// Calls `str::to_lowercase`. The contract names the result; Unicode's case
/// mapping is not stated.
#[verifier::external_body]
fn to_lowercase(s: &str) -> (r: String)
    ensures
        r@ == lowercase(s@),
{
    s.to_lowercase()
}

/// Whether `p` occurs in the bytes `h` at `i`.
pub open spec fn bytes_at(h: Seq<u8>, p: Seq<u8>, i: int) -> bool {
    0 <= i && i + p.len() <= h.len() && h.subrange(i, i + p.len()) == p
}

/// The first index at or after `from` where `p` occurs in `h`, or -1.
pub open spec fn byte_find(h: Seq<u8>, p: Seq<u8>, from: int) -> int
    decreases h.len() + 1 - from,
{
    if from < 0 || from + p.len() > h.len() {
        -1
    } else if bytes_at(h, p, from) {
        from
    } else {
        byte_find(h, p, from + 1)
    }
}

/// The first index at or after `from` where `p` occurs in `h`.
fn find_bytes(h: &[u8], p: &[u8], from: usize, to: usize) -> (r: Option<usize>)
    requires
        from <= to <= h@.len(),
    ensures
        match r {
            Some(i) => i as int == byte_find(h@.take(to as int), p@, from as int) && i + p@.len() <= to,
            None => byte_find(h@.take(to as int), p@, from as int) == -1,
        },
{
    let ghost hv = h@.take(to as int);
    let mut i = from;
    while i <= to && p.len() <= to - i
        invariant
            from <= i,
            to <= h@.len(),
            hv == h@.take(to as int),
            byte_find(hv, p@, from as int) == byte_find(hv, p@, i as int),
        decreases to + 1 - i,
    {
        let mut k: usize = 0;
        let mut same = true;
        while k < p.len()
            invariant
                i + p@.len() <= to,
                to <= h@.len(),
                k <= p@.len(),
                same == forall|j: int| 0 <= j < k ==> h@[i + j] == p@[j],
            decreases p@.len() - k,
        {
            if h[i + k] != p[k] {
                same = false;
            }
            k = k + 1;
        }
        if same {
            assert(hv.subrange(i as int, i + p@.len()) =~= p@);
            return Some(i);
        }
        assert(!bytes_at(hv, p@, i as int)) by {
            if hv.subrange(i as int, i + p@.len()) == p@ {
                let j = choose|j: int| 0 <= j < p@.len() && h@[i + j] != p@[j];
                assert(hv.subrange(i as int, i + p@.len())[j] == h@[i + j]);
            }
        }
        i = i + 1;
    }
    None
}

/// The phrases that make a nearby reasoning request guidance against it.
pub open spec fn negator(k: int) -> Seq<char> {
    if k == 0 {
        "do not"@
    } else if k == 1 {
        "don't"@
    } else if k == 2 {
        "never"@
    } else if k == 3 {
        "avoid"@
    } else if k == 4 {
        "without"@
    } else if k == 5 {
        "no "@
    } else if k == 6 {
        "not "@
    } else if k == 7 {
        "must not"@
    } else if k == 8 {
        "should not"@
    } else if k == 9 {
        "refrain from"@
    } else if k == 10 {
        "instead of"@
    } else if k == 11 {
        "rather than"@
    } else {
        "prevent"@
    }
}

/// The number of negating phrases.
pub const NEGATORS: usize = 13;

fn negator_str(k: usize) -> (r: &'static str)
    requires
        k < NEGATORS,
    ensures
        r@ == negator(k as int),
{
    if k == 0 {
        "do not"
    } else if k == 1 {
        "don't"
    } else if k == 2 {
        "never"
    } else if k == 3 {
        "avoid"
    } else if k == 4 {
        "without"
    } else if k == 5 {
        "no "
    } else if k == 6 {
        "not "
    } else if k == 7 {
        "must not"
    } else if k == 8 {
        "should not"
    } else if k == 9 {
        "refrain from"
    } else if k == 10 {
        "instead of"
    } else if k == 11 {
        "rather than"
    } else {
        "prevent"
    }
}

/// Where the window before byte `at` starts: 60 bytes earlier, or at 0.
pub open spec fn window_start(at: int) -> int {
    if at >= 60 {
        at - 60
    } else {
        0
    }
}

/// Whether a phrase found at byte `at` of `h` is preceded, within the 60 bytes
/// before it, by a negation such as "do not" or "avoid".
pub open spec fn negated(h: Seq<u8>, at: int) -> bool {
    exists|k: int| 0 <= k < NEGATORS && byte_find(h.subrange(window_start(at), at),
        vstd::utf8::encode_utf8(#[trigger] negator(k)), 0) >= 0
}

/// Whether byte `i` of `h` starts a character (or is its end).
pub open spec fn char_boundary(h: Seq<u8>, i: int) -> bool {
    i <= 0 || i >= h.len() || !(0x80 <= h[i] && h[i] < 0xc0)
}

/// Whether the phrase found at byte `at` of `h` is negated (see [`negated`]).
fn phrase_is_negated(h: &[u8], at: usize) -> (r: bool)
    requires
        at <= h@.len(),
    ensures
        r == negated(h@, at as int),
{
    let start: usize = if at >= 60 { at - 60 } else { 0 };
    let ghost w = h@.subrange(start as int, at as int);
    let mut k: usize = 0;
    while k < NEGATORS
        invariant
            k <= NEGATORS,
            at <= h@.len(),
            start == window_start(at as int),
            w == h@.subrange(start as int, at as int),
            forall|j: int| 0 <= j < k ==> byte_find(w, vstd::utf8::encode_utf8(#[trigger] negator(j)), 0) < 0,
        decreases NEGATORS - k,
    {
        let n = negator_str(k);
        let found = find_window(h, start, at, n.as_bytes());
        if found {
            return true;
        }
        k = k + 1;
    }
    false
}

/// Whether `p` occurs in `h[start..at]`.
fn find_window(h: &[u8], start: usize, at: usize, p: &[u8]) -> (r: bool)
    requires
        start <= at <= h@.len(),
    ensures
        r == (byte_find(h@.subrange(start as int, at as int), p@, 0) >= 0),
{
    let mut w: Vec<u8> = Vec::new();
    let mut i = start;
    while i < at
        invariant
            start <= i <= at <= h@.len(),
            w@ == h@.subrange(start as int, i as int),
        decreases at - i,
    {
        w.push(h[i]);
        i = i + 1;
        assert(w@ =~= h@.subrange(start as int, i as int));
    }
    let n = w.len();
    assert(w@.take(n as int) =~= w@);
    find_bytes(w.as_slice(), p, 0, n).is_some()
}

/// The phrases that ask a model to expose its reasoning, in the order checked.
pub open spec fn probe(k: int) -> Seq<char> {
    if k == 0 {
        "show your reasoning"@
    } else if k == 1 {
        "explain your reasoning"@
    } else if k == 2 {
        "reproduce its reasoning"@
    } else if k == 3 {
        "transcribe your thinking"@
    } else {
        "echo your reasoning"@
    }
}

/// The number of reasoning phrases.
pub const PROBES: usize = 5;

fn probe_str(k: usize) -> (r: &'static str)
    requires
        k < PROBES,
    ensures
        r@ == probe(k as int),
{
    if k == 0 {
        "show your reasoning"
    } else if k == 1 {
        "explain your reasoning"
    } else if k == 2 {
        "reproduce its reasoning"
    } else if k == 3 {
        "transcribe your thinking"
    } else {
        "echo your reasoning"
    }
}

/// Where phrase `k` first occurs in the bytes `h`, or -1.
pub open spec fn probe_at(h: Seq<u8>, k: int) -> int {
    byte_find(h, vstd::utf8::encode_utf8(probe(k)), 0)
}

/// The first phrase from `k` on that occurs in `h` without a negation before it.
pub open spec fn first_request(h: Seq<u8>, k: int) -> Option<int>
    decreases PROBES - k,
{
    if k >= PROBES || k < 0 {
        None
    } else if probe_at(h, k) >= 0 && !negated(h, probe_at(h, k)) {
        Some(k)
    } else {
        first_request(h, k + 1)
    }
}

/// Whether looking for negations before the phrases from `k` on never cuts a
/// character of `h` in two (where it would, the check cannot slice the text).
pub open spec fn windows_ok(h: Seq<u8>, k: int) -> bool
    decreases PROBES - k,
{
    if k >= PROBES || k < 0 {
        true
    } else {
        let at = probe_at(h, k);
        (at >= 0 ==> char_boundary(h, window_start(at))) && (if at >= 0 && !negated(h, at) {
            true
        } else {
            windows_ok(h, k + 1)
        })
    }
}

/// The lowercased UTF-8 bytes of `text`, in which phrases are looked for.
pub open spec fn lowered_bytes(text: Seq<char>) -> Seq<u8> {
    vstd::utf8::encode_utf8(lowercase(text))
}

/// Whether the phrase check can run on `text` (see [`windows_ok`]).
pub open spec fn reasoning_check_ok(text: Seq<char>) -> bool {
    windows_ok(lowered_bytes(text), 0)
}

/// One finding when `cond` holds, else none.
pub open spec fn one_if(cond: bool, f: FindingView) -> Seq<FindingView> {
    if cond {
        seq![f]
    } else {
        seq![]
    }
}

/// What the size checks say of a skill: above the loader's byte limit, or else
/// above the line guidance.
pub open spec fn size_findings(name: Seq<char>, text: Seq<char>, bytes: nat) -> Seq<FindingView> {
    if bytes > SKILL_MAX_BYTES {
        seq![fv("skill.oversized-skipped"@, Severity::High, name,
            "SKILL.md is "@ + decimal(bytes) + " bytes, above the 131072-byte loader limit"@,
            "Split into references/; the loader skips this file entirely."@)]
    } else if lines_spec(text).len() > SKILL_MAX_LINES {
        seq![fv("skill.body-too-long"@, Severity::Low, name,
            "SKILL.md body is "@ + decimal(lines_spec(text).len()) + " lines, above the 500-line guidance"@,
            "Move detail into references/ and keep the entrypoint a router."@)]
    } else {
        seq![]
    }
}

/// What the audit says of one skill, and, when the skill is in the automatic
/// listing, the character counts of its name and description.
pub open spec fn skill_report(name: Seq<char>, text: Seq<char>, bytes: nat) -> (Seq<FindingView>, Option<(nat, nat)>) {
    let size = size_findings(name, text, bytes);
    match frontmatter_of(text) {
        None => (size + seq![fv("skill.missing-frontmatter"@, Severity::High, name, "no parseable YAML frontmatter"@,
            "Add a --- delimited block with name and description."@)], None),
        Some(fm) => {
            let mismatch = match fm.0 {
                Some(d) => one_if(d != name, fv("skill.name-mismatch"@, Severity::Medium, name,
                    "frontmatter name is `"@ + d + "` but the directory is `"@ + name + "`"@,
                    "Identity comes from frontmatter; align them to avoid confusion."@)),
                None => seq![],
            };
            let reasoning = match first_request(lowered_bytes(text), 0) {
                Some(k) => seq![fv("model.reasoning-extraction-risk"@, Severity::Medium, name,
                    "body contains \""@ + probe(k) + "\""@,
                    "Fable 5 refuses reasoning extraction and falls back to Opus 4.8. Ask for conclusions, not reasoning."@)],
                None => seq![],
            };
            let n = match fm.1 {
                Some(d) => d.len(),
                None => 0,
            };
            let cap = one_if(n > DESC_MAX_CHARS, fv("skill.description-over-cap"@, Severity::High, name,
                "description is "@ + decimal(n) + " chars, above the 1024 cap"@,
                "Trim; the frontmatter cap is enforced by the loader."@));
            if fm.2 {
                (size + mismatch + reasoning + cap, None)
            } else {
                let hog = one_if(n <= DESC_MAX_CHARS && n > DESC_TARGET_CHARS, fv("skill.description-listing-hog"@,
                    Severity::Low, name, "description is "@ + decimal(n) + " chars (~"@ + decimal(n / 4)
                        + " tokens), above the ~280-char target"@,
                    "Lead with the key use case and keep concrete trigger phrases."@));
                (size + mismatch + reasoning + cap + hog, Some((name.len(), n)))
            }
        },
    }
}

/// The first phrase that `text` asks for without negating it.
fn reasoning_request(text: &str) -> (r: Option<usize>)
    requires
        reasoning_check_ok(text@),
    ensures
        match r {
            Some(k) => first_request(lowered_bytes(text@), 0) == Some(k as int) && k < PROBES,
            None => first_request(lowered_bytes(text@), 0) is None,
        },
{
    let lowered = to_lowercase(text);
    let h = lowered.as_str().as_bytes();
    let ghost hv = lowered_bytes(text@);
    assert(h@ == hv);
    let mut k: usize = 0;
    while k < PROBES
        invariant
            k <= PROBES,
            h@ == hv,
            hv == lowered_bytes(text@),
            first_request(hv, 0) == first_request(hv, k as int),
            windows_ok(hv, k as int),
        decreases PROBES - k,
    {
        let p = probe_str(k);
        let pb = p.as_bytes();
        assert(pb@ == vstd::utf8::encode_utf8(probe(k as int)));
        let n = h.len();
        assert(h@.take(n as int) =~= h@);
        match find_bytes(h, pb, 0, n) {
            Some(at) => {
                assert(probe_at(hv, k as int) == at as int);
                if !phrase_is_negated(h, at) {
                    assert(first_request(hv, k as int) == Some(k as int));
                    return Some(k);
                }
            },
            None => {},
        }
        k = k + 1;
    }
    None
}

/// The number of characters of `s`.
fn char_count(s: &str) -> (r: usize)
    ensures
        r == s@.len(),
{
    chars_of(s).len()
}

/// A SKILL.md within the byte limit whose body runs past 500 lines is
/// reported first, as a low-severity over-long body naming its line count.
pub proof fn law_long_skill_body_reported_first(name: Seq<char>, text: Seq<char>, bytes: nat)
    requires
        bytes <= 131072,
        lines_spec(text).len() > 500,
    ensures
        skill_report(name, text, bytes).0.len() >= 1,
        skill_report(name, text, bytes).0[0].id == "skill.body-too-long"@,
        skill_report(name, text, bytes).0[0].severity == Severity::Low,
        skill_report(name, text, bytes).0[0].subject == name,
        skill_report(name, text, bytes).0[0].message == "SKILL.md body is "@ + decimal(lines_spec(text).len())
            + " lines, above the 500-line guidance"@,
{
    let size = size_findings(name, text, bytes);
    assert(size.len() == 1);
    let r = skill_report(name, text, bytes).0;
    assert(r.len() >= 1);
    assert(r[0] == size[0]);
}

/// A SKILL.md above the 131072-byte loader limit is reported first, as a
/// high-severity oversized skill naming its size, whatever else it holds.
pub proof fn law_oversized_skill_reported_first(name: Seq<char>, text: Seq<char>, bytes: nat)
    requires
        bytes > 131072,
    ensures
        skill_report(name, text, bytes).0.len() >= 1,
        skill_report(name, text, bytes).0[0].id == "skill.oversized-skipped"@,
        skill_report(name, text, bytes).0[0].severity == Severity::High,
        skill_report(name, text, bytes).0[0].subject == name,
        skill_report(name, text, bytes).0[0].message == "SKILL.md is "@ + decimal(bytes)
            + " bytes, above the 131072-byte loader limit"@,
{
    let size = size_findings(name, text, bytes);
    assert(size.len() == 1);
    let r = skill_report(name, text, bytes).0;
    assert(r.len() >= 1);
    assert(r[0] == size[0]);
}

/// What the audit says of one skill (see [`skill_report`]): its size, its
/// frontmatter, whether its body asks a model to expose its reasoning, and its
/// description's length. The second result holds, for a skill in the automatic
/// listing, the character counts of its name and description.
pub fn skill_findings(name: &str, text: &str, bytes: u64) -> (r: (Vec<Finding>, Option<(usize, usize)>))
    requires
        reasoning_check_ok(text@),
    ensures
        views(r.0@) == skill_report(name@, text@, bytes as nat).0,
        match r.1 {
            Some((a, b)) => skill_report(name@, text@, bytes as nat).1 == Some((a as nat, b as nat)),
            None => skill_report(name@, text@, bytes as nat).1 is None,
        },
        bytes > 131072 ==> views(r.0@).len() >= 1 && views(r.0@)[0].id == "skill.oversized-skipped"@
            && views(r.0@)[0].severity == Severity::High
            && views(r.0@)[0].message == "SKILL.md is "@ + decimal(bytes as nat) + " bytes, above the 131072-byte loader limit"@,
        bytes <= 131072 && lines_spec(text@).len() > 500 ==> views(r.0@).len() >= 1 && views(r.0@)[0].id
            == "skill.body-too-long"@ && views(r.0@)[0].severity == Severity::Low,
{
    proof {
        if bytes > 131072 {
            law_oversized_skill_reported_first(name@, text@, bytes as nat);
        } else if lines_spec(text@).len() > 500 {
            law_long_skill_body_reported_first(name@, text@, bytes as nat);
        }
    }
    skill_report_of(name, text, bytes)
}

/// Computes [`skill_report`] for one skill.
fn skill_report_of(name: &str, text: &str, bytes: u64) -> (r: (Vec<Finding>, Option<(usize, usize)>))
    requires
        reasoning_check_ok(text@),
    ensures
        views(r.0@) == skill_report(name@, text@, bytes as nat).0,
        match r.1 {
            Some((a, b)) => skill_report(name@, text@, bytes as nat).1 == Some((a as nat, b as nat)),
            None => skill_report(name@, text@, bytes as nat).1 is None,
        },
{
    let mut out: Vec<Finding> = Vec::new();
    assert(views(out@) =~= seq![]);
    if bytes > SKILL_MAX_BYTES {
        let mut m = owned("SKILL.md is ");
        let b = decimal_string(bytes);
        push_all(&mut m, b.as_str());
        push_all(&mut m, " bytes, above the 131072-byte loader limit");
        push(&mut out, "skill.oversized-skipped", Severity::High, owned(name), m,
            "Split into references/; the loader skips this file entirely.");
    } else {
        let ls = lines(text);
        proof {
            assert(ls@.map_values(|l: Vec<char>| l@).len() == ls@.len());
        }
        let count = ls.len();
        if count > SKILL_MAX_LINES {
            let mut m = owned("SKILL.md body is ");
            let c = decimal_string(count as u64);
            push_all(&mut m, c.as_str());
            push_all(&mut m, " lines, above the 500-line guidance");
            push(&mut out, "skill.body-too-long", Severity::Low, owned(name), m,
                "Move detail into references/ and keep the entrypoint a router.");
        }
    }
    let ghost size = views(out@);
    assert(size =~= size_findings(name@, text@, bytes as nat));
    let fm = match parse_frontmatter(text) {
        Some(f) => f,
        None => {
            push(&mut out, "skill.missing-frontmatter", Severity::High, owned(name), owned("no parseable YAML frontmatter"),
                "Add a --- delimited block with name and description.");
            return (out, None);
        },
    };
    match &fm.name {
        Some(d) => {
            if !str_eq(d.as_str(), name) {
                let mut m = owned("frontmatter name is `");
                push_all(&mut m, d.as_str());
                push_all(&mut m, "` but the directory is `");
                push_all(&mut m, name);
                push_all(&mut m, "`");
                push(&mut out, "skill.name-mismatch", Severity::Medium, owned(name), m,
                    "Identity comes from frontmatter; align them to avoid confusion.");
            }
        },
        None => {},
    }
    let ghost a1 = views(out@);
    match reasoning_request(text) {
        Some(k) => {
            let mut m = owned("body contains \"");
            push_all(&mut m, probe_str(k));
            push_all(&mut m, "\"");
            push(&mut out, "model.reasoning-extraction-risk", Severity::Medium, owned(name), m,
                "Fable 5 refuses reasoning extraction and falls back to Opus 4.8. Ask for conclusions, not reasoning.");
        },
        None => {},
    }
    let ghost a2 = views(out@);
    let n = match &fm.description {
        Some(d) => char_count(d.as_str()),
        None => 0,
    };
    if n > DESC_MAX_CHARS {
        let mut m = owned("description is ");
        let c = decimal_string(n as u64);
        push_all(&mut m, c.as_str());
        push_all(&mut m, " chars, above the 1024 cap");
        push(&mut out, "skill.description-over-cap", Severity::High, owned(name), m,
            "Trim; the frontmatter cap is enforced by the loader.");
    }
    let ghost a3 = views(out@);
    if fm.disable_model_invocation {
        assert(views(out@) =~= skill_report(name@, text@, bytes as nat).0);
        return (out, None);
    }
    if n <= DESC_MAX_CHARS && n > DESC_TARGET_CHARS {
        let mut m = owned("description is ");
        let c = decimal_string(n as u64);
        push_all(&mut m, c.as_str());
        push_all(&mut m, " chars (~");
        let t = decimal_string((n / 4) as u64);
        push_all(&mut m, t.as_str());
        push_all(&mut m, " tokens), above the ~280-char target");
        push(&mut out, "skill.description-listing-hog", Severity::Low, owned(name), m,
            "Lead with the key use case and keep concrete trigger phrases.");
    }
    assert(views(out@) =~= skill_report(name@, text@, bytes as nat).0);
    (out, Some((char_count(name), n)))
}

/// Whether the phrase check can run on `text` (see [`reasoning_check_ok`]);
/// where it cannot, the check would cut a character in two.
pub fn reasoning_check_possible(text: &str) -> (r: bool)
    ensures
        r == reasoning_check_ok(text@),
{
    let lowered = to_lowercase(text);
    let h = lowered.as_str().as_bytes();
    let ghost hv = lowered_bytes(text@);
    let mut k: usize = PROBES;
    let mut ok = true;
    while k > 0
        invariant
            k <= PROBES,
            h@ == hv,
            hv == lowered_bytes(text@),
            ok == windows_ok(hv, k as int),
        decreases k,
    {
        k = k - 1;
        let p = probe_str(k);
        let pb = p.as_bytes();
        let n = h.len();
        assert(h@.take(n as int) =~= h@);
        match find_bytes(h, pb, 0, n) {
            Some(at) => {
                let start: usize = if at >= 60 { at - 60 } else { 0 };
                let boundary = start == 0 || start >= n || !(0x80u8 <= h[start] && h[start] < 0xc0u8);
                if phrase_is_negated(h, at) {
                    ok = boundary && ok;
                } else {
                    ok = boundary;
                }
            },
            None => {},
        }
    }
    ok
}

/// The `plugin@marketplace` key that gates a marketplace skill, from the
/// components of its path below the marketplaces directory: the layout
/// `<market>/plugins/<plugin>/...`.
pub open spec fn plugin_key(parts: Seq<Seq<char>>) -> Option<Seq<char>> {
    if parts.len() >= 3 && parts[1] == "plugins"@ {
        Some(parts[2] + "@"@ + parts[0])
    } else {
        None
    }
}

/// The `plugin@marketplace` key of a marketplace skill (see [`plugin_key`]).
pub fn plugin_key_for(parts: &Vec<String>) -> (r: Option<String>)
    ensures
        opt_chars(r) == plugin_key(strs(parts@)),
{
    if parts.len() >= 3 && str_eq(parts[1].as_str(), "plugins") {
        let mut k = owned(parts[2].as_str());
        push_all(&mut k, "@");
        push_all(&mut k, parts[0].as_str());
        assert(strs(parts@)[1] == parts@[1]@);
        Some(k)
    } else {
        proof {
            if parts@.len() >= 3 {
                assert(strs(parts@)[1] == parts@[1]@);
            }
        }
        None
    }
}

/// The last setting of plugin `key` among the `enabledPlugins` entries of the
/// settings files, read lowest precedence first.
pub open spec fn last_setting(entries: Seq<(String, bool)>, key: Seq<char>) -> Option<bool>
    decreases entries.len(),
{
    if entries.len() == 0 {
        None
    } else if entries.last().0@ == key {
        Some(entries.last().1)
    } else {
        last_setting(entries.drop_last(), key)
    }
}

/// Whether plugin `key` is switched off: the last settings file that mentions
/// it disables it.
pub fn plugin_disabled(entries: &Vec<(String, bool)>, key: &str) -> (r: bool)
    ensures
        r == (last_setting(entries@, key@) == Some(false)),
{
    let mut i = entries.len();
    assert(entries@.take(i as int) =~= entries@);
    while i > 0
        invariant
            i <= entries@.len(),
            last_setting(entries@, key@) == last_setting(entries@.take(i as int), key@),
        decreases i,
    {
        let ghost t = entries@.take(i as int);
        assert(t.drop_last() =~= entries@.take(i - 1));
        assert(t.last() == entries@[i - 1]);
        if str_eq(entries[i - 1].0.as_str(), key) {
            return !entries[i - 1].1;
        }
        i = i - 1;
    }
    false
}

/// The key recorded for `name` among the skills supplied only by disabled
/// plugins, if any.
pub open spec fn lookup(pairs: Seq<(Seq<char>, Seq<char>)>, name: Seq<char>) -> Option<Seq<char>>
    decreases pairs.len(),
{
    if pairs.len() == 0 {
        None
    } else if pairs[0].0 == name {
        Some(pairs[0].1)
    } else {
        lookup(pairs.drop_first(), name)
    }
}

/// The pairs without those for `name`.
pub open spec fn without(pairs: Seq<(Seq<char>, Seq<char>)>, name: Seq<char>) -> Seq<(Seq<char>, Seq<char>)>
    decreases pairs.len(),
{
    if pairs.len() == 0 {
        seq![]
    } else {
        let rest = without(pairs.drop_last(), name);
        if pairs.last().0 == name {
            rest
        } else {
            rest.push(pairs.last())
        }
    }
}

/// What the marketplace skills make known, in walk order: a skill gated by a
/// disabled plugin is recorded (with the first such key) as supplied only by
/// that plugin, until another copy of it turns up that is not so gated; such a
/// copy makes the name known.
pub open spec fn marketplace_state(skills: Seq<(String, Option<String>)>, settings: Seq<(String, bool)>) -> (Seq<Seq<char>>, Seq<(Seq<char>, Seq<char>)>)
    decreases skills.len(),
{
    if skills.len() == 0 {
        (seq![], seq![])
    } else {
        let (known, only) = marketplace_state(skills.drop_last(), settings);
        let name = skills.last().0@;
        match skills.last().1 {
            Some(k) => if last_setting(settings, k@) == Some(false) {
                if lookup(only, name) is Some {
                    (known, only)
                } else {
                    (known, only.push((name, k@)))
                }
            } else {
                (known.push(name), without(only, name))
            },
            None => (known.push(name), without(only, name)),
        }
    }
}

/// The key recorded for `name`.
fn lookup_pair(pairs: &Vec<(String, String)>, name: &str) -> (r: Option<String>)
    ensures
        opt_chars(r) == lookup(pairs@.map_values(|p: (String, String)| (p.0@, p.1@)), name@),
{
    let ghost pv = pairs@.map_values(|p: (String, String)| (p.0@, p.1@));
    let mut i: usize = 0;
    assert(pv.skip(0) =~= pv);
    while i < pairs.len()
        invariant
            i <= pairs@.len(),
            pv == pairs@.map_values(|p: (String, String)| (p.0@, p.1@)),
            lookup(pv, name@) == lookup(pv.skip(i as int), name@),
        decreases pairs@.len() - i,
    {
        assert(pv.skip(i as int)[0] == (pairs@[i as int].0@, pairs@[i as int].1@));
        assert(pv.skip(i as int).drop_first() =~= pv.skip(i + 1));
        if str_eq(pairs[i].0.as_str(), name) {
            return Some(owned(pairs[i].1.as_str()));
        }
        i = i + 1;
    }
    None
}

/// The pairs without those for `name`.
fn remove_pairs(pairs: &Vec<(String, String)>, name: &str) -> (r: Vec<(String, String)>)
    ensures
        r@.map_values(|p: (String, String)| (p.0@, p.1@)) == without(pairs@.map_values(|p: (String, String)| (p.0@, p.1@)), name@),
{
    let ghost pv = pairs@.map_values(|p: (String, String)| (p.0@, p.1@));
    let mut out: Vec<(String, String)> = Vec::new();
    let mut i: usize = 0;
    assert(out@.map_values(|p: (String, String)| (p.0@, p.1@)) =~= seq![]);
    while i < pairs.len()
        invariant
            i <= pairs@.len(),
            pv == pairs@.map_values(|p: (String, String)| (p.0@, p.1@)),
            out@.map_values(|p: (String, String)| (p.0@, p.1@)) == without(pv.take(i as int), name@),
        decreases pairs@.len() - i,
    {
        let ghost t = pv.take(i + 1);
        assert(t.drop_last() =~= pv.take(i as int));
        assert(t.last() == (pairs@[i as int].0@, pairs@[i as int].1@));
        if !str_eq(pairs[i].0.as_str(), name) {
            let ghost before = out@;
            out.push((owned(pairs[i].0.as_str()), owned(pairs[i].1.as_str())));
            assert(out@.map_values(|p: (String, String)| (p.0@, p.1@)) =~= before.map_values(|p: (String, String)| (p.0@, p.1@)).push(t.last()));
        }
        i = i + 1;
    }
    assert(pv.take(pairs@.len() as int) =~= pv);
    out
}

/// What the marketplace skills make known (see [`marketplace_state`]): the
/// names of loadable skills, and the skills supplied only by a disabled
/// plugin, each with that plugin's key.
pub fn classify_marketplace_skills(skills: &Vec<(String, Option<String>)>, settings: &Vec<(String, bool)>) -> (r: (Vec<String>, Vec<(String, String)>))
    ensures
        (strs(r.0@), r.1@.map_values(|p: (String, String)| (p.0@, p.1@))) == marketplace_state(skills@, settings@),
{
    let mut known: Vec<String> = Vec::new();
    let mut only: Vec<(String, String)> = Vec::new();
    let mut i: usize = 0;
    assert(strs(known@) =~= seq![]);
    assert(only@.map_values(|p: (String, String)| (p.0@, p.1@)) =~= seq![]);
    while i < skills.len()
        invariant
            i <= skills@.len(),
            (strs(known@), only@.map_values(|p: (String, String)| (p.0@, p.1@))) == marketplace_state(skills@.take(i as int), settings@),
        decreases skills@.len() - i,
    {
        let ghost t = skills@.take(i + 1);
        assert(t.drop_last() =~= skills@.take(i as int));
        assert(t.last() == skills@[i as int]);
        let (name, key) = &skills[i];
        let gated = match key {
            Some(k) => plugin_disabled(settings, k.as_str()),
            None => false,
        };
        if gated {
            let k = match key {
                Some(k) => k,
                None => {
                    assert(false);
                    name
                },
            };
            if lookup_pair(&only, name.as_str()).is_none() {
                let ghost before = only@;
                only.push((owned(name.as_str()), owned(k.as_str())));
                assert(only@.map_values(|p: (String, String)| (p.0@, p.1@)) =~= before.map_values(|p: (String, String)| (p.0@, p.1@)).push((name@, k@)));
            }
        } else {
            only = remove_pairs(&only, name.as_str());
            let ghost before = known@;
            known.push(owned(name.as_str()));
            assert(strs(known@) =~= strs(before).push(name@));
        }
        i = i + 1;
    }
    assert(skills@.take(skills@.len() as int) =~= skills@);
    (known, only)
}

/// What the override check says of one `skillOverrides` entry of the settings
/// file `path`: nothing for a plugin-namespaced or known skill; otherwise it
/// either targets a skill supplied only by a disabled plugin, or a skill that
/// does not exist.
pub open spec fn override_report(known: Seq<Seq<char>>, only: Seq<(Seq<char>, Seq<char>)>, path: Seq<char>, skill: Seq<char>, mode: Seq<char>) -> Seq<FindingView> {
    if crate::bun::detect::has_text(skill, ":"@) || known.contains(skill) {
        seq![]
    } else {
        match lookup(only, skill) {
            Some(key) => seq![fv("overrides.targets-disabled-plugin"@, Severity::Medium, skill + " = "@ + mode,
                "override in "@ + path + " targets a skill supplied only by `"@ + key + "`, which is disabled"@,
                "Enable the plugin or drop the override; as written it has no effect."@)],
            None => seq![fv("overrides.stale"@, Severity::Medium, skill + " = "@ + mode,
                "override in "@ + path + " targets a skill that does not exist"@,
                "Delete the entry; it silently does nothing and hides real intent."@)],
        }
    }
}

/// What the override check says of the entries `entries` of one settings file, in order.
pub open spec fn overrides_report(known: Seq<Seq<char>>, only: Seq<(Seq<char>, Seq<char>)>, path: Seq<char>, entries: Seq<(String, String)>) -> Seq<FindingView>
    decreases entries.len(),
{
    if entries.len() == 0 {
        seq![]
    } else {
        overrides_report(known, only, path, entries.drop_last()) + override_report(known, only, path,
            entries.last().0@, entries.last().1@)
    }
}

/// What the override check says of the `skillOverrides` entries of the settings
/// file `path` (see [`override_report`]).
pub fn override_findings(known: &Vec<String>, only: &Vec<(String, String)>, path: &str, entries: &Vec<(String, String)>) -> (r: Vec<Finding>)
    ensures
        views(r@) == overrides_report(strs(known@), only@.map_values(|p: (String, String)| (p.0@, p.1@)), path@, entries@),
{
    let ghost ov = only@.map_values(|p: (String, String)| (p.0@, p.1@));
    let mut out: Vec<Finding> = Vec::new();
    let mut i: usize = 0;
    assert(views(out@) =~= seq![]);
    while i < entries.len()
        invariant
            i <= entries@.len(),
            ov == only@.map_values(|p: (String, String)| (p.0@, p.1@)),
            views(out@) == overrides_report(strs(known@), ov, path@, entries@.take(i as int)),
        decreases entries@.len() - i,
    {
        let ghost t = entries@.take(i + 1);
        assert(t.drop_last() =~= entries@.take(i as int));
        assert(t.last() == entries@[i as int]);
        let ghost before = views(out@);
        let (skill, mode) = &entries[i];
        let skip = crate::bun::detect::contains_text(skill.as_str(), ":")
            || crate::bun::release_sync::has_id(known, skill.as_str());
        if !skip {
            let mut subject = owned(skill.as_str());
            push_all(&mut subject, " = ");
            push_all(&mut subject, mode.as_str());
            match lookup_pair(only, skill.as_str()) {
                Some(key) => {
                    let mut m = owned("override in ");
                    push_all(&mut m, path);
                    push_all(&mut m, " targets a skill supplied only by `");
                    push_all(&mut m, key.as_str());
                    push_all(&mut m, "`, which is disabled");
                    push(&mut out, "overrides.targets-disabled-plugin", Severity::Medium, subject, m,
                        "Enable the plugin or drop the override; as written it has no effect.");
                },
                None => {
                    let mut m = owned("override in ");
                    push_all(&mut m, path);
                    push_all(&mut m, " targets a skill that does not exist");
                    push(&mut out, "overrides.stale", Severity::Medium, subject, m,
                        "Delete the entry; it silently does nothing and hides real intent.");
                },
            }
        }
        assert(views(out@) =~= before + override_report(strs(known@), ov, path@, entries@[i as int].0@, entries@[i as int].1@));
        i = i + 1;
    }
    assert(entries@.take(entries@.len() as int) =~= entries@);
    out
}

/// What the guide check says of the agent guide file at `path`: more lines than the
/// guidance allows.
pub open spec fn guide_report(path: Seq<char>, text: Seq<char>) -> Seq<FindingView> {
    let n = lines_spec(text).len();
    one_if(n > GUIDE_MAX_LINES, fv("guide.over-line-budget"@, Severity::Low, path,
        decimal(n) + " lines, above the 200-line guidance"@,
        "Apply the derivability test, then move task-shaped detail into a skill or nested guide."@))
}

/// What the guide check says of an agent guide file (see [`guide_report`]).
pub fn guide_findings(path: &str, text: &str) -> (r: Vec<Finding>)
    ensures
        views(r@) == guide_report(path@, text@),
{
    let mut out: Vec<Finding> = Vec::new();
    let ls = lines(text);
    proof {
        assert(ls@.map_values(|l: Vec<char>| l@).len() == ls@.len());
    }
    let n = ls.len();
    if n > GUIDE_MAX_LINES {
        let mut m = decimal_string(n as u64);
        push_all(&mut m, " lines, above the 200-line guidance");
        push(&mut out, "guide.over-line-budget", Severity::Low, owned(path), m,
            "Apply the derivability test, then move task-shaped detail into a skill or nested guide.");
    }
    assert(views(out@) =~= guide_report(path@, text@));
    out
}

/// What the agent check says of the description of the agent file at `path`:
/// more UTF-8 bytes than the cap.
pub open spec fn agent_description_report(path: Seq<char>, description: Option<Seq<char>>) -> Seq<FindingView> {
    match description {
        Some(d) => {
            let n = vstd::utf8::encode_utf8(d).len();
            one_if(n > DESC_MAX_CHARS, fv("agent.description-bloat"@, Severity::Low, path,
                "agent description is "@ + decimal(n) + " chars (~"@ + decimal(n / 4)
                    + " tokens), always in the system prompt"@,
                "Strip <example> blocks; state when to delegate in two sentences."@))
        },
        None => seq![],
    }
}

/// What the agent check says of an agent's description (see
/// [`agent_description_report`]).
pub fn agent_description_findings(path: &str, description: &Option<String>) -> (r: Vec<Finding>)
    ensures
        views(r@) == agent_description_report(path@, opt_chars(*description)),
{
    let mut out: Vec<Finding> = Vec::new();
    match description {
        Some(d) => {
            let n = d.as_str().as_bytes().len();
            if n > DESC_MAX_CHARS {
                let mut m = owned("agent description is ");
                let a = decimal_string(n as u64);
                push_all(&mut m, a.as_str());
                push_all(&mut m, " chars (~");
                let b = decimal_string((n / 4) as u64);
                push_all(&mut m, b.as_str());
                push_all(&mut m, " tokens), always in the system prompt");
                push(&mut out, "agent.description-bloat", Severity::Low, owned(path), m,
                    "Strip <example> blocks; state when to delegate in two sentences.");
            }
        },
        None => {},
    }
    assert(views(out@) =~= agent_description_report(path@, opt_chars(*description)));
    out
}

/// The finding for a symlink at `path` whose target `target` does not
/// resolve: in a skills root (`farm` false) or in another agent's farm.
pub open spec fn broken_link_report(path: Seq<char>, target: Seq<char>, farm: bool) -> FindingView {
    if farm {
        fv("farm.broken-symlink"@, Severity::Medium, path, "symlink target does not resolve: "@ + target,
            "Repoint or remove it; the owning agent skips it in silence."@)
    } else {
        fv("links.broken-skill-symlink"@, Severity::High, path, "symlink target does not resolve: "@ + target,
            "Repoint or remove the link; a broken link is silently skipped."@)
    }
}

/// The finding for a broken symlink (see [`broken_link_report`]).
pub fn broken_link_finding(path: &str, target: &str, farm: bool) -> (r: Finding)
    ensures
        r@ == broken_link_report(path@, target@, farm),
{
    let mut m = owned("symlink target does not resolve: ");
    push_all(&mut m, target);
    if farm {
        Finding {
            id: "farm.broken-symlink",
            severity: Severity::Medium,
            subject: owned(path),
            message: m,
            suggestion: "Repoint or remove it; the owning agent skips it in silence.",
        }
    } else {
        Finding {
            id: "links.broken-skill-symlink",
            severity: Severity::High,
            subject: owned(path),
            message: m,
            suggestion: "Repoint or remove the link; a broken link is silently skipped.",
        }
    }
}

/// The path components that mark generated output beside a skill.
pub open spec fn is_noise_component(c: Seq<char>) -> bool {
    c == "__pycache__"@ || c == "node_modules"@ || c == ".DS_Store"@ || c == ".pytest_cache"@ || c == ".ruff_cache"@
}

/// Whether a relative path (given by its components) is generated output that
/// lives beside a skill without being part of it.
pub fn is_generated_noise(components: &Vec<String>) -> (r: bool)
    ensures
        r == exists|i: int| 0 <= i < components@.len() && is_noise_component((#[trigger] components@[i])@),
{
    let mut i: usize = 0;
    while i < components.len()
        invariant
            i <= components@.len(),
            forall|j: int| 0 <= j < i ==> !is_noise_component((#[trigger] components@[j])@),
        decreases components@.len() - i,
    {
        let c = components[i].as_str();
        if str_eq(c, "__pycache__") || str_eq(c, "node_modules") || str_eq(c, ".DS_Store") || str_eq(c, ".pytest_cache")
            || str_eq(c, ".ruff_cache") {
            return true;
        }
        i = i + 1;
    }
    false
}

/// The first entry of `xs` not in `ys`, if any.
pub open spec fn first_missing(xs: Seq<Seq<char>>, ys: Seq<Seq<char>>) -> Option<Seq<char>>
    decreases xs.len(),
{
    if xs.len() == 0 {
        None
    } else if !ys.contains(xs[0]) {
        Some(xs[0])
    } else {
        first_missing(xs.drop_first(), ys)
    }
}

/// The first file (in order) whose two copies were both read and differ.
pub open spec fn first_changed(names: Seq<Seq<char>>, contents: Seq<(Option<Vec<u8>>, Option<Vec<u8>>)>) -> Option<Seq<char>>
    decreases names.len(),
{
    if names.len() == 0 || contents.len() == 0 {
        None
    } else if contents[0].0 is Some && contents[0].1 is Some && contents[0].0->0@ != contents[0].1->0@ {
        Some(names[0])
    } else {
        first_changed(names.drop_first(), contents.drop_first())
    }
}

/// The first difference between an authored skill directory and its
/// installed copy, given their files (in order) and, for each authored file,
/// both copies' bytes where readable: a file missing from the install, else a
/// file only in the install, else a file whose bytes differ.
pub open spec fn tree_difference(left: Seq<Seq<char>>, right: Seq<Seq<char>>, contents: Seq<(Option<Vec<u8>>, Option<Vec<u8>>)>) -> Option<Seq<char>> {
    match first_missing(left, right) {
        Some(m) => Some(m + " is not installed"@),
        None => match first_missing(right, left) {
            Some(e) => Some(e + " exists only in the install"@),
            None => match first_changed(left, contents) {
                Some(n) => Some(n + " differs"@),
                None => None,
            },
        },
    }
}

/// The first entry of `xs` not in `ys`.
fn first_missing_of(xs: &Vec<String>, ys: &Vec<String>) -> (r: Option<String>)
    ensures
        opt_chars(r) == first_missing(strs(xs@), strs(ys@)),
{
    let ghost xv = strs(xs@);
    let mut i: usize = 0;
    assert(xv.skip(0) =~= xv);
    while i < xs.len()
        invariant
            i <= xs@.len(),
            xv == strs(xs@),
            first_missing(xv, strs(ys@)) == first_missing(xv.skip(i as int), strs(ys@)),
        decreases xs@.len() - i,
    {
        assert(xv.skip(i as int)[0] == xs@[i as int]@);
        assert(xv.skip(i as int).drop_first() =~= xv.skip(i + 1));
        if !crate::bun::release_sync::has_id(ys, xs[i].as_str()) {
            return Some(owned(xs[i].as_str()));
        }
        i = i + 1;
    }
    None
}

/// Whether two byte strings are equal.
fn same_bytes(a: &Vec<u8>, b: &Vec<u8>) -> (r: bool)
    ensures
        r == (a@ == b@),
{
    if a.len() != b.len() {
        return false;
    }
    let mut i: usize = 0;
    while i < a.len()
        invariant
            a@.len() == b@.len(),
            i <= a@.len(),
            forall|j: int| 0 <= j < i ==> a@[j] == b@[j],
        decreases a@.len() - i,
    {
        if a[i] != b[i] {
            return false;
        }
        i = i + 1;
    }
    assert(a@ =~= b@);
    true
}

/// The first difference between two skill directories (see [`tree_difference`]).
pub fn first_tree_difference(left: &Vec<String>, right: &Vec<String>, contents: &Vec<(Option<Vec<u8>>, Option<Vec<u8>>)>) -> (r: Option<String>)
    ensures
        opt_chars(r) == tree_difference(strs(left@), strs(right@), contents@),
{
    match first_missing_of(left, right) {
        Some(m) => {
            let mut d = m;
            push_all(&mut d, " is not installed");
            return Some(d);
        },
        None => {},
    }
    match first_missing_of(right, left) {
        Some(e) => {
            let mut d = e;
            push_all(&mut d, " exists only in the install");
            return Some(d);
        },
        None => {},
    }
    let ghost lv = strs(left@);
    let mut i: usize = 0;
    assert(lv.skip(0) =~= lv);
    assert(contents@.skip(0) =~= contents@);
    while i < left.len() && i < contents.len()
        invariant
            i <= left@.len(),
            i <= contents@.len(),
            lv == strs(left@),
            first_missing(strs(left@), strs(right@)) is None,
            first_missing(strs(right@), strs(left@)) is None,
            first_changed(lv, contents@) == first_changed(lv.skip(i as int), contents@.skip(i as int)),
        decreases left@.len() - i,
    {
        assert(lv.skip(i as int)[0] == left@[i as int]@);
        assert(lv.skip(i as int).drop_first() =~= lv.skip(i + 1));
        assert(contents@.skip(i as int)[0] == contents@[i as int]);
        assert(contents@.skip(i as int).drop_first() =~= contents@.skip(i + 1));
        let differs = match &contents[i] {
            (Some(a), Some(b)) => !same_bytes(a, b),
            _ => false,
        };
        if differs {
            let mut d = owned(left[i].as_str());
            push_all(&mut d, " differs");
            return Some(d);
        }
        i = i + 1;
    }
    None
}

/// The mirror-drift finding for skill `name`, authored in `src_dir`, whose
/// installed copy differs as `detail` says.
pub fn mirror_drift_finding(name: &str, src_dir: &str, detail: &str) -> (r: Finding)
    ensures
        r@ == fv("mirror.drift"@, Severity::Medium, name@, src_dir@ + " differs from the installed copy: "@ + detail@,
            "Decide which side is authoritative and sync it; committing does not deploy."@),
{
    let mut m = owned(src_dir);
    push_all(&mut m, " differs from the installed copy: ");
    push_all(&mut m, detail);
    Finding {
        id: "mirror.drift",
        severity: Severity::Medium,
        subject: owned(name),
        message: m,
        suggestion: "Decide which side is authoritative and sync it; committing does not deploy.",
    }
}

/// Whether `a` is reported before `b`: higher severity first, then by rule id.
pub open spec fn reported_before(a: FindingView, b: FindingView) -> bool {
    rank(a.severity) > rank(b.severity) || (rank(a.severity) == rank(b.severity)
        && crate::dev::ledger::lex_less(a.id, b.id))
}

/// Where `x` goes among the ordered `s`: before the first finding it is
/// reported before.
pub open spec fn insertion_point(s: Seq<FindingView>, x: FindingView) -> nat
    decreases s.len(),
{
    if s.len() == 0 {
        0
    } else if reported_before(x, s[0]) {
        0
    } else {
        1 + insertion_point(s.drop_first(), x)
    }
}

/// `fs` in report order, keeping the given order among ties (a stable sort by
/// [`reported_before`]).
pub open spec fn in_report_order(fs: Seq<FindingView>) -> Seq<FindingView>
    decreases fs.len(),
{
    if fs.len() == 0 {
        seq![]
    } else {
        let s = in_report_order(fs.drop_last());
        s.insert(insertion_point(s, fs.last()) as int, fs.last())
    }
}

proof fn lemma_insertion_point_bound(s: Seq<FindingView>, x: FindingView)
    ensures
        insertion_point(s, x) <= s.len(),
    decreases s.len(),
{
    if s.len() > 0 && !reported_before(x, s[0]) {
        lemma_insertion_point_bound(s.drop_first(), x);
    }
}

/// A copy of a finding.
fn copy_finding(f: &Finding) -> (r: Finding)
    ensures
        r@ == f@,
{
    Finding {
        id: f.id,
        severity: f.severity,
        subject: owned(f.subject.as_str()),
        message: owned(f.message.as_str()),
        suggestion: f.suggestion,
    }
}

/// Orders findings for the report (see [`in_report_order`]).
pub fn sort_findings(findings: &Vec<Finding>) -> (r: Vec<Finding>)
    ensures
        views(r@) == in_report_order(views(findings@)),
{
    let ghost fv0 = views(findings@);
    let mut out: Vec<Finding> = Vec::new();
    let mut m: usize = 0;
    assert(views(out@) =~= seq![]);
    while m < findings.len()
        invariant
            m <= findings@.len(),
            fv0 == views(findings@),
            views(out@) == in_report_order(fv0.take(m as int)),
        decreases findings@.len() - m,
    {
        let ghost t = fv0.take(m + 1);
        assert(t.drop_last() =~= fv0.take(m as int));
        assert(t.last() == findings@[m as int]@);
        let f = copy_finding(&findings[m]);
        let ghost s = views(out@);
        let mut k: usize = 0;
        assert(s.skip(0) =~= s);
        while k < out.len() && !(f.severity.rank() > out[k].severity.rank() || (f.severity.rank() == out[k].severity.rank()
            && crate::dev::ledger::str_less(f.id, out[k].id)))
            invariant
                k <= out@.len(),
                s == views(out@),
                insertion_point(s, f@) == k + insertion_point(s.skip(k as int), f@),
            decreases out@.len() - k,
        {
            assert(s.skip(k as int)[0] == out@[k as int]@);
            assert(s.skip(k as int).drop_first() =~= s.skip(k + 1));
            k = k + 1;
        }
        proof {
            if k < out@.len() {
                assert(s.skip(k as int)[0] == out@[k as int]@);
            }
        }
        out.insert(k, f);
        assert(views(out@) =~= s.insert(k as int, t.last()));
        m = m + 1;
    }
    assert(fv0.take(findings@.len() as int) =~= fv0);
    out
}

/// The number of findings of severity `s` among `fs`.
pub open spec fn count_of(fs: Seq<FindingView>, s: Severity) -> nat
    decreases fs.len(),
{
    if fs.len() == 0 {
        0
    } else {
        count_of(fs.drop_last(), s) + if fs.last().severity == s { 1nat } else { 0nat }
    }
}

/// The findings per severity, by lowercase severity name in name order,
/// listing only the severities that occur.
pub open spec fn severity_counts(fs: Seq<FindingView>) -> Seq<(Seq<char>, nat)> {
    (if count_of(fs, Severity::High) > 0 { seq![("high"@, count_of(fs, Severity::High))] } else { seq![] })
        + (if count_of(fs, Severity::Low) > 0 { seq![("low"@, count_of(fs, Severity::Low))] } else { seq![] })
        + (if count_of(fs, Severity::Medium) > 0 { seq![("medium"@, count_of(fs, Severity::Medium))] } else { seq![] })
}

/// The findings per severity (see [`severity_counts`]).
pub fn count_by_severity(findings: &Vec<Finding>) -> (r: Vec<(String, usize)>)
    ensures
        r@.map_values(|p: (String, usize)| (p.0@, p.1 as nat)) == severity_counts(views(findings@)),
{
    let ghost fv0 = views(findings@);
    let mut high: usize = 0;
    let mut low: usize = 0;
    let mut medium: usize = 0;
    let mut i: usize = 0;
    while i < findings.len()
        invariant
            i <= findings@.len(),
            fv0 == views(findings@),
            high == count_of(fv0.take(i as int), Severity::High),
            low == count_of(fv0.take(i as int), Severity::Low),
            medium == count_of(fv0.take(i as int), Severity::Medium),
            high + low + medium == i,
        decreases findings@.len() - i,
    {
        let ghost t = fv0.take(i + 1);
        assert(t.drop_last() =~= fv0.take(i as int));
        assert(t.last() == findings@[i as int]@);
        match findings[i].severity {
            Severity::High => high = high + 1,
            Severity::Low => low = low + 1,
            Severity::Medium => medium = medium + 1,
        }
        i = i + 1;
    }
    assert(fv0.take(findings@.len() as int) =~= fv0);
    let mut out: Vec<(String, usize)> = Vec::new();
    let ghost mut e: Seq<(Seq<char>, nat)> = seq![];
    if high > 0 {
        out.push((owned("high"), high));
        proof { e = e.push(("high"@, high as nat)); }
    }
    assert(out@.map_values(|p: (String, usize)| (p.0@, p.1 as nat)) =~= e);
    if low > 0 {
        out.push((owned("low"), low));
        proof { e = e.push(("low"@, low as nat)); }
    }
    assert(out@.map_values(|p: (String, usize)| (p.0@, p.1 as nat)) =~= e);
    if medium > 0 {
        out.push((owned("medium"), medium));
        proof { e = e.push(("medium"@, medium as nat)); }
    }
    assert(out@.map_values(|p: (String, usize)| (p.0@, p.1 as nat)) =~= e);
    assert(e =~= severity_counts(fv0));
    out
}

/// Whether some finding is at or above severity `min`.
pub open spec fn any_at_least(fs: Seq<FindingView>, min: Severity) -> bool {
    exists|i: int| 0 <= i < fs.len() && rank((#[trigger] fs[i]).severity) >= rank(min)
}

/// The exit status of a scan: 2 when some finding is at or above `min`, else 0.
pub fn exit_status(findings: &Vec<Finding>, min: Severity) -> (r: u8)
    ensures
        r == (if any_at_least(views(findings@), min) { 2u8 } else { 0u8 }),
{
    let mut i: usize = 0;
    while i < findings.len()
        invariant
            i <= findings@.len(),
            forall|j: int| 0 <= j < i ==> rank((#[trigger] findings@[j]).severity) < rank(min),
        decreases findings@.len() - i,
    {
        if findings[i].severity.at_least(min) {
            assert(views(findings@)[i as int] == findings@[i as int]@);
            return 2;
        }
        i = i + 1;
    }
    assert forall|j: int| 0 <= j < views(findings@).len() implies rank((#[trigger] views(findings@)[j]).severity) < rank(min) by {
        assert(views(findings@)[j] == findings@[j]@);
    }
    0
}

/// The Markdown line of one finding.
pub open spec fn finding_line(f: FindingView) -> Seq<char> {
    "- **"@ + severity_name(f.severity) + "** `"@ + f.id + "` — "@ + f.subject + "\n  - "@ + f.message + "\n  - "@
        + f.suggestion + "\n"@
}

/// The Markdown lines of `fs`, in order.
pub open spec fn finding_lines(fs: Seq<FindingView>) -> Seq<char>
    decreases fs.len(),
{
    if fs.len() == 0 {
        seq![]
    } else {
        finding_lines(fs.drop_last()) + finding_line(fs.last())
    }
}

/// The Markdown report of the tool named `tool`: a heading, the totals, and a line per finding (or
/// "No drift detected.").
pub open spec fn markdown_report(tool: Seq<char>, total: nat, tokens: nat, skills: nat, fs: Seq<FindingView>) -> Seq<char> {
    "# "@ + tool + "\n\n"@ + decimal(total) + " finding(s). Listing: ~"@ + decimal(tokens) + " tokens across "@
        + decimal(skills) + " skills.\n\n"@ + if fs.len() == 0 {
        "No drift detected.\n"@
    } else {
        finding_lines(fs)
    }
}

/// Renders the Markdown report (see [`markdown_report`]).
pub fn render_markdown(tool: &str, total: usize, listing_tokens: usize, skills_listed: usize, findings: &Vec<Finding>) -> (r: String)
    ensures
        r@ == markdown_report(tool@, total as nat, listing_tokens as nat, skills_listed as nat, views(findings@)),
{
    let mut out = owned("# ");
    push_all(&mut out, tool);
    push_all(&mut out, "\n\n");
    let t = decimal_string(total as u64);
    push_all(&mut out, t.as_str());
    push_all(&mut out, " finding(s). Listing: ~");
    let l = decimal_string(listing_tokens as u64);
    push_all(&mut out, l.as_str());
    push_all(&mut out, " tokens across ");
    let k = decimal_string(skills_listed as u64);
    push_all(&mut out, k.as_str());
    push_all(&mut out, " skills.\n\n");
    let ghost head = out@;
    if findings.len() == 0 {
        push_all(&mut out, "No drift detected.\n");
        return out;
    }
    let ghost fv0 = views(findings@);
    let mut i: usize = 0;
    assert(fv0.take(0) =~= seq![]);
    assert(head + finding_lines(fv0.take(0)) =~= head);
    while i < findings.len()
        invariant
            i <= findings@.len(),
            fv0 == views(findings@),
            out@ == head + finding_lines(fv0.take(i as int)),
        decreases findings@.len() - i,
    {
        let ghost t = fv0.take(i + 1);
        assert(t.drop_last() =~= fv0.take(i as int));
        assert(t.last() == findings@[i as int]@);
        let f = &findings[i];
        push_all(&mut out, "- **");
        push_all(&mut out, f.severity.name());
        push_all(&mut out, "** `");
        push_all(&mut out, f.id);
        push_all(&mut out, "` — ");
        push_all(&mut out, f.subject.as_str());
        push_all(&mut out, "\n  - ");
        push_all(&mut out, f.message.as_str());
        push_all(&mut out, "\n  - ");
        push_all(&mut out, f.suggestion);
        push_all(&mut out, "\n");
        assert(out@ =~= head + finding_lines(t));
        i = i + 1;
    }
    assert(fv0.take(findings@.len() as int) =~= fv0);
    out
}

/// The rule catalog: each rule id the scan can report, and what it means;
/// `guide` is the file name of the agent guide.
pub open spec fn catalog(guide: Seq<char>) -> Seq<(Seq<char>, Seq<char>)> {
    seq![
        ("links.broken-skill-symlink"@, "A symlink in a skills root does not resolve; the loader skips it silently."@),
        ("skill.oversized-skipped"@, "SKILL.md exceeds 128KB and is skipped entirely by the loader."@),
        ("skill.body-too-long"@, "SKILL.md body exceeds 500 lines; move detail into references/."@),
        ("skill.missing-frontmatter"@, "No parseable YAML frontmatter."@),
        ("skill.name-mismatch"@, "Frontmatter name differs from the directory name."@),
        ("skill.description-over-cap"@, "Description exceeds the 1024-char frontmatter cap."@),
        ("skill.description-listing-hog"@, "Description far above the ~280-char (~50 token) target; it is paid on every request."@),
        ("model.reasoning-extraction-risk"@, "Body asks the model to expose reasoning; Fable 5 refuses and falls back to Opus 4.8."@),
        ("overrides.stale"@, "A skillOverrides entry targets a skill that no longer exists."@),
        ("overrides.targets-disabled-plugin"@, "An override targets a skill supplied only by a disabled plugin, so it has no effect."@),
        ("mirror.drift"@, "A skill differs between its authoring source and the installed copy; committing does not deploy."@),
        ("farm.broken-symlink"@, "A dangling link in another agent's skill farm (--farm), silently skipped by that agent."@),
        ("farm.duplicate-target"@, "Two names in one farm resolve to the same skill, shadowing the canonical identity."@),
        ("agent.duplicate-name"@, "Two agent files declare the same name; the loader silently discards one."@),
        ("agent.description-bloat"@, "Agent description is oversized and sits in the system prompt on every request."@),
        ("guide.over-line-budget"@, "A "@ + guide + " exceeds the 200-line guidance."@),
    ]
}

/// The rule catalog (see [`catalog`]).
pub fn rule_catalog(guide: &str) -> (r: Vec<(&'static str, String)>)
    ensures
        r@.map_values(|p: (&'static str, String)| (p.0@, p.1@)) == catalog(guide@),
{
    let mut v: Vec<(&'static str, String)> = Vec::new();
    v.push(("links.broken-skill-symlink", owned("A symlink in a skills root does not resolve; the loader skips it silently.")));
    v.push(("skill.oversized-skipped", owned("SKILL.md exceeds 128KB and is skipped entirely by the loader.")));
    v.push(("skill.body-too-long", owned("SKILL.md body exceeds 500 lines; move detail into references/.")));
    v.push(("skill.missing-frontmatter", owned("No parseable YAML frontmatter.")));
    v.push(("skill.name-mismatch", owned("Frontmatter name differs from the directory name.")));
    v.push(("skill.description-over-cap", owned("Description exceeds the 1024-char frontmatter cap.")));
    v.push(("skill.description-listing-hog", owned("Description far above the ~280-char (~50 token) target; it is paid on every request.")));
    v.push(("model.reasoning-extraction-risk", owned("Body asks the model to expose reasoning; Fable 5 refuses and falls back to Opus 4.8.")));
    v.push(("overrides.stale", owned("A skillOverrides entry targets a skill that no longer exists.")));
    v.push(("overrides.targets-disabled-plugin", owned("An override targets a skill supplied only by a disabled plugin, so it has no effect.")));
    v.push(("mirror.drift", owned("A skill differs between its authoring source and the installed copy; committing does not deploy.")));
    v.push(("farm.broken-symlink", owned("A dangling link in another agent's skill farm (--farm), silently skipped by that agent.")));
    v.push(("farm.duplicate-target", owned("Two names in one farm resolve to the same skill, shadowing the canonical identity.")));
    v.push(("agent.duplicate-name", owned("Two agent files declare the same name; the loader silently discards one.")));
    v.push(("agent.description-bloat", owned("Agent description is oversized and sits in the system prompt on every request.")));
    let mut guide_text = owned("A ");
    push_all(&mut guide_text, guide);
    push_all(&mut guide_text, " exceeds the 200-line guidance.");
    v.push(("guide.over-line-budget", guide_text));
    assert(v@.map_values(|p: (&'static str, String)| (p.0@, p.1@)) =~= catalog(guide@));
    v
}

/// The rule catalog as `doctor` prints it: each id, then its meaning indented
/// on the next line.
pub open spec fn doctor_lines(c: Seq<(Seq<char>, Seq<char>)>) -> Seq<char>
    decreases c.len(),
{
    if c.len() == 0 {
        seq![]
    } else {
        doctor_lines(c.drop_last()) + c.last().0 + "\n    "@ + c.last().1 + "\n"@
    }
}

/// The text `doctor` prints (see [`doctor_lines`]).
pub fn doctor_text(guide: &str) -> (r: String)
    ensures
        r@ == doctor_lines(catalog(guide@)),
{
    let c = rule_catalog(guide);
    let ghost cv = c@.map_values(|p: (&'static str, String)| (p.0@, p.1@));
    let mut out = String::new();
    let mut i: usize = 0;
    assert(cv.take(0) =~= seq![]);
    while i < c.len()
        invariant
            i <= c@.len(),
            cv == c@.map_values(|p: (&'static str, String)| (p.0@, p.1@)),
            out@ == doctor_lines(cv.take(i as int)),
        decreases c@.len() - i,
    {
        let ghost t = cv.take(i + 1);
        assert(t.drop_last() =~= cv.take(i as int));
        assert(t.last() == (c@[i as int].0@, c@[i as int].1@));
        push_all(&mut out, c[i].0);
        push_all(&mut out, "\n    ");
        push_all(&mut out, c[i].1.as_str());
        push_all(&mut out, "\n");
        assert(out@ =~= doctor_lines(t));
        i = i + 1;
    }
    assert(cv.take(c@.len() as int) =~= cv);
    out
}

/// The listing cost of a skill: its name and description characters plus a
/// fixed overhead.
pub open spec fn listing_cost(name_chars: nat, desc_chars: nat) -> nat {
    name_chars + desc_chars + 20
}

/// Where `name` is among `costs`, or -1.
pub open spec fn name_index(costs: Seq<(Seq<char>, nat)>, name: Seq<char>) -> int
    decreases costs.len(),
{
    if costs.len() == 0 {
        -1
    } else if costs.last().0 == name {
        costs.len() - 1
    } else {
        name_index(costs.drop_last(), name)
    }
}

/// The skills in the automatic listing, each once with the cost of its last
/// entry (a later skill of the same name replaces an earlier one).
pub open spec fn listed(entries: Seq<(String, usize, usize)>) -> Seq<(Seq<char>, nat)>
    decreases entries.len(),
{
    if entries.len() == 0 {
        seq![]
    } else {
        let prev = listed(entries.drop_last());
        let e = entries.last();
        let i = name_index(prev, e.0@);
        if i >= 0 {
            prev.update(i, (e.0@, listing_cost(e.1 as nat, e.2 as nat)))
        } else {
            prev.push((e.0@, listing_cost(e.1 as nat, e.2 as nat)))
        }
    }
}

/// The listing's token estimate: a quarter of each listed skill's cost.
pub open spec fn listing_tokens(costs: Seq<(Seq<char>, nat)>) -> nat
    decreases costs.len(),
{
    if costs.len() == 0 {
        0
    } else {
        listing_tokens(costs.drop_last()) + costs.last().1 / 4
    }
}

proof fn lemma_name_index_bounds(costs: Seq<(Seq<char>, nat)>, name: Seq<char>)
    ensures
        -1 <= name_index(costs, name) < costs.len(),
        name_index(costs, name) >= 0 ==> costs[name_index(costs, name)].0 == name,
    decreases costs.len(),
{
    if costs.len() > 0 && costs.last().0 != name {
        lemma_name_index_bounds(costs.drop_last(), name);
    }
}

proof fn lemma_listing_tokens_prefix(costs: Seq<(Seq<char>, nat)>, k: int)
    requires
        0 <= k <= costs.len(),
    ensures
        listing_tokens(costs.take(k)) <= listing_tokens(costs),
    decreases costs.len() - k,
{
    if k < costs.len() {
        lemma_listing_tokens_prefix(costs, k + 1);
        assert(costs.take(k + 1).drop_last() =~= costs.take(k));
    } else {
        assert(costs.take(k) =~= costs);
    }
}

/// The pairs as values.
pub open spec fn cost_view(v: Seq<(String, u128)>) -> Seq<(Seq<char>, nat)> {
    v.map_values(|p: (String, u128)| (p.0@, p.1 as nat))
}

/// The listing's token estimate and the number of listed skills (see
/// [`listed`] and [`listing_tokens`]); `None` when the estimate does not fit
/// in `usize`.
pub fn listing_summary(entries: &Vec<(String, usize, usize)>) -> (r: Option<(usize, usize)>)
    ensures
        match r {
            Some((tokens, count)) => tokens == listing_tokens(listed(entries@)) && count == listed(entries@).len(),
            None => listing_tokens(listed(entries@)) > usize::MAX,
        },
{
    let mut state: Vec<(String, u128)> = Vec::new();
    let mut i: usize = 0;
    assert(cost_view(state@) =~= seq![]);
    while i < entries.len()
        invariant
            i <= entries@.len(),
            cost_view(state@) == listed(entries@.take(i as int)),
            forall|j: int| 0 <= j < state@.len() ==> (#[trigger] state@[j]).1 <= 0x4_0000_0000_0000_0000u128,
        decreases entries@.len() - i,
    {
        let ghost t = entries@.take(i + 1);
        assert(t.drop_last() =~= entries@.take(i as int));
        assert(t.last() == entries@[i as int]);
        let ghost prev = cost_view(state@);
        let (name, a, b) = &entries[i];
        let cost: u128 = (*a as u128) + (*b as u128) + 20;
        let mut j = state.len();
        proof {
            assert(prev.take(j as int) =~= prev);
        }
        while j > 0 && !str_eq(state[j - 1].0.as_str(), name.as_str())
            invariant
                j <= state@.len(),
                prev == cost_view(state@),
                name_index(prev, name@) == name_index(prev.take(j as int), name@),
            decreases j,
        {
            let ghost tp = prev.take(j as int);
            assert(tp.drop_last() =~= prev.take(j - 1));
            assert(tp.last() == (state@[j - 1].0@, state@[j - 1].1 as nat));
            j = j - 1;
        }
        let found = j > 0;
        proof {
            if j > 0 {
                let tp = prev.take(j as int);
                assert(tp.last() == (state@[j - 1].0@, state@[j - 1].1 as nat));
            }
        }
        proof {
            lemma_name_index_bounds(prev, name@);
        }
        if found {
            let ghost before = state@;
            state.set(j - 1, (owned(name.as_str()), cost));
            assert(cost_view(state@) =~= prev.update(j - 1, (name@, listing_cost(*a as nat, *b as nat))));
        } else {
            let ghost before = state@;
            state.push((owned(name.as_str()), cost));
            assert(cost_view(state@) =~= prev.push((name@, listing_cost(*a as nat, *b as nat))));
        }
        i = i + 1;
    }
    assert(entries@.take(entries@.len() as int) =~= entries@);
    let ghost all = cost_view(state@);
    let mut sum: u128 = 0;
    let mut k: usize = 0;
    while k < state.len()
        invariant
            k <= state@.len(),
            all == cost_view(state@),
            all == listed(entries@),
            sum == listing_tokens(all.take(k as int)),
            sum <= usize::MAX,
            forall|j: int| 0 <= j < state@.len() ==> (#[trigger] state@[j]).1 <= 0x4_0000_0000_0000_0000u128,
        decreases state@.len() - k,
    {
        let ghost tk = all.take(k + 1);
        assert(tk.drop_last() =~= all.take(k as int));
        assert(tk.last() == (state@[k as int].0@, state@[k as int].1 as nat));
        sum = sum + state[k].1 / 4;
        if sum > usize::MAX as u128 {
            proof {
                lemma_listing_tokens_prefix(all, k + 1);
            }
            return None;
        }
        k = k + 1;
    }
    assert(all.take(state@.len() as int) =~= all);
    Some((sum as usize, state.len()))
}

/// What the agent check says of each `(scope, name)` key that more than one
/// agent file declares, in key order: the loader silently keeps only one.
pub open spec fn agent_dup_report(ks: Seq<Seq<Seq<char>>>, items: Seq<(Vec<String>, String)>) -> Seq<FindingView>
    decreases ks.len(),
{
    if ks.len() == 0 {
        seq![]
    } else {
        let key = ks.last();
        let paths = crate::order::values_of(items, key);
        agent_dup_report(ks.drop_last(), items) + one_if(paths.len() > 1, fv("agent.duplicate-name"@, Severity::High,
            key[1] + " ("@ + key[0] + " scope)"@,
            "declared by "@ + decimal(paths.len()) + " files: "@ + crate::text::join_spec(paths, ", "@),
            "The loader keeps one and silently discards the rest. Rename or remove."@))
    }
}

/// What the agent check says of agent names declared twice within a scope:
/// `items` pairs each agent file's `[scope, name]` with its path, in the order
/// the files were read.
pub fn agent_duplicate_findings(items: &Vec<(Vec<String>, String)>) -> (r: Vec<Finding>)
    requires
        forall|i: int| 0 <= i < items@.len() ==> (#[trigger] items@[i]).0@.len() == 2,
    ensures
        views(r@) == agent_dup_report(crate::order::sorted_keys(items@), items@),
{
    let (keys, vals) = crate::order::group_by_key(items);
    let ghost kv = crate::order::key_view(keys@);
    let mut out: Vec<Finding> = Vec::new();
    let mut g: usize = 0;
    assert(views(out@) =~= seq![]);
    assert(kv.take(0) =~= seq![]);
    while g < keys.len()
        invariant
            g <= keys@.len(),
            keys@.len() == vals@.len(),
            kv == crate::order::key_view(keys@),
            kv == crate::order::sorted_keys(items@),
            forall|k: Seq<Seq<char>>| kv.contains(k) <==> crate::order::has_key(items@, k),
            forall|j: int| 0 <= j < vals@.len() ==> strs((#[trigger] vals@[j])@) == crate::order::values_of(items@, kv[j]),
            forall|i: int| 0 <= i < items@.len() ==> (#[trigger] items@[i]).0@.len() == 2,
            views(out@) == agent_dup_report(kv.take(g as int), items@),
        decreases keys@.len() - g,
    {
        let ghost t = kv.take(g + 1);
        assert(t.drop_last() =~= kv.take(g as int));
        assert(t.last() == kv[g as int]);
        proof {
            assert(kv.contains(kv[g as int]));
            let i = choose|i: int| 0 <= i < items@.len() && strs((#[trigger] items@[i]).0@) == kv[g as int];
            assert(strs(items@[i].0@).len() == 2);
            assert(kv[g as int] == strs(keys@[g as int]@));
        }
        let paths = &vals[g];
        if paths.len() > 1 {
            let key = &keys[g];
            assert(strs(key@).len() == 2);
            let mut subject = owned(key[1].as_str());
            push_all(&mut subject, " (");
            push_all(&mut subject, key[0].as_str());
            push_all(&mut subject, " scope)");
            let mut m = owned("declared by ");
            let n = decimal_string(paths.len() as u64);
            push_all(&mut m, n.as_str());
            push_all(&mut m, " files: ");
            let joined = crate::text::join_strings(paths, ", ");
            push_all(&mut m, joined.as_str());
            assert(strs(key@)[1] == key@[1]@ && strs(key@)[0] == key@[0]@);
            push(&mut out, "agent.duplicate-name", Severity::High, subject, m,
                "The loader keeps one and silently discards the rest. Rename or remove.");
        }
        assert(views(out@) =~= agent_dup_report(t, items@));
        g = g + 1;
    }
    assert(kv.take(keys@.len() as int) =~= kv);
    out
}

/// How a path given by its components displays.
pub open spec fn components_display(cs: Seq<Seq<char>>) -> Seq<char>
    decreases cs.len(),
{
    if cs.len() == 0 {
        seq![]
    } else {
        crate::paths::path_join(components_display(cs.drop_last()), cs.last())
    }
}

/// How a path given by its components displays.
fn display_components(cs: &Vec<String>) -> (r: String)
    ensures
        r@ == components_display(strs(cs@)),
{
    let mut out = String::new();
    let mut i: usize = 0;
    assert(strs(cs@).take(0) =~= seq![]);
    while i < cs.len()
        invariant
            i <= cs@.len(),
            out@ == components_display(strs(cs@).take(i as int)),
        decreases cs@.len() - i,
    {
        let ghost t = strs(cs@).take(i + 1);
        assert(t.drop_last() =~= strs(cs@).take(i as int));
        assert(t.last() == cs@[i as int]@);
        out = crate::paths::join(out.as_str(), cs[i].as_str());
        i = i + 1;
    }
    assert(strs(cs@).take(cs@.len() as int) =~= strs(cs@));
    out
}

/// What the farm check says of each resolved target that more than one link
/// of the farm `farm` points at, in target order: the names, sorted.
pub open spec fn farm_dup_report(farm: Seq<char>, ks: Seq<Seq<Seq<char>>>, items: Seq<(Vec<String>, String)>) -> Seq<FindingView>
    decreases ks.len(),
{
    if ks.len() == 0 {
        seq![]
    } else {
        let key = ks.last();
        let names = crate::order::values_of(items, key);
        farm_dup_report(farm, ks.drop_last(), items) + one_if(names.len() > 1, fv("farm.duplicate-target"@,
            Severity::Low, farm + " -> "@ + components_display(key),
            decimal(names.len()) + " names resolve to one skill: "@ + crate::text::join_spec(crate::order::str_sorted(names), ", "@),
            "Keep the canonical name; an alias shadows it under a stale identity."@))
    }
}

/// What the farm check says of names that resolve to one skill: `items` pairs
/// the components of each link's resolved target with the link's name, in the
/// order the farm was read.
pub fn farm_duplicate_findings(farm: &str, items: &Vec<(Vec<String>, String)>) -> (r: Vec<Finding>)
    ensures
        views(r@) == farm_dup_report(farm@, crate::order::sorted_keys(items@), items@),
{
    let (keys, vals) = crate::order::group_by_key(items);
    let ghost kv = crate::order::key_view(keys@);
    let mut out: Vec<Finding> = Vec::new();
    let mut g: usize = 0;
    assert(views(out@) =~= seq![]);
    assert(kv.take(0) =~= seq![]);
    while g < keys.len()
        invariant
            g <= keys@.len(),
            keys@.len() == vals@.len(),
            kv == crate::order::key_view(keys@),
            kv == crate::order::sorted_keys(items@),
            forall|j: int| 0 <= j < vals@.len() ==> strs((#[trigger] vals@[j])@) == crate::order::values_of(items@, kv[j]),
            views(out@) == farm_dup_report(farm@, kv.take(g as int), items@),
        decreases keys@.len() - g,
    {
        let ghost t = kv.take(g + 1);
        assert(t.drop_last() =~= kv.take(g as int));
        assert(t.last() == kv[g as int]);
        assert(kv[g as int] == strs(keys@[g as int]@));
        let names = &vals[g];
        if names.len() > 1 {
            let mut subject = owned(farm);
            push_all(&mut subject, " -> ");
            let d = display_components(&keys[g]);
            push_all(&mut subject, d.as_str());
            let sorted = crate::order::sort_strings(names);
            let mut m = decimal_string(names.len() as u64);
            push_all(&mut m, " names resolve to one skill: ");
            let joined = crate::text::join_strings(&sorted, ", ");
            push_all(&mut m, joined.as_str());
            push(&mut out, "farm.duplicate-target", Severity::Low, subject, m,
                "Keep the canonical name; an alias shadows it under a stale identity.");
        }
        assert(views(out@) =~= farm_dup_report(farm@, t, items@));
        g = g + 1;
    }
    assert(kv.take(keys@.len() as int) =~= kv);
    out
}

} // verus!
