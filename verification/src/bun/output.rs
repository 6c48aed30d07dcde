//! Text and markdown renderings of findings and planned fixes, and the
//! exit-code decision.
use vstd::prelude::*;

use crate::bun::types::{severity_rank, severity_upper, Finding, FixKind, PlannedFix, Severity};
use crate::text::{decimal, push_all, push_char, push_decimal};

verus! {

/// `n` spaces.
pub open spec fn spaces(n: nat) -> Seq<char>
    decreases n,
{
    if n == 0 {
        seq![]
    } else {
        spaces((n - 1) as nat).push(' ')
    }
}

/// `x` left-aligned in a field of `width` characters.
pub open spec fn pad_right(x: Seq<char>, width: nat) -> Seq<char> {
    if x.len() < width {
        x + spaces((width - x.len()) as nat)
    } else {
        x
    }
}

/// `prefix`, the value and a newline when the value is present; nothing otherwise.
pub open spec fn optional_line(prefix: Seq<char>, value: Option<String>) -> Seq<char> {
    match value {
        Some(v) => prefix + v@ + "\n"@,
        None => seq![],
    }
}

/// `file:line:column` of a finding.
pub open spec fn location(f: Finding) -> Seq<char> {
    f.file@ + ":"@ + decimal(f.line as nat) + ":"@ + decimal(f.column as nat)
}

/// The text block of one finding.
pub open spec fn finding_text_block(f: Finding) -> Seq<char> {
    pad_right(severity_upper(f.severity), 5) + " "@ + f.rule_id@ + " "@ + location(f) + "\n"@
        + "  "@ + f.message@ + "\n"@ + optional_line("  Why: "@, f.why) + optional_line(
        "  Fix: "@,
        f.suggested_fix,
    ) + optional_line("  "@, f.snippet)
}

/// The markdown block of one finding.
pub open spec fn finding_md_block(f: Finding) -> Seq<char> {
    "- **"@ + severity_upper(f.severity) + "** `"@ + f.rule_id@ + "` ("@ + location(f) + "): "@
        + f.message@ + "\n"@ + optional_line("  - Fix: "@, f.suggested_fix)
}

/// The name `{:?}` gives a fix kind.
pub open spec fn fix_kind_name(k: FixKind) -> Seq<char> {
    match k {
        FixKind::Safe => "Safe"@,
        FixKind::Unsafe => "Unsafe"@,
        FixKind::Manual => "Manual"@,
    }
}

/// The text block of one planned fix.
pub open spec fn fix_text_block(f: PlannedFix) -> Seq<char> {
    "- ["@ + fix_kind_name(f.kind) + "] "@ + f.rule_id@ + " "@ + f.file@ + "\n"@ + "  "@
        + f.description@ + "\n"@
}

/// The blocks of `fs`, one after another.
pub open spec fn join_findings(fs: Seq<Finding>, block: spec_fn(Finding) -> Seq<char>) -> Seq<char>
    decreases fs.len(),
{
    if fs.len() == 0 {
        seq![]
    } else {
        join_findings(fs.drop_last(), block) + block(fs.last())
    }
}

/// The blocks of the planned fixes, one after another.
pub open spec fn join_fixes(fs: Seq<PlannedFix>) -> Seq<char>
    decreases fs.len(),
{
    if fs.len() == 0 {
        seq![]
    } else {
        join_fixes(fs.drop_last()) + fix_text_block(fs.last())
    }
}

/// The line printed when an audit has nothing to report.
pub open spec fn no_findings_line() -> Seq<char> {
    "OK: no Bun platform audit findings.\n"@
}

/// What [`format_findings_text`] renders.
pub open spec fn findings_text(fs: Seq<Finding>) -> Seq<char> {
    if fs.len() == 0 {
        no_findings_line()
    } else {
        join_findings(fs, |f: Finding| finding_text_block(f))
    }
}

/// What [`format_findings_md`] renders.
pub open spec fn findings_md(fs: Seq<Finding>) -> Seq<char> {
    if fs.len() == 0 {
        no_findings_line()
    } else {
        "# Bun Platform Audit Findings\n\n"@ + join_findings(fs, |f: Finding| finding_md_block(f))
    }
}

/// What [`format_fixes_text`] renders.
pub open spec fn fixes_text(fs: Seq<PlannedFix>, applied: bool) -> Seq<char> {
    if fs.len() == 0 {
        if applied {
            "OK: no safe fixes were applicable.\n"@
        } else {
            "OK: no safe fixes were planned.\n"@
        }
    } else {
        (if applied {
            "Applied "@
        } else {
            "Planned "@
        }) + decimal(fs.len()) + " safe fix(es):\n"@ + join_fixes(fs)
    }
}

fn push_location(out: &mut String, f: &Finding)
    ensures
        final(out)@ == old(out)@ + location(*f),
{
    push_all(out, f.file.as_str());
    push_all(out, ":");
    push_decimal(out, f.line as u64);
    push_all(out, ":");
    push_decimal(out, f.column as u64);
}

fn push_optional_line(out: &mut String, prefix: &str, value: &Option<String>)
    ensures
        final(out)@ == old(out)@ + optional_line(prefix@, *value),
{
    match value {
        Some(v) => {
            push_all(out, prefix);
            push_all(out, v.as_str());
            push_all(out, "\n");
        },
        None => {
            assert(out@ =~= old(out)@ + optional_line(prefix@, *value));
        },
    }
}

proof fn lemma_spaces_len(n: nat)
    ensures
        spaces(n).len() == n,
        forall|i: int| 0 <= i < n ==> spaces(n)[i] == ' ',
    decreases n,
{
    if n > 0 {
        lemma_spaces_len((n - 1) as nat);
    }
}

fn push_padded(out: &mut String, s: &str, width: usize)
    ensures
        final(out)@ == old(out)@ + pad_right(s@, width as nat),
{
    let ghost start = out@;
    push_all(out, s);
    let n = crate::text::chars_of(s).len();
    let mut k: usize = n;
    while k < width
        invariant
            n == s@.len(),
            n <= k,
            k <= width || k == n,
            out@ == start + s@ + spaces((k - n) as nat),
        decreases width - k,
    {
        push_char(out, ' ');
        k = k + 1;
        assert(spaces((k - n) as nat) == spaces((k - n - 1) as nat).push(' '));
        assert(out@ =~= start + s@ + spaces((k - n) as nat));
    }
    if n < width {
        assert(k == width);
    } else {
        assert(spaces(0) =~= seq![]);
        assert(out@ =~= start + s@);
    }
}

/// Render findings as plain text, one block per finding, or a single OK line.
#[verifier::rlimit(40)]
pub fn format_findings_text(findings: &[Finding]) -> (r: String)
    ensures
        r@ == findings_text(findings@),
{
    if findings.len() == 0 {
        return crate::text::owned("OK: no Bun platform audit findings.\n");
    }
    let mut out = String::new();
    let ghost block = |f: Finding| finding_text_block(f);
    let mut i: usize = 0;
    while i < findings.len()
        invariant
            i <= findings@.len(),
            block == (|f: Finding| finding_text_block(f)),
            out@ == join_findings(findings@.take(i as int), block),
        decreases findings@.len() - i,
    {
        let f = &findings[i];
        let ghost before = out@;
        push_padded(&mut out, f.severity.as_upper(), 5);
        push_all(&mut out, " ");
        push_all(&mut out, f.rule_id.as_str());
        push_all(&mut out, " ");
        push_location(&mut out, f);
        push_all(&mut out, "\n");
        push_all(&mut out, "  ");
        push_all(&mut out, f.message.as_str());
        push_all(&mut out, "\n");
        push_optional_line(&mut out, "  Why: ", &f.why);
        push_optional_line(&mut out, "  Fix: ", &f.suggested_fix);
        push_optional_line(&mut out, "  ", &f.snippet);
        assert(out@ =~= before + finding_text_block(*f));
        assert(findings@.take(i + 1).drop_last() =~= findings@.take(i as int));
        i = i + 1;
    }
    assert(findings@.take(findings@.len() as int) =~= findings@);
    out
}

/// Render findings as a markdown list, or a single OK line.
pub fn format_findings_md(findings: &[Finding]) -> (r: String)
    ensures
        r@ == findings_md(findings@),
{
    if findings.len() == 0 {
        return crate::text::owned("OK: no Bun platform audit findings.\n");
    }
    let mut out = crate::text::owned("# Bun Platform Audit Findings\n\n");
    let ghost header = out@;
    let ghost block = |f: Finding| finding_md_block(f);
    let mut i: usize = 0;
    while i < findings.len()
        invariant
            i <= findings@.len(),
            header == "# Bun Platform Audit Findings\n\n"@,
            block == (|f: Finding| finding_md_block(f)),
            out@ == header + join_findings(findings@.take(i as int), block),
        decreases findings@.len() - i,
    {
        let f = &findings[i];
        let ghost before = out@;
        push_all(&mut out, "- **");
        push_all(&mut out, f.severity.as_upper());
        push_all(&mut out, "** `");
        push_all(&mut out, f.rule_id.as_str());
        push_all(&mut out, "` (");
        push_location(&mut out, f);
        push_all(&mut out, "): ");
        push_all(&mut out, f.message.as_str());
        push_all(&mut out, "\n");
        push_optional_line(&mut out, "  - Fix: ", &f.suggested_fix);
        assert(out@ =~= before + finding_md_block(*f));
        assert(findings@.take(i + 1).drop_last() =~= findings@.take(i as int));
        i = i + 1;
    }
    assert(findings@.take(findings@.len() as int) =~= findings@);
    out
}

/// The `{:?}` name of a fix kind.
fn fix_kind_str(k: FixKind) -> (r: &'static str)
    ensures
        r@ == fix_kind_name(k),
{
    match k {
        FixKind::Safe => "Safe",
        FixKind::Unsafe => "Unsafe",
        FixKind::Manual => "Manual",
    }
}

/// Render planned or applied fixes as text, or a single OK line.
pub fn format_fixes_text(fixes: &[PlannedFix], applied: bool) -> (r: String)
    ensures
        r@ == fixes_text(fixes@, applied),
{
    if fixes.len() == 0 {
        if applied {
            return crate::text::owned("OK: no safe fixes were applicable.\n");
        } else {
            return crate::text::owned("OK: no safe fixes were planned.\n");
        }
    }
    let mut out = if applied {
        crate::text::owned("Applied ")
    } else {
        crate::text::owned("Planned ")
    };
    push_decimal(&mut out, fixes.len() as u64);
    push_all(&mut out, " safe fix(es):\n");
    let ghost header = out@;
    let mut i: usize = 0;
    while i < fixes.len()
        invariant
            i <= fixes@.len(),
            header == (if applied {
                "Applied "@
            } else {
                "Planned "@
            }) + decimal(fixes@.len()) + " safe fix(es):\n"@,
            out@ == header + join_fixes(fixes@.take(i as int)),
        decreases fixes@.len() - i,
    {
        let f = &fixes[i];
        let ghost before = out@;
        push_all(&mut out, "- [");
        push_all(&mut out, fix_kind_str(f.kind));
        push_all(&mut out, "] ");
        push_all(&mut out, f.rule_id.as_str());
        push_all(&mut out, " ");
        push_all(&mut out, f.file.as_str());
        push_all(&mut out, "\n");
        push_all(&mut out, "  ");
        push_all(&mut out, f.description.as_str());
        push_all(&mut out, "\n");
        assert(out@ =~= before + fix_text_block(*f));
        assert(fixes@.take(i + 1).drop_last() =~= fixes@.take(i as int));
        i = i + 1;
    }
    assert(fixes@.take(fixes@.len() as int) =~= fixes@);
    out
}

/// Whether some finding is at least as severe as `fail_on`.
pub fn should_fail(findings: &[Finding], fail_on: Severity) -> (r: bool)
    ensures
        r == exists|i: int|
            0 <= i < findings@.len() && severity_rank(#[trigger] findings@[i].severity)
                >= severity_rank(fail_on),
{
    let mut i: usize = 0;
    while i < findings.len()
        invariant
            i <= findings@.len(),
            forall|j: int|
                0 <= j < i ==> severity_rank(#[trigger] findings@[j].severity) < severity_rank(
                    fail_on,
                ),
        decreases findings@.len() - i,
    {
        if findings[i].severity.rank() >= fail_on.rank() {
            return true;
        }
        i = i + 1;
    }
    false
}

} // verus!
