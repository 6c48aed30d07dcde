//! The terminal workbench's navigation and guards.
use vstd::prelude::*;

use crate::dev::numbers::{find_chars, find_from};
use crate::text::{chars_of, decimal, owned, push_all, push_decimal, substring};

verus! {

/// Runs a terminal-restoring cleanup at most once, when `restore_now` is called.
pub struct RestoreGuard<F: FnMut()> {
    restore: F,
    armed: bool,
}

impl<F: FnMut()> RestoreGuard<F> {
    /// An armed guard around a cleanup callback.
    pub fn new(restore: F) -> (r: Self)
        ensures
            r.is_armed(),
            r.callback() == restore,
    {
        RestoreGuard { restore, armed: true }
    }

    /// Whether the cleanup has yet to run.
    pub closed spec fn is_armed(&self) -> bool {
        self.armed
    }

    /// The cleanup callback.
    pub closed spec fn callback(&self) -> F {
        self.restore
    }

    /// Runs the cleanup now unless it already ran; afterwards it never runs again.
    pub fn restore_now(&mut self)
        requires
            old(self).is_armed() ==> call_requires(old(self).callback(), ()),
        ensures
            !final(self).is_armed(),
            !old(self).is_armed() ==> *final(self) == *old(self),
    {
        if self.armed {
            (self.restore)();
            self.armed = false;
        }
    }
}

/// High-level actions the workbench event loop understands.
#[derive(Clone, Copy, Debug, PartialEq, Eq, Structural)]
pub enum WorkbenchEvent {
    Quit,
    NextPanel,
    PreviousPanel,
    NextItem,
    PreviousItem,
    OpenSelected,
    Dashboard,
    CycleFilter,
    CycleSort,
    Refresh,
}

/// The panel shown in the workbench's detail area.
#[derive(Clone, Copy, Debug, PartialEq, Eq, Structural)]
pub enum Panel {
    Overview,
    Validation,
    Pr,
    Help,
}

/// The panel after `p`, wrapping around.
pub open spec fn panel_after(p: Panel) -> Panel {
    match p {
        Panel::Overview => Panel::Validation,
        Panel::Validation => Panel::Pr,
        Panel::Pr => Panel::Help,
        Panel::Help => Panel::Overview,
    }
}

/// The panel before `p`, wrapping around.
pub open spec fn panel_before(p: Panel) -> Panel {
    match p {
        Panel::Overview => Panel::Help,
        Panel::Validation => Panel::Overview,
        Panel::Pr => Panel::Validation,
        Panel::Help => Panel::Pr,
    }
}

/// The title of a panel.
pub open spec fn panel_title(p: Panel) -> Seq<char> {
    match p {
        Panel::Overview => "Overview"@,
        Panel::Validation => "Validation"@,
        Panel::Pr => "PR"@,
        Panel::Help => "Help"@,
    }
}

impl Panel {
    /// The next panel, wrapping around.
    pub fn next(self) -> (r: Panel)
        ensures
            r == panel_after(self),
    {
        match self {
            Panel::Overview => Panel::Validation,
            Panel::Validation => Panel::Pr,
            Panel::Pr => Panel::Help,
            Panel::Help => Panel::Overview,
        }
    }

    /// The previous panel, wrapping around.
    pub fn previous(self) -> (r: Panel)
        ensures
            r == panel_before(self),
    {
        match self {
            Panel::Overview => Panel::Help,
            Panel::Validation => Panel::Overview,
            Panel::Pr => Panel::Validation,
            Panel::Help => Panel::Pr,
        }
    }

    /// The title of this panel.
    pub fn title(self) -> (r: &'static str)
        ensures
            r@ == panel_title(self),
    {
        match self {
            Panel::Overview => "Overview",
            Panel::Validation => "Validation",
            Panel::Pr => "PR",
            Panel::Help => "Help",
        }
    }
}

/// Moving to the next panel and back, or back and then on, returns to where
/// one started; four steps forward go all the way round.
pub proof fn lemma_panel_navigation_wraps(p: Panel)
    ensures
        panel_before(panel_after(p)) == p,
        panel_after(panel_before(p)) == p,
        panel_after(panel_after(panel_after(panel_after(p)))) == p,
        panel_after(p) != p,
{
}

/// Which capsules the dashboard lists.
#[derive(Clone, Copy, Debug, PartialEq, Eq, Structural)]
pub enum DashboardFilter {
    All,
    Active,
    InReview,
    Invalid,
    HasPr,
}

/// The filter after `f`, wrapping around.
pub open spec fn filter_after(f: DashboardFilter) -> DashboardFilter {
    match f {
        DashboardFilter::All => DashboardFilter::Active,
        DashboardFilter::Active => DashboardFilter::InReview,
        DashboardFilter::InReview => DashboardFilter::Invalid,
        DashboardFilter::Invalid => DashboardFilter::HasPr,
        DashboardFilter::HasPr => DashboardFilter::All,
    }
}

/// The short name of a filter.
pub open spec fn filter_title(f: DashboardFilter) -> Seq<char> {
    match f {
        DashboardFilter::All => "all"@,
        DashboardFilter::Active => "active"@,
        DashboardFilter::InReview => "review"@,
        DashboardFilter::Invalid => "invalid"@,
        DashboardFilter::HasPr => "has-pr"@,
    }
}

impl DashboardFilter {
    /// The next filter, wrapping around.
    pub fn next(self) -> (r: DashboardFilter)
        ensures
            r == filter_after(self),
    {
        match self {
            DashboardFilter::All => DashboardFilter::Active,
            DashboardFilter::Active => DashboardFilter::InReview,
            DashboardFilter::InReview => DashboardFilter::Invalid,
            DashboardFilter::Invalid => DashboardFilter::HasPr,
            DashboardFilter::HasPr => DashboardFilter::All,
        }
    }

    /// The short name of this filter.
    pub fn title(self) -> (r: &'static str)
        ensures
            r@ == filter_title(self),
    {
        match self {
            DashboardFilter::All => "all",
            DashboardFilter::Active => "active",
            DashboardFilter::InReview => "review",
            DashboardFilter::Invalid => "invalid",
            DashboardFilter::HasPr => "has-pr",
        }
    }
}

/// How the dashboard orders capsules.
#[derive(Clone, Copy, Debug, PartialEq, Eq, Structural)]
pub enum DashboardSort {
    UpdatedDesc,
    TitleAsc,
    StatusAsc,
}

/// The sort after `s`, wrapping around.
pub open spec fn sort_after(s: DashboardSort) -> DashboardSort {
    match s {
        DashboardSort::UpdatedDesc => DashboardSort::TitleAsc,
        DashboardSort::TitleAsc => DashboardSort::StatusAsc,
        DashboardSort::StatusAsc => DashboardSort::UpdatedDesc,
    }
}

/// The short name of a sort.
pub open spec fn sort_title(s: DashboardSort) -> Seq<char> {
    match s {
        DashboardSort::UpdatedDesc => "updated"@,
        DashboardSort::TitleAsc => "title"@,
        DashboardSort::StatusAsc => "status"@,
    }
}

impl DashboardSort {
    /// The next sort, wrapping around.
    pub fn next(self) -> (r: DashboardSort)
        ensures
            r == sort_after(self),
    {
        match self {
            DashboardSort::UpdatedDesc => DashboardSort::TitleAsc,
            DashboardSort::TitleAsc => DashboardSort::StatusAsc,
            DashboardSort::StatusAsc => DashboardSort::UpdatedDesc,
        }
    }

    /// The short name of this sort.
    pub fn title(self) -> (r: &'static str)
        ensures
            r@ == sort_title(self),
    {
        match self {
            DashboardSort::UpdatedDesc => "updated",
            DashboardSort::TitleAsc => "title",
            DashboardSort::StatusAsc => "status",
        }
    }
}

/// Cycling the filter visits all five filters and comes back; cycling the
/// sort visits all three and comes back.
pub proof fn lemma_dashboard_cycles(f: DashboardFilter, s: DashboardSort)
    ensures
        filter_after(filter_after(filter_after(filter_after(filter_after(f))))) == f,
        filter_after(f) != f,
        sort_after(sort_after(sort_after(s))) == s,
        sort_after(s) != s,
{
}

/// The selection after moving down a list of `len` entries: one further, but
/// never past the last.
pub open spec fn selection_after_next(selected: nat, len: nat) -> nat {
    if len > 0 {
        if selected + 1 <= len - 1 { selected + 1 } else { (len - 1) as nat }
    } else {
        selected
    }
}

/// Moves a selection down a list of `len` entries.
pub fn next_selection(selected: usize, len: usize) -> (r: usize)
    ensures
        r == selection_after_next(selected as nat, len as nat),
{
    if len > 0 {
        let up = if selected < usize::MAX { selected + 1 } else { selected };
        if up <= len - 1 { up } else { len - 1 }
    } else {
        selected
    }
}

/// Moves a selection up: one back, but never before the first.
pub fn previous_selection(selected: usize) -> (r: usize)
    ensures
        r == if selected > 0 { selected - 1 } else { 0 },
{
    if selected > 0 {
        selected - 1
    } else {
        selected
    }
}

/// Keeps a selection within a list of `len` entries.
pub fn clamp_selection(selected: usize, len: usize) -> (r: usize)
    ensures
        len == 0 ==> r == 0,
        len > 0 ==> r == if selected >= len { (len - 1) as usize } else { selected },
{
    if len == 0 {
        0
    } else if selected >= len {
        len - 1
    } else {
        selected
    }
}

/// The first row shown when `visible_rows` rows of a list of `len` entries are
/// shown around the selection.
pub open spec fn window_start(selected: nat, len: nat, visible_rows: nat) -> nat {
    let up: nat = if selected + 1 > usize::MAX { usize::MAX as nat } else { selected + 1 };
    if len <= visible_rows {
        0
    } else if up >= visible_rows {
        (up - visible_rows) as nat
    } else {
        0
    }
}

/// The first dashboard row shown so that the selection stays visible.
pub fn dashboard_window_start(selected: usize, len: usize, visible_rows: usize) -> (r: usize)
    ensures
        r == window_start(selected as nat, len as nat, visible_rows as nat),
{
    if len <= visible_rows {
        0
    } else {
        let up = selected.saturating_add(1);
        if up >= visible_rows { up - visible_rows } else { 0 }
    }
}

/// With at least one visible row, the window always shows the selected entry.
pub proof fn lemma_window_shows_selection(selected: nat, len: nat, visible_rows: nat)
    requires
        visible_rows > 0,
        selected < len,
        len <= usize::MAX,
    ensures
        window_start(selected, len, visible_rows) <= selected < window_start(selected, len, visible_rows) + visible_rows,
{
}

/// What rendering one frame produced.
#[derive(Debug, PartialEq, Eq)]
pub struct RenderOnceResult {
    /// The rendered terminal buffer as plain text.
    pub output: String,
    /// Whether the rendered state should make the render-once command succeed.
    pub valid: bool,
}

/// Render dimensions must both be positive.
pub fn ensure_render_dimensions(width: u16, height: u16) -> (r: Result<(), String>)
    ensures
        r is Ok <==> (width > 0 && height > 0),
        r matches Err(m) ==> m@ == "--width and --height must be greater than 0"@,
{
    if width == 0 || height == 0 {
        return Err(crate::text::owned("--width and --height must be greater than 0"));
    }
    Ok(())
}

/// The duration `std::time::Duration::from_millis` gives for `ms` milliseconds.
pub uninterp spec fn millis_duration(ms: u64) -> core::time::Duration;

/// Calls `std::time::Duration::from_millis`. The contract names the result.
#[verifier::external_body]
fn duration_from_millis(ms: u64) -> (r: core::time::Duration)
    ensures
        r == millis_duration(ms),
{
    core::time::Duration::from_millis(ms)
}

/// The interval between redraws: a positive number of milliseconds.
pub fn interactive_tick_rate(tick_ms: u64) -> (r: Result<core::time::Duration, String>)
    ensures
        tick_ms > 0 ==> r == Ok::<core::time::Duration, String>(millis_duration(tick_ms)),
        tick_ms == 0 ==> (r matches Err(m) && m@ == "--tick-ms must be greater than 0"@),
{
    if tick_ms == 0 {
        return Err(crate::text::owned("--tick-ms must be greater than 0"));
    }
    Ok(duration_from_millis(tick_ms))
}

/// `s` with every occurrence of `pat` (non-empty), left to right, replaced by `rep`.
pub open spec fn replace_all(s: Seq<char>, pat: Seq<char>, rep: Seq<char>) -> Seq<char>
    decreases s.len(),
{
    let i = find_from(s, pat, 0);
    if pat.len() == 0 || i < 0 {
        s
    } else {
        proof {
            crate::dev::numbers::lemma_find_from_bounds(s, pat, 0);
        }
        s.take(i) + rep + replace_all(s.skip(i + pat.len()), pat, rep)
    }
}

proof fn lemma_find_from_shift(s: Seq<char>, pat: Seq<char>, k: int)
    requires
        0 <= k <= s.len(),
    ensures
        find_from(s, pat, k) >= 0 ==> find_from(s.skip(k), pat, 0) == find_from(s, pat, k) - k,
        find_from(s, pat, k) < 0 ==> find_from(s.skip(k), pat, 0) < 0,
    decreases s.len() + 1 - k,
{
    lemma_find_from_shift_at(s, pat, k, k);
}

proof fn lemma_find_from_shift_at(s: Seq<char>, pat: Seq<char>, k: int, j: int)
    requires
        0 <= k <= j,
        k <= s.len(),
        j <= s.len() + 1,
    ensures
        find_from(s, pat, j) >= 0 ==> find_from(s.skip(k), pat, j - k) == find_from(s, pat, j) - k,
        find_from(s, pat, j) < 0 ==> find_from(s.skip(k), pat, j - k) < 0,
    decreases s.len() + 1 - j,
{
    let t = s.skip(k);
    if j + pat.len() > s.len() {
        assert(j - k + pat.len() > t.len());
    } else {
        assert(t.subrange(j - k, j - k + pat.len()) =~= s.subrange(j, j + pat.len()));
        if !crate::dev::numbers::occurs_at(s, pat, j) {
            lemma_find_from_shift_at(s, pat, k, j + 1);
        }
    }
}

/// `text` with every occurrence of `path` replaced by `placeholder`; an empty
/// path leaves the text alone.
pub fn redact_path_text_with_placeholder(text: &str, path: &str, placeholder: &str) -> (r: String)
    ensures
        r@ == replace_all(text@, path@, placeholder@),
{
    let p = chars_of(path);
    if p.len() == 0 {
        return owned(text);
    }
    let cs = chars_of(text);
    let mut out = String::new();
    let mut at: usize = 0;
    let ghost target = replace_all(text@, path@, placeholder@);
    assert(cs@.skip(0) =~= cs@);
    while at <= cs.len()
        invariant
            cs@ == text@,
            p@ == path@,
            p@.len() > 0,
            at <= cs@.len(),
            out@ + replace_all(cs@.skip(at as int), p@, placeholder@) == target,
            target == replace_all(text@, path@, placeholder@),
        decreases cs@.len() + 1 - at,
    {
        proof {
            lemma_find_from_shift(cs@, p@, at as int);
        }
        match find_chars(&cs, &p, at) {
            Some(i) => {
                let ghost rest = cs@.skip(at as int);
                assert(find_from(rest, p@, 0) == i - at);
                push_all(&mut out, substring(&cs, at, i).as_str());
                push_all(&mut out, placeholder);
                proof {
                    assert(rest.take(i - at) =~= cs@.subrange(at as int, i as int));
                    assert(rest.skip(i - at + p@.len()) =~= cs@.skip(i + p@.len()));
                }
                at = i + p.len();
            },
            None => {
                assert(find_from(cs@.skip(at as int), p@, 0) < 0);
                let n = cs.len();
                push_all(&mut out, substring(&cs, at, n).as_str());
                proof {
                    assert(cs@.skip(at as int) =~= cs@.subrange(at as int, n as int));
                    assert(replace_all(cs@.skip(at as int), p@, placeholder@) == cs@.skip(at as int));
                }
                return out;
            },
        }
    }
    out
}

/// `text` with the capsule path replaced by `<capsule>`.
pub fn redact_path_text(text: &str, path: &str) -> (r: String)
    ensures
        r@ == replace_all(text@, path@, "<capsule>"@),
{
    redact_path_text_with_placeholder(text, path, "<capsule>")
}

/// Numbers joined with `, `, or `none`.
pub open spec fn joined_numbers(ns: Seq<u64>) -> Seq<char>
    decreases ns.len(),
{
    if ns.len() == 0 {
        "none"@
    } else if ns.len() == 1 {
        decimal(ns[0] as nat)
    } else {
        joined_numbers(ns.drop_last()) + ", "@ + decimal(ns.last() as nat)
    }
}

/// Renders a list of numbers for the workbench.
pub fn join_numbers(values: &Vec<u64>) -> (r: String)
    ensures
        r@ == joined_numbers(values@),
{
    if values.len() == 0 {
        return owned("none");
    }
    let mut out = String::new();
    push_decimal(&mut out, values[0]);
    let mut i: usize = 1;
    while i < values.len()
        invariant
            1 <= i <= values@.len(),
            out@ == joined_numbers(values@.take(i as int)),
        decreases values@.len() - i,
    {
        push_all(&mut out, ", ");
        push_decimal(&mut out, values[i]);
        proof {
            let t = values@.take(i + 1);
            assert(t.drop_last() =~= values@.take(i as int));
        }
        i = i + 1;
    }
    assert(values@.take(values@.len() as int) =~= values@);
    out
}

/// How the unresolved review-thread count reads: the count once checked
/// authoritatively, else `not checked`.
pub open spec fn unresolved_label(t: crate::dev::pr::ReviewThreadSummary) -> Seq<char> {
    if t.authoritative {
        decimal(t.unresolved as nat)
    } else {
        "not checked"@
    }
}

/// How the unresolved review-thread count reads.
pub fn review_thread_unresolved_label(summary: &crate::dev::pr::ReviewThreadSummary) -> (r: String)
    ensures
        r@ == unresolved_label(*summary),
{
    if summary.authoritative {
        let mut m = String::new();
        push_decimal(&mut m, summary.unresolved);
        m
    } else {
        owned("not checked")
    }
}

/// An error message fit for the command line: the capsule path replaced by
/// `<capsule>`.
pub fn sanitized_cli_error(message: &str, capsule_path: &str) -> (r: String)
    ensures
        r@ == replace_all(message@, capsule_path@, "<capsule>"@),
{
    redact_path_text_with_placeholder(message, capsule_path, "<capsule>")
}

} // verus!
