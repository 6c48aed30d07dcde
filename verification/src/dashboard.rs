//! The multi-capsule dashboard and the single-capsule workbench of the
//! terminal UI: which capsules are listed and in what order, what is
//! selected, what each panel says, and what each key does.
use vstd::prelude::*;

use crate::dev::capsule::{GateRecord, StatusResult, ValidationResult, Verification};
use crate::dev::kinds::{capsule_status_name, CapsuleStatus};
use crate::dev::ledger::{lex_less, str_less};
use crate::dev::pr::{pr_label, CheckRecord, PrEvidence};
use crate::dev::subagents::{SubagentBatch, Subagents};
use crate::dev::time::{instant_of, rfc3339_shown, show_rfc3339, utc_instant};
use crate::audit_gate::str_eq;
use crate::text::{decimal, join_spec, owned, push_all, push_decimal, strs};
use crate::tui::{
    clamp_selection, filter_after, joined_numbers, next_selection, panel_after, panel_before, panel_title,
    previous_selection, replace_all, selection_after_next, sort_after, unresolved_label, window_start,
    DashboardFilter, DashboardSort, Panel,
};

verus! {

/// One capsule as the dashboard lists it.
#[derive(Clone, Debug)]
pub struct DashboardCapsule {
    pub path: String,
    pub display_title: String,
    pub status_label: String,
    pub updated_label: String,
    pub validation: ValidationResult,
    pub capsule: Option<StatusResult>,
    pub verification: Option<Verification>,
    pub subagents: Option<Subagents>,
    pub pr: Option<PrEvidence>,
    pub diagnostics: Vec<String>,
}

/// Whether a capsule is listed under `f`: every capsule under all, invalid
/// ones under invalid, active, blocked and ready ones under active, those in
/// review under in-review, and those with a pull request (numbered, or in a
/// state other than not created) under has-PR.
pub open spec fn capsule_matches(c: DashboardCapsule, f: DashboardFilter) -> bool {
    match f {
        DashboardFilter::All => true,
        DashboardFilter::Invalid => !c.validation.valid,
        DashboardFilter::Active => c.capsule matches Some(s) && (s.status == CapsuleStatus::Active || s.status
            == CapsuleStatus::Blocked || s.status == CapsuleStatus::ReadyForPr),
        DashboardFilter::InReview => c.capsule matches Some(s) && s.status == CapsuleStatus::InReview,
        DashboardFilter::HasPr => c.pr matches Some(p) && (p.number is Some || p.state@ != "not_created"@),
    }
}

/// The active filter lists exactly the capsules whose status is active,
/// blocked or ready for a pull request: a capsule waiting to be opened as a
/// pull request still counts as work in progress, while one in review,
/// merged or closed does not, and one without a readable status never does.
pub proof fn law_active_filter_lists_open_capsules(c: DashboardCapsule)
    ensures
        capsule_matches(c, DashboardFilter::Active) <==> (c.capsule is Some && (c.capsule->0.status
            == CapsuleStatus::Active || c.capsule->0.status == CapsuleStatus::Blocked || c.capsule->0.status
            == CapsuleStatus::ReadyForPr)),
        c.capsule is Some && c.capsule->0.status == CapsuleStatus::ReadyForPr ==> capsule_matches(
            c,
            DashboardFilter::Active,
        ),
        c.capsule is Some && c.capsule->0.status == CapsuleStatus::InReview ==> !capsule_matches(
            c,
            DashboardFilter::Active,
        ) && capsule_matches(c, DashboardFilter::InReview),
{
}

/// The has-PR filter lists exactly the capsules with pull-request evidence
/// that either carries a number or is in a state other than not created; a
/// capsule with no evidence is never listed.
pub proof fn law_has_pr_filter_lists_opened_prs(c: DashboardCapsule)
    ensures
        capsule_matches(c, DashboardFilter::HasPr) <==> (c.pr is Some && (c.pr->0.number is Some
            || c.pr->0.state@ != "not_created"@)),
        c.pr is None ==> !capsule_matches(c, DashboardFilter::HasPr),
        c.pr is Some && c.pr->0.number is Some ==> capsule_matches(c, DashboardFilter::HasPr),
{
}

impl DashboardCapsule {
    /// Whether this capsule is listed under `filter` (see [`capsule_matches`]).
    pub fn matches_filter(&self, filter: DashboardFilter) -> (r: bool)
        ensures
            r == capsule_matches(*self, filter),
            filter == DashboardFilter::All ==> r,
            filter == DashboardFilter::Invalid ==> (r <==> !self.validation.valid),
            filter == DashboardFilter::Active ==> (r <==> (self.capsule is Some && (self.capsule->0.status
                == CapsuleStatus::Active || self.capsule->0.status == CapsuleStatus::Blocked
                || self.capsule->0.status == CapsuleStatus::ReadyForPr))),
            filter == DashboardFilter::InReview ==> (r <==> (self.capsule is Some && self.capsule->0.status
                == CapsuleStatus::InReview)),
            filter == DashboardFilter::HasPr ==> (r <==> (self.pr is Some && (self.pr->0.number is Some
                || self.pr->0.state@ != "not_created"@))),
    {
        proof {
            law_active_filter_lists_open_capsules(*self);
            law_has_pr_filter_lists_opened_prs(*self);
        }
        match filter {
            DashboardFilter::All => true,
            DashboardFilter::Invalid => !self.validation.valid,
            DashboardFilter::Active => match &self.capsule {
                Some(s) => match s.status {
                    CapsuleStatus::Active | CapsuleStatus::Blocked | CapsuleStatus::ReadyForPr => true,
                    _ => false,
                },
                None => false,
            },
            DashboardFilter::InReview => match &self.capsule {
                Some(s) => match s.status {
                    CapsuleStatus::InReview => true,
                    _ => false,
                },
                None => false,
            },
            DashboardFilter::HasPr => match &self.pr {
                Some(p) => p.number.is_some() || !str_eq(p.state.as_str(), "not_created"),
                None => false,
            },
        }
    }
}

/// The positions of the capsules listed under `f`, in order.
pub open spec fn filter_indices(cs: Seq<DashboardCapsule>, f: DashboardFilter) -> Seq<int>
    decreases cs.len(),
{
    if cs.len() == 0 {
        seq![]
    } else {
        filter_indices(cs.drop_last(), f) + if capsule_matches(cs.last(), f) {
            seq![cs.len() - 1]
        } else {
            seq![]
        }
    }
}

/// The listed positions are positions of the list, in increasing order.
pub proof fn lemma_filter_indices(cs: Seq<DashboardCapsule>, f: DashboardFilter)
    ensures
        filter_indices(cs, f).len() <= cs.len(),
        forall|j: int| 0 <= j < filter_indices(cs, f).len() ==> 0 <= #[trigger] filter_indices(cs, f)[j] < cs.len()
            && capsule_matches(cs[filter_indices(cs, f)[j]], f),
    decreases cs.len(),
{
    if cs.len() > 0 {
        lemma_filter_indices(cs.drop_last(), f);
        let p = filter_indices(cs.drop_last(), f);
        assert forall|j: int| 0 <= j < filter_indices(cs, f).len() implies 0 <= #[trigger] filter_indices(cs, f)[j]
            < cs.len() && capsule_matches(cs[filter_indices(cs, f)[j]], f) by {
            if j < p.len() {
                assert(filter_indices(cs, f)[j] == p[j]);
                assert(cs[p[j]] == cs.drop_last()[p[j]]);
            }
        }
    }
}

/// The order the dashboard compares capsules by: when each was last updated
/// (as seconds and nanoseconds, when its status reads and the time parses),
/// its title, status and path.
pub struct DashKey {
    pub updated: Option<(i64, u32)>,
    pub title: Seq<char>,
    pub status: Seq<char>,
    pub path: Seq<char>,
}

/// What a capsule is compared by.
pub open spec fn dash_key(c: DashboardCapsule) -> DashKey {
    DashKey {
        updated: match c.capsule {
            Some(s) => utc_instant(s.updated_at@),
            None => None,
        },
        title: c.display_title@,
        status: c.status_label@,
        path: c.path@,
    }
}

/// Whether instant `a` comes before instant `b`.
pub open spec fn instant_less(a: (i64, u32), b: (i64, u32)) -> bool {
    a.0 < b.0 || (a.0 == b.0 && a.1 < b.1)
}

/// Whether `a` sorts before `b` by title, then path.
pub open spec fn title_before(a: DashKey, b: DashKey) -> bool {
    lex_less(a.title, b.title) || (a.title == b.title && lex_less(a.path, b.path))
}

/// Whether capsule key `a` sorts strictly before `b` under `sort`: most
/// recently updated first (capsules without a time last), by title, or by
/// status; ties broken by title and then path.
pub open spec fn dash_before(a: DashKey, b: DashKey, sort: DashboardSort) -> bool {
    match sort {
        DashboardSort::UpdatedDesc => match (a.updated, b.updated) {
            (Some(x), Some(y)) => instant_less(y, x) || (x == y && title_before(a, b)),
            (Some(_), None) => true,
            (None, Some(_)) => false,
            (None, None) => title_before(a, b),
        },
        DashboardSort::TitleAsc => title_before(a, b),
        DashboardSort::StatusAsc => lex_less(a.status, b.status) || (a.status == b.status && title_before(a, b)),
    }
}

/// Where `x` goes among `sorted`: before the first capsule it sorts before.
pub open spec fn insert_point(sorted: Seq<DashboardCapsule>, x: DashboardCapsule, sort: DashboardSort) -> nat
    decreases sorted.len(),
{
    if sorted.len() == 0 || dash_before(dash_key(x), dash_key(sorted[0]), sort) {
        0
    } else {
        1 + insert_point(sorted.drop_first(), x, sort)
    }
}

/// The capsules sorted by `sort`, stably: each inserted in turn before the
/// first already placed capsule it sorts before.
pub open spec fn sorted_capsules(cs: Seq<DashboardCapsule>, sort: DashboardSort) -> Seq<DashboardCapsule>
    decreases cs.len(),
{
    if cs.len() == 0 {
        seq![]
    } else {
        let s = sorted_capsules(cs.drop_last(), sort);
        s.insert(insert_point(s, cs.last(), sort) as int, cs.last())
    }
}

/// Sorting keeps the number of capsules.
pub proof fn lemma_sorted_len(cs: Seq<DashboardCapsule>, sort: DashboardSort)
    ensures
        sorted_capsules(cs, sort).len() == cs.len(),
    decreases cs.len(),
{
    if cs.len() > 0 {
        lemma_sorted_len(cs.drop_last(), sort);
        lemma_insert_point_bound(sorted_capsules(cs.drop_last(), sort), cs.last(), sort);
    }
}

/// The insertion point lies within the list.
pub proof fn lemma_insert_point_bound(sorted: Seq<DashboardCapsule>, x: DashboardCapsule, sort: DashboardSort)
    ensures
        insert_point(sorted, x, sort) <= sorted.len(),
    decreases sorted.len(),
{
    if sorted.len() > 0 && !dash_before(dash_key(x), dash_key(sorted[0]), sort) {
        lemma_insert_point_bound(sorted.drop_first(), x, sort);
    }
}

/// The instant a capsule was last updated, when its status reads and the time
/// parses.
fn updated_instant(c: &DashboardCapsule) -> (r: Option<(i64, u32)>)
    ensures
        r == dash_key(*c).updated,
{
    match &c.capsule {
        Some(s) => instant_of(s.updated_at.as_str()),
        None => None,
    }
}

/// Whether `a` sorts before `b` by title, then path.
fn title_first(a: &DashboardCapsule, b: &DashboardCapsule) -> (r: bool)
    ensures
        r == title_before(dash_key(*a), dash_key(*b)),
{
    str_less(a.display_title.as_str(), b.display_title.as_str()) || (str_eq(a.display_title.as_str(),
        b.display_title.as_str()) && str_less(a.path.as_str(), b.path.as_str()))
}

/// Whether capsule `a` sorts strictly before `b` under `sort` (see
/// [`dash_before`]).
pub fn capsule_before(a: &DashboardCapsule, b: &DashboardCapsule, sort: DashboardSort) -> (r: bool)
    ensures
        r == dash_before(dash_key(*a), dash_key(*b), sort),
{
    match sort {
        DashboardSort::UpdatedDesc => match (updated_instant(a), updated_instant(b)) {
            (Some(x), Some(y)) => y.0 < x.0 || (y.0 == x.0 && y.1 < x.1) || (x.0 == y.0 && x.1 == y.1 && title_first(a, b)),
            (Some(_), None) => true,
            (None, Some(_)) => false,
            (None, None) => title_first(a, b),
        },
        DashboardSort::TitleAsc => title_first(a, b),
        DashboardSort::StatusAsc => str_less(a.status_label.as_str(), b.status_label.as_str()) || (str_eq(
            a.status_label.as_str(), b.status_label.as_str()) && title_first(a, b)),
    }
}

/// Sorts the capsules by `sort` (see [`sorted_capsules`]).
pub fn sort_dashboard_capsules(capsules: &mut Vec<DashboardCapsule>, sort: DashboardSort)
    ensures
        final(capsules)@ == sorted_capsules(old(capsules)@, sort),
{
    let ghost orig = capsules@;
    let mut n: usize = 0;
    assert(orig.take(0) =~= Seq::<DashboardCapsule>::empty());
    assert(capsules@.take(0) =~= Seq::<DashboardCapsule>::empty());
    assert(capsules@.skip(0) =~= orig);
    while n < capsules.len()
        invariant
            n <= capsules@.len(),
            capsules@.len() == orig.len(),
            capsules@.take(n as int) == sorted_capsules(orig.take(n as int), sort),
            capsules@.skip(n as int) == orig.skip(n as int),
        decreases capsules@.len() - n,
    {
        let ghost before = capsules@;
        let ghost s = before.take(n as int);
        assert(orig.take(n + 1).drop_last() =~= orig.take(n as int));
        assert(orig.take(n + 1).last() == orig[n as int]);
        assert(before[n as int] == before.skip(n as int)[0]);
        assert(orig[n as int] == orig.skip(n as int)[0]);
        assert(before.skip(n as int).drop_first() =~= before.skip(n + 1));
        assert(orig.skip(n as int).drop_first() =~= orig.skip(n + 1));
        let x = capsules.remove(n);
        assert(capsules@.take(n as int) =~= s);
        assert(capsules@.skip(n as int) =~= orig.skip(n + 1));
        let mut k: usize = 0;
        assert(s.skip(0) =~= s);
        while k < n && !capsule_before(&x, &capsules[k], sort)
            invariant
                k <= n,
                n < orig.len(),
                capsules@.len() == orig.len() - 1,
                capsules@.take(n as int) == s,
                insert_point(s, x, sort) == k + insert_point(s.skip(k as int), x, sort),
            decreases n - k,
        {
            assert(s.skip(k as int)[0] == capsules@[k as int]);
            assert(s.skip(k as int).drop_first() =~= s.skip(k + 1));
            k = k + 1;
        }
        proof {
            if k < n {
                assert(s.skip(k as int)[0] == capsules@[k as int]);
            } else {
                assert(s.skip(k as int) =~= Seq::<DashboardCapsule>::empty());
            }
            assert(insert_point(s, x, sort) == k);
        }
        let ghost mid = capsules@;
        capsules.insert(k, x);
        assert(capsules@.take(n + 1) =~= s.insert(k as int, x));
        assert(capsules@.skip(n + 1) =~= mid.skip(n as int));
        n = n + 1;
    }
    assert(orig.take(orig.len() as int) =~= orig);
    assert(capsules@.take(capsules@.len() as int) =~= capsules@);
}


/// The dashboard: the capsules under a root, how they are filtered and
/// sorted, which listed one is selected, and what went wrong reading the root.
#[derive(Clone, Debug)]
pub struct DashboardState {
    pub root: String,
    pub capsules: Vec<DashboardCapsule>,
    pub selected: usize,
    pub filter: DashboardFilter,
    pub sort: DashboardSort,
    pub diagnostics: Vec<String>,
}

/// The capsule selected among those listed, if the selection lists one.
pub open spec fn selected_of(d: DashboardState) -> Option<DashboardCapsule> {
    let ix = filter_indices(d.capsules@, d.filter);
    if d.selected < ix.len() {
        Some(d.capsules@[ix[d.selected as int]])
    } else {
        None
    }
}

/// The position among the listed capsules of the first one at `path`.
pub open spec fn listed_position(cs: Seq<DashboardCapsule>, ix: Seq<int>, path: Seq<char>) -> Option<nat>
    decreases ix.len(),
{
    if ix.len() == 0 {
        None
    } else if cs[ix[0]].path@ == path {
        Some(0)
    } else {
        match listed_position(cs, ix.drop_first(), path) {
            Some(k) => Some(k + 1),
            None => None,
        }
    }
}

/// The selection that keeps the capsule at `path` selected when it is still
/// listed, else the first, kept within the listed capsules.
pub open spec fn restored_selection(cs: Seq<DashboardCapsule>, f: DashboardFilter, path: Option<Seq<char>>) -> nat {
    let ix = filter_indices(cs, f);
    let want: nat = match path {
        Some(p) => match listed_position(cs, ix, p) {
            Some(k) => k,
            None => 0,
        },
        None => 0,
    };
    if ix.len() == 0 {
        0
    } else if want >= ix.len() {
        (ix.len() - 1) as nat
    } else {
        want
    }
}

impl DashboardState {
    /// The positions of the listed capsules (see [`filter_indices`]).
    pub fn filtered_indices(&self) -> (r: Vec<usize>)
        ensures
            r@.map_values(|i: usize| i as int) == filter_indices(self.capsules@, self.filter),
    {
        let mut out: Vec<usize> = Vec::new();
        let mut i: usize = 0;
        assert(self.capsules@.take(0) =~= Seq::<DashboardCapsule>::empty());
        assert(out@.map_values(|i: usize| i as int) =~= Seq::<int>::empty());
        while i < self.capsules.len()
            invariant
                i <= self.capsules@.len(),
                out@.map_values(|i: usize| i as int) == filter_indices(self.capsules@.take(i as int), self.filter),
            decreases self.capsules@.len() - i,
        {
            assert(self.capsules@.take(i + 1).drop_last() =~= self.capsules@.take(i as int));
            assert(self.capsules@.take(i + 1).last() == self.capsules@[i as int]);
            let ghost prev = out@;
            if self.capsules[i].matches_filter(self.filter) {
                out.push(i);
                assert(out@.map_values(|i: usize| i as int) =~= prev.map_values(|i: usize| i as int).push(i as int));
            }
            i = i + 1;
        }
        assert(self.capsules@.take(self.capsules@.len() as int) =~= self.capsules@);
        out
    }

    /// The selected capsule (see [`selected_of`]).
    pub fn selected_capsule(&self) -> (r: Option<&DashboardCapsule>)
        ensures
            match r {
                Some(c) => selected_of(*self) == Some(*c),
                None => selected_of(*self) is None,
            },
    {
        let ix = self.filtered_indices();
        proof {
            lemma_filter_indices(self.capsules@, self.filter);
        }
        if self.selected < ix.len() {
            assert(ix@[self.selected as int] as int == filter_indices(self.capsules@, self.filter)[self.selected as int]);
            Some(&self.capsules[ix[self.selected]])
        } else {
            None
        }
    }

    /// Moves the selection down the listed capsules.
    pub fn next_item(&mut self)
        ensures
            final(self).selected == selection_after_next(old(self).selected as nat, filter_indices(
                old(self).capsules@, old(self).filter).len()),
            final(self).capsules == old(self).capsules && final(self).filter == old(self).filter,
            final(self).sort == old(self).sort && final(self).root == old(self).root,
            final(self).diagnostics == old(self).diagnostics,
    {
        let len = self.filtered_indices().len();
        self.selected = next_selection(self.selected, len);
    }

    /// Moves the selection up.
    pub fn previous_item(&mut self)
        ensures
            final(self).selected == if old(self).selected > 0 { old(self).selected - 1 } else { 0 },
            final(self).capsules == old(self).capsules && final(self).filter == old(self).filter,
            final(self).sort == old(self).sort && final(self).root == old(self).root,
            final(self).diagnostics == old(self).diagnostics,
    {
        self.selected = previous_selection(self.selected);
    }

    /// Keeps the selection within the listed capsules.
    pub fn clamp_selection(&mut self)
        ensures
            ({
                let n = filter_indices(old(self).capsules@, old(self).filter).len();
                final(self).selected == if n == 0 {
                    0
                } else if old(self).selected >= n {
                    (n - 1) as usize
                } else {
                    old(self).selected
                }
            }),
            final(self).capsules == old(self).capsules && final(self).filter == old(self).filter,
            final(self).sort == old(self).sort && final(self).root == old(self).root,
            final(self).diagnostics == old(self).diagnostics,
    {
        let len = self.filtered_indices().len();
        self.selected = clamp_selection(self.selected, len);
    }

    /// Moves to the next filter and selects the first listed capsule.
    pub fn cycle_filter(&mut self)
        ensures
            final(self).filter == filter_after(old(self).filter),
            final(self).selected == 0,
            final(self).capsules == old(self).capsules && final(self).sort == old(self).sort,
            final(self).root == old(self).root && final(self).diagnostics == old(self).diagnostics,
    {
        self.filter = self.filter.next();
        self.selected = 0;
        self.clamp_selection();
    }

    /// Selects the listed capsule at `selected_path` if there is one, else the
    /// first (see [`restored_selection`]).
    pub fn restore_selection(&mut self, selected_path: Option<&str>)
        ensures
            final(self).selected == restored_selection(old(self).capsules@, old(self).filter, match selected_path {
                Some(p) => Some(p@),
                None => None,
            }),
            final(self).capsules == old(self).capsules && final(self).filter == old(self).filter,
            final(self).sort == old(self).sort && final(self).root == old(self).root,
            final(self).diagnostics == old(self).diagnostics,
    {
        let ix = self.filtered_indices();
        let ghost gix = filter_indices(self.capsules@, self.filter);
        proof {
            lemma_filter_indices(self.capsules@, self.filter);
        }
        let mut want: usize = 0;
        if let Some(p) = selected_path {
            let mut k: usize = 0;
            let mut found = false;
            assert(gix.skip(0) =~= gix);
            while k < ix.len() && !found
                invariant
                    k <= ix@.len(),
                    ix@.map_values(|i: usize| i as int) == gix,
                    gix == filter_indices(self.capsules@, self.filter),
                    forall|j: int| 0 <= j < gix.len() ==> 0 <= #[trigger] gix[j] < self.capsules@.len(),
                    found ==> listed_position(self.capsules@, gix, p@) == Some(want as nat),
                    !found ==> want == 0 && listed_position(self.capsules@, gix, p@) == match listed_position(
                        self.capsules@, gix.skip(k as int), p@) {
                        Some(m) => Some((m + k) as nat),
                        None => None::<nat>,
                    },
                decreases ix@.len() - k + if found { 0int } else { 1int },
            {
                assert(gix.skip(k as int)[0] == gix[k as int]);
                assert(gix.skip(k as int).drop_first() =~= gix.skip(k + 1));
                assert(ix@[k as int] as int == gix[k as int]);
                if str_eq(self.capsules[ix[k]].path.as_str(), p) {
                    want = k;
                    found = true;
                } else {
                    k = k + 1;
                }
            }
            proof {
                if !found {
                    assert(gix.skip(k as int) =~= Seq::<int>::empty());
                }
            }
        }
        self.selected = clamp_selection(want, ix.len());
    }

    /// Moves to the next sort, re-sorts, and keeps the selected capsule
    /// selected.
    pub fn cycle_sort(&mut self)
        ensures
            final(self).sort == sort_after(old(self).sort),
            final(self).capsules@ == sorted_capsules(old(self).capsules@, sort_after(old(self).sort)),
            final(self).selected == restored_selection(final(self).capsules@, old(self).filter, match selected_of(*old(self)) {
                Some(c) => Some(c.path@),
                None => None,
            }),
            final(self).filter == old(self).filter && final(self).root == old(self).root,
            final(self).diagnostics == old(self).diagnostics,
    {
        let selected_path = match self.selected_capsule() {
            Some(c) => Some(owned(c.path.as_str())),
            None => None,
        };
        self.sort = self.sort.next();
        sort_dashboard_capsules(&mut self.capsules, self.sort);
        match &selected_path {
            Some(p) => self.restore_selection(Some(p.as_str())),
            None => self.restore_selection(None),
        }
    }

    /// The dashboard over `capsules` read from `root`: sorted by `sort`, listed
    /// under `filter`, with the capsule at `selected_path` selected when it is
    /// listed.
    pub fn from_capsules(
        root: String,
        capsules: Vec<DashboardCapsule>,
        filter: DashboardFilter,
        sort: DashboardSort,
        selected_path: Option<&str>,
        diagnostics: Vec<String>,
    ) -> (r: DashboardState)
        ensures
            r.root == root && r.filter == filter && r.sort == sort && r.diagnostics == diagnostics,
            r.capsules@ == sorted_capsules(capsules@, sort),
            r.selected == restored_selection(r.capsules@, filter, match selected_path {
                Some(p) => Some(p@),
                None => None,
            }),
    {
        let mut capsules = capsules;
        sort_dashboard_capsules(&mut capsules, sort);
        let mut state = DashboardState { root, capsules, selected: 0, filter, sort, diagnostics };
        state.restore_selection(selected_path);
        state
    }
}


/// The number of batches that completed.
pub open spec fn completed_batches(bs: Seq<SubagentBatch>) -> nat
    decreases bs.len(),
{
    if bs.len() == 0 {
        0
    } else {
        completed_batches(bs.drop_last()) + if bs.last().status@ == "completed"@ { 1nat } else { 0nat }
    }
}

/// The completed batches never outnumber the batches.
proof fn lemma_completed_bounded(bs: Seq<SubagentBatch>)
    ensures
        completed_batches(bs) <= bs.len(),
    decreases bs.len(),
{
    if bs.len() > 0 {
        lemma_completed_bounded(bs.drop_last());
    }
}

/// Counts the completed batches.
fn count_completed(bs: &Vec<SubagentBatch>) -> (r: usize)
    ensures
        r == completed_batches(bs@),
{
    let mut n: usize = 0;
    let mut i: usize = 0;
    assert(bs@.take(0) =~= Seq::<SubagentBatch>::empty());
    while i < bs.len()
        invariant
            i <= bs@.len(),
            n == completed_batches(bs@.take(i as int)),
            n <= i,
        decreases bs@.len() - i,
    {
        assert(bs@.take(i + 1).drop_last() =~= bs@.take(i as int));
        if str_eq(bs[i].status.as_str(), "completed") {
            n = n + 1;
        }
        i = i + 1;
    }
    assert(bs@.take(bs@.len() as int) =~= bs@);
    n
}

/// The evidence total of a capsule whose status reads, else zero.
pub open spec fn evidence_total_of(c: DashboardCapsule) -> u64 {
    match c.capsule {
        Some(s) => s.evidence.total,
        None => 0,
    }
}

/// The evidence total of a capsule (see [`evidence_total_of`]).
pub fn evidence_total(c: &DashboardCapsule) -> (r: u64)
    ensures
        r == evidence_total_of(*c),
{
    match &c.capsule {
        Some(s) => s.evidence.total,
        None => 0,
    }
}

/// `valid`, or how many errors make the capsule invalid.
pub open spec fn validation_summary_text(c: DashboardCapsule) -> Seq<char> {
    if c.validation.valid {
        "valid"@
    } else {
        "invalid ("@ + decimal(c.validation.errors@.len()) + " error(s))"@
    }
}

/// How many batches completed of how many, or `none` without any.
pub open spec fn subagent_summary_text(c: DashboardCapsule) -> Seq<char> {
    match c.subagents {
        None => "none"@,
        Some(s) => if s.batches@.len() == 0 {
            "none"@
        } else {
            decimal(completed_batches(s.batches@)) + "/"@ + decimal(s.batches@.len()) + " completed"@
        },
    }
}

/// Completed batches over all batches, `0/0` without a ledger.
pub open spec fn subagent_brief_text(c: DashboardCapsule) -> Seq<char> {
    match c.subagents {
        None => "0/0"@,
        Some(s) => decimal(completed_batches(s.batches@)) + "/"@ + decimal(s.batches@.len()),
    }
}

/// The pull request in brief: its number, `none` when there is none, else
/// its state.
pub open spec fn pr_summary_text(c: DashboardCapsule) -> Seq<char> {
    match c.pr {
        None => "none"@,
        Some(p) => match p.number {
            Some(n) => "#"@ + decimal(n as nat),
            None => if p.state@ == "not_created"@ {
                "none"@
            } else {
                p.state@
            },
        },
    }
}

/// The pull request in detail: its label, number of checks and unresolved
/// threads.
pub open spec fn pr_detail_text(c: DashboardCapsule) -> Seq<char> {
    match c.pr {
        None => "none"@,
        Some(p) => pr_label(p.repository, p.number) + "; checks:"@ + decimal(p.checks@.len()) + "; unresolved:"@
            + unresolved_label(p.review_threads),
    }
}

/// The number of gates with status `status`.
pub open spec fn gates_with(gates: Seq<GateRecord>, status: Seq<char>) -> nat
    decreases gates.len(),
{
    if gates.len() == 0 {
        0
    } else {
        gates_with(gates.drop_last(), status) + if gates.last().status@ == status { 1nat } else { 0nat }
    }
}

/// How many gates passed and failed of how many, or `none`.
pub open spec fn gate_summary_text(gates: Seq<GateRecord>) -> Seq<char> {
    if gates.len() == 0 {
        "none"@
    } else {
        decimal(gates_with(gates, "passed"@)) + " passed, "@ + decimal(gates_with(gates, "failed"@)) + " failed, "@
            + decimal(gates.len()) + " total"@
    }
}

/// Counts the gates with status `status`.
fn count_gates(gates: &Vec<GateRecord>, status: &str) -> (r: usize)
    ensures
        r == gates_with(gates@, status@),
{
    let mut n: usize = 0;
    let mut i: usize = 0;
    assert(gates@.take(0) =~= Seq::<GateRecord>::empty());
    while i < gates.len()
        invariant
            i <= gates@.len(),
            n == gates_with(gates@.take(i as int), status@),
            n <= i,
        decreases gates@.len() - i,
    {
        assert(gates@.take(i + 1).drop_last() =~= gates@.take(i as int));
        if str_eq(gates[i].status.as_str(), status) {
            n = n + 1;
        }
        i = i + 1;
    }
    assert(gates@.take(gates@.len() as int) =~= gates@);
    n
}

/// The text of a number.
fn number_text(n: u64) -> (r: String)
    ensures
        r@ == decimal(n as nat),
{
    let mut m = String::new();
    push_decimal(&mut m, n);
    m
}

/// `valid`, or how many errors make the capsule invalid.
pub fn validation_summary(c: &DashboardCapsule) -> (r: String)
    ensures
        r@ == validation_summary_text(*c),
{
    if c.validation.valid {
        owned("valid")
    } else {
        let mut m = owned("invalid (");
        push_decimal(&mut m, c.validation.errors.len() as u64);
        push_all(&mut m, " error(s))");
        m
    }
}

/// How many batches completed of how many.
pub fn subagent_summary(c: &DashboardCapsule) -> (r: String)
    ensures
        r@ == subagent_summary_text(*c),
{
    match &c.subagents {
        None => owned("none"),
        Some(s) => if s.batches.len() == 0 {
            owned("none")
        } else {
            let mut m = number_text(count_completed(&s.batches) as u64);
            push_all(&mut m, "/");
            push_decimal(&mut m, s.batches.len() as u64);
            push_all(&mut m, " completed");
            m
        },
    }
}

/// Completed batches over all batches.
pub fn subagent_brief(c: &DashboardCapsule) -> (r: String)
    ensures
        r@ == subagent_brief_text(*c),
{
    match &c.subagents {
        None => owned("0/0"),
        Some(s) => {
            let mut m = number_text(count_completed(&s.batches) as u64);
            push_all(&mut m, "/");
            push_decimal(&mut m, s.batches.len() as u64);
            m
        },
    }
}

/// The pull request in brief.
pub fn pr_summary(c: &DashboardCapsule) -> (r: String)
    ensures
        r@ == pr_summary_text(*c),
{
    match &c.pr {
        None => owned("none"),
        Some(p) => match p.number {
            Some(n) => {
                let mut m = owned("#");
                push_decimal(&mut m, n);
                m
            },
            None => if str_eq(p.state.as_str(), "not_created") {
                owned("none")
            } else {
                owned(p.state.as_str())
            },
        },
    }
}

/// The pull request in detail.
pub fn pr_detail_summary(c: &DashboardCapsule) -> (r: String)
    ensures
        r@ == pr_detail_text(*c),
{
    match &c.pr {
        None => owned("none"),
        Some(p) => {
            let mut m = crate::dev::pr::render_pr_label(p);
            push_all(&mut m, "; checks:");
            push_decimal(&mut m, p.checks.len() as u64);
            push_all(&mut m, "; unresolved:");
            push_all(&mut m, crate::tui::review_thread_unresolved_label(&p.review_threads).as_str());
            m
        },
    }
}

/// How many gates passed and failed of how many.
pub fn gate_summary(gates: &Vec<GateRecord>) -> (r: String)
    ensures
        r@ == gate_summary_text(gates@),
{
    if gates.len() == 0 {
        return owned("none");
    }
    let mut m = number_text(count_gates(gates, "passed") as u64);
    push_all(&mut m, " passed, ");
    push_decimal(&mut m, count_gates(gates, "failed") as u64);
    push_all(&mut m, " failed, ");
    push_decimal(&mut m, gates.len() as u64);
    push_all(&mut m, " total");
    m
}

/// The colour a line is drawn in.
#[derive(Clone, Copy, Debug, PartialEq, Eq, Structural)]
pub enum LineStyle {
    Plain,
    Red,
    Green,
    Yellow,
    Cyan,
}

/// The colour of a capsule status: settled ones green, blocked red, those
/// awaiting review yellow, active cyan.
pub open spec fn status_style_of(s: CapsuleStatus) -> LineStyle {
    match s {
        CapsuleStatus::Merged | CapsuleStatus::Closed => LineStyle::Green,
        CapsuleStatus::Blocked => LineStyle::Red,
        CapsuleStatus::ReadyForPr | CapsuleStatus::InReview => LineStyle::Yellow,
        CapsuleStatus::Active => LineStyle::Cyan,
    }
}

/// The colour of a capsule status (see [`status_style_of`]).
pub fn capsule_status_style(s: CapsuleStatus) -> (r: LineStyle)
    ensures
        r == status_style_of(s),
{
    match s {
        CapsuleStatus::Merged | CapsuleStatus::Closed => LineStyle::Green,
        CapsuleStatus::Blocked => LineStyle::Red,
        CapsuleStatus::ReadyForPr | CapsuleStatus::InReview => LineStyle::Yellow,
        CapsuleStatus::Active => LineStyle::Cyan,
    }
}

/// The colour a listed capsule is drawn in: red when invalid, else its
/// status's colour.
pub open spec fn item_style(c: DashboardCapsule) -> LineStyle {
    if !c.validation.valid {
        LineStyle::Red
    } else {
        match c.capsule {
            Some(s) => status_style_of(s.status),
            None => LineStyle::Plain,
        }
    }
}

/// The line of the capsule at position `idx`, shown at row `row` of the list:
/// marked when selected, with its title, status, evidence total, pull request
/// and subagent batches.
pub open spec fn item_text(d: DashboardState, row: int, idx: int) -> Seq<char> {
    let c = d.capsules@[idx];
    (if row == d.selected { "> "@ } else { "  "@ }) + c.display_title@ + " ["@ + c.status_label@ + "] ev:"@
        + decimal(evidence_total_of(c) as nat) + " pr:"@ + pr_summary_text(c) + " sa:"@ + subagent_brief_text(c)
}

/// The number of rows shown from `start` of `len` listed capsules.
pub open spec fn rows_shown(start: nat, len: nat, rows: nat) -> nat {
    if start >= len {
        0
    } else if len - start < rows {
        (len - start) as nat
    } else {
        rows
    }
}

/// The dashboard's list lines for a window of `visible_rows` rows (at least
/// one): the listed capsules from the window's start, or one line saying none
/// match.
pub open spec fn items_ok(d: DashboardState, visible_rows: nat, r: Seq<(String, LineStyle)>) -> bool {
    let ix = filter_indices(d.capsules@, d.filter);
    if ix.len() == 0 {
        r.len() == 1 && r[0].0@ == "no capsules match current filter"@ && r[0].1 == LineStyle::Plain
    } else {
        let rows: nat = if visible_rows == 0 { 1 } else { visible_rows };
        let start = window_start(d.selected as nat, ix.len(), rows);
        &&& r.len() == rows_shown(start, ix.len(), rows)
        &&& forall|w: int| 0 <= w < r.len() ==> (#[trigger] r[w]).0@ == item_text(d, start + w, ix[start + w])
            && r[w].1 == item_style(d.capsules@[ix[start + w]])
    }
}

/// The style of a listed capsule (see [`item_style`]).
fn listed_style(c: &DashboardCapsule) -> (r: LineStyle)
    ensures
        r == item_style(*c),
{
    if !c.validation.valid {
        LineStyle::Red
    } else {
        match &c.capsule {
            Some(s) => capsule_status_style(s.status),
            None => LineStyle::Plain,
        }
    }
}

impl DashboardState {
    /// The list lines for a window of `visible_rows` rows (see [`items_ok`]).
    pub fn dashboard_items(&self, visible_rows: usize) -> (r: Vec<(String, LineStyle)>)
        ensures
            items_ok(*self, visible_rows as nat, r@),
    {
        let ix = self.filtered_indices();
        let ghost gix = filter_indices(self.capsules@, self.filter);
        proof {
            lemma_filter_indices(self.capsules@, self.filter);
        }
        let mut out: Vec<(String, LineStyle)> = Vec::new();
        if ix.len() == 0 {
            out.push((owned("no capsules match current filter"), LineStyle::Plain));
            return out;
        }
        let rows: usize = if visible_rows == 0 { 1 } else { visible_rows };
        let start = crate::tui::dashboard_window_start(self.selected, ix.len(), rows);
        let count: usize = if start >= ix.len() {
            0
        } else if ix.len() - start < rows {
            ix.len() - start
        } else {
            rows
        };
        let mut w: usize = 0;
        while w < count
            invariant
                w <= count,
                count == rows_shown(start as nat, ix@.len(), rows as nat),
                start as nat == window_start(self.selected as nat, ix@.len(), rows as nat),
                count > 0 ==> start + count <= ix@.len(),
                ix@.map_values(|i: usize| i as int) == gix,
                gix == filter_indices(self.capsules@, self.filter),
                forall|j: int| 0 <= j < gix.len() ==> 0 <= #[trigger] gix[j] < self.capsules@.len(),
                out@.len() == w,
                forall|v: int| 0 <= v < w ==> (#[trigger] out@[v]).0@ == item_text(*self, start + v, gix[start + v])
                    && out@[v].1 == item_style(self.capsules@[gix[start + v]]),
            decreases count - w,
        {
            let row = start + w;
            let idx = ix[row];
            assert(idx as int == gix[row as int]);
            let c = &self.capsules[idx];
            let mut line = if row == self.selected { owned("> ") } else { owned("  ") };
            push_all(&mut line, c.display_title.as_str());
            push_all(&mut line, " [");
            push_all(&mut line, c.status_label.as_str());
            push_all(&mut line, "] ev:");
            push_decimal(&mut line, evidence_total(c));
            push_all(&mut line, " pr:");
            push_all(&mut line, pr_summary(c).as_str());
            push_all(&mut line, " sa:");
            push_all(&mut line, subagent_brief(c).as_str());
            out.push((line, listed_style(c)));
            w = w + 1;
        }
        out
    }
}


/// Each of `ds` as a bullet, with `path` replaced by `placeholder`.
pub open spec fn redacted_bullets(ds: Seq<Seq<char>>, path: Seq<char>, placeholder: Seq<char>) -> Seq<Seq<char>> {
    ds.map_values(|d: Seq<char>| "- "@ + replace_all(d, path, placeholder))
}

/// The lines of the dashboard's detail panel: the root's diagnostics (the
/// root replaced by `<tasks-root>`), then the selected capsule's title, path,
/// validation, update time, evidence, subagents, pull request, gates and
/// diagnostics (its path replaced by `<capsule>`).
pub open spec fn detail_lines(d: DashboardState) -> Seq<Seq<char>> {
    let head = if d.diagnostics@.len() > 0 {
        seq!["dashboard diagnostics:"@] + redacted_bullets(strs(d.diagnostics@), d.root@, "<tasks-root>"@) + seq![""@]
    } else {
        seq![]
    };
    match selected_of(d) {
        None => head + seq!["No capsule selected."@],
        Some(c) => head + seq![
            "title: "@ + c.display_title@,
            "path: "@ + replace_all(c.path@, d.root@, "<tasks-root>"@),
            "validation: "@ + validation_summary_text(c),
            "updated: "@ + c.updated_label@,
            "evidence: "@ + decimal(evidence_total_of(c) as nat),
            "subagents: "@ + subagent_summary_text(c),
            "pr: "@ + pr_detail_text(c),
        ] + match c.verification {
            Some(v) => seq!["validation gates: "@ + gate_summary_text(v.required@)],
            None => seq![],
        } + if c.diagnostics@.len() > 0 {
            seq!["capsule diagnostics:"@] + redacted_bullets(strs(c.diagnostics@), c.path@, "<capsule>"@)
        } else {
            seq![]
        },
    }
}

/// Appends each of `ds` as a bullet with `path` replaced by `placeholder`.
fn push_redacted(lines: &mut Vec<String>, ds: &Vec<String>, path: &str, placeholder: &str)
    ensures
        strs(final(lines)@) == strs(old(lines)@) + redacted_bullets(strs(ds@), path@, placeholder@),
{
    let ghost start = strs(lines@);
    let mut i: usize = 0;
    while i < ds.len()
        invariant
            i <= ds@.len(),
            strs(lines@) == start + redacted_bullets(strs(ds@.take(i as int)), path@, placeholder@),
        decreases ds@.len() - i,
    {
        let mut m = owned("- ");
        push_all(&mut m, crate::tui::redact_path_text_with_placeholder(ds[i].as_str(), path, placeholder).as_str());
        let ghost prev = lines@;
        lines.push(m);
        assert(strs(ds@.take(i + 1)) =~= strs(ds@.take(i as int)).push(ds@[i as int]@));
        assert(strs(lines@) =~= strs(prev).push(m@));
        assert(redacted_bullets(strs(ds@.take(i + 1)), path@, placeholder@) =~= redacted_bullets(strs(ds@.take(i as int)),
            path@, placeholder@).push(m@));
        i = i + 1;
    }
    assert(ds@.take(ds@.len() as int) =~= ds@);
}

/// Appends one line.
fn push_line(lines: &mut Vec<String>, m: String)
    ensures
        strs(final(lines)@) == strs(old(lines)@).push(m@),
{
    let ghost prev = lines@;
    lines.push(m);
    assert(strs(lines@) =~= strs(prev).push(m@));
}

/// `prefix` followed by `rest`.
fn cat(prefix: &str, rest: &str) -> (r: String)
    ensures
        r@ == prefix@ + rest@,
{
    let mut m = owned(prefix);
    push_all(&mut m, rest);
    m
}

impl DashboardState {
    /// The dashboard's detail panel (see [`detail_lines`]), one line after
    /// another.
    pub fn dashboard_detail_text(&self) -> (r: String)
        ensures
            r@ == join_spec(detail_lines(*self), "\n"@),
    {
        let mut lines: Vec<String> = Vec::new();
        assert(strs(lines@) =~= Seq::<Seq<char>>::empty());
        if self.diagnostics.len() > 0 {
            push_line(&mut lines, owned("dashboard diagnostics:"));
            push_redacted(&mut lines, &self.diagnostics, self.root.as_str(), "<tasks-root>");
            push_line(&mut lines, owned(""));
        }
        let ghost head = strs(lines@);
        assert(head =~= if self.diagnostics@.len() > 0 {
            seq!["dashboard diagnostics:"@] + redacted_bullets(strs(self.diagnostics@), self.root@, "<tasks-root>"@)
                + seq![""@]
        } else {
            seq![]
        });
        match self.selected_capsule() {
            None => {
                push_line(&mut lines, owned("No capsule selected."));
                assert(strs(lines@) =~= detail_lines(*self));
            },
            Some(c) => {
                let t = cat("title: ", c.display_title.as_str());
                let p = cat("path: ", crate::tui::redact_path_text_with_placeholder(c.path.as_str(),
                    self.root.as_str(), "<tasks-root>").as_str());
                let v = cat("validation: ", validation_summary(c).as_str());
                let u = cat("updated: ", c.updated_label.as_str());
                let e = cat("evidence: ", number_text(evidence_total(c)).as_str());
                let sa = cat("subagents: ", subagent_summary(c).as_str());
                let pr = cat("pr: ", pr_detail_summary(c).as_str());
                let ghost seven = seq![t@, p@, v@, u@, e@, sa@, pr@];
                push_line(&mut lines, t);
                push_line(&mut lines, p);
                push_line(&mut lines, v);
                push_line(&mut lines, u);
                push_line(&mut lines, e);
                push_line(&mut lines, sa);
                push_line(&mut lines, pr);
                let ghost body = strs(lines@);
                assert(body =~= head + seven);
                let ghost gates_part: Seq<Seq<char>> = match &c.verification {
                    Some(vv) => seq!["validation gates: "@ + gate_summary_text(vv.required@)],
                    None => seq![],
                };
                if let Some(vr) = &c.verification {
                    push_line(&mut lines, cat("validation gates: ", gate_summary(&vr.required).as_str()));
                }
                let ghost gates = strs(lines@);
                assert(gates =~= body + gates_part);
                let ghost diag_part: Seq<Seq<char>> = if c.diagnostics@.len() > 0 {
                    seq!["capsule diagnostics:"@] + redacted_bullets(strs(c.diagnostics@), c.path@, "<capsule>"@)
                } else {
                    seq![]
                };
                if c.diagnostics.len() > 0 {
                    push_line(&mut lines, owned("capsule diagnostics:"));
                    push_redacted(&mut lines, &c.diagnostics, c.path.as_str(), "<capsule>");
                }
                assert(strs(lines@) =~= gates + diag_part);
                assert(detail_lines(*self) =~= head + seven + gates_part + diag_part);
            },
        }
        crate::text::join_strings(&lines, "\n")
    }
}

/// The single-capsule workbench: the capsule's contracts as last read, the
/// panel shown, and the last refresh error.
#[derive(Clone, Debug)]
pub struct WorkbenchState {
    pub capsule_path: String,
    pub validation: ValidationResult,
    pub capsule: Option<StatusResult>,
    pub verification: Option<Verification>,
    pub pr: Option<PrEvidence>,
    pub active_panel: Panel,
    pub last_error: Option<String>,
}

/// The overview list: the capsule's id, branches, issues, pull requests and
/// update time (or that it is invalid), then whether it is valid.
pub open spec fn overview_lines(w: WorkbenchState) -> Seq<Seq<char>> {
    (match w.capsule {
        Some(c) => seq![
            "id: "@ + c.id@,
            "branch: "@ + c.branch@,
            "base: "@ + c.base_branch@,
            "issues: "@ + joined_numbers(c.issues@),
            "prs: "@ + joined_numbers(c.pull_requests@),
            "updated: "@ + rfc3339_shown(c.updated_at@),
        ],
        None => seq!["invalid capsule"@],
    }) + seq!["validation: "@ + (if w.validation.valid { "valid"@ } else { "invalid"@ })]
}

/// A gate line: its name and status.
pub open spec fn gate_line(g: GateRecord) -> Seq<char> {
    "- "@ + g.name@ + " ["@ + g.status@ + "]"@
}

/// The lines of the validation panel: the errors (the capsule path replaced
/// by `<capsule>`) of an invalid capsule; else a note without a verification
/// record; else when it was checked and its required and optional gates.
pub open spec fn validation_lines(w: WorkbenchState) -> Seq<Seq<char>> {
    if !w.validation.valid {
        strs(w.validation.errors@).map_values(|e: Seq<char>| replace_all(e, w.capsule_path@, "<capsule>"@))
    } else {
        match w.verification {
            None => seq!["capsule is valid; no verification.json loaded"@],
            Some(v) => seq!["last checked: "@ + rfc3339_shown(v.last_checked_at@), "required gates:"@] + if v.required@.len()
                == 0 {
                seq!["- none recorded"@]
            } else {
                v.required@.map_values(|g: GateRecord| gate_line(g))
            } + if v.optional@.len() > 0 {
                seq!["optional gates:"@] + v.optional@.map_values(|g: GateRecord| gate_line(g))
            } else {
                seq![]
            },
        }
    }
}

/// A check line: its name, status, conclusion (or `unknown`) and time.
pub open spec fn check_line(c: CheckRecord) -> Seq<char> {
    "- "@ + c.name@ + ": "@ + c.status@ + " / "@ + match c.conclusion {
        Some(x) => x@,
        None => "unknown"@,
    } + " at "@ + rfc3339_shown(c.checked_at@)
}

/// The lines of the PR panel: a note without PR evidence; else its target,
/// state, unresolved threads and when they were checked, its URL, and its
/// checks.
pub open spec fn pr_lines(w: WorkbenchState) -> Seq<Seq<char>> {
    match w.pr {
        None => seq!["no PR evidence loaded"@],
        Some(p) => seq![
            "target: "@ + pr_label(p.repository, p.number),
            "state: "@ + p.state@,
            "unresolved threads: "@ + unresolved_label(p.review_threads),
            "threads checked: "@ + rfc3339_shown(p.review_threads.last_checked_at@),
        ] + match p.url {
            Some(u) => seq!["url: "@ + u@],
            None => seq![],
        } + seq!["checks:"@] + if p.checks@.len() == 0 {
            seq!["- none recorded"@]
        } else {
            p.checks@.map_values(|c: CheckRecord| check_line(c))
        },
    }
}

/// What the help panel says.
pub open spec fn help_lines() -> Seq<char> {
    "Open a capsule with enter from dashboard or --capsule <dir>. Use --render-once for deterministic automation. The UI refreshes by rereading codex-dev-core JSON contract files."@
}

/// The overview panel: the objective and id of a valid capsule, else the
/// validation failure.
pub open spec fn overview_text_of(w: WorkbenchState) -> Seq<char> {
    match w.capsule {
        Some(c) => c.objective@ + "\n\ncapsule: "@ + c.id@
            + "\n\nThis workbench reads codex-dev-core capsule JSON contracts and does not own policy logic."@,
        None => "Capsule failed validation for the supplied capsule path.\n\n"@ + join_spec(validation_lines(w), "\n"@),
    }
}

/// The text of the panel shown.
pub open spec fn panel_text(w: WorkbenchState) -> Seq<char> {
    match w.active_panel {
        Panel::Overview => overview_text_of(w),
        Panel::Validation => join_spec(validation_lines(w), "\n"@),
        Panel::Pr => join_spec(pr_lines(w), "\n"@),
        Panel::Help => help_lines(),
    }
}

/// The footer: the last refresh error, else the keys and the panel shown.
pub open spec fn footer_text(w: WorkbenchState) -> Seq<char> {
    match w.last_error {
        Some(e) => "refresh failed: "@ + e@,
        None => "tab/right: next  shift-tab/left: previous  b: dashboard  r: refresh  q/esc/ctrl-c: quit  active: "@
            + panel_title(w.active_panel),
    }
}

/// The header's colour: red for an invalid capsule, else its status's
/// colour, cyan without a status.
pub open spec fn header_style(w: WorkbenchState) -> LineStyle {
    if !w.validation.valid {
        LineStyle::Red
    } else {
        match w.capsule {
            Some(c) => status_style_of(c.status),
            None => LineStyle::Cyan,
        }
    }
}

/// Appends each gate's line.
fn push_gates(lines: &mut Vec<String>, gates: &Vec<GateRecord>)
    ensures
        strs(final(lines)@) == strs(old(lines)@) + gates@.map_values(|g: GateRecord| gate_line(g)),
{
    let ghost start = strs(lines@);
    let mut i: usize = 0;
    while i < gates.len()
        invariant
            i <= gates@.len(),
            strs(lines@) == start + gates@.take(i as int).map_values(|g: GateRecord| gate_line(g)),
        decreases gates@.len() - i,
    {
        let g = &gates[i];
        let mut m = cat("- ", g.name.as_str());
        push_all(&mut m, " [");
        push_all(&mut m, g.status.as_str());
        push_all(&mut m, "]");
        push_line(lines, m);
        assert(gates@.take(i + 1).map_values(|g: GateRecord| gate_line(g)) =~= gates@.take(i as int).map_values(
            |g: GateRecord| gate_line(g)).push(gate_line(gates@[i as int])));
        i = i + 1;
    }
    assert(gates@.take(gates@.len() as int) =~= gates@);
}

/// A check's line (see [`check_line`]).
pub fn render_check(c: &CheckRecord) -> (r: String)
    ensures
        r@ == check_line(*c),
{
    let mut m = cat("- ", c.name.as_str());
    push_all(&mut m, ": ");
    push_all(&mut m, c.status.as_str());
    push_all(&mut m, " / ");
    match &c.conclusion {
        Some(x) => push_all(&mut m, x.as_str()),
        None => push_all(&mut m, "unknown"),
    }
    push_all(&mut m, " at ");
    push_all(&mut m, show_rfc3339(c.checked_at.as_str()).as_str());
    m
}

impl WorkbenchState {
    /// Moves to the next panel, wrapping at the end.
    pub fn next_panel(&mut self)
        ensures
            *final(self) == (WorkbenchState { active_panel: panel_after(old(self).active_panel), ..*old(self) }),
    {
        self.active_panel = self.active_panel.next();
    }

    /// Moves to the previous panel, wrapping at the start.
    pub fn previous_panel(&mut self)
        ensures
            *final(self) == (WorkbenchState { active_panel: panel_before(old(self).active_panel), ..*old(self) }),
    {
        self.active_panel = self.active_panel.previous();
    }

    /// Replaces the contracts after a failed refresh: the capsule becomes
    /// invalid with `message` as its one error, nothing else is loaded, and
    /// the message is kept as the last error.
    pub fn replace_contracts_with_error(&mut self, message: String)
        ensures
            final(self).validation.path@ == old(self).capsule_path@,
            !final(self).validation.valid,
            strs(final(self).validation.errors@) == seq![message@],
            final(self).capsule is None && final(self).verification is None && final(self).pr is None,
            final(self).last_error matches Some(e) && e@ == message@,
            final(self).capsule_path == old(self).capsule_path,
            final(self).active_panel == old(self).active_panel,
    {
        let mut errors: Vec<String> = Vec::new();
        push_line(&mut errors, owned(message.as_str()));
        assert(strs(errors@) =~= seq![message@]);
        self.validation = ValidationResult { path: owned(self.capsule_path.as_str()), valid: false, errors };
        self.capsule = None;
        self.verification = None;
        self.pr = None;
        self.last_error = Some(message);
    }
}


impl WorkbenchState {
    /// The overview list (see [`overview_lines`]).
    pub fn overview_items(&self) -> (r: Vec<String>)
        ensures
            strs(r@) == overview_lines(*self),
    {
        let mut lines: Vec<String> = Vec::new();
        assert(strs(lines@) =~= Seq::<Seq<char>>::empty());
        match &self.capsule {
            Some(c) => {
                push_line(&mut lines, cat("id: ", c.id.as_str()));
                push_line(&mut lines, cat("branch: ", c.branch.as_str()));
                push_line(&mut lines, cat("base: ", c.base_branch.as_str()));
                push_line(&mut lines, cat("issues: ", crate::tui::join_numbers(&c.issues).as_str()));
                push_line(&mut lines, cat("prs: ", crate::tui::join_numbers(&c.pull_requests).as_str()));
                push_line(&mut lines, cat("updated: ", show_rfc3339(c.updated_at.as_str()).as_str()));
            },
            None => push_line(&mut lines, owned("invalid capsule")),
        }
        push_line(&mut lines, cat("validation: ", if self.validation.valid { "valid" } else { "invalid" }));
        assert(strs(lines@) =~= overview_lines(*self));
        lines
    }

    /// The validation panel (see [`validation_lines`]).
    pub fn validation_text(&self) -> (r: String)
        ensures
            r@ == join_spec(validation_lines(*self), "\n"@),
    {
        let mut lines: Vec<String> = Vec::new();
        assert(strs(lines@) =~= Seq::<Seq<char>>::empty());
        if !self.validation.valid {
            let errors = &self.validation.errors;
            let mut i: usize = 0;
            while i < errors.len()
                invariant
                    i <= errors@.len(),
                    errors == self.validation.errors,
                    strs(lines@) == strs(errors@.take(i as int)).map_values(|e: Seq<char>| replace_all(e,
                        self.capsule_path@, "<capsule>"@)),
                decreases errors@.len() - i,
            {
                push_line(&mut lines, crate::tui::redact_path_text(errors[i].as_str(), self.capsule_path.as_str()));
                assert(strs(errors@.take(i + 1)) =~= strs(errors@.take(i as int)).push(errors@[i as int]@));
                assert(strs(lines@) =~= strs(errors@.take(i + 1)).map_values(|e: Seq<char>| replace_all(e,
                    self.capsule_path@, "<capsule>"@)));
                i = i + 1;
            }
            assert(errors@.take(errors@.len() as int) =~= errors@);
            return crate::text::join_strings(&lines, "\n");
        }
        match &self.verification {
            None => {
                push_line(&mut lines, owned("capsule is valid; no verification.json loaded"));
            },
            Some(v) => {
                push_line(&mut lines, cat("last checked: ", show_rfc3339(v.last_checked_at.as_str()).as_str()));
                push_line(&mut lines, owned("required gates:"));
                let ghost a = strs(lines@);
                if v.required.len() == 0 {
                    push_line(&mut lines, owned("- none recorded"));
                } else {
                    push_gates(&mut lines, &v.required);
                }
                let ghost b = strs(lines@);
                if v.optional.len() > 0 {
                    push_line(&mut lines, owned("optional gates:"));
                    push_gates(&mut lines, &v.optional);
                }
                assert(strs(lines@) =~= validation_lines(*self));
            },
        }
        assert(strs(lines@) =~= validation_lines(*self));
        crate::text::join_strings(&lines, "\n")
    }

    /// The PR panel (see [`pr_lines`]).
    pub fn pr_text(&self) -> (r: String)
        ensures
            r@ == join_spec(pr_lines(*self), "\n"@),
    {
        let mut lines: Vec<String> = Vec::new();
        assert(strs(lines@) =~= Seq::<Seq<char>>::empty());
        match &self.pr {
            None => push_line(&mut lines, owned("no PR evidence loaded")),
            Some(p) => {
                push_line(&mut lines, cat("target: ", crate::dev::pr::render_pr_label(p).as_str()));
                push_line(&mut lines, cat("state: ", p.state.as_str()));
                push_line(&mut lines, cat("unresolved threads: ", crate::tui::review_thread_unresolved_label(
                    &p.review_threads).as_str()));
                push_line(&mut lines, cat("threads checked: ", show_rfc3339(p.review_threads.last_checked_at.as_str()).as_str()));
                let ghost a = strs(lines@);
                if let Some(u) = &p.url {
                    push_line(&mut lines, cat("url: ", u.as_str()));
                }
                push_line(&mut lines, owned("checks:"));
                let ghost b = strs(lines@);
                if p.checks.len() == 0 {
                    push_line(&mut lines, owned("- none recorded"));
                } else {
                    let mut i: usize = 0;
                    while i < p.checks.len()
                        invariant
                            i <= p.checks@.len(),
                            strs(lines@) == b + p.checks@.take(i as int).map_values(|c: CheckRecord| check_line(c)),
                        decreases p.checks@.len() - i,
                    {
                        push_line(&mut lines, render_check(&p.checks[i]));
                        assert(p.checks@.take(i + 1).map_values(|c: CheckRecord| check_line(c)) =~= p.checks@.take(
                            i as int).map_values(|c: CheckRecord| check_line(c)).push(check_line(p.checks@[i as int])));
                        i = i + 1;
                    }
                    assert(p.checks@.take(p.checks@.len() as int) =~= p.checks@);
                }
                assert(strs(lines@) =~= pr_lines(*self));
            },
        }
        assert(strs(lines@) =~= pr_lines(*self));
        crate::text::join_strings(&lines, "\n")
    }

    /// The overview panel (see [`overview_text_of`]).
    pub fn overview_text(&self) -> (r: String)
        ensures
            r@ == overview_text_of(*self),
    {
        match &self.capsule {
            Some(c) => {
                let mut m = owned(c.objective.as_str());
                push_all(&mut m, "\n\ncapsule: ");
                push_all(&mut m, c.id.as_str());
                push_all(&mut m, "\n\nThis workbench reads codex-dev-core capsule JSON contracts and does not own policy logic.");
                m
            },
            None => {
                let mut m = owned("Capsule failed validation for the supplied capsule path.\n\n");
                push_all(&mut m, self.validation_text().as_str());
                m
            },
        }
    }

    /// The text of the panel shown (see [`panel_text`]).
    pub fn active_panel_text(&self) -> (r: String)
        ensures
            r@ == panel_text(*self),
    {
        match self.active_panel {
            Panel::Overview => self.overview_text(),
            Panel::Validation => self.validation_text(),
            Panel::Pr => self.pr_text(),
            Panel::Help => owned(help_text()),
        }
    }

    /// The footer (see [`footer_text`]).
    pub fn footer_text(&self) -> (r: String)
        ensures
            r@ == footer_text(*self),
    {
        match &self.last_error {
            Some(e) => cat("refresh failed: ", e.as_str()),
            None => cat("tab/right: next  shift-tab/left: previous  b: dashboard  r: refresh  q/esc/ctrl-c: quit  active: ",
                self.active_panel.title()),
        }
    }

    /// The header's title: the capsule's, else `Invalid capsule`.
    pub fn header_title(&self) -> (r: String)
        ensures
            r@ == match self.capsule {
                Some(c) => c.title@,
                None => "Invalid capsule"@,
            },
    {
        match &self.capsule {
            Some(c) => owned(c.title.as_str()),
            None => owned("Invalid capsule"),
        }
    }

    /// The header's status: the capsule's, else `invalid`.
    pub fn header_status(&self) -> (r: String)
        ensures
            r@ == match self.capsule {
                Some(c) => capsule_status_name(c.status),
                None => "invalid"@,
            },
    {
        match &self.capsule {
            Some(c) => owned(c.status.as_str()),
            None => owned("invalid"),
        }
    }

    /// The header's colour (see [`header_style`]).
    pub fn status_style(&self) -> (r: LineStyle)
        ensures
            r == header_style(*self),
    {
        if !self.validation.valid {
            return LineStyle::Red;
        }
        match &self.capsule {
            Some(c) => capsule_status_style(c.status),
            None => LineStyle::Cyan,
        }
    }
}

/// What the help panel says (see [`help_lines`]).
pub fn help_text() -> (r: &'static str)
    ensures
        r@ == help_lines(),
{
    "Open a capsule with enter from dashboard or --capsule <dir>. Use --render-once for deterministic automation. The UI refreshes by rereading codex-dev-core JSON contract files."
}

/// A key the terminal reports.
#[derive(Clone, Copy, Debug, PartialEq, Eq, Structural)]
pub enum Key {
    Char(char),
    Esc,
    Tab,
    BackTab,
    Left,
    Right,
    Up,
    Down,
    Enter,
    Backspace,
    Other,
}

/// The event a key press means: `q`, escape and control-c quit; tab, right
/// and `l` move to the next panel, back-tab, left and `h` to the previous;
/// down and `j`, up and `k` move the selection; enter opens; backspace and
/// `b` return to the dashboard; `f` and `s` cycle the filter and sort; `r`
/// refreshes.
pub open spec fn key_event(key: Key, control: bool) -> Option<crate::tui::WorkbenchEvent> {
    match key {
        Key::Char('q') | Key::Esc => Some(crate::tui::WorkbenchEvent::Quit),
        Key::Char('c') if control => Some(crate::tui::WorkbenchEvent::Quit),
        Key::Tab | Key::Right | Key::Char('l') => Some(crate::tui::WorkbenchEvent::NextPanel),
        Key::BackTab | Key::Left | Key::Char('h') => Some(crate::tui::WorkbenchEvent::PreviousPanel),
        Key::Down | Key::Char('j') => Some(crate::tui::WorkbenchEvent::NextItem),
        Key::Up | Key::Char('k') => Some(crate::tui::WorkbenchEvent::PreviousItem),
        Key::Enter => Some(crate::tui::WorkbenchEvent::OpenSelected),
        Key::Backspace | Key::Char('b') => Some(crate::tui::WorkbenchEvent::Dashboard),
        Key::Char('f') => Some(crate::tui::WorkbenchEvent::CycleFilter),
        Key::Char('s') => Some(crate::tui::WorkbenchEvent::CycleSort),
        Key::Char('r') => Some(crate::tui::WorkbenchEvent::Refresh),
        _ => None,
    }
}

/// The event a key press means (see [`key_event`]).
pub fn map_key(key: Key, control: bool) -> (r: Option<crate::tui::WorkbenchEvent>)
    ensures
        r == key_event(key, control),
{
    match key {
        Key::Char('q') | Key::Esc => Some(crate::tui::WorkbenchEvent::Quit),
        Key::Char('c') if control => Some(crate::tui::WorkbenchEvent::Quit),
        Key::Tab | Key::Right | Key::Char('l') => Some(crate::tui::WorkbenchEvent::NextPanel),
        Key::BackTab | Key::Left | Key::Char('h') => Some(crate::tui::WorkbenchEvent::PreviousPanel),
        Key::Down | Key::Char('j') => Some(crate::tui::WorkbenchEvent::NextItem),
        Key::Up | Key::Char('k') => Some(crate::tui::WorkbenchEvent::PreviousItem),
        Key::Enter => Some(crate::tui::WorkbenchEvent::OpenSelected),
        Key::Backspace | Key::Char('b') => Some(crate::tui::WorkbenchEvent::Dashboard),
        Key::Char('f') => Some(crate::tui::WorkbenchEvent::CycleFilter),
        Key::Char('s') => Some(crate::tui::WorkbenchEvent::CycleSort),
        Key::Char('r') => Some(crate::tui::WorkbenchEvent::Refresh),
        _ => None,
    }
}

/// The whole terminal UI: the dashboard, always kept, and the capsule open in
/// the workbench, if any.
#[derive(Clone, Debug)]
pub struct AppState {
    pub dashboard: DashboardState,
    pub capsule: Option<WorkbenchState>,
}

/// What the event loop must do for an event, beyond what [`AppState::apply`]
/// changes itself.
#[derive(Clone, Copy, Debug, PartialEq, Eq, Structural)]
pub enum AppAction {
    /// Nothing more.
    Stay,
    /// Leave the loop.
    Quit,
    /// Re-read the open capsule.
    RefreshCapsule,
    /// Re-read the dashboard, keeping the selection.
    RefreshDashboard,
    /// Open the selected capsule, which is valid.
    OpenSelected,
    /// Re-read the dashboard with the capsule just closed selected.
    ReloadDashboard,
}

/// Whether the dashboard can open its selection: no capsule is open and the
/// selected capsule is valid.
pub open spec fn can_open(a: AppState) -> bool {
    &&& a.capsule is None
    &&& selected_of(a.dashboard) matches Some(c)
    &&& c.validation.valid
}

impl AppState {
    /// Applies `event`: panel moves go to the open capsule; selection, filter
    /// and sort changes to the dashboard when no capsule is open; the rest is
    /// left to the loop (see [`AppAction`]). Returning to the dashboard closes
    /// the open capsule.
    pub fn apply(&mut self, event: crate::tui::WorkbenchEvent) -> (r: AppAction)
        ensures
            match event {
                crate::tui::WorkbenchEvent::Quit => r == AppAction::Quit && *final(self) == *old(self),
                crate::tui::WorkbenchEvent::NextPanel => r == AppAction::Stay && final(self).dashboard
                    == old(self).dashboard && match old(self).capsule {
                    Some(w) => final(self).capsule == Some(WorkbenchState { active_panel: panel_after(w.active_panel), ..w }),
                    None => final(self).capsule is None,
                },
                crate::tui::WorkbenchEvent::PreviousPanel => r == AppAction::Stay && final(self).dashboard
                    == old(self).dashboard && match old(self).capsule {
                    Some(w) => final(self).capsule == Some(WorkbenchState { active_panel: panel_before(w.active_panel), ..w }),
                    None => final(self).capsule is None,
                },
                crate::tui::WorkbenchEvent::NextItem => r == AppAction::Stay && final(self).capsule == old(self).capsule
                    && (old(self).capsule is Some ==> final(self).dashboard == old(self).dashboard)
                    && (old(self).capsule is None ==> final(self).dashboard.selected == selection_after_next(
                    old(self).dashboard.selected as nat, filter_indices(old(self).dashboard.capsules@,
                    old(self).dashboard.filter).len())),
                crate::tui::WorkbenchEvent::PreviousItem => r == AppAction::Stay && final(self).capsule == old(self).capsule
                    && (old(self).capsule is Some ==> final(self).dashboard == old(self).dashboard)
                    && (old(self).capsule is None ==> final(self).dashboard.selected == if old(self).dashboard.selected > 0 {
                    old(self).dashboard.selected - 1
                } else {
                    0
                }),
                crate::tui::WorkbenchEvent::CycleFilter => r == AppAction::Stay && final(self).capsule == old(self).capsule
                    && (old(self).capsule is Some ==> final(self).dashboard == old(self).dashboard)
                    && (old(self).capsule is None ==> final(self).dashboard.filter == filter_after(
                    old(self).dashboard.filter) && final(self).dashboard.selected == 0),
                crate::tui::WorkbenchEvent::CycleSort => r == AppAction::Stay && final(self).capsule == old(self).capsule
                    && (old(self).capsule is Some ==> final(self).dashboard == old(self).dashboard)
                    && (old(self).capsule is None ==> final(self).dashboard.sort == sort_after(old(self).dashboard.sort)
                    && final(self).dashboard.capsules@ == sorted_capsules(old(self).dashboard.capsules@, sort_after(
                    old(self).dashboard.sort))),
                crate::tui::WorkbenchEvent::Refresh => *final(self) == *old(self) && r == if old(self).capsule is Some {
                    AppAction::RefreshCapsule
                } else {
                    AppAction::RefreshDashboard
                },
                crate::tui::WorkbenchEvent::OpenSelected => *final(self) == *old(self) && r == if can_open(*old(self)) {
                    AppAction::OpenSelected
                } else {
                    AppAction::Stay
                },
                crate::tui::WorkbenchEvent::Dashboard => final(self).capsule is None && final(self).dashboard
                    == old(self).dashboard && r == if old(self).capsule is Some {
                    AppAction::ReloadDashboard
                } else {
                    AppAction::Stay
                },
            },
    {
        match event {
            crate::tui::WorkbenchEvent::Quit => AppAction::Quit,
            crate::tui::WorkbenchEvent::NextPanel => {
                if let Some(w) = &mut self.capsule {
                    w.next_panel();
                }
                AppAction::Stay
            },
            crate::tui::WorkbenchEvent::PreviousPanel => {
                if let Some(w) = &mut self.capsule {
                    w.previous_panel();
                }
                AppAction::Stay
            },
            crate::tui::WorkbenchEvent::NextItem => {
                if self.capsule.is_none() {
                    self.dashboard.next_item();
                }
                AppAction::Stay
            },
            crate::tui::WorkbenchEvent::PreviousItem => {
                if self.capsule.is_none() {
                    self.dashboard.previous_item();
                }
                AppAction::Stay
            },
            crate::tui::WorkbenchEvent::CycleFilter => {
                if self.capsule.is_none() {
                    self.dashboard.cycle_filter();
                }
                AppAction::Stay
            },
            crate::tui::WorkbenchEvent::CycleSort => {
                if self.capsule.is_none() {
                    self.dashboard.cycle_sort();
                }
                AppAction::Stay
            },
            crate::tui::WorkbenchEvent::Refresh => if self.capsule.is_some() {
                AppAction::RefreshCapsule
            } else {
                AppAction::RefreshDashboard
            },
            crate::tui::WorkbenchEvent::OpenSelected => {
                if self.capsule.is_none() {
                    if let Some(c) = self.dashboard.selected_capsule() {
                        if c.validation.valid {
                            return AppAction::OpenSelected;
                        }
                    }
                }
                AppAction::Stay
            },
            crate::tui::WorkbenchEvent::Dashboard => {
                let was_open = self.capsule.is_some();
                self.capsule = None;
                if was_open {
                    AppAction::ReloadDashboard
                } else {
                    AppAction::Stay
                }
            },
        }
    }
}


/// The title of a capsule whose own cannot be read: its directory's name, or
/// `<unknown>`.
pub open spec fn fallback_title(path: Seq<char>) -> Seq<char> {
    match crate::paths::file_name_of(path) {
        Some(n) => n,
        None => "<unknown>"@,
    }
}

/// The title of a capsule whose own cannot be read (see [`fallback_title`]).
pub fn fallback_dashboard_title(path: &str) -> (r: String)
    ensures
        r@ == fallback_title(path@),
{
    match crate::paths::file_name(path) {
        Some(n) => n,
        None => owned("<unknown>"),
    }
}

/// The diagnostics of reading one optional contract: none when it read, else
/// its label and the error with the capsule path replaced by `<capsule>`.
pub open spec fn contract_diagnostics(label: Seq<char>, path: Seq<char>, error: Option<Seq<char>>) -> Seq<Seq<char>> {
    match error {
        Some(e) => seq![label + ": "@ + replace_all(e, path, "<capsule>"@)],
        None => seq![],
    }
}

/// Appends the diagnostic of reading one optional contract.
fn push_contract_error<T>(lines: &mut Vec<String>, label: &str, path: &str, r: &Result<T, String>)
    ensures
        strs(final(lines)@) == strs(old(lines)@) + contract_diagnostics(label@, path@, match r {
            Ok(_) => None,
            Err(e) => Some(e@),
        }),
{
    match r {
        Ok(_) => {
            assert(strs(lines@) + Seq::<Seq<char>>::empty() =~= strs(lines@));
        },
        Err(e) => {
            let mut m = cat(label, ": ");
            push_all(&mut m, crate::tui::redact_path_text(e.as_str(), path).as_str());
            let ghost prev = strs(lines@);
            push_line(lines, m);
            assert(strs(lines@) =~= prev + seq![m@]);
        },
    }
}

/// The value read, if it read.
fn ok_of<T>(r: Result<T, String>) -> (o: Option<T>)
    ensures
        o == match r {
            Ok(v) => Some(v),
            Err(_) => None::<T>,
        },
{
    match r {
        Ok(v) => Some(v),
        Err(_) => None,
    }
}

/// The error text of a read, if it failed.
pub open spec fn err_text<T>(r: Result<T, String>) -> Option<Seq<char>> {
    match r {
        Ok(_) => None,
        Err(e) => Some(e@),
    }
}

impl DashboardCapsule {
    /// The dashboard's view of the capsule at `path` from what reading it
    /// gave: an invalid capsule is listed by its directory name as `invalid`,
    /// updated `unknown`, with its validation errors as diagnostics and nothing
    /// else read; a valid one by its status's title, status and update time
    /// (falling back as an invalid one does where the status did not read),
    /// with the contracts that read and a diagnostic for each that did not.
    pub fn from_reads(
        path: &str,
        validation: ValidationResult,
        status: Result<StatusResult, String>,
        verification: Result<Verification, String>,
        subagents: Result<Subagents, String>,
        pr: Result<PrEvidence, String>,
    ) -> (r: DashboardCapsule)
        ensures
            r.path@ == path@,
            r.validation == validation,
            !validation.valid ==> {
                &&& r.display_title@ == fallback_title(path@)
                &&& r.status_label@ == "invalid"@ && r.updated_label@ == "unknown"@
                &&& strs(r.diagnostics@) == strs(validation.errors@)
                &&& r.capsule is None && r.verification is None && r.subagents is None && r.pr is None
            },
            validation.valid ==> {
                &&& r.capsule == match status {
                    Ok(s) => Some(s),
                    Err(_) => None,
                }
                &&& r.verification == match verification {
                    Ok(v) => Some(v),
                    Err(_) => None,
                }
                &&& r.subagents == match subagents {
                    Ok(v) => Some(v),
                    Err(_) => None,
                }
                &&& r.pr == match pr {
                    Ok(v) => Some(v),
                    Err(_) => None,
                }
                &&& r.display_title@ == match status {
                    Ok(s) => s.title@,
                    Err(_) => fallback_title(path@),
                }
                &&& r.status_label@ == match status {
                    Ok(s) => capsule_status_name(s.status),
                    Err(_) => "invalid"@,
                }
                &&& r.updated_label@ == match status {
                    Ok(s) => rfc3339_shown(s.updated_at@),
                    Err(_) => "unknown"@,
                }
                &&& strs(r.diagnostics@) == contract_diagnostics("capsule"@, path@, err_text(status))
                    + contract_diagnostics("verification.json"@, path@, err_text(verification))
                    + contract_diagnostics("subagents.json"@, path@, err_text(subagents))
                    + contract_diagnostics("pr.json"@, path@, err_text(pr))
            },
    {
        if !validation.valid {
            let diagnostics = crate::order::copy_strings(&validation.errors);
            return DashboardCapsule {
                path: owned(path),
                display_title: fallback_dashboard_title(path),
                status_label: owned("invalid"),
                updated_label: owned("unknown"),
                validation,
                capsule: None,
                verification: None,
                subagents: None,
                pr: None,
                diagnostics,
            };
        }
        let mut diagnostics: Vec<String> = Vec::new();
        assert(strs(diagnostics@) =~= Seq::<Seq<char>>::empty());
        push_contract_error(&mut diagnostics, "capsule", path, &status);
        push_contract_error(&mut diagnostics, "verification.json", path, &verification);
        push_contract_error(&mut diagnostics, "subagents.json", path, &subagents);
        push_contract_error(&mut diagnostics, "pr.json", path, &pr);
        let (display_title, status_label, updated_label) = match &status {
            Ok(s) => (owned(s.title.as_str()), owned(s.status.as_str()), show_rfc3339(s.updated_at.as_str())),
            Err(_) => (fallback_dashboard_title(path), owned("invalid"), owned("unknown")),
        };
        DashboardCapsule {
            path: owned(path),
            display_title,
            status_label,
            updated_label,
            validation,
            capsule: ok_of(status),
            verification: ok_of(verification),
            subagents: ok_of(subagents),
            pr: ok_of(pr),
            diagnostics,
        }
    }
}

} // verus!
