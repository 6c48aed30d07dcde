//! The evidence summary of a capsule: how many records it holds, and for each
//! kind, how many and the latest.
use vstd::prelude::*;

use crate::dev::capsule::{EvidenceKindSummary, EvidenceRecord, EvidenceSummary};
use crate::dev::kinds::EvidenceKind;
use crate::dev::record::utc_after;
use crate::text::owned;

verus! {

/// The position of a kind in the summary's order.
pub open spec fn kind_rank(k: EvidenceKind) -> nat {
    match k {
        EvidenceKind::Command => 0,
        EvidenceKind::Subagent => 1,
        EvidenceKind::Review => 2,
        EvidenceKind::Ci => 3,
        EvidenceKind::Decision => 4,
        EvidenceKind::Research => 5,
        EvidenceKind::Manual => 6,
        EvidenceKind::Output => 7,
    }
}

/// The kind at position `i` of the summary's order.
pub open spec fn kind_at(i: int) -> EvidenceKind {
    if i == 0 {
        EvidenceKind::Command
    } else if i == 1 {
        EvidenceKind::Subagent
    } else if i == 2 {
        EvidenceKind::Review
    } else if i == 3 {
        EvidenceKind::Ci
    } else if i == 4 {
        EvidenceKind::Decision
    } else if i == 5 {
        EvidenceKind::Research
    } else if i == 6 {
        EvidenceKind::Manual
    } else {
        EvidenceKind::Output
    }
}

fn kind_at_exec(i: usize) -> (r: EvidenceKind)
    requires
        i < 8,
    ensures
        r == kind_at(i as int),
{
    if i == 0 {
        EvidenceKind::Command
    } else if i == 1 {
        EvidenceKind::Subagent
    } else if i == 2 {
        EvidenceKind::Review
    } else if i == 3 {
        EvidenceKind::Ci
    } else if i == 4 {
        EvidenceKind::Decision
    } else if i == 5 {
        EvidenceKind::Research
    } else if i == 6 {
        EvidenceKind::Manual
    } else {
        EvidenceKind::Output
    }
}

fn rank_of(k: EvidenceKind) -> (r: usize)
    ensures
        r == kind_rank(k),
        r < 8,
        kind_at(r as int) == k,
{
    match k {
        EvidenceKind::Command => 0,
        EvidenceKind::Subagent => 1,
        EvidenceKind::Review => 2,
        EvidenceKind::Ci => 3,
        EvidenceKind::Decision => 4,
        EvidenceKind::Research => 5,
        EvidenceKind::Manual => 6,
        EvidenceKind::Output => 7,
    }
}

/// The count and latest record of kind `k` among `rs`: a record replaces the
/// latest unless the latest's time is after its own.
pub open spec fn kind_fold(rs: Seq<EvidenceRecord>, k: EvidenceKind) -> Option<(nat, Seq<char>, Seq<char>)>
    decreases rs.len(),
{
    if rs.len() == 0 {
        None
    } else {
        let prev = kind_fold(rs.drop_last(), k);
        let r = rs.last();
        if r.kind != k {
            prev
        } else {
            match prev {
                None => Some((1, r.at@, r.summary@)),
                Some((c, at, s)) => if utc_after(at, r.at@) == Some(true) {
                    Some((c + 1, at, s))
                } else {
                    Some((c + 1, r.at@, r.summary@))
                },
            }
        }
    }
}

/// The per-kind entries for the kinds from position `i` on, in order.
pub open spec fn kind_entries(rs: Seq<EvidenceRecord>, i: nat) -> Seq<(EvidenceKind, nat, Seq<char>, Seq<char>)>
    decreases 8 - i,
{
    if i >= 8 {
        seq![]
    } else {
        let here = match kind_fold(rs, kind_at(i as int)) {
            Some((c, at, s)) => seq![(kind_at(i as int), c, at, s)],
            None => seq![],
        };
        here + kind_entries(rs, i + 1)
    }
}

/// A summary entry, as values.
pub open spec fn entry_view(e: EvidenceKindSummary) -> (EvidenceKind, nat, Seq<char>, Seq<char>) {
    (e.kind, e.count as nat, e.latest_at@, e.latest_summary@)
}

/// Summarizes evidence records: their number, and for each kind that occurs
/// (in kind order) its count and its latest record's time and summary.
pub fn summarize_evidence(records: &Vec<EvidenceRecord>) -> (r: EvidenceSummary)
    requires
        records@.len() <= u64::MAX,
    ensures
        r.total == records@.len(),
        r.by_kind@.map_values(|e: EvidenceKindSummary| entry_view(e)) == kind_entries(records@, 0),
{
    let mut slots: Vec<Option<(u64, String, String)>> = Vec::new();
    let mut j: usize = 0;
    while j < 8
        invariant
            j <= 8,
            slots@.len() == j,
            forall|m: int| 0 <= m < j ==> (#[trigger] slots@[m]) is None,
        decreases 8 - j,
    {
        slots.push(None);
        j = j + 1;
    }
    let mut i: usize = 0;
    while i < records.len()
        invariant
            i <= records@.len(),
            records@.len() <= u64::MAX,
            slots@.len() == 8,
            forall|m: int| 0 <= m < 8 ==> match (#[trigger] slots@[m]) {
                Some((c, at, s)) => kind_fold(records@.take(i as int), kind_at(m)) == Some((c as nat, at@, s@)) && c <= i,
                None => kind_fold(records@.take(i as int), kind_at(m)) is None,
            },
        decreases records@.len() - i,
    {
        let ghost t = records@.take(i + 1);
        assert(t.drop_last() =~= records@.take(i as int));
        assert(t.last() == records@[i as int]);
        let rec = &records[i];
        let k = rank_of(rec.kind);
        let ghost old_slots = slots@;
        let next = match &slots[k] {
            None => Some((1u64, owned(rec.at.as_str()), owned(rec.summary.as_str()))),
            Some((c, at, s)) => {
                let after = crate::dev::record::is_after(at.as_str(), rec.at.as_str());
                if after == Some(true) {
                    Some((*c + 1, owned(at.as_str()), owned(s.as_str())))
                } else {
                    Some((*c + 1, owned(rec.at.as_str()), owned(rec.summary.as_str())))
                }
            },
        };
        slots.set(k, next);
        proof {
            assert forall|m: int| 0 <= m < 8 implies match (#[trigger] slots@[m]) {
                Some((c, at, s)) => kind_fold(t, kind_at(m)) == Some((c as nat, at@, s@)) && c <= i + 1,
                None => kind_fold(t, kind_at(m)) is None,
            } by {
                if m != k {
                    assert(slots@[m] == old_slots[m]);
                    assert(kind_at(m) != rec.kind) by {
                        if kind_at(m) == rec.kind {
                            assert(kind_rank(kind_at(m)) == m) by {
                                assert(0 <= m < 8);
                            }
                        }
                    }
                }
            }
        }
        i = i + 1;
    }
    assert(records@.take(records@.len() as int) =~= records@);
    let mut by_kind: Vec<EvidenceKindSummary> = Vec::new();
    let mut k: usize = 0;
    let ghost mut acc: Seq<(EvidenceKind, nat, Seq<char>, Seq<char>)> = seq![];
    assert(by_kind@.map_values(|e: EvidenceKindSummary| entry_view(e)) =~= acc);
    while k < 8
        invariant
            k <= 8,
            slots@.len() == 8,
            forall|q: int| 0 <= q < 8 ==> match (#[trigger] slots@[q]) {
                Some((c, at, s)) => kind_fold(records@, kind_at(q)) == Some((c as nat, at@, s@)),
                None => kind_fold(records@, kind_at(q)) is None,
            },
            by_kind@.map_values(|e: EvidenceKindSummary| entry_view(e)) + kind_entries(records@, k as nat)
                == kind_entries(records@, 0),
        decreases 8 - k,
    {
        let ghost before = by_kind@;
        match &slots[k] {
            Some((c, at, s)) => {
                by_kind.push(EvidenceKindSummary {
                    kind: kind_at_exec(k),
                    count: *c,
                    latest_at: owned(at.as_str()),
                    latest_summary: owned(s.as_str()),
                });
                assert(by_kind@.map_values(|e: EvidenceKindSummary| entry_view(e)) =~= before.map_values(
                    |e: EvidenceKindSummary| entry_view(e),
                ).push((kind_at(k as int), *c as nat, at@, s@)));
            },
            None => {},
        }
        assert(by_kind@.map_values(|e: EvidenceKindSummary| entry_view(e)) + kind_entries(records@, (k + 1) as nat)
            =~= kind_entries(records@, 0));
        k = k + 1;
    }
    assert(by_kind@.map_values(|e: EvidenceKindSummary| entry_view(e)) =~= kind_entries(records@, 0));
    EvidenceSummary { total: records.len() as u64, by_kind }
}

} // verus!
