//! Collecting precompile coverage around one EVM call and merging it into
//! the call's edge coverage.

use vstd::prelude::*;

use crate::coverage::{
    CoverageMap,
    set_coverage_map,
    clear_coverage_map,
    map_after_hit,
    law_hit_on_zeroed_map_shows,
};

verus! {

/// Whether any counter in `hits` is non-zero.
pub open spec fn has_any_hit(hits: Seq<u8>) -> bool {
    exists|i: int| 0 <= i < hits.len() && hits[i] > 0
}

/// `a + b`, saturating at 255.
pub open spec fn saturating_sum(a: u8, b: u8) -> u8 {
    if a + b > 255 {
        255
    } else {
        (a + b) as u8
    }
}

/// `existing` with `hits` added slot by slot, saturating at 255, over the
/// slots that both have; the slots of `existing` past the end of `hits` are
/// kept.
pub open spec fn added_coverage(existing: Seq<u8>, hits: Seq<u8>) -> Seq<u8> {
    Seq::new(
        existing.len(),
        |i: int|
            if i < hits.len() {
                saturating_sum(existing[i], hits[i])
            } else {
                existing[i]
            },
    )
}

/// The edge coverage after merging `hits`: unchanged when no counter of
/// `hits` is set; otherwise `hits` added into the existing coverage, or a
/// copy of `hits` when there was none.
pub open spec fn merged_coverage(edge_coverage: Option<Seq<u8>>, hits: Seq<u8>) -> Option<Seq<u8>> {
    if !has_any_hit(hits) {
        edge_coverage
    } else {
        match edge_coverage {
            Some(existing) => Some(added_coverage(existing, hits)),
            None => Some(hits),
        }
    }
}

/// Keeps the precompile coverage buffer installed for the duration of one
/// EVM call.
pub struct TempoCoverageGuard;

impl TempoCoverageGuard {
    /// Clears every counter of `buffer` and installs it as the active
    /// coverage map; returns the guard and the buffer installed before, if
    /// any.
    pub fn new(state: &mut CoverageMap, buffer: Vec<u8>) -> (r: (TempoCoverageGuard, Option<Vec<u8>>))
        ensures
            final(state).installed() == Some(Seq::new(buffer@.len(), |i: int| 0u8)),
            r.1.deep_view() == old(state).installed(),
    {
        let mut buffer = buffer;
        let n = buffer.len();
        let mut i: usize = 0;
        while i < n
            invariant
                n == buffer@.len(),
                0 <= i <= n,
                forall|j: int| 0 <= j < i ==> buffer@[j] == 0u8,
            decreases n - i,
        {
            buffer.set(i, 0u8);
            i = i + 1;
        }
        assert(buffer@ =~= Seq::new(n as nat, |i: int| 0u8));
        let previous = set_coverage_map(state, buffer);
        (TempoCoverageGuard, previous)
    }

    /// Merges a call's precompile coverage into its result: the hits go
    /// into `edge_coverage` (see `merged_coverage`), and the comparison
    /// operands captured during the call, when there are any, become
    /// `tempo_cmp_values`.
    pub fn merge_into<T>(
        edge_coverage: &mut Option<Vec<u8>>,
        hits: &Vec<u8>,
        tempo_cmp_values: &mut Option<Vec<T>>,
        cmp_values: Vec<T>,
    )
        ensures
            final(edge_coverage).deep_view() == merged_coverage(old(edge_coverage).deep_view(), hits@),
            *final(tempo_cmp_values) == if cmp_values@.len() == 0 {
                *old(tempo_cmp_values)
            } else {
                Some(cmp_values)
            },
    {
        Self::merge_hits(edge_coverage, hits);
        attach_cmp_values(tempo_cmp_values, cmp_values);
    }

    /// Merges the precompile hits into a call's edge coverage: when no
    /// counter of `hits` is set nothing changes; otherwise the hits are added
    /// slot by slot (saturating at 255) into the existing coverage, or become
    /// the edge coverage when the call had none.
    fn merge_hits(edge_coverage: &mut Option<Vec<u8>>, hits: &Vec<u8>)
        ensures
            final(edge_coverage).deep_view() == merged_coverage(old(edge_coverage).deep_view(), hits@),
    {
        let n = hits.len();
        let mut found = false;
        let mut k: usize = 0;
        while k < n
            invariant
                n == hits@.len(),
                0 <= k <= n,
                found == (exists|j: int| 0 <= j < k && hits@[j] > 0),
            decreases n - k,
        {
            if hits[k] > 0 {
                found = true;
            }
            k = k + 1;
        }
        if !found {
            return;
        }
        match edge_coverage.take() {
            Some(mut existing) => {
                let ghost before = existing@;
                let m = existing.len();
                let mut i: usize = 0;
                while i < m && i < n
                    invariant
                        m == existing@.len(),
                        m == before.len(),
                        n == hits@.len(),
                        0 <= i <= m,
                        i <= n,
                        forall|j: int|
                            0 <= j < i ==> #[trigger] existing@[j] == saturating_sum(before[j], hits@[j]),
                        forall|j: int| i <= j < m ==> #[trigger] existing@[j] == before[j],
                    decreases m - i,
                {
                    let v = existing[i].saturating_add(hits[i]);
                    existing.set(i, v);
                    i = i + 1;
                }
                assert(existing@ =~= added_coverage(before, hits@));
                *edge_coverage = Some(existing);
            },
            None => {
                *edge_coverage = Some(hits.clone());
            },
        }
    }

    /// Ends the guard: deactivates the coverage map and hands back the
    /// buffer that was installed.
    pub fn release(self, state: &mut CoverageMap) -> (removed: Option<Vec<u8>>)
        ensures
            final(state).installed() is None,
            removed.deep_view() == old(state).installed(),
    {
        clear_coverage_map(state)
    }
}

/// Attaches comparison operands captured during a call to its result: a
/// non-empty batch replaces the slot's contents, an empty batch leaves the
/// slot as it was.
pub fn attach_cmp_values<T>(slot: &mut Option<Vec<T>>, values: Vec<T>)
    ensures
        *final(slot) == if values@.len() == 0 {
            *old(slot)
        } else {
            Some(values)
        },
{
    if values.len() != 0 {
        *slot = Some(values);
    }
}

/// Merging a buffer in which no counter is set leaves the edge coverage as
/// it was.
pub proof fn law_merge_without_hits_keeps_coverage(edge_coverage: Option<Seq<u8>>, hits: Seq<u8>)
    requires
        forall|i: int| 0 <= i < hits.len() ==> hits[i] == 0,
    ensures
        merged_coverage(edge_coverage, hits) == edge_coverage,
{
}

/// Merging into existing coverage keeps its length and never lowers a
/// counter.
pub proof fn law_merge_never_lowers_counters(existing: Seq<u8>, hits: Seq<u8>)
    ensures
        merged_coverage(Some(existing), hits) is Some,
        merged_coverage(Some(existing), hits)->0.len() == existing.len(),
        forall|i: int|
            0 <= i < existing.len() ==> #[trigger] merged_coverage(Some(existing), hits)->0[i]
                >= existing[i],
{
}

/// A hit recorded during a call, into the zeroed buffer that the guard
/// installs, shows up in the call's edge coverage after merging, whether or
/// not the call had edge coverage before.
pub proof fn law_recorded_hit_reaches_edge_coverage(
    len: nat,
    guard_id: u32,
    edge_coverage: Option<Seq<u8>>,
)
    requires
        len > 0,
        edge_coverage matches Some(e) ==> e.len() == len,
    ensures
        ({
            let hits = map_after_hit(Some(Seq::new(len, |i: int| 0u8)), guard_id)->0;
            merged_coverage(edge_coverage, hits) matches Some(c) && exists|i: int|
                0 <= i < c.len() && c[i] > 0
        }),
{
    law_hit_on_zeroed_map_shows(len, guard_id);
    let hits = map_after_hit(Some(Seq::new(len, |i: int| 0u8)), guard_id)->0;
    let j = choose|i: int| 0 <= i < hits.len() && hits[i] > 0;
    assert(has_any_hit(hits));
    match edge_coverage {
        Some(e) => {
            let c = added_coverage(e, hits);
            assert(c[j] > 0);
        },
        None => {
            assert(hits[j] > 0);
        },
    }
}

/// Merging hits into existing coverage adds them as integers, slot by slot,
/// capped at 255, over the slots both have; the slots past the end of the
/// hits keep their counts. With no coverage before, the hits become the
/// coverage as they are.
pub proof fn law_merge_adds_capped(existing: Seq<u8>, hits: Seq<u8>, i: int)
    requires
        has_any_hit(hits),
    ensures
        merged_coverage(None, hits) == Some(hits),
        merged_coverage(Some(existing), hits) is Some,
        merged_coverage(Some(existing), hits)->0.len() == existing.len(),
        0 <= i < existing.len() && i < hits.len() ==> merged_coverage(Some(existing), hits)->0[i]
            as int == if existing[i] as int + hits[i] as int > 255 {
            255
        } else {
            existing[i] as int + hits[i] as int
        },
        hits.len() <= i < existing.len() ==> merged_coverage(Some(existing), hits)->0[i]
            == existing[i],
{
}

} // verus!
