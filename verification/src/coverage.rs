//! Edge-coverage map for coverage-guided fuzzing of precompile code.
//!
//! A map is either inactive or holds a buffer of 8-bit hit counters. Each
//! instrumented edge carries a guard id; a hit on an edge bumps the counter
//! at `guard_id % len`, wrapping at 256.

use vstd::prelude::*;

verus! {

/// Size of the coverage buffer that the executor installs.
pub const COVERAGE_MAP_SIZE: usize = 65536;

/// The counter value after one more hit: `c + 1`, wrapping at 256.
pub open spec fn bumped(c: u8) -> u8 {
    if c == 255 {
        0
    } else {
        (c + 1) as u8
    }
}

/// The map after a hit on the edge with `guard_id`: unchanged when inactive
/// or empty, otherwise the counter at `guard_id % len` is bumped.
pub open spec fn map_after_hit(map: Option<Seq<u8>>, guard_id: u32) -> Option<Seq<u8>> {
    match map {
        None => None,
        Some(buf) => if buf.len() == 0 {
            Some(buf)
        } else {
            let i = (guard_id as int) % (buf.len() as int);
            Some(buf.update(i, bumped(buf[i])))
        },
    }
}

/// The state behind the coverage hooks: the installed buffer, if any.
pub struct CoverageMap {
    buffer: Option<Vec<u8>>,
}

impl CoverageMap {
    /// The installed buffer's contents, or `None` when no map is installed.
    pub closed spec fn installed(&self) -> Option<Seq<u8>> {
        match self.buffer {
            Some(b) => Some(b@),
            None => None,
        }
    }

    /// A state with no map installed.
    pub fn new() -> (s: CoverageMap)
        ensures
            s.installed() is None,
    {
        CoverageMap { buffer: None }
    }

    /// The installed buffer, if any.
    pub fn buffer(&self) -> (b: Option<&Vec<u8>>)
        ensures
            match b {
                Some(v) => self.installed() == Some(v@),
                None => self.installed() is None,
            },
    {
        match &self.buffer {
            Some(v) => Some(v),
            None => None,
        }
    }
}

/// Installs `buffer` as the active coverage map and hands back the buffer
/// that was installed before, if any.
pub fn set_coverage_map(state: &mut CoverageMap, buffer: Vec<u8>) -> (previous: Option<Vec<u8>>)
    ensures
        final(state).installed() == Some(buffer@),
        previous.deep_view() == old(state).installed(),
{
    let previous = state.buffer.take();
    state.buffer = Some(buffer);
    previous
}

/// Deactivates the coverage map and hands back the buffer that was
/// installed, if any.
pub fn clear_coverage_map(state: &mut CoverageMap) -> (removed: Option<Vec<u8>>)
    ensures
        final(state).installed() is None,
        removed.deep_view() == old(state).installed(),
{
    state.buffer.take()
}

/// Whether a coverage map is installed.
pub fn is_active(state: &CoverageMap) -> (active: bool)
    ensures
        active == state.installed() is Some,
{
    state.buffer.is_some()
}

/// Records a hit on the edge with `guard_id`: when a non-empty map is
/// installed, bumps the counter at `guard_id % len` (wrapping at 256);
/// otherwise does nothing.
pub fn record_hit(state: &mut CoverageMap, guard_id: u32)
    ensures
        final(state).installed() == map_after_hit(old(state).installed(), guard_id),
{
    match state.buffer.take() {
        None => {},
        Some(mut buf) => {
            let len = buf.len();
            if len != 0 {
                let idx = (guard_id as usize) % len;
                let c = buf[idx];
                let next = c.wrapping_add(1);
                buf.set(idx, next);
            }
            state.buffer = Some(buf);
        },
    }
}

/// Handles a hit reported for an instrumented edge whose guard slot holds
/// `guard`: a zero guard marks an edge that takes no part in coverage and
/// is ignored; any other guard is recorded.
pub fn trace_pc_guard(state: &mut CoverageMap, guard: u32)
    ensures
        final(state).installed() == if guard == 0 {
            old(state).installed()
        } else {
            map_after_hit(old(state).installed(), guard)
        },
{
    if guard == 0 {
        return;
    }
    record_hit(state, guard);
}

/// `x + n`, wrapping at 2^32.
pub open spec fn wrapping_offset(x: u32, n: int) -> u32 {
    ((x as int + n) % 0x1_0000_0000) as u32
}

/// Source of guard ids for instrumented edges; the first id handed out is 1,
/// so that no edge starts out with the ignored id 0.
pub struct GuardCounter {
    next: u32,
}

impl GuardCounter {
    /// The id that the next guard slot receives.
    pub closed spec fn next_id(&self) -> u32 {
        self.next
    }

    /// A counter whose first id is 1.
    pub fn new() -> (c: GuardCounter)
        ensures
            c.next_id() == 1,
    {
        GuardCounter { next: 1 }
    }
}

/// Hands out consecutive ids to the guard slots of one instrumented unit:
/// slot `i` receives `next + i`, wrapping at 2^32, and the counter moves
/// past the ids handed out.
pub fn trace_pc_guard_init(counter: &mut GuardCounter, guards: &mut Vec<u32>)
    ensures
        final(guards)@.len() == old(guards)@.len(),
        forall|i: int|
            0 <= i < final(guards)@.len() ==> #[trigger] final(guards)@[i] == wrapping_offset(
                old(counter).next_id(),
                i,
            ),
        final(counter).next_id() == wrapping_offset(old(counter).next_id(), old(guards)@.len() as int),
{
    let n = guards.len();
    let ghost start = counter.next;
    let mut i: usize = 0;
    while i < n
        invariant
            n == guards@.len(),
            n == old(guards)@.len(),
            start == old(counter).next_id(),
            0 <= i <= n,
            counter.next == wrapping_offset(start, i as int),
            forall|j: int| 0 <= j < i ==> #[trigger] guards@[j] == wrapping_offset(start, j),
        decreases n - i,
    {
        let id = counter.next;
        guards.set(i, id);
        counter.next = id.wrapping_add(1);
        assert(counter.next == wrapping_offset(start, i + 1)) by {
            assert(wrapping_offset(start, i + 1) == ((wrapping_offset(start, i as int) as int + 1)
                % 0x1_0000_0000) as u32) by (nonlinear_arith);
        }
        i = i + 1;
    }
}

/// Keeps a coverage map installed for as long as it is held; releasing it
/// deactivates the map.
pub struct CoverageMapGuard;

impl CoverageMapGuard {
    /// Installs `buffer` as the active coverage map and returns the guard,
    /// together with the buffer that was installed before, if any.
    pub fn new(state: &mut CoverageMap, buffer: Vec<u8>) -> (r: (CoverageMapGuard, Option<Vec<u8>>))
        ensures
            final(state).installed() == Some(buffer@),
            r.1.deep_view() == old(state).installed(),
    {
        let previous = set_coverage_map(state, buffer);
        (CoverageMapGuard, previous)
    }

    /// Ends the guard: deactivates the coverage map and hands back the
    /// buffer that was installed, with the hits recorded into it.
    pub fn release(self, state: &mut CoverageMap) -> (removed: Option<Vec<u8>>)
        ensures
            final(state).installed() is None,
            removed.deep_view() == old(state).installed(),
    {
        clear_coverage_map(state)
    }
}

/// The map after hits on the edges `ids`, in order.
pub open spec fn map_after_hits(map: Option<Seq<u8>>, ids: Seq<u32>) -> Option<Seq<u8>>
    decreases ids.len(),
{
    if ids.len() == 0 {
        map
    } else {
        map_after_hit(map_after_hits(map, ids.drop_last()), ids.last())
    }
}

/// How many of `ids` land in slot `i` of a map of length `len`.
pub open spec fn hits_on(ids: Seq<u32>, len: nat, i: int) -> nat
    decreases ids.len(),
{
    if ids.len() == 0 {
        0
    } else {
        hits_on(ids.drop_last(), len, i) + if (ids.last() as int) % (len as int) == i {
            1nat
        } else {
            0nat
        }
    }
}

/// Every counter of an installed, non-empty map counts the hits on the
/// edges that land in its slot, modulo 256; the map keeps its length.
pub proof fn law_counters_count_hits(buf: Seq<u8>, ids: Seq<u32>, i: int)
    requires
        buf.len() > 0,
        0 <= i < buf.len(),
    ensures
        map_after_hits(Some(buf), ids) is Some,
        map_after_hits(Some(buf), ids)->0.len() == buf.len(),
        map_after_hits(Some(buf), ids)->0[i] as int == (buf[i] + hits_on(ids, buf.len(), i)) % 256,
    decreases ids.len(),
{
    if ids.len() > 0 {
        let prev = ids.drop_last();
        law_counters_count_hits(buf, prev, i);
        let c = map_after_hits(Some(buf), prev)->0;
        let j = (ids.last() as int) % (buf.len() as int);
        let h = hits_on(prev, buf.len(), i);
        if j == i {
            assert((((buf[i] + h) % 256) + 1) % 256 == (buf[i] + h + 1) % 256) by (nonlinear_arith);
        } else {
            assert(c.update(j, bumped(c[j]))[i] == c[i]);
        }
    }
}

/// A hit on an installed, zeroed, non-empty map leaves a non-zero counter.
pub proof fn law_hit_on_zeroed_map_shows(len: nat, guard_id: u32)
    requires
        len > 0,
    ensures
        map_after_hit(Some(Seq::new(len, |i: int| 0u8)), guard_id) matches Some(b) && exists|i: int|
            0 <= i < b.len() && b[i] > 0,
{
    let b = map_after_hit(Some(Seq::new(len, |i: int| 0u8)), guard_id)->0;
    let j = (guard_id as int) % (len as int);
    assert(b[j] == 1u8);
}

/// A fresh guard counter hands out non-zero, pairwise distinct ids to the
/// first `2^32 - 1` guard slots, so every one of those edges is recorded
/// rather than ignored, and no two share an id.
pub proof fn law_fresh_guard_ids_are_live(i: int, j: int)
    requires
        0 <= i < 0xffff_ffff,
        0 <= j < 0xffff_ffff,
        i != j,
    ensures
        wrapping_offset(1, i) != 0,
        wrapping_offset(1, i) != wrapping_offset(1, j),
{
}

/// Sum of the slot counts of a sequence of init calls.
pub open spec fn total_slots(counts: Seq<nat>) -> nat
    decreases counts.len(),
{
    if counts.len() == 0 {
        0
    } else {
        total_slots(counts.drop_last()) + counts.last()
    }
}

/// The counter's next id after init calls with `counts` slots, in order,
/// starting from `start` (each call moves it as `trace_pc_guard_init` says).
pub open spec fn counter_after_calls(start: u32, counts: Seq<nat>) -> u32
    decreases counts.len(),
{
    if counts.len() == 0 {
        start
    } else {
        wrapping_offset(counter_after_calls(start, counts.drop_last()), counts.last() as int)
    }
}

/// The id that init call `c` gives its slot `i`, the calls having
/// `counts` slots and the counter starting at `start`.
pub open spec fn id_in_call(start: u32, counts: Seq<nat>, c: int, i: int) -> u32 {
    wrapping_offset(counter_after_calls(start, counts.take(c)), i)
}

proof fn lemma_wrapping_offset_adds(x: u32, a: int, b: int)
    requires
        a >= 0,
        b >= 0,
    ensures
        wrapping_offset(wrapping_offset(x, a), b) == wrapping_offset(x, a + b),
{
    let m = 0x1_0000_0000int;
    let y = (x as int + a) % m;
    assert(((y + b) % m) == ((x as int + a + b) % m)) by (nonlinear_arith)
        requires
            y == (x as int + a) % m,
            m == 0x1_0000_0000int,
    {
        vstd::arithmetic::div_mod::lemma_add_mod_noop(x as int + a, b, m);
        vstd::arithmetic::div_mod::lemma_mod_twice(b, m);
        vstd::arithmetic::div_mod::lemma_add_mod_noop(x as int + a, b % m, m);
    }
}

/// After any sequence of init calls the counter has moved by the total
/// number of slots, wrapping at 2^32.
pub proof fn law_counter_moves_by_total(start: u32, counts: Seq<nat>)
    ensures
        counter_after_calls(start, counts) == wrapping_offset(start, total_slots(counts) as int),
    decreases counts.len(),
{
    if counts.len() == 0 {
        assert(wrapping_offset(start, 0) == start);
    } else {
        law_counter_moves_by_total(start, counts.drop_last());
        lemma_wrapping_offset_adds(
            start,
            total_slots(counts.drop_last()) as int,
            counts.last() as int,
        );
    }
}

proof fn lemma_take_total(counts: Seq<nat>, c: int)
    requires
        0 <= c < counts.len(),
    ensures
        total_slots(counts.take(c + 1)) == total_slots(counts.take(c)) + counts[c],
{
    assert(counts.take(c + 1).drop_last() =~= counts.take(c));
}

proof fn lemma_take_total_monotone(counts: Seq<nat>, c1: int, c2: int)
    requires
        0 <= c1 < c2 <= counts.len(),
    ensures
        total_slots(counts.take(c1)) + counts[c1] <= total_slots(counts.take(c2)),
    decreases c2 - c1,
{
    lemma_take_total(counts, c1);
    if c2 > c1 + 1 {
        lemma_take_total_monotone(counts, c1 + 1, c2);
        lemma_take_total(counts, c1 + 1);
    }
}

/// Across any sequence of init calls from a fresh counter that hand out
/// fewer than 2^32 - 1 ids in all, every slot gets a non-zero id, and no two
/// slots (in the same call or in different calls) get the same id.
pub proof fn law_guard_ids_live_across_calls(counts: Seq<nat>, c1: int, i1: int, c2: int, i2: int)
    requires
        total_slots(counts) < 0xffff_ffff,
        0 <= c1 < counts.len(),
        0 <= i1 < counts[c1],
        0 <= c2 < counts.len(),
        0 <= i2 < counts[c2],
        (c1, i1) != (c2, i2),
    ensures
        id_in_call(1, counts, c1, i1) != 0,
        id_in_call(1, counts, c1, i1) != id_in_call(1, counts, c2, i2),
{
    let p1 = total_slots(counts.take(c1)) + i1;
    let p2 = total_slots(counts.take(c2)) + i2;
    law_counter_moves_by_total(1, counts.take(c1));
    law_counter_moves_by_total(1, counts.take(c2));
    lemma_wrapping_offset_adds(1, total_slots(counts.take(c1)) as int, i1);
    lemma_wrapping_offset_adds(1, total_slots(counts.take(c2)) as int, i2);
    assert(counts.take(counts.len() as int) =~= counts);
    if c1 + 1 < counts.len() {
        lemma_take_total_monotone(counts, c1, counts.len() as int);
    } else {
        lemma_take_total(counts, c1);
    }
    if c2 + 1 < counts.len() {
        lemma_take_total_monotone(counts, c2, counts.len() as int);
    } else {
        lemma_take_total(counts, c2);
    }
    if c1 < c2 {
        lemma_take_total_monotone(counts, c1, c2);
    } else if c2 < c1 {
        lemma_take_total_monotone(counts, c2, c1);
    }
    assert(p1 != p2);
    assert(p1 < 0xffff_ffff && p2 < 0xffff_ffff);
    law_fresh_guard_ids_are_live(p1, p2);
}

/// The id `n` places after `x` is `x + n` modulo 2^32: consecutive guard
/// slots get consecutive ids, wrapping only past `u32::MAX`.
pub proof fn law_guard_ids_are_consecutive(x: u32, n: int)
    requires
        n >= 0,
    ensures
        wrapping_offset(x, n) as int == (x as int + n) % 0x1_0000_0000,
        x as int + n <= u32::MAX ==> wrapping_offset(x, n) as int == x as int + n,
        wrapping_offset(x, 1) as int == if x == u32::MAX {
            0
        } else {
            x as int + 1
        },
{
    assert(0 <= (x as int + n) % 0x1_0000_0000 < 0x1_0000_0000) by (nonlinear_arith)
        requires
            x as int + n >= 0,
    ;
    if x as int + n <= u32::MAX {
        vstd::arithmetic::div_mod::lemma_small_mod((x as int + n) as nat, 0x1_0000_0000nat);
    }
    if x < u32::MAX {
        vstd::arithmetic::div_mod::lemma_small_mod((x as int + 1) as nat, 0x1_0000_0000nat);
    }
}

/// Hits on a map that is not installed leave it not installed, whatever the
/// guard ids; a hit on an installed, empty map leaves it installed and
/// empty.
pub proof fn law_hits_without_map_do_nothing(ids: Seq<u32>, guard_id: u32)
    ensures
        map_after_hits(None, ids) is None,
        map_after_hit(None, guard_id) is None,
        map_after_hit(Some(Seq::<u8>::empty()), guard_id) == Some(Seq::<u8>::empty()),
    decreases ids.len(),
{
    if ids.len() > 0 {
        law_hits_without_map_do_nothing(ids.drop_last(), guard_id);
    }
}

/// One hit on an installed, non-empty map raises the counter at
/// `guard_id % len` by one, modulo 256, and leaves every other counter and
/// the length as they were.
pub proof fn law_hit_raises_one_counter(buf: Seq<u8>, guard_id: u32, i: int)
    requires
        buf.len() > 0,
        0 <= i < buf.len(),
    ensures
        map_after_hit(Some(buf), guard_id) is Some,
        map_after_hit(Some(buf), guard_id)->0.len() == buf.len(),
        i == (guard_id as int) % (buf.len() as int) ==> map_after_hit(Some(buf), guard_id)->0[i]
            as int == (buf[i] as int + 1) % 256,
        i != (guard_id as int) % (buf.len() as int) ==> map_after_hit(Some(buf), guard_id)->0[i]
            == buf[i],
{
    if buf[i] < 255 {
        vstd::arithmetic::div_mod::lemma_small_mod((buf[i] as int + 1) as nat, 256nat);
    }
}

} // verus!
