//! Bookkeeping for a tracking allocator: the number of bytes currently
//! live and the highest value that number has reached since the last
//! reset.  The `Counter` holds the two values; a spec-level event model
//! (`step`, `run`) describes every admissible history of allocation,
//! deallocation and reset, and the lemmas at the end prove the counter
//! laws over that model.

use vstd::prelude::*;

verus! {

/// One bookkeeping event of the tracking allocator.
pub enum AllocEvent {
    /// A successful allocation of `size` bytes was made.
    Alloc { size: usize },
    /// An earlier allocation of `size` bytes was released.
    Dealloc { size: usize },
    /// The peak counter was reset by the harness.
    ResetPeak,
}

/// The two counters of the tracking allocator.
pub struct Counter {
    current: usize,
    peak: usize,
}

/// The counter state after one event: the pair is
/// (current bytes, peak bytes).
pub open spec fn step(current: int, peak: int, e: AllocEvent) -> (int, int) {
    match e {
        AllocEvent::Alloc { size } => {
            let c = current + size;
            (c, if c > peak { c } else { peak })
        },
        AllocEvent::Dealloc { size } => (current - size, peak),
        AllocEvent::ResetPeak => (current, 0),
    }
}

/// The counter state after a whole sequence of events.
pub open spec fn run(current: int, peak: int, events: Seq<AllocEvent>) -> (int, int)
    decreases events.len(),
{
    if events.len() == 0 {
        (current, peak)
    } else {
        let s = step(current, peak, events[0]);
        run(s.0, s.1, events.drop_first())
    }
}

/// The allocator contract: every deallocation releases bytes that were
/// still accounted for when it happened.
pub open spec fn consistent(current: int, events: Seq<AllocEvent>) -> bool
    decreases events.len(),
{
    events.len() == 0 || {
        &&& (events[0] matches AllocEvent::Dealloc { size } ==> size <= current)
        &&& consistent(step(current, 0, events[0]).0, events.drop_first())
    }
}

/// The harness discipline: the peak counter is only reset while no
/// tracked bytes are live.
pub open spec fn resets_only_when_idle(current: int, events: Seq<AllocEvent>) -> bool
    decreases events.len(),
{
    events.len() == 0 || {
        &&& (events[0] is ResetPeak ==> current == 0)
        &&& resets_only_when_idle(step(current, 0, events[0]).0, events.drop_first())
    }
}

impl Counter {
    /// Total bytes currently allocated and not yet freed.
    pub closed spec fn current_bytes(self) -> int {
        self.current as int
    }

    /// The maximum `current_bytes` has reached since the last reset.
    pub closed spec fn peak_bytes(self) -> int {
        self.peak as int
    }

    /// A fresh counter: nothing allocated, no peak recorded.
    pub fn new() -> (c: Counter)
        ensures
            c.current_bytes() == 0,
            c.peak_bytes() == 0,
    {
        Counter { current: 0, peak: 0 }
    }

    /// Book a successful allocation of `size` bytes: raise the live
    /// count, then raise the peak to the live count if it exceeded it.
    pub fn allocate(&mut self, size: usize)
        requires
            old(self).current_bytes() + size <= usize::MAX,
        ensures
            (final(self).current_bytes(), final(self).peak_bytes()) == step(
                old(self).current_bytes(),
                old(self).peak_bytes(),
                AllocEvent::Alloc { size },
            ),
            final(self).current_bytes() == old(self).current_bytes() + size,
            final(self).peak_bytes() >= final(self).current_bytes(),
            final(self).peak_bytes() >= old(self).peak_bytes(),
    {
        self.current = self.current + size;
        if self.current > self.peak {
            self.peak = self.current;
        }
    }

    /// Book a deallocation of `size` bytes.  The allocator contract
    /// guarantees the bytes were booked by a matching allocation, so
    /// the live count cannot underflow.
    pub fn deallocate(&mut self, size: usize)
        requires
            size <= old(self).current_bytes(),
        ensures
            (final(self).current_bytes(), final(self).peak_bytes()) == step(
                old(self).current_bytes(),
                old(self).peak_bytes(),
                AllocEvent::Dealloc { size },
            ),
            final(self).current_bytes() == old(self).current_bytes() - size,
            final(self).peak_bytes() == old(self).peak_bytes(),
    {
        self.current = self.current - size;
    }
}

/// Current live bytes, as the harness reads them.
pub fn get_allocated(c: &Counter) -> (r: usize)
    ensures
        r == c.current_bytes(),
{
    c.current
}

/// Peak bytes since the last reset, as the harness reads them.
pub fn get_max_allocated(c: &Counter) -> (r: usize)
    ensures
        r == c.peak_bytes(),
{
    c.peak
}

/// Reset the peak counter to zero; the live count is untouched.
pub fn reset_allocator(c: &mut Counter)
    ensures
        (final(c).current_bytes(), final(c).peak_bytes()) == step(
            old(c).current_bytes(),
            old(c).peak_bytes(),
            AllocEvent::ResetPeak,
        ),
        final(c).current_bytes() == old(c).current_bytes(),
        final(c).peak_bytes() == 0,
{
    c.peak = 0;
}

/// Counter non-negativity: under the allocator contract — every
/// deallocation releases bytes that were still accounted for — the
/// live count never goes below zero, whatever the history.
pub proof fn lemma_current_nonnegative(current: int, peak: int, events: Seq<AllocEvent>)
    requires
        0 <= current,
        consistent(current, events),
    ensures
        0 <= run(current, peak, events).0,
    decreases events.len(),
{
    if events.len() > 0 {
        let s = step(current, peak, events[0]);
        assert(s.0 == step(current, 0, events[0]).0);
        lemma_current_nonnegative(s.0, s.1, events.drop_first());
    }
}

/// The allocator contract holds of every prefix of a history it
/// holds of.
proof fn lemma_consistent_prefix(current: int, events: Seq<AllocEvent>, t: int)
    requires
        0 <= t <= events.len(),
        consistent(current, events),
    ensures
        consistent(current, events.take(t)),
    decreases t,
{
    if t > 0 {
        let p = events.take(t);
        assert(p[0] == events[0]);
        let s = step(current, 0, events[0]);
        assert(p.drop_first() =~= events.drop_first().take(t - 1));
        lemma_consistent_prefix(s.0, events.drop_first(), t - 1);
    }
}

/// Counter non-negativity at every observable point: the live count
/// is also non-negative after any prefix of the history.
pub proof fn lemma_current_nonnegative_at(
    current: int,
    peak: int,
    events: Seq<AllocEvent>,
    t: int,
)
    requires
        0 <= current,
        consistent(current, events),
        0 <= t <= events.len(),
    ensures
        0 <= run(current, peak, events.take(t)).0,
{
    lemma_consistent_prefix(current, events, t);
    lemma_current_nonnegative(current, peak, events.take(t));
}

/// Peak monotonicity while no reset occurs: the peak counter never
/// decreases over such a history.
pub proof fn lemma_peak_monotone(current: int, peak: int, events: Seq<AllocEvent>)
    requires
        forall|i: int| 0 <= i < events.len() ==> !((#[trigger] events[i]) is ResetPeak),
    ensures
        peak <= run(current, peak, events).1,
    decreases events.len(),
{
    if events.len() > 0 {
        let s = step(current, peak, events[0]);
        assert forall|i: int|
            0 <= i < events.drop_first().len() implies !((#[trigger] events.drop_first()[i])
            is ResetPeak) by {
            assert(events.drop_first()[i] == events[i + 1]);
        }
        lemma_peak_monotone(s.0, s.1, events.drop_first());
    }
}

/// Composition: running a history split in two runs the second part
/// from the state where the first part ended.
pub proof fn lemma_run_concat(current: int, peak: int, a: Seq<AllocEvent>, b: Seq<AllocEvent>)
    ensures
        run(current, peak, a + b) == run(run(current, peak, a).0, run(current, peak, a).1, b),
    decreases a.len(),
{
    if a.len() == 0 {
        assert(a + b =~= b);
    } else {
        let s = step(current, peak, a[0]);
        assert((a + b)[0] == a[0]);
        assert((a + b).drop_first() =~= a.drop_first() + b);
        lemma_run_concat(s.0, s.1, a.drop_first(), b);
    }
}

/// Peak monotonicity between two instants of one measurement window:
/// with no reset between them, the peak at the later instant is at
/// least the peak at the earlier one.
pub proof fn lemma_peak_monotone_between(
    current: int,
    peak: int,
    events: Seq<AllocEvent>,
    t1: int,
    t2: int,
)
    requires
        0 <= t1 <= t2 <= events.len(),
        forall|i: int| t1 <= i < t2 ==> !((#[trigger] events[i]) is ResetPeak),
    ensures
        run(current, peak, events.take(t1)).1 <= run(current, peak, events.take(t2)).1,
{
    let a = events.take(t1);
    let mid = events.subrange(t1, t2);
    assert(events.take(t2) =~= a + mid);
    lemma_run_concat(current, peak, a, mid);
    let s = run(current, peak, a);
    assert forall|i: int| 0 <= i < mid.len() implies !((#[trigger] mid[i]) is ResetPeak) by {
        assert(mid[i] == events[t1 + i]);
    }
    lemma_peak_monotone(s.0, s.1, mid);
}

/// Peak dominance: from any state where the peak covers the live
/// count, the peak still covers it after any history whose resets all
/// happen while nothing is live.  An allocation raises the peak to
/// the live count, a deallocation only lowers the live count, so only
/// a reset with live bytes could break dominance.
pub proof fn lemma_peak_dominates(current: int, peak: int, events: Seq<AllocEvent>)
    requires
        current <= peak,
        resets_only_when_idle(current, events),
    ensures
        run(current, peak, events).0 <= run(current, peak, events).1,
    decreases events.len(),
{
    if events.len() > 0 {
        let s = step(current, peak, events[0]);
        assert(s.0 == step(current, 0, events[0]).0);
        lemma_peak_dominates(s.0, s.1, events.drop_first());
    }
}

/// The harness discipline holds of every prefix of a history it
/// holds of.
proof fn lemma_resets_idle_prefix(current: int, events: Seq<AllocEvent>, t: int)
    requires
        0 <= t <= events.len(),
        resets_only_when_idle(current, events),
    ensures
        resets_only_when_idle(current, events.take(t)),
    decreases t,
{
    if t > 0 {
        let p = events.take(t);
        assert(p[0] == events[0]);
        let s = step(current, 0, events[0]);
        assert(p.drop_first() =~= events.drop_first().take(t - 1));
        lemma_resets_idle_prefix(s.0, events.drop_first(), t - 1);
    }
}

/// Peak dominance at every observable instant: under the same
/// discipline, the peak covers the live count after any prefix of
/// the history as well.
pub proof fn lemma_peak_dominates_at(current: int, peak: int, events: Seq<AllocEvent>, t: int)
    requires
        current <= peak,
        resets_only_when_idle(current, events),
        0 <= t <= events.len(),
    ensures
        run(current, peak, events.take(t)).0 <= run(current, peak, events.take(t)).1,
{
    lemma_resets_idle_prefix(current, events, t);
    lemma_peak_dominates(current, peak, events.take(t));
}

/// A history of `n` allocations of one size.
pub open spec fn alloc_events(n: nat, size: usize) -> Seq<AllocEvent> {
    Seq::new(n, |i: int| AllocEvent::Alloc { size })
}

/// A history of `n` deallocations of one size.
pub open spec fn dealloc_events(n: nat, size: usize) -> Seq<AllocEvent> {
    Seq::new(n, |i: int| AllocEvent::Dealloc { size })
}

/// The history of `n` allocations of one size followed by their `n`
/// deallocations.
pub open spec fn bulk_events(n: nat, size: usize) -> Seq<AllocEvent> {
    alloc_events(n, size) + dealloc_events(n, size)
}

/// The live count after a history does not depend on the peak the
/// history started from.
proof fn lemma_run_current_ignores_peak(current: int, p1: int, p2: int, events: Seq<AllocEvent>)
    ensures
        run(current, p1, events).0 == run(current, p2, events).0,
    decreases events.len(),
{
    if events.len() > 0 {
        let s1 = step(current, p1, events[0]);
        let s2 = step(current, p2, events[0]);
        assert(s1.0 == s2.0);
        lemma_run_current_ignores_peak(s1.0, s1.1, s2.1, events.drop_first());
    }
}

proof fn lemma_alloc_phase(current: int, n: nat, size: usize)
    ensures
        run(current, current, alloc_events(n, size)) == (
            current + n * size,
            current + n * size,
        ),
    decreases n,
{
    let evs = alloc_events(n, size);
    if n > 0 {
        let n1 = (n - 1) as nat;
        assert(evs[0] == AllocEvent::Alloc { size });
        let s = step(current, current, evs[0]);
        assert(s == (current + size, current + size));
        assert(run(current, current, evs) == run(s.0, s.1, evs.drop_first()));
        assert(evs.drop_first() =~= alloc_events(n1, size));
        lemma_alloc_phase(current + size, n1, size);
        assert(run(current + size, current + size, alloc_events(n1, size)).0 == current + size + n1
            * size);
        assert(current + size + n1 * size == current + n * size) by (nonlinear_arith)
            requires
                n >= 1,
                n1 == n - 1,
        ;
    } else {
        assert(evs.len() == 0);
        assert(run(current, current, evs) == (current, current));
        assert(n * size == 0) by (nonlinear_arith)
            requires
                n == 0,
        ;
    }
}

proof fn lemma_dealloc_phase(current: int, peak: int, n: nat, size: usize)
    ensures
        run(current, peak, dealloc_events(n, size)) == (
            current - n * size,
            peak,
        ),
    decreases n,
{
    let evs = dealloc_events(n, size);
    if n > 0 {
        let n1 = (n - 1) as nat;
        assert(evs[0] == AllocEvent::Dealloc { size });
        let s = step(current, peak, evs[0]);
        assert(s == (current - size, peak));
        assert(run(current, peak, evs) == run(s.0, s.1, evs.drop_first()));
        assert(evs.drop_first() =~= dealloc_events(n1, size));
        lemma_dealloc_phase(current - size, peak, n1, size);
        assert(run(current - size, peak, dealloc_events(n1, size)).0 == current - size - n1
            * size);
        assert(current - size - n1 * size == current - n * size) by (nonlinear_arith)
            requires
                n >= 1,
                n1 == n - 1,
        ;
    } else {
        assert(evs.len() == 0);
        assert(run(current, peak, evs) == (current, peak));
        assert(n * size == 0) by (nonlinear_arith)
            requires
                n == 0,
        ;
    }
}

proof fn lemma_alloc_phase_consistent(current: int, n: nat, size: usize)
    ensures
        consistent(current, alloc_events(n, size)),
    decreases n,
{
    let evs = alloc_events(n, size);
    if n > 0 {
        assert(evs[0] == AllocEvent::Alloc { size });
        assert(evs.drop_first() =~= alloc_events((n - 1) as nat, size));
        lemma_alloc_phase_consistent(current + size, (n - 1) as nat, size);
    }
}

proof fn lemma_dealloc_phase_consistent(n: nat, size: usize)
    ensures
        consistent(n * size, dealloc_events(n, size)),
    decreases n,
{
    let evs = dealloc_events(n, size);
    if n > 0 {
        assert(size <= n * size) by (nonlinear_arith)
            requires
                1 <= n,
                0 <= size,
        ;
        assert(evs[0] == AllocEvent::Dealloc { size });
        assert(evs.drop_first() =~= dealloc_events((n - 1) as nat, size));
        assert(n * size - size == (n - 1) * size) by (nonlinear_arith);
        lemma_dealloc_phase_consistent((n - 1) as nat, size);
    }
}

proof fn lemma_consistent_concat(current: int, a: Seq<AllocEvent>, b: Seq<AllocEvent>)
    requires
        consistent(current, a),
        consistent(run(current, 0, a).0, b),
    ensures
        consistent(current, a + b),
    decreases a.len(),
{
    if a.len() == 0 {
        assert(a + b =~= b);
    } else {
        let s = step(current, 0, a[0]);
        assert((a + b)[0] == a[0]);
        assert((a + b).drop_first() =~= a.drop_first() + b);
        assert(run(current, 0, a) == run(s.0, s.1, a.drop_first()));
        lemma_run_current_ignores_peak(s.0, s.1, 0, a.drop_first());
        lemma_consistent_concat(s.0, a.drop_first(), b);
    }
}

/// Bulk allocation and release: `n` allocations of one size — any
/// thread interleaving of them books the same history, event for
/// event — all freed afterwards, starting from a reset idle state,
/// leave nothing live and leave the peak at exactly `n` times the
/// size.  The history itself is admissible under the allocator
/// contract.
pub proof fn lemma_bulk_alloc_dealloc(n: nat, size: usize)
    ensures
        consistent(0, bulk_events(n, size)),
        run(0, 0, bulk_events(n, size)).0 == 0,
        run(0, 0, bulk_events(n, size)).1 == n * size,
{
    let a = alloc_events(n, size);
    let b = dealloc_events(n, size);
    lemma_alloc_phase(0, n, size);
    lemma_run_concat(0, 0, a, b);
    lemma_dealloc_phase(n * size, n * size, n, size);
    lemma_alloc_phase_consistent(0, n, size);
    lemma_dealloc_phase_consistent(n, size);
    lemma_consistent_concat(0, a, b);
}

/// The peak counter expressed in whole kibibytes, as the harness
/// reports it.
pub fn peak_kib(peak: usize) -> (r: usize)
    ensures
        r == peak / 1024,
{
    peak / 1024
}

} // verus!
