//! The loop-local bookkeeping of the dispatch loop, and the pure model of its
//! flush gating.
//!
//! Two counters drive the loop: `attempts`, the run of consecutive cycles in
//! which no useful work happened, and `last_flush_idx`, the highest timer tick
//! index accepted so far. Tick indices are not trusted to arrive in order; the
//! gate below makes duplicate and regressed ticks harmless.

use vstd::prelude::*;

verus! {

/// The counters a dispatch loop owns. `attempts` counts consecutive cycles
/// with no useful work (empty poll, or valve closed); `last_flush_idx` is the
/// highest tick index accepted to date and never decreases.
#[derive(Clone, Copy, PartialEq, Eq, Structural, Debug)]
pub struct DispatchState {
    pub attempts: u32,
    pub last_flush_idx: u64,
}

/// `attempts + 1`, held at the top of its range rather than wrapping.
pub open spec fn bump(attempts: u32) -> u32 {
    if attempts == u32::MAX {
        attempts
    } else {
        (attempts + 1) as u32
    }
}

/// The tick gate: a tick fires a flush exactly when it is fresh (strictly
/// above the highest index accepted so far) and the backend asked for a
/// scheduled flush on indices divisible by `n`. A zero interval divides no
/// positive index, so it never fires.
pub open spec fn tick_fires(last: u64, interval: Option<u64>, idx: u64) -> bool {
    idx > last && match interval {
        Option::Some(n) => n != 0 && idx % n == 0,
        Option::None => false,
    }
}

/// The highest accepted tick index after seeing `idx`: a fresh tick is
/// recorded whether or not it fired a flush; a stale one changes nothing.
pub open spec fn tick_next(last: u64, idx: u64) -> u64 {
    if idx > last {
        idx
    } else {
        last
    }
}

impl DispatchState {
    /// A freshly started loop: no fruitless cycles yet, no tick accepted yet.
    pub fn new() -> (s: DispatchState)
        ensures
            s.attempts == 0,
            s.last_flush_idx == 0,
    {
        DispatchState { attempts: 0, last_flush_idx: 0 }
    }

    /// The queue had nothing ready: one more fruitless cycle.
    pub fn note_empty_poll(&mut self)
        ensures
            final(self).attempts == bump(old(self).attempts),
            final(self).last_flush_idx == old(self).last_flush_idx,
    {
        if self.attempts < u32::MAX {
            self.attempts = self.attempts + 1;
        }
    }

    /// An event was dequeued: the fruitless run ends here, before the valve is
    /// even consulted.
    pub fn note_dequeue(&mut self)
        ensures
            final(self).attempts == 0,
            final(self).last_flush_idx == old(self).last_flush_idx,
    {
        self.attempts = 0;
    }

    /// The valve was closed for the event just dequeued: the event is dropped
    /// and the cycle counts as fruitless.
    pub fn note_valve_closed(&mut self)
        ensures
            final(self).attempts == bump(old(self).attempts),
            final(self).last_flush_idx == old(self).last_flush_idx,
    {
        if self.attempts < u32::MAX {
            self.attempts = self.attempts + 1;
        }
    }

    /// Record a tick observed while the valve was open, and say whether it
    /// fires a flush. The highest accepted index only ever moves up.
    pub fn accept_tick(&mut self, idx: u64, interval: Option<u64>) -> (fire: bool)
        ensures
            fire == tick_fires(old(self).last_flush_idx, interval, idx),
            final(self).last_flush_idx == tick_next(old(self).last_flush_idx, idx),
            final(self).attempts == old(self).attempts,
            final(self).last_flush_idx >= old(self).last_flush_idx,
    {
        if idx > self.last_flush_idx {
            let fire = match interval {
                Option::Some(n) => n != 0 && idx % n == 0,
                Option::None => false,
            };
            self.last_flush_idx = idx;
            fire
        } else {
            false
        }
    }
}

/// A stale or duplicated tick is inert: at or below the highest accepted
/// index, it fires nothing and moves nothing.
pub proof fn lemma_stale_tick_ignored(last: u64, interval: Option<u64>, idx: u64)
    requires
        idx <= last,
    ensures
        !tick_fires(last, interval, idx),
        tick_next(last, idx) == last,
{
}

/// A backend that asks for no scheduled flushes gets none, whatever ticks
/// arrive and whatever the watermark currently holds.
pub proof fn lemma_no_interval_no_flush(last: u64, idx: u64)
    ensures
        !tick_fires(last, Option::None, idx),
{
}

/// The highest accepted tick index never decreases, whatever tick arrives.
pub proof fn lemma_tick_gate_monotone(last: u64, idx: u64)
    ensures
        tick_next(last, idx) >= last,
{
}

/// The watermark after a whole sequence of ticks, applied in order.
pub open spec fn last_after_ticks(last: u64, idxs: Seq<u64>) -> u64
    decreases idxs.len(),
{
    if idxs.len() == 0 {
        last
    } else {
        last_after_ticks(tick_next(last, idxs[0]), idxs.skip(1))
    }
}

/// Each element is strictly below every later one.
pub open spec fn strictly_increasing(idxs: Seq<u64>) -> bool {
    forall|i: int, j: int| 0 <= i < j < idxs.len() ==> idxs[i] < idxs[j]
}

/// Over a strictly increasing run of fresh ticks with a scheduled interval
/// `n`, a flush fires exactly on the ticks whose index is divisible by `n`,
/// and the watermark ends at the last index seen.
pub proof fn lemma_increasing_ticks_flush_on_divisible(last: u64, n: u64, idxs: Seq<u64>)
    requires
        n != 0,
        strictly_increasing(idxs),
        idxs.len() > 0,
        last < idxs[0],
    ensures
        last_after_ticks(last, idxs) == idxs.last(),
        forall|i: int|
            0 <= i < idxs.len() ==> (tick_fires(
                last_after_ticks(last, idxs.take(i)),
                Option::Some(n),
                idxs[i],
            ) <==> idxs[i] % n == 0),
    decreases idxs.len(),
{
    let rest = idxs.skip(1);
    assert(last_after_ticks(last, idxs) == last_after_ticks(idxs[0], rest));
    if rest.len() == 0 {
        assert(idxs.last() == idxs[0]);
        assert forall|i: int| 0 <= i < idxs.len() implies (tick_fires(
            last_after_ticks(last, idxs.take(i)),
            Option::Some(n),
            idxs[i],
        ) <==> idxs[i] % n == 0) by {
            assert(i == 0);
            assert(idxs.take(0) =~= Seq::<u64>::empty());
            assert(last_after_ticks(last, idxs.take(0)) == last);
        }
    } else {
        assert(rest[0] == idxs[1]);
        assert(strictly_increasing(rest)) by {
            assert(forall|i: int, j: int|
                0 <= i < j < rest.len() ==> rest[i] == idxs[i + 1] && rest[j] == idxs[j + 1]);
        }
        lemma_increasing_ticks_flush_on_divisible(idxs[0], n, rest);
        assert(idxs.last() == rest.last());
        assert forall|i: int| 0 <= i < idxs.len() implies (tick_fires(
            last_after_ticks(last, idxs.take(i)),
            Option::Some(n),
            idxs[i],
        ) <==> idxs[i] % n == 0) by {
            if i == 0 {
                assert(idxs.take(0) =~= Seq::<u64>::empty());
                assert(last_after_ticks(last, idxs.take(0)) == last);
            } else {
                assert(idxs.take(i).skip(1) =~= rest.take(i - 1));
                assert(idxs.take(i)[0] == idxs[0]);
                assert(last_after_ticks(last, idxs.take(i)) == last_after_ticks(
                    idxs[0],
                    rest.take(i - 1),
                ));
                assert(idxs[i] == rest[i - 1]);
            }
        }
    }
}

} // verus!
