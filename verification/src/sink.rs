//! A sink is the final destination of a telemetry and log-line stream: it
//! receives events from an upstream queue and delivers them to some backend.
//! This module holds the contract every backend implements, the interfaces the
//! loop consumes (queue, idle waiter), and the dispatch loop itself.
//!
//! The loop drains the queue one event at a time. Before every poll it waits
//! according to the idle backoff policy; on every dequeued event it consults
//! the backend's backpressure valve, and while the valve is closed the event
//! is dropped outright — a deliberate load-shedding policy, kept knowingly as
//! a data-loss risk rather than repaired behind the backend's back.
//! Timer ticks are gated through `DispatchState` so that duplicate or
//! out-of-order tick indices never flush twice.

use crate::dispatch::{bump, tick_fires, tick_next, DispatchState};
use crate::event::{Event, LogLine, Telemetry};
use std::sync::Arc;
use vstd::prelude::*;

verus! {

/// The backpressure signal a backend reports on every poll: `Closed` means
/// "do not forward the event just received". It is never cached across
/// events and never derived from queue state.
#[derive(Clone, Copy, PartialEq, Eq, Structural, Debug)]
pub enum Valve {
    Open,
    Closed,
}

/// One observable call into a backend, as recorded in a sink's history. The
/// payload handle travels with the record, so a history pins down exactly
/// what was delivered.
pub enum SinkOp {
    Flush,
    Deliver(Arc<Option<Telemetry>>),
    DeliverLine(Arc<Option<LogLine>>),
}

/// The ghost model of a backend, shared by the delivery trait and by the
/// loop's trace semantics: its observable behaviour is `history()`, the
/// sequence of calls accepted so far, beside the two signals the loop
/// queries.
pub trait SinkModel: Sized {
    /// Well-formedness of the backend's own state; established by its
    /// constructors and preserved by every operation.
    spec fn inv(&self) -> bool;

    /// The calls accepted so far, in order.
    spec fn history(&self) -> Seq<SinkOp>;

    /// The current backpressure signal.
    spec fn valve(&self) -> Valve;

    /// The scheduled-flush cadence: `None` for no scheduled flushes, or
    /// `Some(n)` for a flush on every fresh tick index divisible by `n`.
    spec fn interval(&self) -> Option<u64>;
}

/// The delivery capability every backend implements, specified against its
/// `SinkModel`: each operation appends exactly one record to the history.
/// The loop treats every operation as infallible, so none reports an error.
pub trait Sink: SinkModel {
    /// Report the scheduled-flush cadence.
    fn flush_interval(&self) -> (r: Option<u64>)
        requires
            self.inv(),
        ensures
            r == self.interval(),
    ;

    /// Perform backend maintenance. Failures are the backend's own concern;
    /// the call itself is the observable outcome.
    fn flush(&mut self)
        requires
            old(self).inv(),
        ensures
            final(self).inv(),
            final(self).history() == old(self).history().push(SinkOp::Flush),
    ;

    /// Report the current valve state; cheap and free of side effects.
    fn valve_state(&self) -> (v: Valve)
        requires
            self.inv(),
        ensures
            v == self.valve(),
    ;

    /// Accept one metric handle. An absent payload is a legal no-op marker,
    /// not an error.
    fn deliver(&mut self, point: Arc<Option<Telemetry>>)
        requires
            old(self).inv(),
        ensures
            final(self).inv(),
            final(self).history() == old(self).history().push(SinkOp::Deliver(point)),
    ;

    /// Accept one log-line handle, under the same contract as `deliver`.
    fn deliver_line(&mut self, line: Arc<Option<LogLine>>)
        requires
            old(self).inv(),
        ensures
            final(self).inv(),
            final(self).history() == old(self).history().push(SinkOp::DeliverLine(line)),
    ;

    /// Drain the queue, waiting per the idle policy before each poll, until
    /// the source requests a stop or `cycles` poll cycles have run. Verified
    /// code must provably wind down, so the process-lifetime loop belongs to
    /// the embedder, which calls this with as large a cycle budget as it
    /// likes, as often as it likes. Some prefix of the source's pending
    /// events is consumed, and the sink together with the returned counters
    /// is related to its starting point by exactly that prefix of dispatch
    /// steps.
    fn run<R: EventSource, P: IdlePolicy>(&mut self, recv: &mut R, idle: &mut P, cycles: u64) -> (r:
        DispatchState)
        requires
            old(self).inv(),
        ensures
            final(self).inv(),
            exists|k: int|
                0 <= k <= old(recv).remaining().len() && final(recv).remaining() == old(
                    recv,
                ).remaining().skip(k) && #[trigger] run_trace(
                    *old(self),
                    0u64,
                    old(recv).remaining().take(k),
                    *final(self),
                    r.last_flush_idx,
                ),
    {
        let mut state = DispatchState::new();
        let mut used: u64 = 0;
        let ghost r0 = recv.remaining();
        let ghost mut k: int = 0;
        loop
            invariant
                self.inv(),
                used <= cycles,
                0 <= k <= r0.len(),
                recv.remaining() == r0.skip(k),
                r0 == old(recv).remaining(),
                run_trace(*old(self), 0u64, r0.take(k), *self, state.last_flush_idx),
            ensures
                self.inv(),
                0 <= k <= r0.len(),
                recv.remaining() == r0.skip(k),
                r0 == old(recv).remaining(),
                run_trace(*old(self), 0u64, r0.take(k), *self, state.last_flush_idx),
            decreases cycles - used,
        {
            if used >= cycles || recv.stop_requested() {
                break ;
            }
            used = used + 1;
            idle.pause(state.attempts);
            let ghost pre_sink = *self;
            let ghost pre_last = state.last_flush_idx;
            let polled = recv.poll();
            proof {
                if polled is Some {
                    assert(r0.skip(k).skip(1) =~= r0.skip(k + 1));
                }
            }
            match polled {
                Option::None => {
                    state.note_empty_poll();
                },
                Option::Some(event) => {
                    state.note_dequeue();
                    let ghost ev = event;
                    match self.valve_state() {
                        Valve::Open => {
                            match event {
                                Event::TimerFlush(idx) => {
                                    if idx > state.last_flush_idx {
                                        let interval = self.flush_interval();
                                        if state.accept_tick(idx, interval) {
                                            self.flush();
                                        }
                                    }
                                },
                                Event::Telemetry(point) => {
                                    self.deliver(point);
                                },
                                Event::Log(line) => {
                                    self.deliver_line(line);
                                },
                            }
                        },
                        Valve::Closed => {
                            state.note_valve_closed();
                        },
                    }
                    proof {
                        assert(run_step(pre_sink, pre_last, ev, *self, state.last_flush_idx));
                        assert(ev == r0[k]);
                        assert(r0.take(k + 1) =~= r0.take(k).push(r0[k]));
                        lemma_run_trace_snoc(
                            *old(self),
                            0u64,
                            r0.take(k),
                            pre_sink,
                            pre_last,
                            ev,
                            *self,
                            state.last_flush_idx,
                        );
                        k = k + 1;
                    }
                },
            }
        }
        proof {
            assert(0 <= k <= old(recv).remaining().len() && recv.remaining() == old(
                recv,
            ).remaining().skip(k) && run_trace(
                *old(self),
                0u64,
                old(recv).remaining().take(k),
                *self,
                state.last_flush_idx,
            ));
        }
        state
    }
}

/// The receive half of the upstream queue, seen at its interface boundary:
/// one consumer, polled once per cycle. `remaining()` models the events it
/// still holds for this consumer; a poll either reports nothing ready or
/// yields the next pending event. `stop_requested` is the loop's cooperative
/// cancellation signal; nothing is promised of it, and a source that never
/// requests a stop keeps the loop running for the life of the process.
pub trait EventSource: Sized {
    /// The events still pending for this consumer, in delivery order.
    spec fn remaining(&self) -> Seq<Event>;

    /// Whether the loop should wind down at the next cycle boundary.
    fn stop_requested(&self) -> bool;

    /// One non-blocking receive: nothing ready, or the next pending event.
    fn poll(&mut self) -> (r: Option<Event>)
        ensures
            match r {
                Option::None => final(self).remaining() == old(self).remaining(),
                Option::Some(ev) => old(self).remaining().len() > 0 && ev == old(
                    self,
                ).remaining()[0] && final(self).remaining() == old(self).remaining().skip(1),
            },
    ;
}

/// The idle waiter the loop consults before each poll: external policy, given
/// only the current count of fruitless cycles. Nothing is promised of it; the
/// intended wait is `backoff_ms` of the attempt count.
pub trait IdlePolicy: Sized {
    /// Wait before the next poll, as the policy sees fit for this many
    /// consecutive fruitless cycles.
    fn pause(&mut self, attempts: u32);
}

/// One dispatch step, relating a sink and the tick gate before an event to
/// the pair after it. A closed valve drops the event with nothing delivered
/// and nothing recorded; an open valve routes a metric or log line to the
/// backend, and puts a timer tick through the flush gate, flushing exactly
/// when `tick_fires` says so.
pub open spec fn run_step<S: SinkModel>(s0: S, last0: u64, ev: Event, s1: S, last1: u64) -> bool {
    if s0.valve() == Valve::Closed {
        s1 == s0 && last1 == last0
    } else {
        match ev {
            Event::TimerFlush(idx) => last1 == tick_next(last0, idx) && if tick_fires(
                last0,
                s0.interval(),
                idx,
            ) {
                s1.history() == s0.history().push(SinkOp::Flush)
            } else {
                s1 == s0
            },
            Event::Telemetry(point) => last1 == last0 && s1.history() == s0.history().push(
                SinkOp::Deliver(point),
            ),
            Event::Log(line) => last1 == last0 && s1.history() == s0.history().push(
                SinkOp::DeliverLine(line),
            ),
        }
    }
}

/// A chain of dispatch steps: the sink and tick gate evolve from `(s0, last0)`
/// to `(s1, last1)` by handling `evs` in order.
pub open spec fn run_trace<S: SinkModel>(s0: S, last0: u64, evs: Seq<Event>, s1: S, last1: u64) -> bool
    decreases evs.len(),
{
    if evs.len() == 0 {
        s1 == s0 && last1 == last0
    } else {
        exists|mid: (S, u64)|
            #[trigger] run_step(s0, last0, evs[0], mid.0, mid.1) && run_trace(
                mid.0,
                mid.1,
                evs.skip(1),
                s1,
                last1,
            )
    }
}

/// A trace extends by one step at its end.
pub proof fn lemma_run_trace_snoc<S: SinkModel>(
    s0: S,
    l0: u64,
    evs: Seq<Event>,
    s1: S,
    l1: u64,
    ev: Event,
    s2: S,
    l2: u64,
)
    requires
        run_trace(s0, l0, evs, s1, l1),
        run_step(s1, l1, ev, s2, l2),
    ensures
        run_trace(s0, l0, evs.push(ev), s2, l2),
    decreases evs.len(),
{
    if evs.len() == 0 {
        assert(evs.push(ev)[0] == ev);
        assert(evs.push(ev).skip(1) =~= Seq::<Event>::empty());
        let mid = (s2, l2);
        assert(run_step(s0, l0, evs.push(ev)[0], mid.0, mid.1) && run_trace(
            mid.0,
            mid.1,
            evs.push(ev).skip(1),
            s2,
            l2,
        ));
    } else {
        let mid = choose|mid: (S, u64)|
            #[trigger] run_step(s0, l0, evs[0], mid.0, mid.1) && run_trace(
                mid.0,
                mid.1,
                evs.skip(1),
                s1,
                l1,
            );
        lemma_run_trace_snoc(mid.0, mid.1, evs.skip(1), s1, l1, ev, s2, l2);
        assert(evs.push(ev)[0] == evs[0]);
        assert(evs.push(ev).skip(1) =~= evs.skip(1).push(ev));
        assert(run_step(s0, l0, evs.push(ev)[0], mid.0, mid.1) && run_trace(
            mid.0,
            mid.1,
            evs.push(ev).skip(1),
            s2,
            l2,
        ));
    }
}

/// While the valve is closed, a step delivers nothing, flushes nothing,
/// records nothing, and leaves the tick gate alone: the event is simply gone.
pub proof fn lemma_closed_valve_drops_silently<S: SinkModel>(
    s0: S,
    last0: u64,
    ev: Event,
    s1: S,
    last1: u64,
)
    requires
        run_step(s0, last0, ev, s1, last1),
        s0.valve() == Valve::Closed,
    ensures
        s1 == s0,
        s1.history() == s0.history(),
        last1 == last0,
{
}

/// Across any dispatch step the tick gate never moves down.
pub proof fn lemma_step_gate_monotone<S: SinkModel>(s0: S, last0: u64, ev: Event, s1: S, last1: u64)
    requires
        run_step(s0, last0, ev, s1, last1),
    ensures
        last1 >= last0,
{
}

/// Across a whole run, the backend's history is append-only — everything it
/// had accepted stays, in order, before whatever came later — and the tick
/// watermark never moves down.
pub proof fn lemma_trace_monotone<S: SinkModel>(s0: S, last0: u64, evs: Seq<Event>, s1: S, last1: u64)
    requires
        run_trace(s0, last0, evs, s1, last1),
    ensures
        s0.history().is_prefix_of(s1.history()),
        last1 >= last0,
    decreases evs.len(),
{
    if evs.len() == 0 {
        assert(s0.history().is_prefix_of(s1.history()));
    } else {
        let mid = choose|mid: (S, u64)|
            #[trigger] run_step(s0, last0, evs[0], mid.0, mid.1) && run_trace(
                mid.0,
                mid.1,
                evs.skip(1),
                s1,
                last1,
            );
        assert(s0.history().is_prefix_of(mid.0.history()));
        lemma_trace_monotone(mid.0, mid.1, evs.skip(1), s1, last1);
    }
}

/// Route one dequeued event: consult the valve, then either drop the event
/// (closed) or dispatch it by variant (open). Exactly one step of the loop's
/// trace semantics.
pub fn dispatch_event<S: Sink>(sink: &mut S, state: &mut DispatchState, event: Event)
    requires
        old(sink).inv(),
    ensures
        final(sink).inv(),
        run_step(
            *old(sink),
            old(state).last_flush_idx,
            event,
            *final(sink),
            final(state).last_flush_idx,
        ),
        final(state).attempts == if old(sink).valve() == Valve::Closed {
            bump(old(state).attempts)
        } else {
            old(state).attempts
        },
{
    match sink.valve_state() {
        Valve::Open => {
            match event {
                Event::TimerFlush(idx) => {
                    if idx > state.last_flush_idx {
                        let interval = sink.flush_interval();
                        if state.accept_tick(idx, interval) {
                            sink.flush();
                        }
                    }
                },
                Event::Telemetry(point) => {
                    sink.deliver(point);
                },
                Event::Log(line) => {
                    sink.deliver_line(line);
                },
            }
        },
        Valve::Closed => {
            state.note_valve_closed();
        },
    }
}

/// Handle one poll outcome. An empty poll only lengthens the fruitless run.
/// A dequeued event resets `attempts` to zero at once — before the valve is
/// consulted, so an event dropped by a closed valve still leaves `attempts`
/// at exactly one — and is then routed as one dispatch step.
pub fn handle_poll<S: Sink>(sink: &mut S, state: &mut DispatchState, polled: Option<Event>)
    requires
        old(sink).inv(),
    ensures
        final(sink).inv(),
        match polled {
            Option::None => *final(sink) == *old(sink) && final(state).last_flush_idx == old(
                state,
            ).last_flush_idx && final(state).attempts == bump(old(state).attempts),
            Option::Some(ev) => run_step(
                *old(sink),
                old(state).last_flush_idx,
                ev,
                *final(sink),
                final(state).last_flush_idx,
            ) && final(state).attempts == if old(sink).valve() == Valve::Closed {
                1u32
            } else {
                0u32
            },
        },
{
    match polled {
        Option::None => {
            state.note_empty_poll();
        },
        Option::Some(event) => {
            state.note_dequeue();
            dispatch_event(sink, state, event);
        },
    }
}

} // verus!
