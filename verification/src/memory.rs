//! In-memory implementations of the loop's three interfaces: a backend that
//! records every call it accepts, a queue that replays a fixed script of poll
//! outcomes, and an idle policy that only notes what it was asked. They are
//! the crate's own verified backends, and let a whole dispatch
//! run be driven and inspected from ordinary code.

use crate::event::{Event, LogLine, Telemetry};
use crate::sink::{EventSource, IdlePolicy, Sink, SinkModel, SinkOp, Valve};
use std::sync::Arc;
use vstd::prelude::*;

verus! {

/// A backend that accepts everything and keeps the calls: its history is
/// literally the vector of operations received. The valve and the flush
/// cadence are plain settings, so a driver can stage any backpressure
/// scenario.
pub struct MemorySink {
    pub flush_every: Option<u64>,
    pub gate: Valve,
    pub ops: Vec<SinkOp>,
}

impl MemorySink {
    /// A fresh recording backend with the given cadence and valve setting.
    pub fn new(flush_every: Option<u64>, gate: Valve) -> (s: MemorySink)
        ensures
            s.inv(),
            s.flush_every == flush_every,
            s.gate == gate,
            s.history() == Seq::<SinkOp>::empty(),
    {
        let s = MemorySink { flush_every, gate, ops: Vec::new() };
        proof {
            assert(s.ops@ =~= Seq::<SinkOp>::empty());
        }
        s
    }

    /// Change the reported valve state; the recorded history stays.
    pub fn set_gate(&mut self, gate: Valve)
        ensures
            final(self).gate == gate,
            final(self).flush_every == old(self).flush_every,
            final(self).ops == old(self).ops,
    {
        self.gate = gate;
    }
}

impl SinkModel for MemorySink {
    open spec fn inv(&self) -> bool {
        true
    }

    open spec fn history(&self) -> Seq<SinkOp> {
        self.ops@
    }

    open spec fn valve(&self) -> Valve {
        self.gate
    }

    open spec fn interval(&self) -> Option<u64> {
        self.flush_every
    }
}

impl Sink for MemorySink {
    fn flush_interval(&self) -> (r: Option<u64>) {
        self.flush_every
    }

    // Beyond the trait's contract, this backend promises that accepting a
    // call never moves its valve or its cadence: its settings change only
    // through `set_gate` or the fields themselves.
    fn flush(&mut self)
        ensures
            final(self).gate == old(self).gate,
            final(self).flush_every == old(self).flush_every,
    {
        self.ops.push(SinkOp::Flush);
    }

    fn valve_state(&self) -> (v: Valve) {
        self.gate
    }

    fn deliver(&mut self, point: Arc<Option<Telemetry>>)
        ensures
            final(self).gate == old(self).gate,
            final(self).flush_every == old(self).flush_every,
    {
        self.ops.push(SinkOp::Deliver(point));
    }

    fn deliver_line(&mut self, line: Arc<Option<LogLine>>)
        ensures
            final(self).gate == old(self).gate,
            final(self).flush_every == old(self).flush_every,
    {
        self.ops.push(SinkOp::DeliverLine(line));
    }
}

/// The events among a script of poll outcomes, in order.
pub open spec fn pending_events(script: Seq<Option<Event>>) -> Seq<Event>
    decreases script.len(),
{
    if script.len() == 0 {
        Seq::empty()
    } else {
        match script[0] {
            Option::Some(ev) => seq![ev] + pending_events(script.skip(1)),
            Option::None => pending_events(script.skip(1)),
        }
    }
}

/// A queue receiver that replays a fixed script of poll outcomes: each poll
/// consumes the next entry, a `None` entry standing for "nothing was ready
/// this cycle". Once the script is spent it reports nothing ready and asks
/// the loop to stop.
pub struct ScriptSource {
    pub script: Vec<Option<Event>>,
}

impl ScriptSource {
    /// A source that will replay exactly the given outcomes.
    pub fn new(script: Vec<Option<Event>>) -> (s: ScriptSource)
        ensures
            s.script == script,
            s.remaining() == pending_events(script@),
    {
        ScriptSource { script }
    }
}

impl EventSource for ScriptSource {
    open spec fn remaining(&self) -> Seq<Event> {
        pending_events(self.script@)
    }

    fn stop_requested(&self) -> bool {
        self.script.len() == 0
    }

    fn poll(&mut self) -> (r: Option<Event>) {
        if self.script.len() == 0 {
            Option::None
        } else {
            let step = self.script.remove(0);
            let ghost gstep = step;
            proof {
                assert(self.script@ =~= old(self).script@.skip(1));
                match gstep {
                    Option::Some(ev) => {
                        assert(pending_events(old(self).script@) == seq![ev] + pending_events(
                            old(self).script@.skip(1),
                        ));
                        assert((seq![ev] + pending_events(old(self).script@.skip(1))).skip(1)
                            =~= pending_events(old(self).script@.skip(1)));
                    },
                    Option::None => {
                        assert(pending_events(old(self).script@) == pending_events(
                            old(self).script@.skip(1),
                        ));
                    },
                }
            }
            step
        }
    }
}

/// An idle policy that waits not at all and records the attempt count of
/// every pause it was asked for; the intended wall-clock wait for each entry
/// is `backoff_ms` of it.
pub struct IdleRecorder {
    pub asked: Vec<u32>,
}

impl IdleRecorder {
    /// A recorder with nothing asked of it yet.
    pub fn new() -> (p: IdleRecorder)
        ensures
            p.asked@ == Seq::<u32>::empty(),
    {
        let p = IdleRecorder { asked: Vec::new() };
        proof {
            assert(p.asked@ =~= Seq::<u32>::empty());
        }
        p
    }
}

impl IdlePolicy for IdleRecorder {
    fn pause(&mut self, attempts: u32) {
        self.asked.push(attempts);
    }
}

} // verus!
