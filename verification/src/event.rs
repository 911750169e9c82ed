//! The events that arrive on the upstream queue.
//!
//! The dispatch loop treats metric and log payloads as opaque: it only routes
//! the shared handle to the backend. A payload handle is reference counted and
//! may carry no value at all — a legal "skip" marker from upstream, distinct
//! from the queue simply having nothing ready.

use std::sync::Arc;
use vstd::prelude::*;

verus! {

/// One metric point. The dispatch layer never inspects it; the name is kept so
/// that backends have something to route on.
#[derive(Clone)]
pub struct Telemetry {
    pub name: String,
}

/// One log line. Opaque to the dispatch layer, as `Telemetry` is.
#[derive(Clone)]
pub struct LogLine {
    pub value: String,
}

/// What can arrive on the queue: a timer tick carrying its index, a metric
/// handle, or a log-line handle. Payload handles are shared and may hold no
/// value; the loop forwards them untouched.
pub enum Event {
    TimerFlush(u64),
    Telemetry(Arc<Option<Telemetry>>),
    Log(Arc<Option<LogLine>>),
}

} // verus!
