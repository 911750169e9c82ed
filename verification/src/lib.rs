//! Terminal stage of a telemetry pipeline: a generic dispatch loop that drains
//! a queue of events (metrics, log lines, timer ticks) and routes them to a
//! pluggable delivery backend, applying idle backoff, backend-reported
//! backpressure, and idempotent flush gating on a monotonic tick counter.

pub mod backoff;
pub mod dispatch;
pub mod event;
pub mod memory;
pub mod sink;
