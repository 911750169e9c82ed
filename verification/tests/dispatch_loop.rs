use std::sync::Arc;

use telemetry_sink::backoff::backoff_ms;
use telemetry_sink::dispatch::DispatchState;
use telemetry_sink::event::{Event, LogLine, Telemetry};
use telemetry_sink::memory::{IdleRecorder, MemorySink, ScriptSource};
use telemetry_sink::sink::{dispatch_event, handle_poll, EventSource, Sink, SinkOp, Valve};

fn metric(name: &str) -> Event {
    Event::Telemetry(Arc::new(Some(Telemetry { name: name.to_string() })))
}

fn line(value: &str) -> Event {
    Event::Log(Arc::new(Some(LogLine { value: value.to_string() })))
}

#[test]
fn fresh_state_starts_at_zero() {
    let s = DispatchState::new();
    assert_eq!(s.attempts, 0);
    assert_eq!(s.last_flush_idx, 0);
}

#[test]
fn tick_five_then_seven_then_stale_five() {
    // Cadence of five: tick 5 flushes, tick 7 is fresh but off-cadence, a
    // replayed tick 5 is stale and wholly inert.
    let mut sink = MemorySink::new(Some(5), Valve::Open);
    let mut state = DispatchState::new();

    dispatch_event(&mut sink, &mut state, Event::TimerFlush(5));
    assert_eq!(sink.ops.len(), 1);
    assert!(matches!(sink.ops[0], SinkOp::Flush));
    assert_eq!(state.last_flush_idx, 5);

    dispatch_event(&mut sink, &mut state, Event::TimerFlush(7));
    assert_eq!(sink.ops.len(), 1);
    assert_eq!(state.last_flush_idx, 7);

    dispatch_event(&mut sink, &mut state, Event::TimerFlush(5));
    assert_eq!(sink.ops.len(), 1);
    assert_eq!(state.last_flush_idx, 7);
}

#[test]
fn flush_fires_exactly_on_divisible_ticks() {
    let mut sink = MemorySink::new(Some(2), Valve::Open);
    let mut state = DispatchState::new();
    for idx in 1..=6u64 {
        dispatch_event(&mut sink, &mut state, Event::TimerFlush(idx));
    }
    // Ticks 2, 4 and 6 are the divisible ones.
    assert_eq!(sink.ops.len(), 3);
    assert!(sink.ops.iter().all(|op| matches!(op, SinkOp::Flush)));
    assert_eq!(state.last_flush_idx, 6);
}

#[test]
fn no_interval_means_no_flush_ever() {
    let mut sink = MemorySink::new(None, Valve::Open);
    let mut state = DispatchState::new();
    for idx in [1u64, 2, 3, 10, 100, 1000] {
        dispatch_event(&mut sink, &mut state, Event::TimerFlush(idx));
    }
    assert_eq!(sink.ops.len(), 0);
    assert_eq!(state.last_flush_idx, 1000);
}

#[test]
fn zero_interval_divides_no_positive_tick() {
    let mut sink = MemorySink::new(Some(0), Valve::Open);
    let mut state = DispatchState::new();
    for idx in 1..=4u64 {
        dispatch_event(&mut sink, &mut state, Event::TimerFlush(idx));
    }
    assert_eq!(sink.ops.len(), 0);
    assert_eq!(state.last_flush_idx, 4);
}

#[test]
fn closed_valve_drops_three_events_silently() {
    // Backpressure for three consecutive events of all three variants:
    // zero delivery or flush calls, and the tick gate does not move.
    let mut sink = MemorySink::new(Some(1), Valve::Closed);
    let mut state = DispatchState::new();
    for ev in [Event::TimerFlush(3), metric("cpu"), line("boom")] {
        handle_poll(&mut sink, &mut state, Some(ev));
    }
    assert_eq!(sink.ops.len(), 0);
    assert_eq!(state.last_flush_idx, 0);
}

#[test]
fn dequeue_resets_attempts_even_when_valve_drops_the_event() {
    let mut sink = MemorySink::new(None, Valve::Closed);
    let mut state = DispatchState::new();
    for _ in 0..7 {
        handle_poll(&mut sink, &mut state, None);
    }
    assert_eq!(state.attempts, 7);
    // A successful dequeue resets the run to zero before the valve is
    // consulted; the closed valve then counts one fruitless cycle.
    handle_poll(&mut sink, &mut state, Some(metric("cpu")));
    assert_eq!(state.attempts, 1);

    let mut open_sink = MemorySink::new(None, Valve::Open);
    state.attempts = 9;
    handle_poll(&mut open_sink, &mut state, Some(metric("cpu")));
    assert_eq!(state.attempts, 0);
}

#[test]
fn delivered_payloads_arrive_in_order_and_untouched() {
    let mut sink = MemorySink::new(None, Valve::Open);
    let mut state = DispatchState::new();
    handle_poll(&mut sink, &mut state, Some(metric("cpu")));
    handle_poll(&mut sink, &mut state, Some(line("hello")));
    assert_eq!(sink.ops.len(), 2);
    match &sink.ops[0] {
        SinkOp::Deliver(point) => {
            assert_eq!(point.as_ref().as_ref().unwrap().name, "cpu");
        }
        other => panic!("expected a metric delivery, got {:?}", discriminant_name(other)),
    }
    match &sink.ops[1] {
        SinkOp::DeliverLine(l) => {
            assert_eq!(l.as_ref().as_ref().unwrap().value, "hello");
        }
        _ => panic!("expected a log-line delivery"),
    }
}

fn discriminant_name(op: &SinkOp) -> &'static str {
    match op {
        SinkOp::Flush => "Flush",
        SinkOp::Deliver(_) => "Deliver",
        SinkOp::DeliverLine(_) => "DeliverLine",
    }
}

#[test]
fn empty_payload_is_delivered_not_skipped() {
    // A handle carrying no value is a legal event and still reaches the
    // backend; it is not the same as the queue having nothing ready.
    let mut sink = MemorySink::new(None, Valve::Open);
    let mut state = DispatchState::new();
    handle_poll(&mut sink, &mut state, Some(Event::Telemetry(Arc::new(None))));
    assert_eq!(sink.ops.len(), 1);
    match &sink.ops[0] {
        SinkOp::Deliver(point) => assert!(point.is_none()),
        _ => panic!("expected a metric delivery"),
    }
}

#[test]
fn ten_empty_polls_back_off_monotonically() {
    // Ten cycles with nothing ready: the attempt count passed to the idle
    // policy climbs to ten, and the delay at ten is no shorter than at one.
    let mut sink = MemorySink::new(None, Valve::Open);
    let mut recv = ScriptSource::new(vec![
        None,
        None,
        None,
        None,
        None,
        None,
        None,
        None,
        None,
        None,
        Some(Event::TimerFlush(1)),
    ]);
    let mut idle = IdleRecorder::new();
    sink.run(&mut recv, &mut idle, 1_000);
    let expected: Vec<u32> = (0..=10).collect();
    assert_eq!(idle.asked, expected);
    assert!(backoff_ms(10) >= backoff_ms(1));
}

#[test]
fn backoff_curve_values() {
    assert_eq!(backoff_ms(0), 0);
    assert_eq!(backoff_ms(1), 100);
    assert_eq!(backoff_ms(4), 400);
    assert_eq!(backoff_ms(9), 900);
    assert_eq!(backoff_ms(10), 1000);
    assert_eq!(backoff_ms(11), 1000);
    assert_eq!(backoff_ms(u32::MAX), 1000);
    for a in 0..40u32 {
        assert!(backoff_ms(a) <= backoff_ms(a + 1));
    }
}

#[test]
fn run_drains_a_mixed_script_in_order() {
    let mut sink = MemorySink::new(Some(5), Valve::Open);
    let mut recv = ScriptSource::new(vec![
        Some(metric("cpu")),
        None,
        Some(Event::TimerFlush(5)),
        Some(Event::TimerFlush(7)),
        Some(Event::TimerFlush(5)),
        Some(line("hello")),
    ]);
    let mut idle = IdleRecorder::new();
    let state = sink.run(&mut recv, &mut idle, 1_000);

    assert_eq!(sink.ops.len(), 3);
    assert!(matches!(sink.ops[0], SinkOp::Deliver(_)));
    assert!(matches!(sink.ops[1], SinkOp::Flush));
    assert!(matches!(sink.ops[2], SinkOp::DeliverLine(_)));
    assert_eq!(state.last_flush_idx, 7);
    // The script is spent: the source asked the loop to stop.
    assert!(recv.script.is_empty());
}

#[test]
fn run_respects_its_cycle_budget() {
    let mut sink = MemorySink::new(None, Valve::Open);
    let mut recv = ScriptSource::new(vec![
        Some(metric("one")),
        Some(metric("two")),
        Some(metric("three")),
    ]);
    let mut idle = IdleRecorder::new();
    let state = sink.run(&mut recv, &mut idle, 2);
    assert_eq!(sink.ops.len(), 2);
    assert_eq!(recv.script.len(), 1);
    assert_eq!(state.attempts, 0);
}

#[test]
fn script_source_replays_outcomes_one_per_poll() {
    let mut src = ScriptSource::new(vec![None, Some(Event::TimerFlush(3))]);
    assert!(!src.stop_requested());
    assert!(src.poll().is_none());
    match src.poll() {
        Some(Event::TimerFlush(idx)) => assert_eq!(idx, 3),
        _ => panic!("expected the scripted tick"),
    }
    assert!(src.stop_requested());
    assert!(src.poll().is_none());
}

#[test]
fn valve_can_reopen_between_events() {
    let mut sink = MemorySink::new(None, Valve::Closed);
    let mut state = DispatchState::new();
    handle_poll(&mut sink, &mut state, Some(metric("dropped")));
    assert_eq!(sink.ops.len(), 0);
    sink.set_gate(Valve::Open);
    handle_poll(&mut sink, &mut state, Some(metric("kept")));
    assert_eq!(sink.ops.len(), 1);
    assert_eq!(sink.gate, Valve::Open);
}
