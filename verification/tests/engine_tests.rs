use statusbar::engine::{BlockConfig, BlockError, Engine, RenderedLine, TickOutcome};

fn cfg(interval_secs: u64, color: u32, fallback: &str) -> BlockConfig {
    BlockConfig { interval_secs, color, fallback: fallback.to_string() }
}

fn seg_texts(line: &RenderedLine) -> Vec<String> {
    line.segments.iter().map(|s| s.text.clone()).collect()
}

fn seg_colors(line: &RenderedLine) -> Vec<u32> {
    line.segments.iter().map(|s| s.color).collect()
}

#[test]
fn initial_states_are_placeholders() {
    let e = Engine::new(vec![cfg(1, 0xFF0000, "A!"), cfg(2, 0x00FF00, "B!")]);
    assert_eq!(e.len(), 2);
    assert_eq!(e.states[0].text, "");
    assert_eq!(e.states[1].text, "");
    assert_eq!(e.states[0].color, 0xFF0000);
    assert_eq!(e.states[1].color, 0x00FF00);
    assert!(!e.states[0].is_error);
    assert!(!e.states[1].is_error);
    assert!(e.last.is_none());
}

#[test]
fn ordering_regardless_of_update_timing() {
    // the second block updates first: the rendered order is still the
    // configured order
    let mut e = Engine::new(vec![cfg(1, 1, "a"), cfg(1, 2, "b"), cfg(1, 3, "c")]);
    e.handle_update(2, TickOutcome::Success("third".to_string()), 10);
    e.handle_update(0, TickOutcome::Success("first".to_string()), 11);
    let line = e.handle_update(1, TickOutcome::Success("second".to_string()), 12).unwrap();
    assert_eq!(seg_texts(&line), vec!["first", "second", "third"]);
    assert_eq!(seg_colors(&line), vec![1, 2, 3]);
}

#[test]
fn isolation_failing_block_never_blocks_others() {
    let mut e = Engine::new(vec![cfg(1, 1, "OKFB"), cfg(1, 2, "FAILFB")]);
    // the failing block publishes first
    e.handle_update(1, TickOutcome::Failure(BlockError::ToolMissing), 1);
    let l1 = e.handle_update(0, TickOutcome::Success("t1".to_string()), 2).unwrap();
    assert_eq!(seg_texts(&l1), vec!["t1", "FAILFB"]);
    // the succeeding block keeps changing while the other keeps failing
    e.handle_update(1, TickOutcome::Failure(BlockError::ToolFailed), 3);
    let l2 = e.handle_update(0, TickOutcome::Success("t2".to_string()), 4).unwrap();
    assert_eq!(seg_texts(&l2), vec!["t2", "FAILFB"]);
    assert!(e.states[1].is_error);
    assert!(!e.states[0].is_error);
}

#[test]
fn coalescing_no_duplicate_emission() {
    // a block that returns the same string across ticks: exactly one
    // initial emission, no repeats
    let mut e = Engine::new(vec![cfg(1, 7, "fb")]);
    let first = e.handle_update(0, TickOutcome::Success("same".to_string()), 1);
    assert!(first.is_some());
    let second = e.handle_update(0, TickOutcome::Success("same".to_string()), 2);
    assert!(second.is_none());
    let third = e.handle_update(0, TickOutcome::Success("same".to_string()), 3);
    assert!(third.is_none());
    let changed = e.handle_update(0, TickOutcome::Success("new".to_string()), 4);
    assert!(changed.is_some());
}

#[test]
fn every_failure_variant_degrades_identically() {
    let variants = [
        BlockError::ToolMissing,
        BlockError::ToolFailed,
        BlockError::UnparsableOutput,
        BlockError::Timeout,
    ];
    for v in variants {
        let mut e = Engine::new(vec![cfg(1, 5, "fallback")]);
        e.handle_update(0, TickOutcome::Failure(v), 9);
        assert_eq!(e.states[0].text, "fallback");
        assert_eq!(e.states[0].color, 5);
        assert_eq!(e.states[0].last_updated, 9);
        assert!(e.states[0].is_error);
    }
}

#[test]
fn timeout_yields_degraded_state() {
    let mut e = Engine::new(vec![cfg(2, 5, "late")]);
    let line = e.handle_update(0, TickOutcome::Failure(BlockError::Timeout), 77).unwrap();
    assert_eq!(seg_texts(&line), vec!["late"]);
    assert!(e.states[0].is_error);
    assert_eq!(e.states[0].last_updated, 77);
}

#[test]
fn two_block_scenario_ok_and_failing() {
    // block A: always "OK", green; block B: always fails, fixed fallback
    let green = 0x00FF00;
    let mut e = Engine::new(vec![cfg(1, green, "A?"), cfg(1, 9, "B-DOWN")]);
    let mut emissions: Vec<RenderedLine> = Vec::new();
    // three simulated seconds, one tick per block per second
    for t in 0..3u64 {
        if let Some(l) = e.handle_update(0, TickOutcome::Success("OK".to_string()), t) {
            emissions.push(l);
        }
        if let Some(l) = e.handle_update(1, TickOutcome::Failure(BlockError::ToolFailed), t) {
            emissions.push(l);
        }
    }
    // the line changes exactly twice (first texts, then the fallback);
    // afterwards coalescing suppresses identical lines
    assert_eq!(emissions.len(), 2);
    for l in &emissions {
        assert_eq!(l.segments.len(), 2);
        assert_eq!(l.segments[0].text, "OK");
        assert_eq!(l.segments[0].color, green);
    }
    let last = emissions.last().unwrap();
    assert_eq!(last.segments[1].text, "B-DOWN");
    assert_eq!(last.segments[1].color, 9);
}

#[test]
fn render_reads_latest_registry() {
    let mut e = Engine::new(vec![cfg(1, 4, "x")]);
    e.handle_update(0, TickOutcome::Success("hello".to_string()), 1);
    let line = e.render();
    assert_eq!(seg_texts(&line), vec!["hello"]);
    assert_eq!(seg_colors(&line), vec![4]);
}
