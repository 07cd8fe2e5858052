use graph_handoff::{
    decide_poll, render_units, retry_verdict, tick_step, Graph, NodeId, Phase, PollStep,
    ProcessingUnit, Ramp, ReleaseState, TickOutput, TickStep, MAX_BACKOFF_MS,
};

fn one_ramp_graph(step: i64) -> Graph<Ramp> {
    let mut g = Graph::new();
    g.push(Ramp::new(0, step));
    g
}

#[test]
fn three_ticks_of_one_ramp() {
    // Samples in thousandths: a ramp of 0.1 per call.
    let mut g = one_ramp_graph(100);
    let mut h = g.snapshot();
    assert_eq!(h.tick(), TickOutput::Sample(100));
    assert_eq!(h.tick(), TickOutput::Sample(200));
    assert_eq!(h.tick(), TickOutput::Sample(300));
    assert_eq!(h.phase(), Phase::Active);
}

#[test]
fn teardown_then_tick_releases() {
    let mut g = one_ramp_graph(100);
    let mut h = g.snapshot();
    let gen = h.generation();
    assert_eq!(g.holders(gen), Some(1));
    let ticket = g.begin_teardown(gen).unwrap();
    assert_eq!(ticket.generation(), gen);
    assert_eq!(g.release_state(gen), Some(ReleaseState::Releasing));
    assert_eq!(h.tick(), TickOutput::Released);
    assert_eq!(h.phase(), Phase::Acknowledged);
    assert_eq!(g.holders(gen), Some(0));
    assert_eq!(g.poll_release(&ticket, 0, 100, 1), PollStep::Reclaimed);
    assert_eq!(g.kept_generations(), 0);
    assert_eq!(g.holders(gen), None);
}

#[test]
fn overlapping_generations_are_independent() {
    let mut g = one_ramp_graph(100);
    let mut old_h = g.snapshot();
    g.push(Ramp::new(0, 10));
    let mut new_h = g.snapshot();
    assert_eq!(old_h.generation(), 0);
    assert_eq!(new_h.generation(), 1);
    assert_eq!(new_h.tick(), TickOutput::Sample(110));
    let ticket = g.begin_teardown(0).unwrap();
    assert_eq!(old_h.tick(), TickOutput::Released);
    assert_eq!(g.holders(0), Some(0));
    assert_eq!(g.holders(1), Some(1));
    assert_eq!(new_h.tick(), TickOutput::Sample(220));
    assert_eq!(g.poll_release(&ticket, 0, 10, 1), PollStep::Reclaimed);
    assert_eq!(g.holders(1), Some(1));
    assert_eq!(g.release_state(1), Some(ReleaseState::Live));
    assert_eq!(new_h.tick(), TickOutput::Sample(330));
}

#[test]
fn zero_timeout_parks_then_retry_reclaims() {
    let mut g = one_ramp_graph(100);
    let mut h = g.snapshot();
    let ticket = g.begin_teardown(0).unwrap();
    assert_eq!(g.poll_release(&ticket, 0, 0, 1), PollStep::TimedOut);
    assert_eq!(g.release_state(0), Some(ReleaseState::Parked));
    assert_eq!(g.holders(0), Some(1));
    assert_eq!(h.tick(), TickOutput::Released);
    assert_eq!(g.poll_release(&ticket, 0, 100, 1), PollStep::Reclaimed);
    assert_eq!(g.release_state(0), None);
}

#[test]
fn released_handle_never_decrements_again() {
    let mut g = one_ramp_graph(1);
    let mut h = g.snapshot();
    g.begin_teardown(0).unwrap();
    assert_eq!(h.tick(), TickOutput::Released);
    assert_eq!(h.tick(), TickOutput::Stopped);
    assert_eq!(h.tick(), TickOutput::Stopped);
    assert_eq!(g.holders(0), Some(0));
}

#[test]
fn every_snapshot_is_counted() {
    let mut g = one_ramp_graph(1);
    let mut a = g.snapshot();
    let mut b = g.snapshot();
    assert_eq!(a.generation(), b.generation());
    assert_eq!(g.kept_generations(), 1);
    assert_eq!(g.holders(0), Some(2));
    let ticket = g.begin_teardown(0).unwrap();
    assert_eq!(a.tick(), TickOutput::Released);
    assert_eq!(g.holders(0), Some(1));
    match g.poll_release(&ticket, 0, 10, 4) {
        PollStep::Wait { sleep_ms, next_delay_ms } => {
            assert_eq!(sleep_ms, 4);
            assert_eq!(next_delay_ms, 8);
        }
        other => panic!("unexpected {:?}", other),
    }
    assert_eq!(b.tick(), TickOutput::Released);
    assert_eq!(g.poll_release(&ticket, 4, 10, 8), PollStep::Reclaimed);
}

#[test]
fn redundant_handles_render_the_same_samples() {
    let mut g = Graph::new();
    g.push(Ramp::new(5, 3));
    g.push(Ramp::new(-7, 2));
    let mut a = g.snapshot();
    let mut b = g.snapshot();
    for _ in 0..4 {
        assert_eq!(a.tick(), b.tick());
    }
    assert_eq!(a.tick(), TickOutput::Sample((5 + 15) + (-7 + 10)));
}

#[test]
fn snapshot_keeps_insertion_order_and_later_pushes_start_a_generation() {
    let mut g = Graph::new();
    assert_eq!(g.generation(), 0);
    g.push(Ramp::new(0, 1));
    let h0 = g.snapshot();
    assert_eq!(g.generation(), 0);
    g.push(Ramp::new(0, 2));
    assert_eq!(g.generation(), 1);
    let h1 = g.snapshot();
    assert_eq!(h0.node_count(), 1);
    assert_eq!(h1.node_count(), 2);
    assert_eq!(g.kept_generations(), 2);
}

#[test]
fn remove_detaches_from_later_generations_only() {
    let mut g = Graph::new();
    let a = g.push(Ramp::new(0, 1));
    let b = g.push(Ramp::new(0, 10));
    let c = g.push(Ramp::new(0, 100));
    assert_eq!((a, b, c), (NodeId(0), NodeId(1), NodeId(2)));
    let mut before = g.snapshot();
    assert!(g.remove(b));
    assert!(!g.remove(b));
    assert!(!g.remove(NodeId(9)));
    assert_eq!(g.node_count(), 2);
    let mut after = g.snapshot();
    assert_eq!(before.tick(), TickOutput::Sample(111));
    assert_eq!(after.tick(), TickOutput::Sample(101));
    assert_eq!(after.generation(), 1);
}

#[test]
fn teardown_of_unknown_generation_is_refused() {
    let mut g = one_ramp_graph(1);
    assert!(g.begin_teardown(0).is_none());
    let _h = g.snapshot();
    assert!(g.begin_teardown(3).is_none());
    assert!(g.begin_teardown(0).is_some());
}

#[test]
fn teardown_of_current_generation_makes_next_snapshot_new() {
    let mut g = one_ramp_graph(1);
    let _h = g.snapshot();
    g.begin_teardown(0).unwrap();
    assert_eq!(g.generation(), 1);
    let h2 = g.snapshot();
    assert_eq!(h2.generation(), 1);
    assert_eq!(g.release_state(1), Some(ReleaseState::Live));
    assert_eq!(g.holders(1), Some(1));
}

#[test]
fn poll_of_reclaimed_ticket_reports_reclaimed() {
    let mut g = one_ramp_graph(1);
    let mut h = g.snapshot();
    let ticket = g.begin_teardown(0).unwrap();
    h.tick();
    assert_eq!(g.poll_release(&ticket, 0, 0, 1), PollStep::Reclaimed);
    assert_eq!(g.poll_release(&ticket, 0, 0, 1), PollStep::Reclaimed);
}

#[test]
fn decide_poll_values() {
    assert_eq!(decide_poll(0, 50, 10, 4), PollStep::Reclaimed);
    assert_eq!(decide_poll(2, 10, 10, 4), PollStep::TimedOut);
    assert_eq!(decide_poll(1, 0, 0, 1), PollStep::TimedOut);
    assert_eq!(decide_poll(1, 0, 10, 4), PollStep::Wait { sleep_ms: 4, next_delay_ms: 8 });
    assert_eq!(decide_poll(1, 0, 10, 0), PollStep::Wait { sleep_ms: 1, next_delay_ms: 2 });
    assert_eq!(decide_poll(1, 8, 10, 16), PollStep::Wait { sleep_ms: 2, next_delay_ms: 32 });
    assert_eq!(
        decide_poll(1, 0, 1000, 40),
        PollStep::Wait { sleep_ms: 40, next_delay_ms: MAX_BACKOFF_MS }
    );
    assert_eq!(
        decide_poll(1, 0, 1000, u64::MAX),
        PollStep::Wait { sleep_ms: 1000, next_delay_ms: MAX_BACKOFF_MS }
    );
}

#[test]
fn tick_step_values() {
    assert_eq!(tick_step(Phase::Active, false), TickStep::Render);
    assert_eq!(tick_step(Phase::Active, true), TickStep::Release);
    assert_eq!(tick_step(Phase::Acknowledged, false), TickStep::Idle);
    assert_eq!(tick_step(Phase::Acknowledged, true), TickStep::Idle);
}

#[test]
fn render_units_sums_in_order_and_wraps() {
    let mut units = vec![Ramp::new(i64::MAX - 1, 1), Ramp::new(0, 1)];
    assert_eq!(render_units(&mut units), i64::MIN);
    assert_eq!(units[0].level, i64::MAX);
    assert_eq!(units[1].level, 1);
    let mut empty: Vec<Ramp> = Vec::new();
    assert_eq!(render_units(&mut empty), 0);
}

#[test]
fn ramp_advance_and_duplicate() {
    let mut r = Ramp::new(10, -3);
    assert_eq!(r.advance(), 7);
    let d = r.duplicate();
    assert_eq!((d.level, d.step), (7, -3));
    assert_eq!(r.advance(), 4);
    assert_eq!(d.level, 7);
}

#[test]
fn reclaim_parked_drops_only_parked_generations_without_holders() {
    let mut g = one_ramp_graph(1);
    let mut h0 = g.snapshot();
    g.push(Ramp::new(0, 2));
    let _h1 = g.snapshot();
    g.push(Ramp::new(0, 3));
    let _h2 = g.snapshot();
    let t0 = g.begin_teardown(0).unwrap();
    let t1 = g.begin_teardown(1).unwrap();
    assert_eq!(g.poll_release(&t0, 5, 5, 1), PollStep::TimedOut);
    assert_eq!(g.poll_release(&t1, 5, 5, 1), PollStep::TimedOut);
    assert_eq!(g.reclaim_parked(), 0);
    assert_eq!(h0.tick(), TickOutput::Released);
    assert_eq!(g.reclaim_parked(), 1);
    assert_eq!(g.release_state(0), None);
    assert_eq!(g.release_state(1), Some(ReleaseState::Parked));
    assert_eq!(g.release_state(2), Some(ReleaseState::Live));
    assert_eq!(g.kept_generations(), 2);
}

#[test]
fn retry_verdict_values() {
    assert!(retry_verdict(ReleaseState::Parked, 0));
    assert!(!retry_verdict(ReleaseState::Parked, 1));
    assert!(!retry_verdict(ReleaseState::Releasing, 0));
    assert!(!retry_verdict(ReleaseState::Live, 0));
}

#[test]
fn tick_seen_follows_the_given_flag() {
    let mut g = one_ramp_graph(100);
    let mut h = g.snapshot();
    assert_eq!(h.tick_seen(false), TickOutput::Sample(100));
    assert_eq!(g.holders(0), Some(1));
    assert_eq!(h.tick_seen(true), TickOutput::Released);
    assert_eq!(h.phase(), Phase::Acknowledged);
    assert_eq!(g.holders(0), Some(0));
    assert_eq!(h.tick_seen(true), TickOutput::Stopped);
    assert_eq!(h.tick_seen(false), TickOutput::Stopped);
    assert_eq!(g.holders(0), Some(0));
}

#[test]
fn issued_counts_every_handle_of_a_generation() {
    let mut g = one_ramp_graph(1);
    assert_eq!(g.issued(0), None);
    let _a = g.snapshot();
    assert_eq!(g.issued(0), Some(1));
    let _b = g.snapshot();
    let _c = g.snapshot();
    assert_eq!(g.issued(0), Some(3));
    assert_eq!(g.holders(0), Some(3));
    g.push(Ramp::new(0, 1));
    let _d = g.snapshot();
    assert_eq!(g.issued(1), Some(1));
    assert_eq!(g.issued(0), Some(3));
}

#[test]
fn snapshot_copies_units_in_their_current_state() {
    let mut g = one_ramp_graph(100);
    let mut a = g.snapshot();
    assert_eq!(a.tick(), TickOutput::Sample(100));
    assert_eq!(a.tick(), TickOutput::Sample(200));
    let mut b = g.snapshot();
    assert_eq!(b.tick(), TickOutput::Sample(100));
}
