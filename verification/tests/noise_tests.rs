use daydream::noise::{Action, NoiseModel, BOOTSTRAP_CONFIRMS, DEFAULT_BLOCK_MS, INITIAL_POLL_MS};

fn tick(m: &mut NoiseModel, idle: u64, playing: bool, transitioned: bool, now: u64) -> Action {
    m.evaluate(idle, playing, 120, true, 3, transitioned, now)
}

#[test]
fn fresh_model_uses_bootstrap_values() {
    let m = NoiseModel::new(7);
    assert_eq!(m.min_confirmations, BOOTSTRAP_CONFIRMS);
    assert_eq!(m.poll_ms, INITIAL_POLL_MS);
    assert_eq!(m.block_window_ms(), DEFAULT_BLOCK_MS);
    assert_eq!(m.recovery_ms(), DEFAULT_BLOCK_MS);
    assert_eq!(m.noise_p99(), 5000);
    assert_eq!(m.noise_p95(), 2000);
    assert!(!m.warmup_done);
    assert_eq!(m.generation, 7);
}

#[test]
fn signal_strength_scores() {
    let m = NoiseModel::new(0);
    // drop beyond 4 * p99 with the user at the machine
    assert_eq!(m.signal_strength(0, 25_000), 140);
    // drop just above p95, idle under 2 s
    assert_eq!(m.signal_strength(1000, 2500), 20);
    // drop beyond 2 * p99, idle long
    assert_eq!(m.signal_strength(5000, 10_001), 50);
    // noise-sized drop
    assert_eq!(m.signal_strength(0, 100), 0);
}

#[test]
fn user_return_while_not_playing_stops_once() {
    let mut m = NoiseModel::new(0);
    assert_eq!(tick(&mut m, 100, false, false, 0), Action::Stop);
    assert!(m.tracked_exit);
    assert_eq!(tick(&mut m, 100, false, false, 50), Action::Nothing);
}

#[test]
fn autoplay_after_timeout() {
    let mut m = NoiseModel::new(0);
    assert_eq!(tick(&mut m, 200_000, false, false, 0), Action::AutoPlay);
    assert_eq!(m.evaluate(200_000, false, 120, false, 3, false, 0), Action::Nothing);
    assert_eq!(m.evaluate(200_000, false, 120, true, 0, false, 0), Action::Nothing);
    assert_eq!(tick(&mut m, 100_000, false, false, 0), Action::Nothing);
}

#[test]
fn drop_trigger_then_confirmations_stop_playback() {
    let mut m = NoiseModel::new(0);
    m.prev_idle = Some(60_000);
    // tick 1: large drop triggers and counts the first confirmation
    assert_eq!(tick(&mut m, 0, true, false, 1000), Action::Nothing);
    assert!(m.signal_triggered);
    assert_eq!(m.consecutive_signal, 2);
    let mut ticks = 1;
    loop {
        ticks += 1;
        let a = tick(&mut m, 0, true, false, 1000 + ticks * 50);
        if a == Action::Stop {
            break;
        }
        assert!(ticks < 100);
    }
    // 21 confirmations are needed before any transition was measured
    assert_eq!(ticks, 20);
    assert!(!m.signal_triggered);
    assert_eq!(m.consecutive_signal, 0);
    assert_eq!(m.total_stops, 1);
    assert!(m.tracked_exit);
}

#[test]
fn confirmation_stalls_and_aborts() {
    let mut m = NoiseModel::new(0);
    m.prev_idle = Some(60_000);
    tick(&mut m, 0, true, false, 0);
    assert_eq!(m.consecutive_signal, 2);
    // between VERY_LOW and the recovery threshold: stall
    tick(&mut m, 1000, true, false, 50);
    assert!(m.signal_triggered);
    assert_eq!(m.consecutive_signal, 2);
    // at or above the recovery threshold: abort
    tick(&mut m, 1500, true, false, 100);
    assert!(!m.signal_triggered);
    assert_eq!(m.consecutive_signal, 0);
}

#[test]
fn transition_blocks_and_resets() {
    let mut m = NoiseModel::new(0);
    m.prev_idle = Some(60_000);
    tick(&mut m, 0, true, false, 0);
    assert!(m.signal_triggered);
    // a transition while idle is not very low resets detection
    tick(&mut m, 300, true, true, 1000);
    assert_eq!(m.trans_start, Some(1000));
    assert_eq!(m.block_until, Some(1000 + DEFAULT_BLOCK_MS));
    assert!(!m.signal_triggered);
    assert_eq!(m.consecutive_signal, 0);
    // a duplicate transition inside the block window changes nothing
    let before_block = m.block_until;
    tick(&mut m, 300, true, true, 1200);
    assert_eq!(m.block_until, before_block);
    assert_eq!(m.trans_start, Some(1000));
}

#[test]
fn transition_recovery_is_measured() {
    let mut m = NoiseModel::new(0);
    m.on_transition(10_000);
    assert_eq!(m.trans_start, Some(10_000));
    // idle climbs above 500 ms 700 ms later: recovery measured
    tick(&mut m, 800, true, false, 10_700);
    assert_eq!(m.trans_start, None);
    assert_eq!(m.transition_rec.len(), 1);
    assert_eq!(m.block_window_ms(), 700);
    assert_eq!(m.recovery_ms(), 1400);
    assert_eq!(m.trans_low_idle.len(), 1);
}

#[test]
fn force_trigger_after_block_window() {
    let mut m = NoiseModel::new(0);
    m.on_transition(0);
    // user present when the block window runs out
    let a = tick(&mut m, 50, true, false, DEFAULT_BLOCK_MS + 1);
    assert_eq!(a, Action::Nothing);
    assert_eq!(m.block_until, None);
    assert!(m.signal_triggered);
    assert_eq!(m.consecutive_signal, 2);
    assert!(m.tli_contaminated);
}

#[test]
fn contaminated_measurement_is_discarded() {
    let mut m = NoiseModel::new(0);
    m.tli_contaminated = true;
    m.trans_low_count = 9;
    m.push_tli();
    assert!(!m.tli_contaminated);
    assert_eq!(m.trans_low_idle.len(), 0);
}

#[test]
fn confirmations_tighten_after_three_transitions() {
    let mut m = NoiseModel::new(0);
    for i in 0..3u64 {
        m.trans_low_count = 4;
        m.push_tli();
        if i < 2 {
            assert_eq!(m.min_confirmations, BOOTSTRAP_CONFIRMS);
        }
    }
    // tli p99 = 4 -> 4 + 1
    assert_eq!(m.min_confirmations, 5);
}

#[test]
fn clean_samples_feed_noise_model() {
    let mut m = NoiseModel::new(0);
    m.feed_clean(10_000);
    m.feed_clean(9_000);
    m.feed_clean(9_500);
    assert_eq!(m.clean_samples, 3);
    assert_eq!(m.noise_drops.len(), 1);
    assert_eq!(m.idle_floor.len(), 3);
    assert_eq!(m.prev_idle, Some(9_500));
}

#[test]
fn warmup_finishes_after_window_size_ticks() {
    let mut m = NoiseModel::new(0);
    for i in 0..200u64 {
        tick(&mut m, 70_000, true, false, i * 50);
    }
    assert!(m.warmup_done);
    assert_eq!(m.warmup_ticks, 200);
    assert_eq!(m.clean_samples, 200);
}

#[test]
fn poll_interval_adapts_to_overhead() {
    let mut m = NoiseModel::new(0);
    for _ in 0..20 {
        m.record_tick(100_000);
    }
    assert_eq!(m.tick_count, 20);
    assert_eq!(m.poll_ms, 60);
    let mut fast = NoiseModel::new(0);
    for _ in 0..20 {
        fast.record_tick(50_000);
    }
    assert_eq!(fast.poll_ms, 40);
    let mut steady = NoiseModel::new(0);
    for _ in 0..20 {
        steady.record_tick(60_000);
    }
    assert_eq!(steady.poll_ms, 50);
}

#[test]
fn transition_resets_running_detection_even_with_user_present() {
    let mut m = NoiseModel::new(0);
    m.signal_triggered = true;
    m.consecutive_signal = 3;
    // idle near zero at the transition: detection is still reset and blocked
    let a = tick(&mut m, 0, true, true, 5_000);
    assert_eq!(a, Action::Nothing);
    assert!(!m.signal_triggered);
    assert_eq!(m.consecutive_signal, 0);
    assert_eq!(m.block_until, Some(5_000 + DEFAULT_BLOCK_MS));
    assert_eq!(m.trans_start, Some(5_000));
}

#[test]
fn confirmations_tighten_to_tli_p99_plus_one_only() {
    // every transition had no low-idle tick: p99 = 0, confirmations 0 + 1
    let mut m = NoiseModel::new(0);
    for _ in 0..3 {
        m.trans_low_count = 0;
        m.push_tli();
    }
    assert_eq!(m.min_confirmations, 1);
    // a small noise level (p99 100 ms at a 50 ms poll) does not lower it further
    let mut m = NoiseModel::new(0);
    for _ in 0..20 {
        m.noise_drops.push(100);
    }
    assert_eq!(m.noise_p99(), 100);
    for _ in 0..3 {
        m.trans_low_count = 10;
        m.push_tli();
    }
    assert_eq!(m.min_confirmations, 11);
}

#[test]
fn duration_trigger_waits_twice_the_confirmations() {
    let mut m = NoiseModel::new(0);
    m.warmup_done = true;
    m.min_confirmations = 1;
    m.prev_idle = Some(300);
    let a = m.evaluate(300, true, 120, true, 1, false, 50);
    assert_eq!(a, Action::Nothing);
    assert!(!m.signal_triggered);
    m.evaluate(300, true, 120, true, 1, false, 100);
    assert_eq!(m.low_idle_count, 2);
    assert!(m.signal_triggered);
}
