//! Properties of the presence detector that hold across all inputs.
use crate::noise::{
    block_window_of, drop_of, evaluate_spec, initial_model, low_idle_needed, push_tli_spec,
    record_tick_spec, recovery_of, sat_inc, score, signal_strength_of, tighten_spec,
    transition_spec, Action, ModelView, LOW_IDLE_MS, TICK_HISTORY, TRIGGER_SCORE, VERY_LOW_MS,
};
use crate::window::{count_at_most, lemma_percentile_exists, pct, rank_index, window_push};
use vstd::prelude::*;

verus! {

/// Tightening only ever lowers the confirmation count and changes nothing
/// else.
pub proof fn lemma_tighten_only_lowers(m: ModelView)
    ensures
        tighten_spec(m).min_confirmations <= m.min_confirmations,
        tighten_spec(m) == (ModelView { min_confirmations: tighten_spec(m).min_confirmations, ..m }),
{
}

/// Recording a transition's low-idle count touches only the low-idle
/// window, the contamination flag and the confirmation count, which it
/// never raises.
pub proof fn lemma_push_tli_frame(m: ModelView)
    ensures
        push_tli_spec(m).min_confirmations <= m.min_confirmations,
        push_tli_spec(m) == (ModelView {
            min_confirmations: push_tli_spec(m).min_confirmations,
            trans_low_idle: push_tli_spec(m).trans_low_idle,
            tli_contaminated: push_tli_spec(m).tli_contaminated,
            ..m
        }),
{
}

/// The number of confirmations required never increases from one tick to
/// the next.
pub proof fn lemma_confirmations_never_increase(
    m: ModelView,
    idle: u64,
    playing: bool,
    timeout: u64,
    autoplay: bool,
    videos_len: usize,
    transitioned: bool,
    now: u64,
)
    ensures
        evaluate_spec(m, idle, playing, timeout, autoplay, videos_len, transitioned, now).0.min_confirmations
            <= m.min_confirmations,
{
}

/// Whenever the detector asks to stop playback, detection is reset and the
/// user's return is recorded.
pub proof fn lemma_stop_resets_detection(
    m: ModelView,
    idle: u64,
    playing: bool,
    timeout: u64,
    autoplay: bool,
    videos_len: usize,
    transitioned: bool,
    now: u64,
)
    requires
        evaluate_spec(m, idle, playing, timeout, autoplay, videos_len, transitioned, now).1
            == Action::Stop,
    ensures
        ({
            let post = evaluate_spec(m, idle, playing, timeout, autoplay, videos_len, transitioned, now).0;
            &&& !post.signal_triggered
            &&& post.consecutive_signal == 0
            &&& post.tracked_exit
        }),
{
}

/// While nothing plays, a user who is at the machine (idle below
/// `VERY_LOW_MS`) and was not yet reported is reported with a stop.
pub proof fn lemma_presence_reported_when_not_playing(
    m: ModelView,
    idle: u64,
    timeout: u64,
    autoplay: bool,
    videos_len: usize,
    transitioned: bool,
    now: u64,
)
    requires
        !m.tracked_exit,
        idle < VERY_LOW_MS,
    ensures
        evaluate_spec(m, idle, false, timeout, autoplay, videos_len, transitioned, now).1
            == Action::Stop,
{
    lemma_push_tli_frame(m);
}

/// While nothing plays and no detection is pending, an idle time of at least
/// the timeout with autoplay on and a non-empty loop asks for autoplay.
pub proof fn lemma_autoplay_after_timeout(
    m: ModelView,
    idle: u64,
    timeout: u64,
    videos_len: usize,
    transitioned: bool,
    now: u64,
)
    requires
        m.tracked_exit || !m.signal_triggered,
        idle >= VERY_LOW_MS,
        idle / 1000 >= timeout,
        videos_len > 0,
    ensures
        evaluate_spec(m, idle, false, timeout, true, videos_len, transitioned, now).1
            == Action::AutoPlay,
{
    lemma_push_tli_frame(m);
}

/// A non-duplicate transition starts a new measurement, blocks triggers for
/// the learned block window and resets any detection in progress; a
/// transition inside a running block window changes nothing.
pub proof fn lemma_transition_resets(m: ModelView, now: u64)
    ensures
        crate::noise::is_blocked(m.block_until, now) ==> transition_spec(m, now) == m,
        !crate::noise::is_blocked(m.block_until, now) ==> {
            let post = transition_spec(m, now);
            &&& post.trans_start == Some(now)
            &&& post.trans_low_count == 0
            &&& post.low_idle_count == 0
            &&& post.block_until == Some((now + block_window_of(m)) as u64)
            &&& !post.signal_triggered
            &&& post.consecutive_signal == 0
        },
{
    lemma_push_tli_frame(m);
}

/// Dual-threshold confirmation while playing, with detection triggered and
/// no block window pending: idle at or above the recovery threshold aborts
/// detection; idle between `VERY_LOW_MS` and the recovery threshold stalls
/// the counter; idle below `VERY_LOW_MS` stops playback exactly when the
/// advanced count reaches the learned confirmation count, and otherwise
/// advances the counter by one.
pub proof fn lemma_confirmation_thresholds(
    m: ModelView,
    idle: u64,
    timeout: u64,
    autoplay: bool,
    videos_len: usize,
    now: u64,
)
    requires
        m.signal_triggered,
        m.block_until is None,
    ensures
        ({
            let (post, a) = evaluate_spec(m, idle, true, timeout, autoplay, videos_len, false, now);
            &&& (idle >= recovery_of(m) ==> !post.signal_triggered && post.consecutive_signal == 0
                && a == Action::Nothing)
            &&& (VERY_LOW_MS <= idle < recovery_of(m) ==> post.signal_triggered
                && post.consecutive_signal == m.consecutive_signal && a == Action::Nothing)
            &&& (idle < VERY_LOW_MS && idle < recovery_of(m) ==> (a == Action::Stop
                <==> sat_inc(m.consecutive_signal) >= m.min_confirmations))
            &&& (idle < VERY_LOW_MS && idle < recovery_of(m) && a != Action::Stop
                ==> post.signal_triggered && post.consecutive_signal == sat_inc(
                m.consecutive_signal))
        }),
{
}

/// When a block window has run out while the user is present (idle below
/// `VERY_LOW_MS` and below the recovery threshold), detection is forced:
/// playback stops or confirmation has started.
pub proof fn lemma_force_trigger_after_block(
    m: ModelView,
    idle: u64,
    timeout: u64,
    autoplay: bool,
    videos_len: usize,
    now: u64,
)
    requires
        m.block_until matches Some(b) && b <= now,
        idle < VERY_LOW_MS,
        idle < recovery_of(m),
    ensures
        ({
            let (post, a) = evaluate_spec(m, idle, true, timeout, autoplay, videos_len, false, now);
            &&& post.block_until is None
            &&& (a == Action::Stop || post.signal_triggered && post.consecutive_signal == 2)
        }),
{
}

/// Contamination guard: a transition measurement taken while the user was
/// present is discarded (and the guard cleared), leaving the learned
/// low-idle distribution and the confirmation count as they were.
pub proof fn lemma_contaminated_measurement_discarded(m: ModelView)
    requires
        m.tli_contaminated,
    ensures
        push_tli_spec(m) == (ModelView { tli_contaminated: false, ..m }),
{
}

/// Until three transitions have been measured the confirmation count is not
/// tightened: a tick after which fewer than three low-idle samples are
/// known leaves it unchanged.
pub proof fn lemma_bootstrap_until_three_transitions(
    m: ModelView,
    idle: u64,
    playing: bool,
    timeout: u64,
    autoplay: bool,
    videos_len: usize,
    transitioned: bool,
    now: u64,
)
    requires
        evaluate_spec(m, idle, playing, timeout, autoplay, videos_len, transitioned, now).0.trans_low_idle.len()
            < 3,
    ensures
        evaluate_spec(m, idle, playing, timeout, autoplay, videos_len, transitioned, now).0.min_confirmations
            == m.min_confirmations,
{
}

/// Duration-based trigger: after warmup, while playing with no detection
/// running, no drop-based trigger and no transition pending, a tick with
/// idle between `VERY_LOW_MS` and `LOW_IDLE_MS` (and below the recovery
/// threshold) counts one more low-idle tick, and detection starts exactly
/// when the count reaches twice the confirmation count.
pub proof fn lemma_duration_trigger(
    m: ModelView,
    idle: u64,
    timeout: u64,
    autoplay: bool,
    videos_len: usize,
    now: u64,
)
    requires
        m.warmup_done,
        !m.signal_triggered,
        m.block_until is None,
        m.trans_start is None,
        VERY_LOW_MS <= idle < LOW_IDLE_MS,
        idle < recovery_of(m),
        signal_strength_of(m, idle, drop_of(m, idle)) < TRIGGER_SCORE,
    ensures
        ({
            let (post, a) = evaluate_spec(m, idle, true, timeout, autoplay, videos_len, false, now);
            &&& a == Action::Nothing
            &&& post.low_idle_count == sat_inc(m.low_idle_count)
            &&& post.signal_triggered == (sat_inc(m.low_idle_count) >= low_idle_needed(m))
        }),
{
}

/// Triggers are blocked during a transition's block window: when no
/// detection is running and either a block window is running or a
/// transition is announced, a playing tick starts no detection and does not
/// stop playback.
pub proof fn lemma_no_trigger_while_blocked(
    m: ModelView,
    idle: u64,
    timeout: u64,
    autoplay: bool,
    videos_len: usize,
    transitioned: bool,
    now: u64,
)
    requires
        !m.signal_triggered,
        transitioned || crate::noise::is_blocked(m.block_until, now),
        now <= crate::noise::TIME_LIMIT_MS,
        crate::noise::model_wf(m),
    ensures
        ({
            let (post, a) = evaluate_spec(m, idle, true, timeout, autoplay, videos_len, transitioned, now);
            &&& !post.signal_triggered
            &&& a == Action::Nothing
        }),
{
    lemma_push_tli_frame(m);
    crate::window::lemma_percentile_exists(m.transition_rec, 95);
}

/// The anomaly score never decreases as the drop grows.
pub proof fn lemma_score_monotone_in_drop(p99: int, p95: int, idle: int, d1: int, d2: int)
    requires
        d1 <= d2,
    ensures
        score(p99, p95, idle, d1) <= score(p99, p95, idle, d2),
{
}

/// The poll intervals the monitor uses: a multiple of 10 ms from 10 to 200.
pub open spec fn poll_shape(p: u64) -> bool {
    10 <= p <= 200 && p % 10 == 0
}

/// The detector state after recording the tick durations `es` in order.
pub open spec fn ticks_recorded(m: ModelView, es: Seq<u64>) -> ModelView
    decreases es.len(),
{
    if es.len() == 0 {
        m
    } else {
        record_tick_spec(ticks_recorded(m, es.drop_last()), es.last())
    }
}

/// One recorded tick counts itself, keeps at most `TICK_HISTORY`
/// durations, keeps the poll interval a multiple of 10 ms in 10..=200, and
/// changes it only on a tick whose count is a multiple of 20, by exactly
/// 10 ms.
pub proof fn lemma_record_tick_poll(m: ModelView, elapsed_us: u64)
    requires
        poll_shape(m.poll_ms),
        m.tick_measurements.len() <= TICK_HISTORY,
    ensures
        ({
            let post = record_tick_spec(m, elapsed_us);
            &&& post.tick_count == sat_inc(m.tick_count)
            &&& post.tick_measurements.len() <= TICK_HISTORY
            &&& poll_shape(post.poll_ms)
            &&& post.poll_ms != m.poll_ms ==> post.tick_count % 20 == 0 && (post.poll_ms
                == m.poll_ms + 10 || post.poll_ms + 10 == m.poll_ms)
        }),
{
}

/// From a fresh detector, after any `k` recorded ticks: the tick count is
/// `k`, at most `TICK_HISTORY` durations are kept, the poll interval is a
/// multiple of 10 ms in 10..=200, and the last tick changed it only if the
/// count is a multiple of 20, and then by exactly 10 ms.
pub proof fn lemma_poll_interval_over_ticks(generation: u64, es: Seq<u64>)
    ensures
        ({
            let m = ticks_recorded(initial_model(generation), es);
            &&& es.len() <= u64::MAX ==> m.tick_count == es.len()
            &&& m.tick_measurements.len() <= TICK_HISTORY
            &&& poll_shape(m.poll_ms)
            &&& es.len() > 0 ==> {
                let prev = ticks_recorded(initial_model(generation), es.drop_last());
                m.poll_ms != prev.poll_ms ==> m.tick_count % 20 == 0 && (m.poll_ms == prev.poll_ms
                    + 10 || m.poll_ms + 10 == prev.poll_ms)
            }
        }),
    decreases es.len(),
{
    if es.len() > 0 {
        lemma_poll_interval_over_ticks(generation, es.drop_last());
        lemma_record_tick_poll(
            ticks_recorded(initial_model(generation), es.drop_last()),
            es.last(),
        );
    }
}

/// The duration trigger counts consecutive ticks only: after warmup, while
/// playing with no detection running, no block window and no drop-based
/// trigger, a tick with idle at or above `LOW_IDLE_MS` sets the low-idle
/// count back to zero and starts no detection.
pub proof fn lemma_duration_count_resets(
    m: ModelView,
    idle: u64,
    timeout: u64,
    autoplay: bool,
    videos_len: usize,
    now: u64,
)
    requires
        m.warmup_done,
        !m.signal_triggered,
        m.block_until is None,
        idle >= LOW_IDLE_MS,
        signal_strength_of(m, idle, drop_of(m, idle)) < TRIGGER_SCORE,
    ensures
        ({
            let (post, a) = evaluate_spec(m, idle, true, timeout, autoplay, videos_len, false, now);
            &&& post.low_idle_count == 0
            &&& !post.signal_triggered
            &&& a == Action::Nothing
        }),
{
    lemma_push_tli_frame(m);
    lemma_push_tli_frame(ModelView { prev_idle: Some(idle), ..m });
}

/// Tightening learns the confirmation count from the transitions: with at
/// least three low-idle samples it becomes the smaller of the current count
/// and the samples' 99th percentile plus one. When it changes, more than
/// the rank-`p99` share of the recorded low-idle periods are shorter than
/// the new count, so confirmation outlasts them.
pub proof fn lemma_tighten_to_tli_p99(m: ModelView)
    requires
        crate::noise::model_wf(m),
        m.trans_low_idle.len() >= crate::noise::MIN_TLI_SAMPLES,
    ensures
        ({
            let t = tighten_spec(m).min_confirmations;
            let p = pct(m.trans_low_idle, 99) + 1;
            &&& t == (if p < m.min_confirmations {
                p
            } else {
                m.min_confirmations as int
            })
            &&& t < m.min_confirmations ==> count_at_most(m.trans_low_idle, (t - 1) as u64)
                > rank_index(m.trans_low_idle.len(), 99)
        }),
{
    lemma_percentile_exists(m.trans_low_idle, 99);
    let r = pct(m.trans_low_idle, 99);
    let i = choose|i: int| 0 <= i < m.trans_low_idle.len() && m.trans_low_idle[i] == r;
    assert(m.trans_low_idle[i] <= crate::noise::TIME_LIMIT_MS);
}

/// Noise learning records drops of idle time: a clean sample below the
/// previous reading pushes the drop `prev - idle` onto the noise window (the
/// oldest value leaving a full window); a sample at or above it, or with no
/// previous reading, leaves the noise window unchanged.
pub proof fn lemma_feed_clean_records_drops(m: ModelView, idle: u64)
    ensures
        ({
            let post = crate::noise::feed_clean_spec(m, idle);
            &&& match m.prev_idle {
                Some(prev) => if idle < prev {
                    &&& post.noise_drops == window_push(m.noise_drops, (prev - idle) as u64)
                    &&& post.noise_drops.last() == prev - idle
                    &&& post.noise_drops.len() == (if m.noise_drops.len()
                        >= crate::window::WINDOW_SIZE {
                        m.noise_drops.len() as int
                    } else {
                        m.noise_drops.len() + 1int
                    })
                } else {
                    post.noise_drops == m.noise_drops
                },
                None => post.noise_drops == m.noise_drops,
            }
            &&& post.prev_idle == Some(idle)
        }),
{
}

} // verus!
