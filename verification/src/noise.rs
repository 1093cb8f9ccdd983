//! The self-calibrating presence detector.
//!
//! Each poll the monitor hands the model the current idle time and whether
//! the player announced a file transition; the model answers with an action.
//! It learns three distributions from observation (drops of the idle time
//! during quiet playback, how long idle takes to recover after a transition,
//! and how many ticks idle stays very low during a transition) and derives
//! every threshold from them.
use crate::window::{lemma_pct_is, lemma_push_bounded, pct, window_push, SlidingWin, WINDOW_SIZE};
use std::collections::VecDeque;
use vstd::prelude::*;

verus! {

/// Idle below this many milliseconds means someone is at the machine.
pub const VERY_LOW_MS: u64 = 200;

/// Idle above this many milliseconds ends a transition's recovery.
pub const RECOVERED_MS: u64 = 500;

/// Idle below this many milliseconds counts toward the duration trigger.
pub const LOW_IDLE_MS: u64 = 500;

/// Score at which a drop of the idle time triggers detection.
pub const TRIGGER_SCORE: u64 = 30;

/// Confirmations needed before any transition has been measured.
pub const BOOTSTRAP_CONFIRMS: u64 = 21;

/// Block window used before any transition recovery has been measured.
pub const DEFAULT_BLOCK_MS: u64 = 1500;

/// Noise 99th percentile assumed until enough drops were observed.
pub const DEFAULT_NOISE_P99_MS: u64 = 5000;

/// Noise 95th percentile assumed until enough drops were observed.
pub const DEFAULT_NOISE_P95_MS: u64 = 2000;

/// Drops needed before the observed noise percentiles are trusted.
pub const MIN_NOISE_SAMPLES: usize = 10;

/// Transition low-idle samples needed before confirmations are tightened.
pub const MIN_TLI_SAMPLES: usize = 3;

pub const INITIAL_POLL_MS: u64 = 50;

pub const MIN_POLL_MS: u64 = 5;

pub const MAX_POLL_MS: u64 = 200;

pub const POLL_STEP_MS: u64 = 10;

/// Number of recent tick durations kept for poll adaptation.
pub const TICK_HISTORY: usize = 20;

/// Largest monitor-clock reading, in milliseconds, the model accepts.
pub const TIME_LIMIT_MS: u64 = 0x4000_0000_0000_0000;

/// What the monitor loop should do after a tick.
#[derive(PartialEq, Eq, Structural, Clone, Copy, Debug)]
pub enum Action {
    Nothing,
    Stop,
    AutoPlay,
}

/// Mathematical state of the detector.
pub struct ModelView {
    pub noise_drops: Seq<u64>,
    pub idle_floor: Seq<u64>,
    pub transition_rec: Seq<u64>,
    pub trans_low_idle: Seq<u64>,
    pub trans_low_count: u64,
    pub low_idle_count: u64,
    pub clean_samples: u64,
    pub warmup_ticks: u64,
    pub warmup_done: bool,
    pub consecutive_signal: u64,
    pub signal_triggered: bool,
    pub min_confirmations: u64,
    pub total_stops: u64,
    pub poll_ms: u64,
    pub tick_measurements: Seq<u64>,
    pub prev_idle: Option<u64>,
    pub block_until: Option<u64>,
    pub trans_start: Option<u64>,
    pub tli_contaminated: bool,
    pub tracked_exit: bool,
    pub tick_count: u64,
    pub generation: u64,
}

pub open spec fn sat_inc(x: u64) -> u64 {
    if x < u64::MAX {
        (x + 1) as u64
    } else {
        x
    }
}

pub open spec fn sat_sub(a: u64, b: u64) -> u64 {
    if a >= b {
        (a - b) as u64
    } else {
        0
    }
}

pub open spec fn min_u64(a: u64, b: u64) -> u64 {
    if a <= b {
        a
    } else {
        b
    }
}

pub open spec fn max_u64(a: u64, b: u64) -> u64 {
    if a >= b {
        a
    } else {
        b
    }
}

pub open spec fn all_at_most(s: Seq<u64>, b: u64) -> bool {
    forall|i: int| 0 <= i < s.len() ==> #[trigger] s[i] <= b
}

/// A block window set for `b` is still running at time `now`.
pub open spec fn is_blocked(block_until: Option<u64>, now: u64) -> bool {
    match block_until {
        Some(b) => now < b,
        None => false,
    }
}

/// The invariant of the detector's state.
pub open spec fn model_wf(m: ModelView) -> bool {
    &&& m.noise_drops.len() <= WINDOW_SIZE
    &&& m.idle_floor.len() <= WINDOW_SIZE
    &&& m.transition_rec.len() <= WINDOW_SIZE
    &&& m.trans_low_idle.len() <= WINDOW_SIZE
    &&& all_at_most(m.transition_rec, TIME_LIMIT_MS)
    &&& all_at_most(m.trans_low_idle, TIME_LIMIT_MS)
    &&& MIN_POLL_MS <= m.poll_ms <= MAX_POLL_MS
    &&& m.min_confirmations <= BOOTSTRAP_CONFIRMS
    &&& m.tick_measurements.len() <= TICK_HISTORY
}

/// Block window: the 95th percentile of transition recovery times, or the
/// default before any recovery was measured.
pub open spec fn block_window_of(m: ModelView) -> u64 {
    let r = pct(m.transition_rec, 95);
    if r > 0 {
        r
    } else {
        DEFAULT_BLOCK_MS
    }
}

/// Recovery threshold: block window plus the median recovery time.
pub open spec fn recovery_of(m: ModelView) -> int {
    block_window_of(m) + pct(m.transition_rec, 50)
}

pub open spec fn noise_p99_of(m: ModelView) -> u64 {
    if m.noise_drops.len() < MIN_NOISE_SAMPLES {
        DEFAULT_NOISE_P99_MS
    } else {
        pct(m.noise_drops, 99)
    }
}

pub open spec fn noise_p95_of(m: ModelView) -> u64 {
    if m.noise_drops.len() < MIN_NOISE_SAMPLES {
        DEFAULT_NOISE_P95_MS
    } else {
        pct(m.noise_drops, 95)
    }
}

/// Anomaly score of a drop of `drop` ms leaving idle at `idle` ms, against
/// noise percentiles `p99` and `p95`.
pub open spec fn score(p99: int, p95: int, idle: int, drop: int) -> int {
    let magnitude = if drop > p99 * 4 {
        100int
    } else if drop > p99 * 3 {
        80
    } else if drop > p99 * 2 {
        50
    } else if drop > p95 * 3 {
        30
    } else if drop > p95 * 2 {
        10
    } else if drop > p95 {
        5
    } else {
        0
    };
    let presence = if drop > p95 {
        (if idle < 500 {
            30int
        } else if idle < 2000 {
            15
        } else {
            0
        }) + (if idle == 0 {
            10int
        } else {
            0
        })
    } else {
        0
    };
    magnitude + presence
}

pub open spec fn signal_strength_of(m: ModelView, idle: u64, drop: u64) -> int {
    score(max_u64(noise_p99_of(m), 1) as int, max_u64(noise_p95_of(m), 1) as int, idle as int, drop as int)
}

/// Once three transitions were measured, tightens the confirmation count
/// to `trans_low_idle.p99 + 1`, enough to outlast 99% of the transition
/// low-idle periods; it only ever lowers the count, never raises it.
pub open spec fn tighten_spec(m: ModelView) -> ModelView {
    if m.trans_low_idle.len() < MIN_TLI_SAMPLES {
        m
    } else {
        let target = (pct(m.trans_low_idle, 99) + 1) as u64;
        if target < m.min_confirmations {
            ModelView { min_confirmations: target, ..m }
        } else {
            m
        }
    }
}

/// Records the low-idle tick count of the transition that just ended
/// (capped by what the block window allows), unless it was contaminated by
/// the user being present, in which case the measurement is discarded.
pub open spec fn push_tli_spec(m: ModelView) -> ModelView {
    if m.tli_contaminated {
        ModelView { tli_contaminated: false, ..m }
    } else {
        let max_possible = (block_window_of(m) / max_u64(m.poll_ms, 1)) as u64;
        let capped = min_u64(m.trans_low_count, max_u64(max_possible, 1));
        tighten_spec(ModelView { trans_low_idle: window_push(m.trans_low_idle, capped), ..m })
    }
}

/// Feeds a sample taken while the user is away into the noise model.
pub open spec fn feed_clean_spec(m: ModelView, idle: u64) -> ModelView {
    let drops = match m.prev_idle {
        Some(prev) => if idle < prev {
            window_push(m.noise_drops, (prev - idle) as u64)
        } else {
            m.noise_drops
        },
        None => m.noise_drops,
    };
    tighten_spec(
        ModelView {
            noise_drops: drops,
            idle_floor: window_push(m.idle_floor, idle),
            prev_idle: Some(idle),
            clean_samples: sat_inc(m.clean_samples),
            ..m
        },
    )
}

/// Reaction to a file transition announced by the player: duplicates inside
/// a running block window are ignored; otherwise the previous measurement is
/// flushed, a new one starts, triggers are blocked for the block window, and
/// any detection in progress is reset.
pub open spec fn transition_spec(m: ModelView, now: u64) -> ModelView {
    if is_blocked(m.block_until, now) {
        m
    } else {
        let m1 = if m.trans_start is Some {
            push_tli_spec(m)
        } else {
            m
        };
        ModelView {
            trans_start: Some(now),
            trans_low_count: 0,
            tli_contaminated: false,
            block_until: Some((now + block_window_of(m1)) as u64),
            low_idle_count: 0,
            signal_triggered: false,
            consecutive_signal: 0,
            ..m1
        }
    }
}

/// Decision while nothing is playing: report the user's return once, or ask
/// for autoplay after the idle timeout.
pub open spec fn idle_exit_spec(
    m: ModelView,
    idle: u64,
    timeout: u64,
    autoplay: bool,
    videos_len: usize,
) -> (ModelView, Action) {
    if !m.tracked_exit && (idle < VERY_LOW_MS || m.signal_triggered) {
        (
            ModelView { tracked_exit: true, signal_triggered: false, consecutive_signal: 0, ..m },
            Action::Stop,
        )
    } else if idle / 1000 >= timeout && autoplay && videos_len > 0 {
        (m, Action::AutoPlay)
    } else {
        (m, Action::Nothing)
    }
}

pub open spec fn drop_of(m: ModelView, idle: u64) -> u64 {
    match m.prev_idle {
        Some(p) => sat_sub(p, idle),
        None => 0,
    }
}

/// Counts low-idle ticks of the running transition and ends its recovery
/// measurement once idle climbs past `RECOVERED_MS`.
pub open spec fn measure_spec(m: ModelView, idle: u64, now: u64) -> ModelView {
    match m.trans_start {
        None => m,
        Some(start) => {
            let m1 = if idle < VERY_LOW_MS {
                ModelView { trans_low_count: sat_inc(m.trans_low_count), ..m }
            } else {
                m
            };
            if idle > RECOVERED_MS {
                let m2 = ModelView {
                    transition_rec: window_push(m1.transition_rec, sat_sub(now, start)),
                    ..m1
                };
                ModelView { trans_start: None, ..push_tli_spec(m2) }
            } else {
                m1
            }
        },
    }
}

/// When the block window has run out: flush an unfinished measurement and,
/// if the user is present, force a trigger.
pub open spec fn block_expiry_spec(m: ModelView, idle: u64, now: u64) -> ModelView {
    if !is_blocked(m.block_until, now) && m.block_until is Some {
        let m1 = ModelView { block_until: None, ..m };
        let m2 = if m1.trans_start is Some {
            ModelView { trans_start: None, ..push_tli_spec(m1) }
        } else {
            m1
        };
        if idle < VERY_LOW_MS {
            ModelView {
                tli_contaminated: true,
                signal_triggered: true,
                consecutive_signal: 1,
                ..m2
            }
        } else {
            m2
        }
    } else {
        m
    }
}

/// Drop-based trigger, only outside a block window.
pub open spec fn drop_trigger_spec(m: ModelView, blocked: bool, score: int) -> ModelView {
    if !m.signal_triggered && !blocked && score >= TRIGGER_SCORE {
        ModelView { signal_triggered: true, consecutive_signal: 1, ..m }
    } else {
        m
    }
}

/// Ticks the duration-based trigger waits for: twice the confirmation
/// count.
pub open spec fn low_idle_needed(m: ModelView) -> u64 {
    (m.min_confirmations * 2) as u64
}

/// Duration-based trigger: idle stays below `LOW_IDLE_MS` for twice the
/// confirmation count.
pub open spec fn low_idle_spec(m: ModelView, blocked: bool, idle: u64) -> ModelView {
    if !m.signal_triggered && !blocked && m.warmup_done {
        if idle < LOW_IDLE_MS {
            let c = sat_inc(m.low_idle_count);
            if c >= low_idle_needed(m) {
                ModelView { low_idle_count: c, signal_triggered: true, consecutive_signal: 1, ..m }
            } else {
                ModelView { low_idle_count: c, ..m }
            }
        } else {
            ModelView { low_idle_count: 0, ..m }
        }
    } else {
        m
    }
}

/// Dual-threshold confirmation: idle below `VERY_LOW_MS` counts, idle
/// between it and the recovery threshold stalls, idle at or above the
/// recovery threshold aborts. The flag says whether playback must stop.
pub open spec fn confirm_spec(m: ModelView, idle: u64, rec: int) -> (ModelView, bool) {
    if m.signal_triggered {
        if idle < rec {
            if idle < VERY_LOW_MS {
                let c = sat_inc(m.consecutive_signal);
                if c >= m.min_confirmations {
                    (
                        ModelView {
                            total_stops: sat_inc(m.total_stops),
                            signal_triggered: false,
                            consecutive_signal: 0,
                            tracked_exit: true,
                            ..m
                        },
                        true,
                    )
                } else {
                    (ModelView { consecutive_signal: c, ..m }, false)
                }
            } else {
                (m, false)
            }
        } else {
            (ModelView { signal_triggered: false, consecutive_signal: 0, ..m }, false)
        }
    } else {
        (m, false)
    }
}

/// Learning from clean samples: during warmup (the first `WINDOW_SIZE`
/// ticks) and afterwards while the user is away, outside block windows and
/// while no detection runs.
pub open spec fn feeding_spec(
    m: ModelView,
    idle: u64,
    now: u64,
    timeout: u64,
    blocked: bool,
) -> ModelView {
    let away = idle / 1000 >= timeout / 2;
    if !m.warmup_done {
        let m1 = ModelView { warmup_ticks: sat_inc(m.warmup_ticks), ..m };
        let m2 = if away && !is_blocked(m1.block_until, now) {
            feed_clean_spec(m1, idle)
        } else {
            m1
        };
        if m2.warmup_ticks >= WINDOW_SIZE {
            ModelView { warmup_done: true, ..m2 }
        } else {
            m2
        }
    } else if away && !blocked && !m.signal_triggered {
        feed_clean_spec(m, idle)
    } else {
        m
    }
}

/// One tick of the detector: state and action after seeing idle time
/// `idle` at monitor time `now`.
pub open spec fn evaluate_spec(
    m: ModelView,
    idle: u64,
    playing: bool,
    timeout: u64,
    autoplay: bool,
    videos_len: usize,
    transitioned: bool,
    now: u64,
) -> (ModelView, Action) {
    let m0 = if transitioned {
        transition_spec(m, now)
    } else {
        m
    };
    if !playing {
        idle_exit_spec(m0, idle, timeout, autoplay, videos_len)
    } else {
        let rec = recovery_of(m0);
        let score = signal_strength_of(m0, idle, drop_of(m0, idle));
        let m1 = ModelView { prev_idle: Some(idle), ..m0 };
        let m2 = measure_spec(m1, idle, now);
        let blocked = is_blocked(m2.block_until, now);
        let m3 = block_expiry_spec(m2, idle, now);
        let m4 = drop_trigger_spec(m3, blocked, score);
        let m5 = low_idle_spec(m4, blocked, idle);
        let (m6, stop) = confirm_spec(m5, idle, rec);
        if stop {
            (m6, Action::Stop)
        } else {
            (feeding_spec(m6, idle, now, timeout, blocked), Action::Nothing)
        }
    }
}

pub open spec fn seq_sum(s: Seq<u64>) -> int
    decreases s.len(),
{
    if s.len() == 0 {
        0
    } else {
        seq_sum(s.drop_last()) + s.last()
    }
}

/// Poll interval after adapting to the measured tick overhead: grow when
/// ticks overrun the sleep by more than 30%, shrink when they overrun it by
/// less than 5%.
pub open spec fn adapt_poll(poll: u64, measurements: Seq<u64>) -> u64 {
    let avg = seq_sum(measurements) / measurements.len() as int;
    let expected = poll * 1000;
    let overhead = if avg > expected {
        avg - expected
    } else {
        0
    };
    let overhead_pct = overhead * 100 / expected;
    if overhead_pct > 30 && poll < MAX_POLL_MS {
        min_u64((poll + POLL_STEP_MS) as u64, MAX_POLL_MS)
    } else if overhead_pct < 5 && poll > POLL_STEP_MS {
        max_u64((poll - POLL_STEP_MS) as u64, MIN_POLL_MS)
    } else {
        poll
    }
}

/// Records a tick's duration and, every 20 ticks with at least 10
/// measurements, adapts the poll interval.
pub open spec fn record_tick_spec(m: ModelView, elapsed_us: u64) -> ModelView {
    let tc = sat_inc(m.tick_count);
    let pushed = m.tick_measurements.push(elapsed_us);
    let tm = if pushed.len() > TICK_HISTORY {
        pushed.drop_first()
    } else {
        pushed
    };
    let poll = if tc % 20 == 0 && tm.len() >= 10 {
        adapt_poll(m.poll_ms, tm)
    } else {
        m.poll_ms
    };
    ModelView { tick_count: tc, tick_measurements: tm, poll_ms: poll, ..m }
}

/// Initial state for monitor generation `generation`.
pub open spec fn initial_model(generation: u64) -> ModelView {
    ModelView {
        noise_drops: Seq::empty(),
        idle_floor: Seq::empty(),
        transition_rec: Seq::empty(),
        trans_low_idle: Seq::empty(),
        trans_low_count: 0,
        low_idle_count: 0,
        clean_samples: 0,
        warmup_ticks: 0,
        warmup_done: false,
        consecutive_signal: 0,
        signal_triggered: false,
        min_confirmations: BOOTSTRAP_CONFIRMS,
        total_stops: 0,
        poll_ms: INITIAL_POLL_MS,
        tick_measurements: Seq::empty(),
        prev_idle: None,
        block_until: None,
        trans_start: None,
        tli_contaminated: false,
        tracked_exit: false,
        tick_count: 0,
        generation,
    }
}

/// The detector.
pub struct NoiseModel {
    pub noise_drops: SlidingWin,
    pub idle_floor: SlidingWin,
    pub transition_rec: SlidingWin,
    pub trans_low_idle: SlidingWin,
    pub trans_low_count: u64,
    pub low_idle_count: u64,
    pub clean_samples: u64,
    pub warmup_ticks: u64,
    pub warmup_done: bool,
    pub consecutive_signal: u64,
    pub signal_triggered: bool,
    pub min_confirmations: u64,
    pub total_stops: u64,
    pub poll_ms: u64,
    pub tick_measurements: VecDeque<u64>,
    pub prev_idle: Option<u64>,
    pub block_until: Option<u64>,
    pub trans_start: Option<u64>,
    pub tli_contaminated: bool,
    pub tracked_exit: bool,
    pub tick_count: u64,
    pub generation: u64,
}

impl View for NoiseModel {
    type V = ModelView;

    open spec fn view(&self) -> ModelView {
        ModelView {
            noise_drops: self.noise_drops@,
            idle_floor: self.idle_floor@,
            transition_rec: self.transition_rec@,
            trans_low_idle: self.trans_low_idle@,
            trans_low_count: self.trans_low_count,
            low_idle_count: self.low_idle_count,
            clean_samples: self.clean_samples,
            warmup_ticks: self.warmup_ticks,
            warmup_done: self.warmup_done,
            consecutive_signal: self.consecutive_signal,
            signal_triggered: self.signal_triggered,
            min_confirmations: self.min_confirmations,
            total_stops: self.total_stops,
            poll_ms: self.poll_ms,
            tick_measurements: self.tick_measurements@,
            prev_idle: self.prev_idle,
            block_until: self.block_until,
            trans_start: self.trans_start,
            tli_contaminated: self.tli_contaminated,
            tracked_exit: self.tracked_exit,
            tick_count: self.tick_count,
            generation: self.generation,
        }
    }
}

fn sat_inc_exec(x: u64) -> (r: u64)
    ensures
        r == sat_inc(x),
{
    if x < u64::MAX {
        x + 1
    } else {
        x
    }
}

impl NoiseModel {
    pub open spec fn wf(&self) -> bool {
        model_wf(self@)
    }

    pub fn new(generation: u64) -> (m: Self)
        ensures
            m@ == initial_model(generation),
            m.wf(),
    {
        NoiseModel {
            noise_drops: SlidingWin::new(),
            idle_floor: SlidingWin::new(),
            transition_rec: SlidingWin::new(),
            trans_low_idle: SlidingWin::new(),
            trans_low_count: 0,
            low_idle_count: 0,
            clean_samples: 0,
            warmup_ticks: 0,
            warmup_done: false,
            consecutive_signal: 0,
            signal_triggered: false,
            min_confirmations: BOOTSTRAP_CONFIRMS,
            total_stops: 0,
            poll_ms: INITIAL_POLL_MS,
            tick_measurements: VecDeque::with_capacity(TICK_HISTORY),
            prev_idle: None,
            block_until: None,
            trans_start: None,
            tli_contaminated: false,
            tracked_exit: false,
            tick_count: 0,
            generation,
        }
    }

    pub fn block_window_ms(&self) -> (r: u64)
        requires
            self.wf(),
        ensures
            r == block_window_of(self@),
            1 <= r <= TIME_LIMIT_MS,
    {
        let rec_p95 = self.transition_rec.percentile(95);
        proof {
            lemma_pct_is(self.transition_rec@, 95, rec_p95);
        }
        if rec_p95 > 0 {
            rec_p95
        } else {
            DEFAULT_BLOCK_MS
        }
    }

    pub fn recovery_ms(&self) -> (r: u64)
        requires
            self.wf(),
        ensures
            r == recovery_of(self@),
    {
        let bw = self.block_window_ms();
        let rec_p50 = self.transition_rec.percentile(50);
        proof {
            lemma_pct_is(self.transition_rec@, 50, rec_p50);
        }
        bw + rec_p50
    }

    pub fn noise_p99(&self) -> (r: u64)
        requires
            self.wf(),
        ensures
            r == noise_p99_of(self@),
    {
        if self.noise_drops.len() < MIN_NOISE_SAMPLES {
            DEFAULT_NOISE_P99_MS
        } else {
            self.noise_drops.p99()
        }
    }

    pub fn noise_p95(&self) -> (r: u64)
        requires
            self.wf(),
        ensures
            r == noise_p95_of(self@),
    {
        if self.noise_drops.len() < MIN_NOISE_SAMPLES {
            DEFAULT_NOISE_P95_MS
        } else {
            self.noise_drops.p95()
        }
    }

    pub fn signal_strength(&self, idle_ms: u64, drop: u64) -> (r: u64)
        requires
            self.wf(),
        ensures
            r == signal_strength_of(self@, idle_ms, drop),
    {
        let p99_raw = self.noise_p99();
        let p99: u128 = if p99_raw >= 1 { p99_raw as u128 } else { 1 };
        let p95_raw = self.noise_p95();
        let p95: u128 = if p95_raw >= 1 { p95_raw as u128 } else { 1 };
        let d = drop as u128;
        let mut s: u64 = 0;
        if d > p99 * 4 {
            s = s + 100;
        } else if d > p99 * 3 {
            s = s + 80;
        } else if d > p99 * 2 {
            s = s + 50;
        } else if d > p95 * 3 {
            s = s + 30;
        } else if d > p95 * 2 {
            s = s + 10;
        } else if d > p95 {
            s = s + 5;
        }
        if d > p95 {
            if idle_ms < 500 {
                s = s + 30;
            } else if idle_ms < 2000 {
                s = s + 15;
            }
            if idle_ms == 0 {
                s = s + 10;
            }
        }
        s
    }

    pub fn tighten_confirms(&mut self)
        requires
            old(self).wf(),
        ensures
            final(self).wf(),
            final(self)@ == tighten_spec(old(self)@),
    {
        if self.trans_low_idle.len() < MIN_TLI_SAMPLES {
            return ;
        }
        let tli_p99 = self.trans_low_idle.percentile(99);
        proof {
            lemma_pct_is(self.trans_low_idle@, 99, tli_p99);
        }
        let target = tli_p99 + 1;
        if target < self.min_confirmations {
            self.min_confirmations = target;
        }
    }

    pub fn push_tli(&mut self)
        requires
            old(self).wf(),
        ensures
            final(self).wf(),
            final(self)@ == push_tli_spec(old(self)@),
    {
        if self.tli_contaminated {
            self.tli_contaminated = false;
            return ;
        }
        let bw = self.block_window_ms();
        let poll = if self.poll_ms >= 1 { self.poll_ms } else { 1 };
        let max_possible = bw / poll;
        let cap = if max_possible >= 1 { max_possible } else { 1 };
        let capped = if self.trans_low_count <= cap { self.trans_low_count } else { cap };
        proof {
            lemma_push_bounded(self.trans_low_idle@, capped, TIME_LIMIT_MS);
        }
        self.trans_low_idle.push(capped);
        self.tighten_confirms();
    }

    pub fn feed_clean(&mut self, idle_ms: u64)
        requires
            old(self).wf(),
        ensures
            final(self).wf(),
            final(self)@ == feed_clean_spec(old(self)@, idle_ms),
    {
        if let Some(prev) = self.prev_idle {
            if idle_ms < prev {
                self.noise_drops.push(prev - idle_ms);
            }
        }
        self.idle_floor.push(idle_ms);
        self.prev_idle = Some(idle_ms);
        self.clean_samples = sat_inc_exec(self.clean_samples);
        self.tighten_confirms();
    }

    fn is_blocked_at(&self, now_ms: u64) -> (b: bool)
        ensures
            b == is_blocked(self.block_until, now_ms),
    {
        match self.block_until {
            Some(b) => now_ms < b,
            None => false,
        }
    }

    /// Reaction to a transition announced by the player at `now_ms`.
    pub fn on_transition(&mut self, now_ms: u64)
        requires
            old(self).wf(),
            now_ms <= TIME_LIMIT_MS,
        ensures
            final(self).wf(),
            final(self)@ == transition_spec(old(self)@, now_ms),
    {
        if self.is_blocked_at(now_ms) {
            return ;
        }
        if self.trans_start.is_some() {
            self.push_tli();
        }
        self.trans_start = Some(now_ms);
        self.trans_low_count = 0;
        self.tli_contaminated = false;
        let bw = self.block_window_ms();
        self.block_until = Some(now_ms + bw);
        self.signal_triggered = false;
        self.consecutive_signal = 0;
        self.low_idle_count = 0;
    }

    fn idle_exit(&mut self, idle_ms: u64, timeout: u64, autoplay: bool, videos_len: usize) -> (a:
        Action)
        requires
            old(self).wf(),
        ensures
            final(self).wf(),
            (final(self)@, a) == idle_exit_spec(old(self)@, idle_ms, timeout, autoplay, videos_len),
    {
        if !self.tracked_exit && (idle_ms < VERY_LOW_MS || self.signal_triggered) {
            self.tracked_exit = true;
            self.signal_triggered = false;
            self.consecutive_signal = 0;
            return Action::Stop;
        }
        if idle_ms / 1000 >= timeout && autoplay && videos_len > 0 {
            return Action::AutoPlay;
        }
        Action::Nothing
    }

    fn measure(&mut self, idle_ms: u64, now_ms: u64)
        requires
            old(self).wf(),
            now_ms <= TIME_LIMIT_MS,
        ensures
            final(self).wf(),
            final(self)@ == measure_spec(old(self)@, idle_ms, now_ms),
    {
        if let Some(start) = self.trans_start {
            if idle_ms < VERY_LOW_MS {
                self.trans_low_count = sat_inc_exec(self.trans_low_count);
            }
            if idle_ms > RECOVERED_MS {
                let elapsed = if now_ms >= start { now_ms - start } else { 0 };
                proof {
                    lemma_push_bounded(self.transition_rec@, elapsed, TIME_LIMIT_MS);
                }
                self.transition_rec.push(elapsed);
                self.push_tli();
                self.trans_start = None;
            }
        }
    }

    fn block_expiry(&mut self, idle_ms: u64, now_ms: u64)
        requires
            old(self).wf(),
        ensures
            final(self).wf(),
            final(self)@ == block_expiry_spec(old(self)@, idle_ms, now_ms),
    {
        if !self.is_blocked_at(now_ms) && self.block_until.is_some() {
            self.block_until = None;
            if self.trans_start.is_some() {
                self.push_tli();
                self.trans_start = None;
            }
            if idle_ms < VERY_LOW_MS {
                self.tli_contaminated = true;
                self.signal_triggered = true;
                self.consecutive_signal = 1;
            }
        }
    }

    fn low_idle_trigger(&mut self, blocked: bool, idle_ms: u64)
        requires
            old(self).wf(),
        ensures
            final(self).wf(),
            final(self)@ == low_idle_spec(old(self)@, blocked, idle_ms),
    {
        if !self.signal_triggered && !blocked && self.warmup_done {
            if idle_ms < LOW_IDLE_MS {
                self.low_idle_count = sat_inc_exec(self.low_idle_count);
                let needed = self.min_confirmations * 2;
                if self.low_idle_count >= needed {
                    self.signal_triggered = true;
                    self.consecutive_signal = 1;
                }
            } else {
                self.low_idle_count = 0;
            }
        }
    }

    fn confirm(&mut self, idle_ms: u64, rec_ms: u64) -> (stop: bool)
        requires
            old(self).wf(),
        ensures
            final(self).wf(),
            (final(self)@, stop) == confirm_spec(old(self)@, idle_ms, rec_ms as int),
    {
        if self.signal_triggered {
            if idle_ms < rec_ms {
                if idle_ms < VERY_LOW_MS {
                    self.consecutive_signal = sat_inc_exec(self.consecutive_signal);
                    if self.consecutive_signal >= self.min_confirmations {
                        self.total_stops = sat_inc_exec(self.total_stops);
                        self.signal_triggered = false;
                        self.consecutive_signal = 0;
                        self.tracked_exit = true;
                        return true;
                    }
                }
            } else {
                self.signal_triggered = false;
                self.consecutive_signal = 0;
            }
        }
        false
    }

    fn feeding(&mut self, idle_ms: u64, now_ms: u64, timeout: u64, blocked: bool)
        requires
            old(self).wf(),
        ensures
            final(self).wf(),
            final(self)@ == feeding_spec(old(self)@, idle_ms, now_ms, timeout, blocked),
    {
        let away = idle_ms / 1000 >= timeout / 2;
        if !self.warmup_done {
            self.warmup_ticks = sat_inc_exec(self.warmup_ticks);
            if away && !self.is_blocked_at(now_ms) {
                self.feed_clean(idle_ms);
            }
            if self.warmup_ticks >= WINDOW_SIZE as u64 {
                self.warmup_done = true;
            }
            return ;
        }
        if away && !blocked && !self.signal_triggered {
            self.feed_clean(idle_ms);
        }
    }

    /// One tick: `idle_ms` is the current idle time, `transitioned` says
    /// whether the player announced a file transition since the last tick,
    /// and `now_ms` is the monitor clock.
    pub fn evaluate(
        &mut self,
        idle_ms: u64,
        playing: bool,
        timeout: u64,
        autoplay: bool,
        videos_len: usize,
        transitioned: bool,
        now_ms: u64,
    ) -> (a: Action)
        requires
            old(self).wf(),
            now_ms <= TIME_LIMIT_MS,
        ensures
            final(self).wf(),
            (final(self)@, a) == evaluate_spec(
                old(self)@,
                idle_ms,
                playing,
                timeout,
                autoplay,
                videos_len,
                transitioned,
                now_ms,
            ),
    {
        if transitioned {
            self.on_transition(now_ms);
        }
        if !playing {
            return self.idle_exit(idle_ms, timeout, autoplay, videos_len);
        }
        let rec_ms = self.recovery_ms();
        let drop = match self.prev_idle {
            Some(p) => if p >= idle_ms { p - idle_ms } else { 0 },
            None => 0,
        };
        let score = self.signal_strength(idle_ms, drop);
        self.prev_idle = Some(idle_ms);
        self.measure(idle_ms, now_ms);
        let blocked = self.is_blocked_at(now_ms);
        self.block_expiry(idle_ms, now_ms);
        if !self.signal_triggered && !blocked && score >= TRIGGER_SCORE {
            self.signal_triggered = true;
            self.consecutive_signal = 1;
        }
        self.low_idle_trigger(blocked, idle_ms);
        if self.confirm(idle_ms, rec_ms) {
            return Action::Stop;
        }
        self.feeding(idle_ms, now_ms, timeout, blocked);
        Action::Nothing
    }

    /// Records the duration of a tick, in microseconds.
    pub fn record_tick(&mut self, elapsed_us: u64)
        requires
            old(self).wf(),
        ensures
            final(self).wf(),
            final(self)@ == record_tick_spec(old(self)@, elapsed_us),
    {
        self.tick_count = sat_inc_exec(self.tick_count);
        self.tick_measurements.push_back(elapsed_us);
        if self.tick_measurements.len() > TICK_HISTORY {
            self.tick_measurements.pop_front();
        }
        assert(self.tick_measurements@ =~= (if old(self).tick_measurements@.push(elapsed_us).len()
            > TICK_HISTORY {
            old(self).tick_measurements@.push(elapsed_us).drop_first()
        } else {
            old(self).tick_measurements@.push(elapsed_us)
        }));
        if self.tick_count % 20 == 0 && self.tick_measurements.len() >= 10 {
            let n = self.tick_measurements.len();
            let mut total: u128 = 0;
            let mut i: usize = 0;
            while i < n
                invariant
                    n == self.tick_measurements@.len(),
                    n <= TICK_HISTORY,
                    i <= n,
                    total == seq_sum(self.tick_measurements@.take(i as int)),
                    total <= i * 0xffff_ffff_ffff_ffffu128,
                decreases n - i,
            {
                assert(self.tick_measurements@.take(i + 1).drop_last() =~= self.tick_measurements@.take(
                    i as int,
                ));
                total = total + self.tick_measurements[i] as u128;
                i = i + 1;
            }
            assert(self.tick_measurements@.take(n as int) =~= self.tick_measurements@);
            let avg = total / (n as u128);
            let expected = (self.poll_ms as u128) * 1000;
            let overhead = if avg > expected { avg - expected } else { 0 };
            assert(overhead <= 0xffff_ffff_ffff_ffffu128) by (nonlinear_arith)
                requires
                    avg == total / (n as u128),
                    n >= 10,
                    total <= n * 0xffff_ffff_ffff_ffffu128,
                    overhead <= avg,
            ;
            let overhead_pct = overhead * 100 / expected;
            if overhead_pct > 30 && self.poll_ms < MAX_POLL_MS {
                let up = self.poll_ms + POLL_STEP_MS;
                self.poll_ms = if up <= MAX_POLL_MS { up } else { MAX_POLL_MS };
            } else if overhead_pct < 5 && self.poll_ms > POLL_STEP_MS {
                let down = self.poll_ms - POLL_STEP_MS;
                self.poll_ms = if down >= MIN_POLL_MS { down } else { MIN_POLL_MS };
            }
        }
    }
}

} // verus!
