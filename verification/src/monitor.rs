//! Decisions of the idle monitor and the playback commands around the
//! presence detector: where playback resumes, when autoplay fires, and how
//! much of the idle timeout is left.
use crate::config::{find_index, first_index, VideoItem};
use crate::noise::{
    evaluate_spec, initial_model, model_wf, record_tick_spec, Action, ModelView, NoiseModel,
    TIME_LIMIT_MS,
};
use vstd::prelude::*;

verus! {

/// Index of the loop item with the last played id, where playback resumes.
pub open spec fn resume_index(videos: Seq<VideoItem>, last_played: Option<String>) -> Option<int> {
    match last_played {
        Some(id) => first_index(videos, id@),
        None => None,
    }
}

pub open spec fn opt_index(o: Option<usize>) -> Option<int> {
    match o {
        Some(k) => Some(k as int),
        None => None,
    }
}

/// Where playback resumes: the first video whose id is the last played one.
pub fn rotate_index(videos: &Vec<VideoItem>, last_played: &Option<String>) -> (r: Option<usize>)
    ensures
        opt_index(r) == resume_index(videos@, *last_played),
{
    match last_played {
        Some(id) => find_index(videos, id),
        None => None,
    }
}

/// `v` is one of the selected videos.
pub open spec fn is_selected(v: VideoItem, selected: Seq<String>) -> bool {
    exists|j: int| 0 <= j < selected.len() && (#[trigger] selected[j])@ == v.id@
}

/// Index of the first selected video.
pub open spec fn first_selected(videos: Seq<VideoItem>, selected: Seq<String>) -> Option<int>
    decreases videos.len(),
{
    if videos.len() == 0 {
        None
    } else if is_selected(videos[0], selected) {
        Some(0)
    } else {
        match first_selected(videos.drop_first(), selected) {
            Some(i) => Some(i + 1),
            None => None,
        }
    }
}

pub proof fn lemma_first_selected(videos: Seq<VideoItem>, selected: Seq<String>)
    ensures
        match first_selected(videos, selected) {
            Some(i) => 0 <= i < videos.len() && is_selected(videos[i], selected) && forall|j: int|
                0 <= j < i ==> !is_selected(#[trigger] videos[j], selected),
            None => forall|j: int| 0 <= j < videos.len() ==> !is_selected(#[trigger] videos[j], selected),
        },
    decreases videos.len(),
{
    if videos.len() > 0 {
        lemma_first_selected(videos.drop_first(), selected);
        assert forall|j: int| 0 < j < videos.len() implies #[trigger] videos[j]
            == videos.drop_first()[j - 1] by {}
    }
}

fn selected_contains(selected: &Vec<String>, id: &String) -> (b: bool)
    ensures
        b == exists|j: int| 0 <= j < selected@.len() && (#[trigger] selected@[j])@ == id@,
{
    let mut j: usize = 0;
    while j < selected.len()
        invariant
            j <= selected@.len(),
            forall|k: int| 0 <= k < j ==> (#[trigger] selected@[k])@ != id@,
        decreases selected@.len() - j,
    {
        if selected[j] == *id {
            return true;
        }
        j = j + 1;
    }
    false
}

/// Where manual playback starts: with nothing selected, where the last
/// playback stopped; otherwise at the first selected video. Fails when the
/// loop is empty.
pub fn manual_play_rotation(
    videos: &Vec<VideoItem>,
    selected_ids: &Vec<String>,
    last_played: &Option<String>,
) -> (r: Result<Option<usize>, String>)
    ensures
        videos@.len() == 0 <==> r is Err,
        r matches Err(msg) ==> msg@ == "No videos in loop"@,
        r matches Ok(k) ==> opt_index(k) == if selected_ids@.len() == 0 {
            resume_index(videos@, *last_played)
        } else {
            first_selected(videos@, selected_ids@)
        },
{
    if videos.len() == 0 {
        return Err(String::from_str("No videos in loop"));
    }
    if selected_ids.len() == 0 {
        return Ok(rotate_index(videos, last_played));
    }
    proof {
        lemma_first_selected(videos@, selected_ids@);
    }
    let mut i: usize = 0;
    while i < videos.len()
        invariant
            i <= videos@.len(),
            forall|j: int| 0 <= j < i ==> !is_selected(#[trigger] videos@[j], selected_ids@),
            match first_selected(videos@, selected_ids@) {
                Some(k) => 0 <= k < videos@.len() && is_selected(videos@[k], selected_ids@)
                    && forall|j: int|
                    0 <= j < k ==> !is_selected(#[trigger] videos@[j], selected_ids@),
                None => forall|j: int|
                    0 <= j < videos@.len() ==> !is_selected(#[trigger] videos@[j], selected_ids@),
            },
        decreases videos@.len() - i,
    {
        if selected_contains(selected_ids, &videos[i].id) {
            proof {
                assert(is_selected(videos@[i as int], selected_ids@));
                if let Some(k) = first_selected(videos@, selected_ids@) {
                    if k < i {
                        assert(!is_selected(videos@[k], selected_ids@));
                    } else if k > i {
                        assert(!is_selected(videos@[i as int], selected_ids@));
                    }
                }
            }
            return Ok(Some(i));
        }
        i = i + 1;
    }
    Ok(None)
}

/// Ticks in a row the detector must ask for autoplay before it fires.
pub const AUTOPLAY_TICKS: u64 = 2;

/// Autoplay debouncing: counts consecutive autoplay requests while nothing
/// plays and fires on the second; any other outcome resets the count.
/// The new count and whether to start playback now.
pub open spec fn autoplay_next(count: u64, action: Action, autoplay_enabled: bool, playing: bool) -> (
    u64,
    bool,
) {
    match action {
        Action::AutoPlay => if autoplay_enabled && !playing {
            let c = if count < u64::MAX {
                count + 1
            } else {
                count as int
            };
            if c >= AUTOPLAY_TICKS {
                (0u64, true)
            } else {
                (c as u64, false)
            }
        } else {
            (0u64, false)
        },
        _ => (0u64, false),
    }
}

/// One step of autoplay debouncing (see `autoplay_next`).
pub fn autoplay_step(count: u64, action: Action, autoplay_enabled: bool, playing: bool) -> (r: (
    u64,
    bool,
))
    ensures
        r == autoplay_next(count, action, autoplay_enabled, playing),
{
    match action {
        Action::AutoPlay => {
            if autoplay_enabled && !playing {
                let c = if count < u64::MAX {
                    count + 1
                } else {
                    count
                };
                if c >= AUTOPLAY_TICKS {
                    (0, true)
                } else {
                    (c, false)
                }
            } else {
                (0, false)
            }
        },
        _ => (0, false),
    }
}

/// State of the idle monitor: the presence detector and the count of
/// consecutive autoplay requests.
pub struct MonitorView {
    pub detector: ModelView,
    pub autoplay_count: u64,
}

/// The idle monitor's decisions from tick to tick. The loop around it
/// sleeps, reads the configuration, idle time and clock, and carries out the
/// actions; every change of the monitor's state happens here.
pub struct IdleMonitor {
    model: NoiseModel,
    autoplay_count: u64,
}

impl View for IdleMonitor {
    type V = MonitorView;

    closed spec fn view(&self) -> MonitorView {
        MonitorView { detector: self.model@, autoplay_count: self.autoplay_count }
    }
}

impl IdleMonitor {
    pub open spec fn wf(&self) -> bool {
        model_wf(self@.detector)
    }

    /// A monitor with a fresh detector for monitor generation `generation`.
    pub fn new(generation: u64) -> (m: Self)
        ensures
            m.wf(),
            m@.detector == initial_model(generation),
            m@.autoplay_count == 0,
    {
        IdleMonitor { model: NoiseModel::new(generation), autoplay_count: 0 }
    }

    /// The presence detector, for reading.
    pub fn model(&self) -> (r: &NoiseModel)
        ensures
            r@ == self@.detector,
    {
        &self.model
    }

    /// Whether this tick is monitored: only with idle mode on and a
    /// non-empty loop. A tick that is not forgets the previous idle reading
    /// and the autoplay count.
    pub fn active(&mut self, enabled: bool, videos_len: usize) -> (on: bool)
        requires
            old(self).wf(),
        ensures
            final(self).wf(),
            on == (enabled && videos_len > 0),
            on ==> final(self)@ == old(self)@,
            !on ==> final(self)@ == (MonitorView {
                detector: ModelView { prev_idle: None, ..old(self)@.detector },
                autoplay_count: 0,
            }),
    {
        if !enabled || videos_len == 0 {
            self.autoplay_count = 0;
            self.model.prev_idle = None;
            return false;
        }
        true
    }

    /// Idle time could not be read this tick: the autoplay count restarts.
    pub fn reading_failed(&mut self)
        requires
            old(self).wf(),
        ensures
            final(self).wf(),
            final(self)@ == (MonitorView { autoplay_count: 0, ..old(self)@ }),
    {
        self.autoplay_count = 0;
    }

    /// Records how long the tick took, in microseconds.
    pub fn record_tick(&mut self, elapsed_us: u64)
        requires
            old(self).wf(),
        ensures
            final(self).wf(),
            final(self)@ == (MonitorView {
                detector: record_tick_spec(old(self)@.detector, elapsed_us),
                ..old(self)@
            }),
    {
        self.model.record_tick(elapsed_us);
    }

    /// Feeds one idle reading to the detector (see `NoiseModel::evaluate`).
    pub fn observe(
        &mut self,
        idle_ms: u64,
        playing: bool,
        timeout: u64,
        autoplay: bool,
        videos_len: usize,
        transitioned: bool,
        now_ms: u64,
    ) -> (a: Action)
        requires
            old(self).wf(),
            now_ms <= TIME_LIMIT_MS,
        ensures
            final(self).wf(),
            final(self)@.autoplay_count == old(self)@.autoplay_count,
            (final(self)@.detector, a) == evaluate_spec(
                old(self)@.detector,
                idle_ms,
                playing,
                timeout,
                autoplay,
                videos_len,
                transitioned,
                now_ms,
            ),
    {
        self.model.evaluate(idle_ms, playing, timeout, autoplay, videos_len, transitioned, now_ms)
    }

    /// Whether to start autoplay now, given the detector's action and
    /// whether something plays after that action was carried out.
    pub fn autoplay_due(&mut self, action: Action, autoplay_enabled: bool, playing: bool) -> (fire:
        bool)
        requires
            old(self).wf(),
        ensures
            final(self).wf(),
            final(self)@.detector == old(self)@.detector,
            (final(self)@.autoplay_count, fire) == autoplay_next(
                old(self)@.autoplay_count,
                action,
                autoplay_enabled,
                playing,
            ),
    {
        let (count, fire) = autoplay_step(self.autoplay_count, action, autoplay_enabled, playing);
        self.autoplay_count = count;
        fire
    }
}

/// Seconds of the idle timeout still to wait at idle time `idle_ms`.
pub fn remaining_seconds(timeout: u64, idle_ms: u64) -> (r: u64)
    ensures
        r == if idle_ms / 1000 >= timeout {
            0
        } else {
            timeout - idle_ms / 1000
        },
{
    let seconds = idle_ms / 1000;
    let capped = if seconds <= timeout {
        seconds
    } else {
        timeout
    };
    timeout - capped
}

} // verus!
