use daydream::config::{make_video_item, remove_video, reorder_videos, AppConfig, VideoItem};
use daydream::idle::parse_xprintidle;
use daydream::monitor::rotate_index;
use daydream::noise::{Action, NoiseModel};
use daydream::player::mpv_args;
use daydream::thumbnail::encode_uri_path;

fn loop_of(ids: &[&str]) -> AppConfig {
    let mut c = AppConfig::default();
    c.videos = ids
        .iter()
        .map(|id| make_video_item(format!("/v/{id}.mp4"), id.to_string()))
        .collect::<Vec<VideoItem>>();
    c
}

fn percent_decode(s: &str) -> Vec<u8> {
    let b = s.as_bytes();
    let mut out = Vec::new();
    let mut i = 0;
    while i < b.len() {
        if b[i] == b'%' {
            out.push(u8::from_str_radix(&s[i + 1..i + 3], 16).unwrap());
            i += 3;
        } else {
            out.push(b[i]);
            i += 1;
        }
    }
    out
}

#[test]
fn resume_survives_removing_other_videos() {
    let mut c = loop_of(&["a", "b", "c"]);
    let last = Some("c".to_string());
    let before = rotate_index(&c.videos, &last).map(|i| c.videos[i].path.clone());
    remove_video(&mut c, &"a".to_string());
    let after = rotate_index(&c.videos, &last).map(|i| c.videos[i].path.clone());
    assert_eq!(before, after);
    assert_eq!(after.as_deref(), Some("/v/c.mp4"));
}

#[test]
fn resume_survives_reordering() {
    let mut c = loop_of(&["a", "b", "c"]);
    let last = Some("b".to_string());
    reorder_videos(&mut c, &vec!["c".to_string(), "b".to_string(), "a".to_string()]);
    let i = rotate_index(&c.videos, &last).unwrap();
    assert_eq!(i, 1);
    assert_eq!(c.videos[i].path, "/v/b.mp4");
}

#[test]
fn score_grows_with_drop() {
    let m = NoiseModel::new(0);
    let mut last = 0;
    for drop in [0u64, 1000, 2001, 4001, 6001, 10_001, 15_001, 20_001, 90_000] {
        let s = m.signal_strength(300, drop);
        assert!(s >= last);
        last = s;
    }
}

#[test]
fn duration_trigger_after_needed_ticks() {
    let mut m = NoiseModel::new(0);
    m.warmup_done = true;
    m.min_confirmations = 3;
    m.prev_idle = Some(300);
    // needed = 2 * 3 = 6 ticks at 200..500 ms idle
    for i in 1..=6u64 {
        let a = m.evaluate(300, true, 120, true, 1, false, i * 50);
        assert_eq!(a, Action::Nothing);
        assert_eq!(m.low_idle_count, i);
        assert_eq!(m.signal_triggered, i >= 6);
    }
}

#[test]
fn confirmations_never_increase_over_a_session() {
    let mut m = NoiseModel::new(0);
    let mut last = m.min_confirmations;
    for i in 0..400u64 {
        let idle = if i % 37 == 0 { 50 } else { 70_000 - (i % 7) * 900 };
        m.evaluate(idle, i % 3 != 0, 120, true, 2, i % 50 == 0, i * 50);
        assert!(m.min_confirmations <= last);
        last = m.min_confirmations;
    }
}

#[test]
fn decimal_text_parses_back() {
    for n in [0usize, 7, 10, 99, 1234567] {
        let args = mpv_args(&vec![], Some(n));
        let text = args[6].strip_prefix("--playlist-start=").unwrap();
        assert_eq!(parse_xprintidle(true, text).unwrap(), n as u64);
    }
}

#[test]
fn uri_encoding_round_trips() {
    for p in ["/home/u/My Video (1).mp4", "/x/é%#?.mkv", "", "/plain"] {
        assert_eq!(percent_decode(&encode_uri_path(p)), p.as_bytes());
    }
}

#[test]
fn poll_interval_moves_in_steps_of_ten_every_twentieth_tick() {
    let mut m = NoiseModel::new(0);
    for k in 1..=100u64 {
        let before = m.poll_ms;
        // slow ticks for the first 60, then ticks with no overhead
        let elapsed = if k <= 60 { 1_000_000 } else { m.poll_ms * 1000 };
        m.record_tick(elapsed);
        assert_eq!(m.tick_count, k);
        assert!(m.tick_measurements.len() <= 20);
        assert!(m.poll_ms >= 10 && m.poll_ms <= 200 && m.poll_ms % 10 == 0);
        if m.poll_ms != before {
            assert_eq!(k % 20, 0);
            assert!(m.poll_ms == before + 10 || m.poll_ms + 10 == before);
        }
    }
    // 50 -> 60 -> 70 -> 80 at ticks 20, 40, 60; back to 70, 60 at 80, 100
    assert_eq!(m.poll_ms, 60);
}
