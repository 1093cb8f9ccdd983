use daydream::config::{make_video_item, VideoItem};
use daydream::monitor::{
    autoplay_step, manual_play_rotation, remaining_seconds, rotate_index, IdleMonitor,
};
use daydream::noise::Action;

fn videos() -> Vec<VideoItem> {
    vec![
        make_video_item("/v/a".to_string(), "a".to_string()),
        make_video_item("/v/b".to_string(), "b".to_string()),
        make_video_item("/v/c".to_string(), "c".to_string()),
    ]
}

#[test]
fn resume_from_last_played() {
    assert_eq!(rotate_index(&videos(), &Some("c".to_string())), Some(2));
    assert_eq!(rotate_index(&videos(), &Some("gone".to_string())), None);
    assert_eq!(rotate_index(&videos(), &None), None);
}

#[test]
fn manual_play_start() {
    let v = videos();
    assert_eq!(manual_play_rotation(&vec![], &vec![], &None), Err("No videos in loop".to_string()));
    assert_eq!(manual_play_rotation(&v, &vec![], &Some("b".to_string())), Ok(Some(1)));
    assert_eq!(manual_play_rotation(&v, &vec!["c".to_string(), "b".to_string()], &Some("a".to_string())), Ok(Some(1)));
    assert_eq!(manual_play_rotation(&v, &vec!["zz".to_string()], &None), Ok(None));
}

#[test]
fn autoplay_fires_on_second_request() {
    let (c1, f1) = autoplay_step(0, Action::AutoPlay, true, false);
    assert_eq!((c1, f1), (1, false));
    let (c2, f2) = autoplay_step(c1, Action::AutoPlay, true, false);
    assert_eq!((c2, f2), (0, true));
    assert_eq!(autoplay_step(1, Action::Nothing, true, false), (0, false));
    assert_eq!(autoplay_step(1, Action::AutoPlay, true, true), (0, false));
    assert_eq!(autoplay_step(1, Action::AutoPlay, false, false), (0, false));
    assert_eq!(autoplay_step(1, Action::Stop, true, false), (0, false));
}

#[test]
fn remaining_timeout() {
    assert_eq!(remaining_seconds(120, 0), 120);
    assert_eq!(remaining_seconds(120, 30_999), 90);
    assert_eq!(remaining_seconds(120, 500_000), 0);
    assert_eq!(remaining_seconds(0, 10), 0);
}

#[test]
fn monitor_pauses_without_idle_mode_or_videos() {
    let mut m = IdleMonitor::new(1);
    assert!(m.active(true, 3));
    m.record_tick(1000);
    let a = m.observe(60_000, false, 30, true, 3, false, 1000);
    assert_eq!(a, Action::AutoPlay);
    assert!(!m.autoplay_due(a, true, false));
    assert_eq!(m.model().prev_idle, None);
    // a playing tick records the reading
    m.observe(60_000, true, 30, true, 3, false, 2000);
    assert_eq!(m.model().prev_idle, Some(60_000));
    // idle mode off: the tick is skipped and the previous reading forgotten
    assert!(!m.active(false, 3));
    assert_eq!(m.model().prev_idle, None);
    assert!(!m.active(true, 0));
}

#[test]
fn monitor_autoplay_fires_on_second_request() {
    let mut m = IdleMonitor::new(1);
    assert!(!m.autoplay_due(Action::AutoPlay, true, false));
    assert!(m.autoplay_due(Action::AutoPlay, true, false));
    // count restarts after firing
    assert!(!m.autoplay_due(Action::AutoPlay, true, false));
    // a failed reading restarts the count
    m.reading_failed();
    assert!(!m.autoplay_due(Action::AutoPlay, true, false));
    assert!(m.autoplay_due(Action::AutoPlay, true, false));
    // a stop or playing restarts it too
    assert!(!m.autoplay_due(Action::AutoPlay, true, false));
    assert!(!m.autoplay_due(Action::Stop, true, false));
    assert!(!m.autoplay_due(Action::AutoPlay, true, false));
    assert!(!m.autoplay_due(Action::AutoPlay, true, true));
    assert!(!m.autoplay_due(Action::AutoPlay, true, false));
    // pausing restarts it
    assert!(!m.active(false, 3));
    assert!(!m.autoplay_due(Action::AutoPlay, true, false));
}
