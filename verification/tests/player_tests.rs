use daydream::config::{make_video_item, VideoItem, VideoParams};
use daydream::player::{
    build_expanded_paths, mpv_args, plan_playback, rotate_entry, EventReader, PlayerError,
};

fn item(id: &str, path: &str, local: Option<u32>) -> VideoItem {
    let mut v = make_video_item(path.to_string(), id.to_string());
    v.local = local.map(|r| VideoParams { repeats: r, ..VideoParams::default() });
    v
}

fn global(repeats: u32) -> VideoParams {
    VideoParams { repeats, ..VideoParams::default() }
}

fn sample_items() -> Vec<VideoItem> {
    vec![item("a", "/v/a.mp4", Some(2)), item("b", "/v/b.mp4", Some(0)), item("c", "/v/c.mp4", None)]
}

#[test]
fn playlist_expansion() {
    let (paths, map) = build_expanded_paths(&sample_items(), &global(3));
    assert_eq!(paths, vec!["/v/a.mp4", "/v/a.mp4", "/v/b.mp4", "/v/c.mp4", "/v/c.mp4", "/v/c.mp4"]);
    assert_eq!(map, vec![0, 0, 1, 2, 2, 2]);
    let (p0, m0) = build_expanded_paths(&vec![], &global(3));
    assert!(p0.is_empty() && m0.is_empty());
}

#[test]
fn start_entry_of_item() {
    let map = vec![0usize, 0, 1, 2, 2, 2];
    assert_eq!(rotate_entry(&map, Some(2)), Some(3));
    assert_eq!(rotate_entry(&map, Some(0)), Some(0));
    assert_eq!(rotate_entry(&map, Some(5)), None);
    assert_eq!(rotate_entry(&map, None), None);
}

#[test]
fn mpv_command_line() {
    let paths = vec!["/v/a.mp4".to_string(), "/v/b.mp4".to_string()];
    let args = mpv_args(&paths, Some(13));
    assert_eq!(
        args,
        vec![
            "--input-ipc-server=/tmp/daydream-mpv.sock",
            "--fullscreen",
            "--no-border",
            "--vo=gpu-next",
            "--keep-open=yes",
            "--loop-playlist=inf",
            "--playlist-start=13",
            "/v/a.mp4",
            "/v/b.mp4",
        ]
    );
    let plain = mpv_args(&paths, None);
    assert_eq!(plain.len(), 8);
    assert_eq!(plain[6], "/v/a.mp4");
    let zero = mpv_args(&vec![], Some(0));
    assert_eq!(zero[6], "--playlist-start=0");
}

#[test]
fn playback_plan() {
    assert!(plan_playback(&vec![], &global(1), Some(0)).is_none());
    let plan = plan_playback(&sample_items(), &global(3), Some(2)).unwrap();
    assert_eq!(plan.entry_to_item, vec![0, 0, 1, 2, 2, 2]);
    assert_eq!(plan.start_entry, Some(3));
    assert_eq!(plan.baseline_item, 2);
    assert_eq!(plan.baseline_entry, 3);
    assert_eq!(plan.first_params.repeats, 2);
    assert_eq!(plan.args[6], "--playlist-start=3");
    let no_rotation = plan_playback(&sample_items(), &global(3), None).unwrap();
    assert_eq!(no_rotation.start_entry, None);
    assert_eq!(no_rotation.baseline_item, 0);
    assert_eq!(no_rotation.baseline_entry, 0);
}

#[test]
fn event_stream() {
    let items = sample_items();
    let map = vec![0usize, 0, 1, 2, 2, 2];
    let mut r = EventReader::new();

    let e = r.handle_line(r#"{"event":"end-file","reason":"eof"}"#, 1000, 0, &map, &items);
    assert!(e.transitioned);
    assert!(e.now_playing.is_none());

    let e = r.handle_line(r#"{"event":"start-file","playlist_entry_id":4}"#, 1100, 0, &map, &items);
    assert!(!e.transitioned);
    assert_eq!(r.last_entry_id, Some(4));
    assert_eq!(e.now_playing, Some((2, 3)));
    assert_eq!(e.last_played_id.as_deref(), Some("c"));

    let e = r.handle_line(r#"{"event":"playback-restart"}"#, 1200, 200, &map, &items);
    assert!(e.transitioned);
    assert_eq!(e.transition_at_ms, Some(1200));
    assert_eq!(e.startup_ms, Some(1000));
    assert_eq!(e.apply_params_of, Some(2));
    assert_eq!(e.now_playing, Some((2, 3)));

    let e = r.handle_line(r#"{"event":"playback-restart"}"#, 60_000, 200, &map, &items);
    assert_eq!(e.startup_ms, None);

    let e = r.handle_line("not json", 1300, 0, &map, &items);
    assert!(!e.transitioned);
    assert_eq!(r.last_entry_id, Some(4));

    let e = r.handle_line(r#"{"event":"start-file","playlist_entry_id":99}"#, 1400, 0, &map, &items);
    assert_eq!(r.last_entry_id, Some(99));
    assert!(e.now_playing.is_none());
    assert!(e.last_played_id.is_none());

    let e = r.handle_line(r#"{"event":"property-change","name":"pause"}"#, 1500, 0, &map, &items);
    assert!(!e.transitioned && e.now_playing.is_none());
}

#[test]
fn restart_before_any_start_uses_first_entry() {
    let items = sample_items();
    let map = vec![0usize, 0, 1, 2, 2, 2];
    let mut r = EventReader::new();
    let e = r.handle_line(r#"{"event":"playback-restart"}"#, 500, 0, &map, &items);
    assert_eq!(e.now_playing, Some((0, 0)));
    assert_eq!(e.last_played_id.as_deref(), Some("a"));
    assert_eq!(e.startup_ms, None);
}

#[test]
fn player_error_text_is_the_variant_name() {
    assert_eq!(PlayerError::NotRunning.message(), "NotRunning");
    assert_eq!(PlayerError::SocketTimeout.message(), "SocketTimeout");
    let e = std::io::Error::new(std::io::ErrorKind::Other, "x");
    assert_eq!(PlayerError::Spawn { source: e }.message(), "Spawn");
}
