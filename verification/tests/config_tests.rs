use daydream::config::{
    add_videos, filename_of, remember_last_played, get_config, make_video_item, remove_video, reorder_videos,
    toggle_idle_enabled, update_global_settings, update_video_params, AddVideosError, AppConfig,
    GlobalSettings, VideoItem, VideoParams, DEFAULT_SPEED_BITS, DEFAULT_VOLUME_BITS,
};

fn item(id: &str, path: &str) -> VideoItem {
    make_video_item(path.to_string(), id.to_string())
}

fn config_with(items: Vec<VideoItem>) -> AppConfig {
    let mut c = AppConfig::default();
    c.videos = items;
    c
}

fn ids(c: &AppConfig) -> Vec<String> {
    c.videos.iter().map(|v| v.id.clone()).collect()
}

#[test]
fn defaults() {
    let p = VideoParams::default();
    assert_eq!(p.repeats, 1);
    assert_eq!(f64::from_bits(p.speed_bits), 1.0);
    assert_eq!(f64::from_bits(p.volume_bits), 100.0);
    assert_eq!(p.speed_bits, DEFAULT_SPEED_BITS);
    assert_eq!(p.volume_bits, DEFAULT_VOLUME_BITS);
    let g = GlobalSettings::default();
    assert_eq!(g.idle_timeout_seconds, 120);
    assert!(!g.idle_enabled);
    assert!(g.autoplay_on_idle);
    assert!(!g.start_on_boot);
    assert!(g.last_played_id.is_none());
    assert!(AppConfig::default().videos.is_empty());
}

#[test]
fn file_names() {
    assert_eq!(filename_of(&"/home/u/a.mp4".to_string()), "a.mp4");
    assert_eq!(filename_of(&"clip.mkv".to_string()), "clip.mkv");
    assert_eq!(filename_of(&"a//b//".to_string()), "b");
    assert_eq!(filename_of(&"dir/file.txt/.".to_string()), "file.txt");
    assert_eq!(filename_of(&"/".to_string()), "/");
    assert_eq!(filename_of(&"foo/..".to_string()), "foo/..");
    assert_eq!(filename_of(&"".to_string()), "");
    assert_eq!(filename_of(&"/v/ünï cödé.mp4".to_string()), "ünï cödé.mp4");
}

fn random_bytes(n: usize) -> Vec<u8> {
    (0..n).map(|i| (i * 37 + 11) as u8).collect()
}

fn expected_id(bytes: &[u8]) -> String {
    let mut arr = [0u8; 16];
    arr.copy_from_slice(bytes);
    uuid::Builder::from_random_bytes(arr).into_uuid().to_string()
}

#[test]
fn add_videos_skips_paths_already_in_the_loop() {
    let mut c = config_with(vec![item("id-a", "/v/a.mp4")]);
    let paths = vec!["/v/a.mp4".to_string(), "/v/b.mkv".to_string(), "/v/b.mkv".to_string()];
    let random = random_bytes(48);
    let r = add_videos(&mut c, &paths, &random).unwrap();
    assert_eq!(r.added, 2);
    assert_eq!(r.duplicates, 1);
    assert_eq!(r.items.len(), 2);
    for (i, it) in r.items.iter().enumerate() {
        assert_eq!(it.path, "/v/b.mkv");
        assert_eq!(it.filename, "b.mkv");
        assert!(it.local.is_none());
        assert_eq!(it.id, expected_id(&random[16 * i..16 * i + 16]));
        assert_eq!(it.id.len(), 36);
        assert_eq!(&it.id[14..15], "4");
    }
    assert_ne!(r.items[0].id, r.items[1].id);
    assert_eq!(c.videos.len(), 3);
    assert_eq!(c.videos[0].id, "id-a");
    assert_eq!(c.videos[1].id, r.items[0].id);
}

#[test]
fn add_videos_id_from_known_bytes() {
    let mut c = AppConfig::default();
    let random: Vec<u8> = (0u8..16).collect();
    let r = add_videos(&mut c, &vec!["/v/x.mp4".to_string()], &random).unwrap();
    // byte 6 gets version 4, byte 8 gets the RFC 4122 variant
    assert_eq!(r.items[0].id, "00010203-0405-4607-8809-0a0b0c0d0e0f");
    let all_ff = vec![0xffu8; 16];
    let mut c = AppConfig::default();
    let r = add_videos(&mut c, &vec!["/v/y.mp4".to_string()], &all_ff).unwrap();
    assert_eq!(r.items[0].id, "ffffffff-ffff-4fff-bfff-ffffffffffff");
}

#[test]
fn add_videos_without_enough_random_bytes() {
    let mut c = config_with(vec![item("id-a", "/v/a.mp4")]);
    let paths = vec!["/v/b.mp4".to_string(), "/v/c.mp4".to_string()];
    let r = add_videos(&mut c, &paths, &random_bytes(31));
    assert_eq!(r.unwrap_err(), AddVideosError::NotEnoughRandomBytes);
    assert_eq!(ids(&c), vec!["id-a"]);
    let r = add_videos(&mut c, &paths, &Vec::new());
    assert_eq!(r.unwrap_err(), AddVideosError::NotEnoughRandomBytes);
    assert_eq!(c.videos.len(), 1);
}

#[test]
fn add_nothing_new() {
    let mut c = config_with(vec![item("id-a", "/v/a.mp4")]);
    let r = add_videos(&mut c, &vec!["/v/a.mp4".to_string()], &Vec::new()).unwrap();
    assert_eq!(r.added, 0);
    assert_eq!(r.duplicates, 1);
    assert!(r.items.is_empty());
    assert_eq!(c.videos.len(), 1);
}

#[test]
fn remove_by_id() {
    let mut c = config_with(vec![item("a", "/1"), item("b", "/2"), item("a", "/3"), item("c", "/4")]);
    remove_video(&mut c, &"a".to_string());
    assert_eq!(ids(&c), vec!["b", "c"]);
    remove_video(&mut c, &"zzz".to_string());
    assert_eq!(ids(&c), vec!["b", "c"]);
}

#[test]
fn reorder_follows_ids() {
    let mut c = config_with(vec![item("a", "/1"), item("b", "/2"), item("c", "/3")]);
    reorder_videos(&mut c, &vec!["c".to_string(), "missing".to_string(), "a".to_string()]);
    assert_eq!(ids(&c), vec!["c", "a"]);
    assert_eq!(c.videos[0].path, "/3");
}

#[test]
fn update_params_of_first_match_only() {
    let mut c = config_with(vec![item("a", "/1"), item("a", "/2")]);
    let p = VideoParams { repeats: 3, speed_bits: 2.0f64.to_bits(), volume_bits: 50.0f64.to_bits() };
    update_video_params(&mut c, &"a".to_string(), Some(p));
    assert_eq!(c.videos[0].local, Some(p));
    assert_eq!(c.videos[1].local, None);
    update_video_params(&mut c, &"a".to_string(), None);
    assert_eq!(c.videos[0].local, None);
    update_video_params(&mut c, &"nope".to_string(), Some(p));
    assert_eq!(c.videos[0].local, None);
}

#[test]
fn global_settings_and_toggle() {
    let mut c = config_with(vec![item("a", "/1")]);
    let mut g = GlobalSettings::default();
    g.idle_timeout_seconds = 30;
    update_global_settings(&mut c, g);
    assert_eq!(c.global.idle_timeout_seconds, 30);
    assert_eq!(c.videos.len(), 1);
    assert!(toggle_idle_enabled(&mut c.global));
    assert!(!toggle_idle_enabled(&mut c.global));
    let copy = get_config(&c);
    assert_eq!(copy.global.idle_timeout_seconds, 30);
    assert_eq!(copy.videos.len(), 1);
}

#[test]
fn last_played_is_remembered_only_when_known() {
    let mut g = GlobalSettings::default();
    g.last_played_id = Some("old".to_string());
    remember_last_played(&mut g, None);
    assert_eq!(g.last_played_id.as_deref(), Some("old"));
    remember_last_played(&mut g, Some("new".to_string()));
    assert_eq!(g.last_played_id.as_deref(), Some("new"));
    assert!(g.autoplay_on_idle);
}
