use daydream::idle::{
    parse_mutter, parse_session_idle, parse_session_list, parse_xprintidle, IdleDetector,
    IdleError, IdleSample,
};

fn sample(idle_ms: u64, method: &'static str) -> IdleSample {
    IdleSample { idle_ms, method, latency_us: 10 }
}

#[test]
fn timed_turns_outcomes_into_samples() {
    let s = IdleDetector::timed("xprintidle", Ok(1234), 55).unwrap();
    assert_eq!(s.idle_ms, 1234);
    assert_eq!(s.method, "xprintidle");
    assert_eq!(s.latency_us, 55);
    assert!(IdleDetector::timed("loginctl", Err(IdleError::Parse), 55).is_none());
}

#[test]
fn combined_reading_is_the_largest() {
    let r = IdleDetector::idle_ms(Some(sample(500, "xprintidle")), None, Some(sample(800, "loginctl")), 99)
        .unwrap();
    assert_eq!(r.idle_ms, 800);
    assert_eq!(r.samples.len(), 2);
    assert_eq!(r.samples[0].method, "xprintidle");
    assert_eq!(r.samples[1].method, "loginctl");
    assert_eq!(r.total_latency_us, 99);
    let single = IdleDetector::idle_ms(None, Some(sample(0, "gnome-mutter")), None, 1).unwrap();
    assert_eq!(single.idle_ms, 0);
}

#[test]
fn no_reporter_means_no_method() {
    let r = IdleDetector::idle_ms(None, None, None, 5);
    assert!(matches!(r, Err(IdleError::NoMethod)));
}

#[test]
fn xprintidle_output() {
    assert_eq!(parse_xprintidle(true, "  1234\n").unwrap(), 1234);
    assert_eq!(parse_xprintidle(true, "+12").unwrap(), 12);
    assert!(matches!(parse_xprintidle(true, "abc"), Err(IdleError::Parse)));
    assert!(matches!(parse_xprintidle(true, ""), Err(IdleError::Parse)));
    assert!(matches!(parse_xprintidle(true, "12 34"), Err(IdleError::Parse)));
    assert!(matches!(parse_xprintidle(true, "18446744073709551616"), Err(IdleError::Parse)));
    assert_eq!(parse_xprintidle(true, "18446744073709551615").unwrap(), u64::MAX);
    assert!(matches!(parse_xprintidle(false, "1234"), Err(IdleError::NoMethod)));
}

#[test]
fn mutter_reply() {
    let reply = "method return time=1700000000.123 sender=:1.12 -> destination=:1.200 serial=1234 reply_serial=2\n   uint64 5678\n";
    assert_eq!(parse_mutter(true, reply).unwrap(), 5678);
    assert!(matches!(parse_mutter(true, "no numbers here"), Err(IdleError::Parse)));
    assert!(matches!(parse_mutter(false, "uint64 1"), Err(IdleError::NoMethod)));
}

#[test]
fn loginctl_session_listing() {
    let listing = "     2   1000 alice seat0 tty2\n     5   1001 bob   -     -\n";
    assert_eq!(parse_session_list(true, listing).unwrap(), "2");
    assert!(matches!(parse_session_list(true, ""), Err(IdleError::NoMethod)));
    assert!(matches!(parse_session_list(true, "\nc3 1000"), Err(IdleError::NoMethod)));
    assert!(matches!(parse_session_list(false, listing), Err(IdleError::NoMethod)));
}

#[test]
fn loginctl_idle_hint() {
    assert_eq!(parse_session_idle(true, "IdleSinceHint=0\n", 5_000_000).unwrap(), 0);
    assert_eq!(parse_session_idle(true, "IdleSinceHint=\n", 5_000_000).unwrap(), 0);
    assert_eq!(parse_session_idle(true, "IdleSinceHint=1000000\n", 3_000_000).unwrap(), 2000);
    assert_eq!(parse_session_idle(true, "IdleSinceHint=9000000\n", 3_000_000).unwrap(), 0);
    assert!(matches!(parse_session_idle(true, "Foo=1\n", 3), Err(IdleError::Parse)));
    assert!(matches!(parse_session_idle(true, "IdleSinceHint=abc", 3), Err(IdleError::Parse)));
    assert!(matches!(parse_session_idle(false, "IdleSinceHint=0", 3), Err(IdleError::NoMethod)));
}
