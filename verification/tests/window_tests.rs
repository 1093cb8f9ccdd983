use daydream::window::{SlidingWin, WINDOW_SIZE};

fn filled(vals: &[u64]) -> SlidingWin {
    let mut w = SlidingWin::new();
    for v in vals {
        w.push(*v);
    }
    w
}

#[test]
fn empty_window_reports_zero() {
    let w = SlidingWin::new();
    assert_eq!(w.len(), 0);
    assert_eq!(w.p50(), 0);
    assert_eq!(w.p95(), 0);
    assert_eq!(w.p99(), 0);
}

#[test]
fn percentiles_of_one_to_ten() {
    let w = filled(&[1, 2, 3, 4, 5, 6, 7, 8, 9, 10]);
    assert_eq!(w.len(), 10);
    // round(0.5 * 9) = 5 (half rounds up), round(0.95 * 9) = 9, round(0.99 * 9) = 9
    assert_eq!(w.p50(), 6);
    assert_eq!(w.p95(), 10);
    assert_eq!(w.p99(), 10);
    assert_eq!(w.percentile(0), 1);
    assert_eq!(w.percentile(100), 10);
}

#[test]
fn percentiles_ignore_arrival_order() {
    let w = filled(&[5, 3, 9, 1]);
    assert_eq!(w.p50(), 5);
    assert_eq!(w.percentile(0), 1);
    assert_eq!(w.p99(), 9);
    let dup = filled(&[7, 7, 7, 2]);
    assert_eq!(dup.p50(), 7);
    assert_eq!(dup.percentile(0), 2);
}

#[test]
fn percentile_tie_rounds_up() {
    // n = 11: 0.95 * 10 = 9.5 rounds to 10
    let w = filled(&[0, 1, 2, 3, 4, 5, 6, 7, 8, 9, 10]);
    assert_eq!(w.p95(), 10);
    assert_eq!(w.p50(), 5);
}

#[test]
fn window_keeps_latest_values() {
    let mut w = SlidingWin::new();
    for v in 0..(WINDOW_SIZE as u64 + 50) {
        w.push(v);
    }
    assert_eq!(w.len(), WINDOW_SIZE);
    // the oldest 50 values were evicted
    assert_eq!(w.percentile(0), 50);
    assert_eq!(w.percentile(100), WINDOW_SIZE as u64 + 49);
}

#[test]
fn percentiles_are_monotone_on_example() {
    let w = filled(&[40, 10, 30, 20, 50, 60, 90, 80, 70]);
    assert!(w.p50() <= w.p95());
    assert!(w.p95() <= w.p99());
}

#[test]
fn percentile_above_hundred_is_clamped_to_the_largest() {
    let w = filled(&[4, 1, 3]);
    assert_eq!(w.percentile(150), 4);
    assert_eq!(w.percentile(1000), 4);
    assert_eq!(w.percentile(u64::MAX), 4);
    let e = SlidingWin::new();
    assert_eq!(e.percentile(1000), 0);
    assert_eq!(e.percentile(u64::MAX), 0);
}
