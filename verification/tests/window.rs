use floodgate::JumpingWindow;

#[test]
fn fresh_window_is_full() {
    let mut w = JumpingWindow::new(5, 10, 0);
    assert_eq!(w.tokens(0), 5);

    let mut z = JumpingWindow::new(0, 7, 3);
    assert_eq!(z.tokens(3), 0);
}

#[test]
fn burst_exhausts_capacity() {
    let mut w = JumpingWindow::new(3, 100, 0);
    assert_eq!(w.trigger(0), None);
    assert_eq!(w.trigger(0), None);
    assert_eq!(w.trigger(0), None);
    let wait = w.trigger(0);
    assert_eq!(wait, Some(100));
    assert!(wait.unwrap() > 0);
}

#[test]
fn zero_capacity_always_rejects() {
    let mut w = JumpingWindow::new(0, 10, 0);
    assert_eq!(w.trigger(0), Some(10));
    assert_eq!(w.trigger(5), Some(5));
}

#[test]
fn tokens_never_go_below_zero() {
    let mut w = JumpingWindow::new(2, 10, 0);
    for _ in 0..5 {
        w.trigger(1);
    }
    assert_eq!(w.tokens(1), 0);
}

#[test]
fn next_reset_saturates_at_zero() {
    let w = JumpingWindow::new(1, 10, 0);
    // Well within the window.
    assert_eq!(w.next_reset(4), 6);
    // Exactly at the boundary: the window is not yet expired.
    assert_eq!(w.next_reset(10), 0);
    // Strictly after expiry, with no reanchor in between: still zero.
    assert_eq!(w.next_reset(11), 0);
    assert_eq!(w.next_reset(1_000), 0);
}

#[test]
fn expiry_check_is_strict() {
    let mut w = JumpingWindow::new(2, 10, 0);
    w.trigger(0);
    // At exactly anchor + period the old window still stands.
    assert_eq!(w.tokens(10), 1);
    // One tick later it has expired and jumps to a fresh window.
    assert_eq!(w.tokens(11), 2);
    assert_eq!(w.last_reset, 11);
}

#[test]
fn full_again_one_period_after_rejection() {
    let mut w = JumpingWindow::new(1, 10, 0);
    assert_eq!(w.trigger(0), None);
    assert_eq!(w.trigger(0), Some(10));
    // Strictly more than one period later the window is fresh and full.
    assert_eq!(w.tokens(11), 1);
}

#[test]
fn retry_after_reports_wait_only_when_empty() {
    let mut w = JumpingWindow::new(1, 10, 0);
    assert_eq!(w.retry_after(0), None);
    w.trigger(0);
    assert_eq!(w.retry_after(4), Some(6));
}

#[test]
fn can_trigger_tracks_tokens() {
    let mut w = JumpingWindow::new(1, 10, 0);
    assert!(w.can_trigger(0));
    w.trigger(0);
    assert!(!w.can_trigger(0));
    // The lazy expiry check inside `can_trigger` refills the window.
    assert!(w.can_trigger(11));
}

#[test]
fn reset_refills_and_reanchors() {
    let mut w = JumpingWindow::new(2, 10, 0);
    w.trigger(3);
    w.trigger(3);
    assert!(!w.can_trigger(3));
    w.reset(3);
    assert!(w.can_trigger(3));
    assert_eq!(w.tokens(3), 2);
    assert_eq!(w.last_reset, 3);
}

#[test]
fn clock_regression_counts_as_no_elapsed_time() {
    let mut w = JumpingWindow::new(2, 10, 100);
    // Queried before its own anchor: no panic, no expiry, full wait left.
    assert_eq!(w.tokens(50), 2);
    assert_eq!(w.next_reset(50), 10);
    assert_eq!(w.trigger(50), None);
    assert_eq!(w.last_reset, 100);
}

#[test]
fn idle_windows_do_not_catch_up() {
    let mut w = JumpingWindow::new(1, 10, 0);
    w.trigger(0);
    // Idle for many periods, then accessed once: a single fresh window,
    // anchored at the access.
    assert_eq!(w.tokens(95), 1);
    assert_eq!(w.last_reset, 95);
    assert_eq!(w.next_reset(95), 10);
}

#[test]
fn burst_can_straddle_a_reanchor() {
    // A jumping window allows up to twice the capacity across a short span
    // that straddles a reanchor; this is inherent to the algorithm.
    let mut w = JumpingWindow::new(2, 10, 0);
    assert_eq!(w.trigger(9), None);
    assert_eq!(w.trigger(9), None);
    assert_eq!(w.trigger(9), Some(1));
    // One tick past expiry the window jumps, and a fresh burst is allowed.
    assert_eq!(w.trigger(11), None);
    assert_eq!(w.trigger(11), None);
    assert_eq!(w.last_reset, 11);
}

#[test]
fn scenario_two_per_ten_seconds() {
    let mut w = JumpingWindow::new(2, 10, 0);
    assert_eq!(w.trigger(0), None);
    assert_eq!(w.tokens, 1);
    assert_eq!(w.trigger(0), None);
    assert_eq!(w.tokens, 0);
    assert_eq!(w.trigger(0), Some(10));
    assert_eq!(w.tokens(11), 2);
}
