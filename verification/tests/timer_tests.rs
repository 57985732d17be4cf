use numbers_game::timer::Timer;

#[test]
fn fresh_timer_is_idle() {
    let t = Timer::new(10);
    assert!(!t.is_active());
    assert!(!t.is_over(5_000));
    assert_eq!(t.remaining_ms(5_000), 0);
}

#[test]
fn start_does_not_run_before_activation() {
    let mut t = Timer::new(10);
    t.start(1_000);
    assert!(!t.is_active());
    assert!(!t.is_over(20_000));
}

#[test]
fn activation_respects_grace_delay() {
    let mut t = Timer::new(10);
    t.start(1_000);
    t.activate(1_100);
    assert!(!t.is_active());
    t.activate(1_101);
    assert!(t.is_active());
}

#[test]
fn expires_exactly_at_duration() {
    let mut t = Timer::new(10);
    t.start(1_000);
    t.activate(1_200);
    assert!(!t.is_over(10_999));
    assert!(t.is_over(11_000));
    assert_eq!(t.remaining_ms(6_000), 5_000);
}

#[test]
fn pause_resume_shifts_expiry_by_paused_interval() {
    // Duration 10 s, started at 1 s, paused after 2 s, resumed 2 s later:
    // the countdown must now expire at 1 + 10 + 2 = 13 s.
    let mut t = Timer::new(10);
    t.start(1_000);
    t.activate(1_200);
    t.pause(3_000);
    assert!(!t.is_active());
    t.resume(5_000);
    t.activate(5_200);
    assert!(t.is_active());
    assert!(!t.is_over(12_999));
    assert!(t.is_over(13_000));
}

#[test]
fn pause_is_idempotent() {
    let mut t = Timer::new(10);
    t.start(1_000);
    t.activate(1_200);
    t.pause(3_000);
    t.pause(4_000);
    t.resume(5_000);
    t.activate(5_200);
    // The second pause was a no-op, so the shift is still 2 s.
    assert!(!t.is_over(12_999));
    assert!(t.is_over(13_000));
}

#[test]
fn resume_without_pause_changes_nothing() {
    let mut t = Timer::new(10);
    t.start(1_000);
    t.activate(1_200);
    t.resume(5_000);
    assert!(!t.is_over(10_999));
    assert!(t.is_over(11_000));
}

#[test]
fn finish_stops_the_timer_for_good() {
    let mut t = Timer::new(10);
    t.start(1_000);
    t.activate(1_200);
    t.finish();
    assert!(!t.is_active());
    assert!(!t.is_over(1_000_000));
    assert_eq!(t.remaining_ms(1_000_000), 0);
}
