use rhythme::clock::{Clock, LaneHoldTimer, PauseSignal, HOLD_MS, MAX_MUSIC_MS};

#[test]
fn countdown_gates_the_song_clock() {
    let mut clock = Clock::new();
    assert_eq!(clock.hold_remaining_ms, HOLD_MS);
    clock.tick(1000);
    assert_eq!(clock.hold_remaining_ms, HOLD_MS - 1000);
    assert_eq!(clock.elapsed_ms, 0);
    clock.tick(5000);
    assert_eq!(clock.hold_remaining_ms, 0);
    assert_eq!(clock.elapsed_ms, 0);
    clock.tick(16);
    assert_eq!(clock.elapsed_ms, 16);
}

#[test]
fn toggle_during_countdown_does_nothing() {
    let mut clock = Clock::new();
    assert_eq!(clock.toggle_pause(), PauseSignal::Unchanged);
    assert!(!clock.paused);
}

#[test]
fn pause_freezes_and_resume_continues() {
    let mut clock = Clock::new();
    clock.tick(HOLD_MS);
    clock.tick(100);
    assert_eq!(clock.elapsed_ms, 100);
    assert_eq!(clock.toggle_pause(), PauseSignal::JustPaused);
    clock.tick(100000);
    clock.tick(250);
    assert_eq!(clock.elapsed_ms, 100);
    assert_eq!(clock.toggle_pause(), PauseSignal::JustResumed);
    clock.tick(50);
    assert_eq!(clock.elapsed_ms, 150);
}

#[test]
fn paused_run_matches_unpaused_run_of_same_song_time() {
    // The same played frames, with a long pause spliced into one of the
    // runs: total elapsed song time is identical.
    let mut plain = Clock::new();
    plain.tick(HOLD_MS);
    plain.tick(40);
    plain.tick(60);

    let mut paused = Clock::new();
    paused.tick(HOLD_MS);
    paused.tick(40);
    paused.toggle_pause();
    paused.tick(123456);
    paused.toggle_pause();
    paused.tick(60);

    assert_eq!(plain.elapsed_ms, paused.elapsed_ms);
}

#[test]
fn song_clock_saturates_at_the_maximum() {
    let mut clock = Clock::new();
    clock.tick(HOLD_MS);
    clock.tick(MAX_MUSIC_MS);
    clock.tick(10);
    assert_eq!(clock.elapsed_ms, MAX_MUSIC_MS);
}

#[test]
fn hold_timer_pulses_each_period() {
    let mut timer = LaneHoldTimer::new();
    assert!(!timer.tick(100));
    assert!(!timer.tick(100));
    assert!(timer.tick(100));
    assert_eq!(timer.since_pulse_ms, 50);
    assert!(timer.tick(600));
    assert_eq!(timer.since_pulse_ms, 150);
    timer.reset();
    assert_eq!(timer.since_pulse_ms, 0);
}
