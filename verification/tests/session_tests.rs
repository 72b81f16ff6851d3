use rhythme::chart::load_chart;
use rhythme::clock::{PauseSignal, HOLD_MS};
use rhythme::judge::KeyEdges;
use rhythme::note::JudgeAccuracy;
use rhythme::session::{GameSession, TickInput, TickOutput};

fn idle() -> KeyEdges {
    KeyEdges { just_pressed: false, pressed: false, just_released: false }
}

fn tap() -> KeyEdges {
    KeyEdges { just_pressed: true, pressed: true, just_released: false }
}

fn held() -> KeyEdges {
    KeyEdges { just_pressed: false, pressed: true, just_released: false }
}

fn lift() -> KeyEdges {
    KeyEdges { just_pressed: false, pressed: false, just_released: true }
}

fn quiet(delta_ms: u64) -> TickInput {
    TickInput { delta_ms, keys: [idle(), idle(), idle(), idle()], pause_pressed: false }
}

fn on_lane(lane: usize, edges: KeyEdges, delta_ms: u64) -> TickInput {
    let mut keys = [idle(), idle(), idle(), idle()];
    keys[lane] = edges;
    TickInput { delta_ms, keys, pause_pressed: false }
}

fn session_for(text: &[u8]) -> GameSession {
    let mut session = GameSession::new(load_chart(text).unwrap());
    // Run off the whole countdown in one frame.
    session.tick(quiet(HOLD_MS));
    assert_eq!(session.clock.hold_remaining_ms, 0);
    assert_eq!(session.clock.elapsed_ms, 0);
    session
}

#[test]
fn short_note_hit_in_great_window() {
    // A press 70 ms early: inside the 90 ms great window, outside the
    // 41.67 ms perfect window.
    let mut session = session_for(b"0,Short,1000\n");
    let out: TickOutput = session.tick(on_lane(0, tap(), 930));
    assert_eq!(session.clock.elapsed_ms, 930);
    assert_eq!(session.score.great, 1);
    assert_eq!(session.score.perfect, 0);
    assert_eq!(session.score.miss, 0);
    assert!(session.active[0].is_empty());
    assert_eq!(session.combo.count, 1);
    assert_eq!(out.events.len(), 1);
    assert_eq!(out.events[0].judge, JudgeAccuracy::Great);
}

#[test]
fn short_note_hit_in_perfect_window() {
    let mut session = session_for(b"0,Short,1000\n");
    session.tick(on_lane(0, tap(), 980));
    assert_eq!(session.score.perfect, 1);
    assert!(session.active[0].is_empty());
    assert_eq!(session.combo.count, 1);
}

#[test]
fn short_note_times_out_as_miss() {
    // No press ever; once the clock passes 1.090 s the note is retired as a
    // miss.
    let mut session = session_for(b"0,Short,1000\n");
    session.tick(quiet(1090));
    assert_eq!(session.score.miss, 0);
    assert_eq!(session.active[0].len(), 1);
    session.tick(quiet(1));
    assert_eq!(session.clock.elapsed_ms, 1091);
    assert_eq!(session.score.miss, 1);
    assert!(session.active[0].is_empty());
    assert_eq!(session.combo.count, 0);
}

#[test]
fn long_note_perfect_attack_and_release() {
    // Press exactly at the start, release exactly at the end: two perfects
    // from the one note.
    let mut session = session_for(b"1,Long,2000,2500\n");
    session.tick(on_lane(1, tap(), 2000));
    assert_eq!(session.score.perfect, 1);
    assert_eq!(session.active[1].len(), 1);
    session.tick(on_lane(1, held(), 500));
    assert_eq!(session.score.perfect, 1);
    assert_eq!(session.active[1].len(), 1);
    session.tick(on_lane(1, lift(), 0));
    assert_eq!(session.score.perfect, 2);
    assert_eq!(session.score.great, 0);
    assert_eq!(session.score.miss, 0);
    assert!(session.active[1].is_empty());
}

#[test]
fn long_note_hold_pulses_feed_the_combo() {
    let mut session = session_for(b"1,Long,2000,2500\n");
    session.tick(on_lane(1, tap(), 2000));
    assert_eq!(session.combo.count, 1);
    // Holding for half a second crosses the 250 ms pulse period: the
    // recorded grade is re-emitted without touching the scoreboard.
    let out = session.tick(on_lane(1, held(), 500));
    assert_eq!(out.events.len(), 1);
    assert_eq!(out.events[0].judge, JudgeAccuracy::Perfect);
    assert_eq!(session.score.perfect, 1);
    assert_eq!(session.combo.count, 2);
}

#[test]
fn long_note_missed_attack_then_terminal_miss() {
    let mut session = session_for(b"0,Long,1000,1500\n");
    // Sail past the whole note without touching the key: one miss, at the
    // terminal fallback past the end window.
    session.tick(quiet(1590));
    assert_eq!(session.score.miss, 0);
    session.tick(quiet(1));
    assert_eq!(session.score.miss, 1);
    assert!(session.active[0].is_empty());
}

#[test]
fn long_note_late_press_records_bad_attack() {
    let mut session = session_for(b"0,Long,1000,2000\n");
    // Pressing 200 ms after the start window closed resolves the attack as
    // bad: a miss on the scoreboard, but the note stays on screen.
    session.tick(on_lane(0, tap(), 1300));
    assert_eq!(session.score.miss, 1);
    assert_eq!(session.active[0].len(), 1);
    assert!(session.active[0][0].note.missed);
    assert_eq!(session.combo.count, 0);
    // Releasing at the end still earns the release perfect.
    session.tick(on_lane(0, lift(), 700));
    assert_eq!(session.score.perfect, 1);
    assert!(session.active[0].is_empty());
}

#[test]
fn long_note_late_press_then_terminal_counts_twice() {
    let mut session = session_for(b"0,Long,1000,2000\n");
    // A late press records the bad attack; the abandoned body later runs
    // into the terminal fallback: two increments, never more.
    session.tick(on_lane(0, tap(), 1300));
    assert_eq!(session.score.miss, 1);
    session.tick(quiet(790));
    assert_eq!(session.score.miss, 1);
    session.tick(quiet(1));
    assert_eq!(session.score.miss, 2);
    assert!(session.active[0].is_empty());
    session.tick(quiet(5000));
    assert_eq!(session.score.perfect + session.score.great + session.score.miss, 2);
}

#[test]
fn long_note_early_release_is_a_miss() {
    let mut session = session_for(b"0,Long,1000,2000\n");
    session.tick(on_lane(0, tap(), 1000));
    assert_eq!(session.score.perfect, 1);
    // Letting go in the middle of the body retires the note as a miss.
    session.tick(on_lane(0, lift(), 500));
    assert_eq!(session.score.miss, 1);
    assert!(session.active[0].is_empty());
    assert_eq!(session.combo.count, 0);
    // The retired note cannot be missed a second time by the terminal
    // fallback: the whole note contributed exactly two judgements.
    session.tick(quiet(2000));
    assert_eq!(session.score.miss, 1);
    assert_eq!(session.score.perfect + session.score.great + session.score.miss, 2);
}

#[test]
fn nothing_happens_during_countdown() {
    let mut session = GameSession::new(load_chart(b"0,Short,100\n").unwrap());
    let out = session.tick(on_lane(0, tap(), 1000));
    assert_eq!(out.events.len(), 0);
    assert_eq!(session.clock.hold_remaining_ms, HOLD_MS - 1000);
    assert!(session.active[0].is_empty());
    assert_eq!(session.chart.lanes[0].len(), 1);
    assert_eq!(session.score.perfect + session.score.great + session.score.miss, 0);
}

#[test]
fn pause_freezes_judgement_and_spawning() {
    let mut session = session_for(b"0,Short,1000\n");
    session.tick(quiet(560));
    assert_eq!(session.active[0].len(), 1);
    let paused = session.tick(TickInput {
        delta_ms: 0,
        keys: [idle(), idle(), idle(), idle()],
        pause_pressed: true,
    });
    assert_eq!(paused.pause, PauseSignal::JustPaused);
    // A whole minute passes and the key is hammered: the frozen clock keeps
    // every judgement at bay.
    let out = session.tick(on_lane(0, tap(), 60000));
    assert_eq!(out.events.len(), 0);
    assert_eq!(session.clock.elapsed_ms, 560);
    assert_eq!(session.active[0].len(), 1);
    let resumed = session.tick(TickInput {
        delta_ms: 0,
        keys: [idle(), idle(), idle(), idle()],
        pause_pressed: true,
    });
    assert_eq!(resumed.pause, PauseSignal::JustResumed);
    session.tick(on_lane(0, tap(), 440));
    assert_eq!(session.clock.elapsed_ms, 1000);
    assert_eq!(session.score.perfect, 1);
}

#[test]
fn backlight_follows_key_edges() {
    let mut session = session_for(b"0,Short,1000\n");
    session.tick(on_lane(2, tap(), 10));
    assert!(session.backlight[2]);
    assert!(!session.backlight[0]);
    session.tick(on_lane(2, held(), 10));
    assert!(session.backlight[2]);
    session.tick(on_lane(2, lift(), 10));
    assert!(!session.backlight[2]);
}

#[test]
fn accuracy_readout_follows_the_formula() {
    let mut session = session_for(b"0,Short,1000\n1,Short,2000\n");
    assert_eq!(session.accuracy.centi_percent, 0);
    session.tick(on_lane(0, tap(), 1000));
    assert_eq!(session.accuracy.centi_percent, 10000);
    session.tick(on_lane(1, tap(), 930));
    // One perfect and one great: (10000 + 9000) / 2.
    assert_eq!(session.accuracy.centi_percent, 9500);
}

#[test]
fn two_notes_on_one_lane_resolve_one_per_press() {
    let mut session = session_for(b"0,Short,600\n0,Short,650\n");
    session.tick(on_lane(0, tap(), 600));
    assert_eq!(session.score.perfect, 1);
    assert!(session.active[0].is_empty());
    assert_eq!(session.chart.lanes[0].len(), 1);
    session.tick(on_lane(0, tap(), 50));
    assert_eq!(session.score.perfect, 2);
    assert!(session.active[0].is_empty());
    assert_eq!(session.combo.count, 2);
}
