use rhythme::indicator::{indicator_for, update_indicators, JudgeIndicator, INDICATOR_MS};
use rhythme::judge::JudgeEvent;
use rhythme::note::{JudgeAccuracy, Press4Key};
use rhythme::track::{MainTrackState, TrackAction};

#[test]
fn first_event_of_a_frame_spawns_an_indicator() {
    let events = vec![
        JudgeEvent { lane: Press4Key::First, judge: JudgeAccuracy::Great },
        JudgeEvent { lane: Press4Key::Second, judge: JudgeAccuracy::Miss },
    ];
    let ind = indicator_for(&events).unwrap();
    assert_eq!(ind.judge, JudgeAccuracy::Great);
    assert_eq!(ind.age_ms, 0);
    assert_eq!(ind.scale_centi, 100);
    assert!(indicator_for(&Vec::new()).is_none());
}

#[test]
fn indicator_shrinks_only_while_young() {
    let ind = JudgeIndicator { judge: JudgeAccuracy::Perfect, age_ms: 0, scale_centi: 100 };
    let after = update_indicators(vec![ind], 16);
    assert_eq!(after.len(), 1);
    assert_eq!(after[0].age_ms, 16);
    assert_eq!(after[0].scale_centi, 98);
    // Past the shrink phase the scale freezes.
    let old = JudgeIndicator { judge: JudgeAccuracy::Perfect, age_ms: 200, scale_centi: 90 };
    let later = update_indicators(vec![old], 16);
    assert_eq!(later[0].scale_centi, 90);
}

#[test]
fn indicator_leaves_when_its_time_is_up() {
    let ind = JudgeIndicator { judge: JudgeAccuracy::Miss, age_ms: INDICATOR_MS - 1, scale_centi: 70 };
    assert_eq!(update_indicators(vec![ind], 1).len(), 0);
    let still = JudgeIndicator { judge: JudgeAccuracy::Miss, age_ms: INDICATOR_MS - 2, scale_centi: 70 };
    assert_eq!(update_indicators(vec![still], 1).len(), 1);
}

#[test]
fn crowded_indicators_thin_back_to_one() {
    let a = JudgeIndicator { judge: JudgeAccuracy::Perfect, age_ms: 400, scale_centi: 70 };
    let b = JudgeIndicator { judge: JudgeAccuracy::Great, age_ms: 0, scale_centi: 100 };
    let after = update_indicators(vec![a, b], 16);
    assert_eq!(after.len(), 1);
    assert_eq!(after[0].judge, JudgeAccuracy::Great);
}

#[test]
fn track_starts_once_and_follows_pauses() {
    let mut track = MainTrackState::new();
    assert_eq!(track.step(0, false), TrackAction::Nothing);
    assert_eq!(track.step(16, false), TrackAction::StartPlaying);
    assert_eq!(track.step(32, false), TrackAction::Nothing);
    assert_eq!(track.step(32, true), TrackAction::PauseTrack);
    assert_eq!(track.step(32, true), TrackAction::Nothing);
    assert_eq!(track.step(48, false), TrackAction::ResumeTrack);
    assert_eq!(track.step(64, false), TrackAction::Nothing);
}
