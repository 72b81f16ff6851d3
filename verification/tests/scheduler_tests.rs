use rhythme::judge::ActiveNote;
use rhythme::note::{velocity_milli, JudgeAccuracy, Note, NoteType, Press4Key, NOTE_SPEED_CENTI};
use rhythme::scheduler::{body_center_milli, body_scale_milli, note_position_milli, should_spawn};

fn short_note(timing: u64) -> Note {
    Note {
        note_type: NoteType::Short,
        press_key: Press4Key::First,
        timing,
        release_timing: timing,
        pushed: false,
        missed: false,
        speed_centi: NOTE_SPEED_CENTI,
        judge: JudgeAccuracy::Pending,
    }
}

fn long_note(timing: u64, release: u64) -> Note {
    Note {
        note_type: NoteType::Long,
        press_key: Press4Key::First,
        timing,
        release_timing: release,
        pushed: false,
        missed: false,
        speed_centi: NOTE_SPEED_CENTI,
        judge: JudgeAccuracy::Pending,
    }
}

#[test]
fn standard_velocity_in_milliunits() {
    assert_eq!(velocity_milli(NOTE_SPEED_CENTI), 1740);
    assert_eq!(velocity_milli(100), 100);
    assert_eq!(velocity_milli(0), 0);
}

#[test]
fn position_runs_down_to_the_judge_line() {
    let note = short_note(1000);
    // One second before its time the head sits a full travel above the line.
    assert_eq!(note_position_milli(&note, 0), -250_000 + 1000 * 1740);
    // At its time the head sits exactly on the judge line.
    assert_eq!(note_position_milli(&note, 1000), -250_000);
    // Past its time it keeps falling.
    assert_eq!(note_position_milli(&note, 1100), -250_000 - 100 * 1740);
}

#[test]
fn spawn_threshold_boundary() {
    let note = short_note(1000);
    // 449 ms of approach puts the head just above the threshold, 448 ms just
    // below it.
    assert!(!should_spawn(&note, 551));
    assert!(should_spawn(&note, 552));
    assert!(should_spawn(&note, 1000));
}

#[test]
fn long_note_geometry_at_spawn() {
    let an = ActiveNote { note: long_note(2000, 2500), held_ms: 0 };
    // Body spans half a second of travel; the centre sits half a span above
    // the head, and the scale stretches over the span.
    assert_eq!(body_center_milli(&an, 2000), -250_000 + 870_000 / 2);
    assert_eq!(body_scale_milli(&an, 2000), 1000 + 870_000 / 30);
}

#[test]
fn long_note_shrinks_while_held() {
    let finished = ActiveNote { note: long_note(2000, 2500), held_ms: 500 };
    // A fully-held body has consumed its whole span: scale is back to one
    // and the centre meets the head.
    assert_eq!(body_scale_milli(&finished, 2500), 1000);
    assert_eq!(
        body_center_milli(&finished, 2500),
        note_position_milli(&finished.note, 2500)
    );
}

#[test]
fn short_note_keeps_unit_scale() {
    let an = ActiveNote { note: short_note(1000), held_ms: 0 };
    assert_eq!(body_scale_milli(&an, 500), 1000);
    assert_eq!(body_center_milli(&an, 500), note_position_milli(&an.note, 500));
}
