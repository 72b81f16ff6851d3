use rhythme::chart::load_chart;
use rhythme::note::{JudgeAccuracy, NoteType, Press4Key, NOTE_SPEED_CENTI};
use rhythme::parse::{format_short_line, parse_note_line, parse_u64, ParseError};

#[test]
fn parses_short_line() {
    let note = parse_note_line(b"0,Short,1000").unwrap();
    assert_eq!(note.press_key, Press4Key::First);
    assert_eq!(note.note_type, NoteType::Short);
    assert_eq!(note.timing, 1000);
    assert_eq!(note.release_timing, 1000);
    assert!(!note.pushed);
    assert!(!note.missed);
    assert_eq!(note.judge, JudgeAccuracy::Pending);
    assert_eq!(note.speed_centi, NOTE_SPEED_CENTI);
}

#[test]
fn parses_long_line() {
    let note = parse_note_line(b"1,Long,2000,2500").unwrap();
    assert_eq!(note.press_key, Press4Key::Second);
    assert_eq!(note.note_type, NoteType::Long);
    assert_eq!(note.timing, 2000);
    assert_eq!(note.release_timing, 2500);
}

#[test]
fn parses_every_lane() {
    assert_eq!(parse_note_line(b"0,Short,1").unwrap().press_key, Press4Key::First);
    assert_eq!(parse_note_line(b"1,Short,1").unwrap().press_key, Press4Key::Second);
    assert_eq!(parse_note_line(b"2,Short,1").unwrap().press_key, Press4Key::Third);
    assert_eq!(parse_note_line(b"3,Short,1").unwrap().press_key, Press4Key::Fourth);
}

#[test]
fn rejects_unknown_lane() {
    assert_eq!(parse_note_line(b"4,Short,1000"), Err(ParseError::UnknownLane));
}

#[test]
fn rejects_unknown_kind() {
    assert_eq!(parse_note_line(b"0,Medium,1000"), Err(ParseError::UnknownKind));
}

#[test]
fn rejects_non_numeric_fields() {
    assert_eq!(parse_note_line(b"x,Short,1000"), Err(ParseError::BadNumber));
    assert_eq!(parse_note_line(b"0,Short,10a0"), Err(ParseError::BadNumber));
    assert_eq!(parse_note_line(b"0,Short,"), Err(ParseError::BadNumber));
    assert_eq!(parse_note_line(b"0,Long,1000,99999999999999999999"), Err(ParseError::BadNumber));
}

#[test]
fn rejects_short_lines() {
    assert_eq!(parse_note_line(b""), Err(ParseError::MalformedLine));
    assert_eq!(parse_note_line(b"0,Short"), Err(ParseError::MalformedLine));
    assert_eq!(parse_note_line(b"0,Long,1000"), Err(ParseError::MalformedLine));
}

#[test]
fn rejects_inverted_long_note() {
    assert_eq!(parse_note_line(b"0,Long,2500,2000"), Err(ParseError::InvertedTiming));
}

#[test]
fn ignores_extra_fields() {
    let note = parse_note_line(b"0,Short,1000,250").unwrap();
    assert_eq!(note.release_timing, 1000);
    let long = parse_note_line(b"0,Long,1000,2000,junk").unwrap();
    assert_eq!(long.release_timing, 2000);
}

#[test]
fn parses_u64_digits() {
    assert_eq!(parse_u64(b"0"), Some(0));
    assert_eq!(parse_u64(b"18446744073709551615"), Some(u64::MAX));
    assert_eq!(parse_u64(b"18446744073709551616"), None);
    assert_eq!(parse_u64(b""), None);
    assert_eq!(parse_u64(b"1 2"), None);
}

#[test]
fn short_line_round_trips() {
    let line = format_short_line(Press4Key::Third, 1000);
    assert_eq!(line, b"2,Short,1000".to_vec());
    let note = parse_note_line(&line).unwrap();
    assert_eq!(note, parse_note_line(b"2,Short,1000").unwrap());
    assert_eq!(note.timing, 1000);
    assert_eq!(note.press_key, Press4Key::Third);
}

#[test]
fn loads_and_sorts_per_lane() {
    let text = b"0,Short,3000\n0,Short,1000\n1,Long,500,900\n0,Short,2000\n";
    let chart = load_chart(text).unwrap();
    let lane0: Vec<u64> = chart.lanes[0].iter().map(|n| n.timing).collect();
    assert_eq!(lane0, vec![1000, 2000, 3000]);
    assert_eq!(chart.lanes[1].len(), 1);
    assert_eq!(chart.lanes[1][0].release_timing, 900);
    assert!(chart.lanes[2].is_empty());
    assert!(chart.lanes[3].is_empty());
}

#[test]
fn load_is_deterministic() {
    let text = b"0,Short,3000\n3,Long,100,200\n0,Short,3000\n0,Short,10\n";
    let first = load_chart(text).unwrap();
    let second = load_chart(text).unwrap();
    assert_eq!(first, second);
}

#[test]
fn load_accepts_missing_final_newline() {
    let chart = load_chart(b"0,Short,1000\n1,Short,2000").unwrap();
    assert_eq!(chart.lanes[0].len(), 1);
    assert_eq!(chart.lanes[1].len(), 1);
}

#[test]
fn load_aborts_on_first_bad_line() {
    let text = b"0,Short,1000\noops\n4,Short,1\n";
    assert_eq!(load_chart(text).unwrap_err(), ParseError::MalformedLine);
    let text2 = b"0,Short,1000\n\n1,Short,2000\n";
    assert_eq!(load_chart(text2).unwrap_err(), ParseError::MalformedLine);
}

#[test]
fn load_of_empty_text_is_empty_chart() {
    let chart = load_chart(b"").unwrap();
    assert!(chart.lanes.iter().all(|lane| lane.is_empty()));
}
