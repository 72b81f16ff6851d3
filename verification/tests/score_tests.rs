use rhythme::note::JudgeAccuracy;
use rhythme::score::{Combo, Scoreboard, TotalAccuracy};

#[test]
fn accuracy_of_a_perfect_run_is_full() {
    let mut acc = TotalAccuracy::new();
    acc.update(&Scoreboard { perfect: 7, great: 0, bad: 0, miss: 0 });
    assert_eq!(acc.centi_percent, 10000);
}

#[test]
fn accuracy_of_all_misses_is_zero() {
    let mut acc = TotalAccuracy::new();
    acc.update(&Scoreboard { perfect: 0, great: 0, bad: 0, miss: 9 });
    assert_eq!(acc.centi_percent, 0);
}

#[test]
fn accuracy_mixes_perfect_and_great() {
    let mut acc = TotalAccuracy::new();
    acc.update(&Scoreboard { perfect: 1, great: 1, bad: 0, miss: 0 });
    assert_eq!(acc.centi_percent, 9500);
    acc.update(&Scoreboard { perfect: 1, great: 1, bad: 0, miss: 2 });
    assert_eq!(acc.centi_percent, 4750);
}

#[test]
fn accuracy_ignores_bad_judgements() {
    let mut acc = TotalAccuracy::new();
    acc.update(&Scoreboard { perfect: 1, great: 0, bad: 5, miss: 0 });
    assert_eq!(acc.centi_percent, 10000);
}

#[test]
fn accuracy_holds_its_value_on_an_empty_scoreboard() {
    let mut acc = TotalAccuracy::new();
    acc.update(&Scoreboard { perfect: 2, great: 0, bad: 0, miss: 0 });
    assert_eq!(acc.centi_percent, 10000);
    acc.update(&Scoreboard { perfect: 0, great: 0, bad: 0, miss: 0 });
    assert_eq!(acc.centi_percent, 10000);
}

#[test]
fn accuracy_stays_within_bounds() {
    let mut acc = TotalAccuracy::new();
    let boards = [
        Scoreboard { perfect: 3, great: 5, bad: 0, miss: 11 },
        Scoreboard { perfect: 0, great: 1, bad: 2, miss: 0 },
        Scoreboard { perfect: u64::MAX, great: u64::MAX, bad: 0, miss: u64::MAX },
    ];
    for board in boards {
        acc.update(&board);
        assert!(acc.centi_percent <= 10000);
    }
}

#[test]
fn combo_counts_non_misses_and_resets_on_miss() {
    let mut combo = Combo::new();
    combo.apply_judgement(JudgeAccuracy::Perfect);
    combo.apply_judgement(JudgeAccuracy::Great);
    combo.apply_judgement(JudgeAccuracy::Bad);
    assert_eq!(combo.count, 3);
    combo.apply_judgement(JudgeAccuracy::Miss);
    assert_eq!(combo.count, 0);
    combo.apply_judgement(JudgeAccuracy::Perfect);
    assert_eq!(combo.count, 1);
}

#[test]
fn fresh_scoreboard_is_zeroed() {
    let score = Scoreboard::new();
    assert_eq!(score.perfect, 0);
    assert_eq!(score.great, 0);
    assert_eq!(score.bad, 0);
    assert_eq!(score.miss, 0);
}
