use rhythme::note::{beyond_window, in_window, GREAT_WINDOW_CS, PERFECT_WINDOW_CS};

#[test]
fn perfect_window_boundary_is_41_67_ms() {
    // 41 ms off is inside the 41.67 ms perfect window, 42 ms is outside.
    assert!(in_window(1000, 959, PERFECT_WINDOW_CS));
    assert!(in_window(1000, 1041, PERFECT_WINDOW_CS));
    assert!(!in_window(1000, 958, PERFECT_WINDOW_CS));
    assert!(!in_window(1000, 1042, PERFECT_WINDOW_CS));
}

#[test]
fn great_window_boundary_is_90_ms() {
    assert!(in_window(1000, 910, GREAT_WINDOW_CS));
    assert!(in_window(1000, 1090, GREAT_WINDOW_CS));
    assert!(!in_window(1000, 909, GREAT_WINDOW_CS));
    assert!(!in_window(1000, 1091, GREAT_WINDOW_CS));
}

#[test]
fn windows_are_symmetric_around_the_reference() {
    assert!(in_window(50, 0, GREAT_WINDOW_CS));
    assert!(!in_window(100, 0, GREAT_WINDOW_CS));
    assert!(in_window(0, 0, PERFECT_WINDOW_CS));
}

#[test]
fn miss_fallback_opens_just_past_the_great_window() {
    assert!(!beyond_window(1000, 1090, GREAT_WINDOW_CS));
    assert!(beyond_window(1000, 1091, GREAT_WINDOW_CS));
    // Early times are never past the window.
    assert!(!beyond_window(1000, 0, GREAT_WINDOW_CS));
}
