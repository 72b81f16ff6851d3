//! Notes, lanes, judgement grades, and the timing-window arithmetic.
//!
//! All times are integer milliseconds from song start. Screen distances are
//! kept in milliunits (one thousandth of a screen unit) and per-note speed
//! multipliers in hundredths, so every computation is exact integer
//! arithmetic. Judgement windows are kept in hundredths of a millisecond,
//! which represents the 41.67 ms perfect window exactly.

use vstd::prelude::*;

verus! {

/// Screen units travelled per second by a note with speed multiplier 1.00.
pub const STANDARD_NOTE_SPEED: u64 = 100;

/// Speed multiplier, in hundredths, given to every parsed note.
pub const NOTE_SPEED_CENTI: u32 = 1740;

/// Height of the judgement line, in milliunits.
pub const JUDGE_LINE_MILLI: i64 = -250000;

/// A note is materialized once its head would sit at or below this height,
/// in milliunits.
pub const SPAWN_THRESHOLD_MILLI: i64 = 530000;

/// Half-width of the perfect window, in hundredths of a millisecond
/// (41.67 ms on each side of the reference time).
pub const PERFECT_WINDOW_CS: u64 = 4167;

/// Half-width of the great window, in hundredths of a millisecond
/// (90 ms on each side of the reference time). The miss fallback closes
/// this long after the reference time.
pub const GREAT_WINDOW_CS: u64 = 9000;

/// The four lanes, each bound to one key.
#[derive(Debug, Clone, Copy, PartialEq, Eq, Structural)]
pub enum Press4Key {
    First,
    Second,
    Third,
    Fourth,
}

/// Tap notes are `Short`; press-and-hold notes are `Long`.
#[derive(Debug, Clone, Copy, PartialEq, Eq, Structural)]
pub enum NoteType {
    Long,
    Short,
}

/// Grade of a judgement, with an explicit `Pending` variant for a note whose
/// grade has not been decided yet.
#[derive(Debug, Clone, Copy, PartialEq, Eq, Structural)]
pub enum JudgeAccuracy {
    Perfect,
    Great,
    Bad,
    Miss,
    Pending,
}

/// One chart note: immutable identity (lane, kind, start and end time,
/// speed) plus the judgement state that mutates while the note is active.
#[derive(Debug, Clone, Copy, PartialEq, Eq, Structural)]
pub struct Note {
    /// Tap or hold.
    pub note_type: NoteType,
    /// Lane whose key judges this note.
    pub press_key: Press4Key,
    /// Start time, in milliseconds from song start.
    pub timing: u64,
    /// End time, in milliseconds; equals `timing` for short notes.
    pub release_timing: u64,
    /// A long note's attack has been hit (it is being held).
    pub pushed: bool,
    /// A long note's attack or body has been missed.
    pub missed: bool,
    /// Speed multiplier, in hundredths.
    pub speed_centi: u32,
    /// Grade recorded so far.
    pub judge: JudgeAccuracy,
}

impl Note {
    /// Structural invariant: the end time never precedes the start time, and
    /// a short note ends the instant it starts.
    pub open spec fn wf(self) -> bool {
        &&& self.timing <= self.release_timing
        &&& self.note_type == NoteType::Short ==> self.release_timing == self.timing
    }

    /// A note fresh from the parser: nothing judged yet.
    pub open spec fn is_unjudged(self) -> bool {
        &&& !self.pushed
        &&& !self.missed
        &&& self.judge == JudgeAccuracy::Pending
    }
}

/// Index of a lane, `0` to `3`.
pub open spec fn spec_lane_index(key: Press4Key) -> int {
    match key {
        Press4Key::First => 0,
        Press4Key::Second => 1,
        Press4Key::Third => 2,
        Press4Key::Fourth => 3,
    }
}

/// Lane for an index `0` to `3`.
pub open spec fn spec_lane_of_index(lane: int) -> Press4Key {
    if lane == 0 {
        Press4Key::First
    } else if lane == 1 {
        Press4Key::Second
    } else if lane == 2 {
        Press4Key::Third
    } else {
        Press4Key::Fourth
    }
}

/// Index of a lane, `0` to `3`.
pub fn lane_index(key: Press4Key) -> (i: usize)
    ensures
        i == spec_lane_index(key),
{
    match key {
        Press4Key::First => 0,
        Press4Key::Second => 1,
        Press4Key::Third => 2,
        Press4Key::Fourth => 3,
    }
}

/// Lane for an index `0` to `3`.
pub fn lane_of_index(lane: usize) -> (key: Press4Key)
    requires
        lane < 4,
    ensures
        key == spec_lane_of_index(lane as int),
        spec_lane_index(key) == lane,
{
    if lane == 0 {
        Press4Key::First
    } else if lane == 1 {
        Press4Key::Second
    } else if lane == 2 {
        Press4Key::Third
    } else {
        Press4Key::Fourth
    }
}

/// Distance between two instants, in milliseconds.
pub open spec fn abs_diff_ms(a: int, b: int) -> int {
    if a >= b {
        a - b
    } else {
        b - a
    }
}

/// `elapsed` lies within `window_cs` hundredths of a millisecond of
/// `reference`, on either side.
pub open spec fn within_window(reference: int, elapsed: int, window_cs: int) -> bool {
    100 * abs_diff_ms(elapsed, reference) <= window_cs
}

/// `elapsed` lies more than `window_cs` hundredths of a millisecond past
/// `reference`.
pub open spec fn past_window(reference: int, elapsed: int, window_cs: int) -> bool {
    100 * (elapsed - reference) > window_cs
}

/// Symmetric window test: is `elapsed` within the window around `reference`?
pub fn in_window(reference: u64, elapsed: u64, window_cs: u64) -> (r: bool)
    ensures
        r == within_window(reference as int, elapsed as int, window_cs as int),
{
    let diff: u64 = if elapsed >= reference {
        elapsed - reference
    } else {
        reference - elapsed
    };
    (diff as u128) * 100 <= (window_cs as u128)
}

/// One-sided test: has `elapsed` passed `reference` by more than the window?
pub fn beyond_window(reference: u64, elapsed: u64, window_cs: u64) -> (r: bool)
    ensures
        r == past_window(reference as int, elapsed as int, window_cs as int),
{
    elapsed > reference && ((elapsed - reference) as u128) * 100 > (window_cs as u128)
}

/// Milliunits travelled per millisecond by a note with the given speed
/// multiplier (hundredths).
pub open spec fn spec_velocity(speed_centi: int) -> int {
    STANDARD_NOTE_SPEED * speed_centi / 100
}

/// Milliunits travelled per millisecond by a note with the given speed
/// multiplier (hundredths).
pub fn velocity_milli(speed_centi: u32) -> (v: u64)
    ensures
        v == spec_velocity(speed_centi as int),
        v <= 0x1_0000_0000_00,
{
    (STANDARD_NOTE_SPEED * (speed_centi as u64)) / 100
}

} // verus!
