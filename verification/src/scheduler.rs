//! The note scheduler: the spawn-ahead decision and on-screen geometry.
//!
//! A queued note materializes once its head, travelling at its own velocity
//! towards the judge line, would sit at or below the visibility threshold.
//! Positions are derived from the song clock: a note's head sits exactly
//! `(timing - elapsed) * velocity` milliunits above the judge line, so
//! advancing the clock by `dt` moves every note down by `velocity * dt` —
//! the motion law [`lemma_position_advances`] below.

use vstd::prelude::*;
use crate::judge::ActiveNote;
use crate::note::{velocity_milli, Note, NoteType, JUDGE_LINE_MILLI, SPAWN_THRESHOLD_MILLI};
use crate::note::{spec_velocity};

verus! {

/// Height of a note head above the bottom of the screen, in milliunits, at
/// song time `elapsed`.
pub open spec fn spec_position_milli(timing: int, elapsed: int, vel: int) -> int {
    JUDGE_LINE_MILLI + (timing - elapsed) * vel
}

/// Vertical extent of a long note's body, in milliunits.
pub open spec fn spec_span_milli(timing: int, release: int, vel: int) -> int {
    (release - timing) * vel
}

/// Vertical centre of a note's body at song time `elapsed`: the head for a
/// short note; for a long note, halfway up the body, drawn back down by half
/// of the distance already consumed by holding.
pub open spec fn spec_body_center_milli(an: ActiveNote, elapsed: int) -> int {
    let vel = spec_velocity(an.note.speed_centi as int);
    let head = spec_position_milli(an.note.timing as int, elapsed, vel);
    if an.note.note_type == NoteType::Long {
        head + spec_span_milli(an.note.timing as int, an.note.release_timing as int, vel) / 2
            - an.held_ms * vel / 2
    } else {
        head
    }
}

/// Vertical scale of a note's sprite, in thousandths: a long note's body is
/// stretched over its span and shrinks as hold time accumulates; a short
/// note stays at scale one.
pub open spec fn spec_body_scale_milli(an: ActiveNote, elapsed: int) -> int {
    let vel = spec_velocity(an.note.speed_centi as int);
    if an.note.note_type == NoteType::Long {
        1000 + spec_span_milli(an.note.timing as int, an.note.release_timing as int, vel) / 30
            - an.held_ms * vel / 30
    } else {
        1000
    }
}

/// The note should materialize: its head is at or below the visibility
/// threshold.
pub open spec fn spec_should_spawn(timing: int, elapsed: int, vel: int) -> bool {
    spec_position_milli(timing, elapsed, vel) <= SPAWN_THRESHOLD_MILLI
}

/// Height of `note`'s head at song time `elapsed_ms`, in milliunits.
pub fn note_position_milli(note: &Note, elapsed_ms: u64) -> (p: i128)
    ensures
        p == spec_position_milli(
            note.timing as int,
            elapsed_ms as int,
            spec_velocity(note.speed_centi as int),
        ),
        -0x2_0000_0000_0000_0000_0000_0000_0000 <= p <= 0x2_0000_0000_0000_0000_0000_0000_0000,
{
    let vel = velocity_milli(note.speed_centi);
    let diff: i128 = (note.timing as i128) - (elapsed_ms as i128);
    proof {
        lemma_travel_bounded(diff as int, vel as int);
    }
    (JUDGE_LINE_MILLI as i128) + diff * (vel as i128)
}

/// A distance travelled in bounded time at bounded velocity stays far inside
/// the 128-bit range.
proof fn lemma_travel_bounded(diff: int, vel: int)
    requires
        -0x1_0000_0000_0000_0000 <= diff <= 0x1_0000_0000_0000_0000,
        0 <= vel <= 0x1_0000_0000_00,
    ensures
        -0x1_0000_0000_0000_0000_0000_0000_0000 <= diff * vel
            <= 0x1_0000_0000_0000_0000_0000_0000_0000,
{
    assert(-0x1_0000_0000_0000_0000_0000_0000_0000 <= diff * vel
        <= 0x1_0000_0000_0000_0000_0000_0000_0000) by (nonlinear_arith)
        requires
            -0x1_0000_0000_0000_0000 <= diff <= 0x1_0000_0000_0000_0000,
            0 <= vel <= 0x1_0000_0000_00,
    ;
}

/// Decide whether the head of a lane's queue materializes this frame.
pub fn should_spawn(note: &Note, elapsed_ms: u64) -> (r: bool)
    ensures
        r == spec_should_spawn(
            note.timing as int,
            elapsed_ms as int,
            spec_velocity(note.speed_centi as int),
        ),
{
    note_position_milli(note, elapsed_ms) <= SPAWN_THRESHOLD_MILLI as i128
}

/// Vertical centre of an active note's body at song time `elapsed_ms`, in
/// milliunits, for the presentation layer.
pub fn body_center_milli(an: &ActiveNote, elapsed_ms: u64) -> (c: i128)
    requires
        an.wf(),
    ensures
        c == spec_body_center_milli(*an, elapsed_ms as int),
{
    let head = note_position_milli(&an.note, elapsed_ms);
    if an.note.note_type == NoteType::Long {
        let vel = velocity_milli(an.note.speed_centi);
        proof {
            lemma_travel_bounded((an.note.release_timing - an.note.timing) as int, vel as int);
            lemma_travel_bounded(an.held_ms as int, vel as int);
        }
        let span: i128 = ((an.note.release_timing - an.note.timing) as i128) * (vel as i128);
        let held_travel: i128 = (an.held_ms as i128) * (vel as i128);
        head + span / 2 - held_travel / 2
    } else {
        head
    }
}

/// Vertical scale of an active note's sprite, in thousandths, for the
/// presentation layer.
pub fn body_scale_milli(an: &ActiveNote, elapsed_ms: u64) -> (s: i128)
    requires
        an.wf(),
    ensures
        s == spec_body_scale_milli(*an, elapsed_ms as int),
{
    if an.note.note_type == NoteType::Long {
        let vel = velocity_milli(an.note.speed_centi);
        proof {
            lemma_travel_bounded((an.note.release_timing - an.note.timing) as int, vel as int);
            lemma_travel_bounded(an.held_ms as int, vel as int);
        }
        let span: i128 = ((an.note.release_timing - an.note.timing) as i128) * (vel as i128);
        let held_travel: i128 = (an.held_ms as i128) * (vel as i128);
        1000 + span / 30 - held_travel / 30
    } else {
        1000
    }
}

/// Motion law: advancing the song clock by `dt` moves a note's head down by
/// exactly `vel * dt` milliunits — strictly towards the judge line whenever
/// the note moves at all.
pub proof fn lemma_position_advances(timing: int, elapsed: int, dt: int, vel: int)
    requires
        dt >= 0,
    ensures
        spec_position_milli(timing, elapsed + dt, vel) == spec_position_milli(timing, elapsed, vel)
            - vel * dt,
        vel > 0 && dt > 0 ==> spec_position_milli(timing, elapsed + dt, vel)
            < spec_position_milli(timing, elapsed, vel),
{
    assert((timing - (elapsed + dt)) * vel == (timing - elapsed) * vel - vel * dt)
        by (nonlinear_arith);
    assert(vel > 0 && dt > 0 ==> vel * dt > 0) by (nonlinear_arith);
}

/// A long note's body never shrinks past its natural scale of one: holding
/// consumes at most the body's own span.
pub proof fn lemma_scale_floor(an: ActiveNote, elapsed: int)
    requires
        an.wf(),
        an.note.note_type == NoteType::Long,
    ensures
        spec_body_scale_milli(an, elapsed) >= 1000,
{
    let vel = spec_velocity(an.note.speed_centi as int);
    assert(an.held_ms * vel <= (an.note.release_timing - an.note.timing) * vel)
        by (nonlinear_arith)
        requires
            0 <= an.held_ms <= an.note.release_timing - an.note.timing,
            vel >= 0,
    ;
    vstd::arithmetic::div_mod::lemma_div_is_ordered(
        an.held_ms * vel,
        (an.note.release_timing - an.note.timing) * vel,
        30,
    );
}

} // verus!
