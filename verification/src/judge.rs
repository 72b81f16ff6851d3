//! The judgement engine: matching key edges against an active note.
//!
//! Each live frame, the engine examines each lane's active notes in spawn
//! order and applies [`judge_note`] to the earliest until one of them
//! resolves. The function is the per-note transition of two state machines:
//! the single-shot life of a short note, and the three-phase
//! (armed / held / resolved-bad) life of a long note, with a terminal
//! too-late fallback that retires any note once its end time is long past.

use vstd::prelude::*;
use crate::clock::{LaneHoldTimer, HOLD_PULSE_MS};
use crate::note::{
    beyond_window,
    in_window,
    past_window,
    within_window,
    JudgeAccuracy,
    Note,
    NoteType,
    Press4Key,
    GREAT_WINDOW_CS,
    PERFECT_WINDOW_CS,
};
use crate::score::Scoreboard;

verus! {

/// Edge-and-level snapshot of one lane's key for the current frame.
#[derive(Debug, Clone, Copy, PartialEq, Eq, Structural)]
pub struct KeyEdges {
    /// The key went down this frame.
    pub just_pressed: bool,
    /// The key is down.
    pub pressed: bool,
    /// The key went up this frame.
    pub just_released: bool,
}

/// A materialized note awaiting judgement, together with its accumulated
/// hold time (long notes shrink in proportion to it).
#[derive(Debug, Clone, Copy, PartialEq, Eq, Structural)]
pub struct ActiveNote {
    pub note: Note,
    /// Milliseconds the note has been held, capped at its duration.
    pub held_ms: u64,
}

impl ActiveNote {
    /// Structural invariant.
    pub open spec fn wf(self) -> bool {
        &&& self.note.wf()
        &&& self.held_ms <= self.note.release_timing - self.note.timing
    }

    /// What the judgement of a live long note can have recorded so far: a
    /// perfect or great grade only together with a hit attack, a bad grade
    /// only together with a missed verdict, and never a miss (a miss is an
    /// event grade, not a recorded one).
    pub open spec fn phase_consistent(self) -> bool {
        &&& (self.note.judge == JudgeAccuracy::Bad ==> self.note.missed)
        &&& (self.note.judge == JudgeAccuracy::Perfect || self.note.judge == JudgeAccuracy::Great
            ==> self.note.pushed)
        &&& self.note.judge != JudgeAccuracy::Miss
    }
}

/// What one judgement step did with one active note.
#[derive(Debug, Clone, Copy, PartialEq, Eq, Structural)]
pub enum NoteStep {
    /// The note was not touched; the lane scan moves on to the next note.
    Untouched,
    /// A held long note accumulated hold time without a feedback pulse; the
    /// lane scan stops here without an event.
    HoldTick,
    /// The note was judged: an event with this grade fires, and the note is
    /// despawned iff `retire`.
    Resolved { judge: JudgeAccuracy, retire: bool },
}

/// One judgement event, as handed to the presentation layer: it drives the
/// combo, the accuracy indicator, and — for non-miss grades — the lane's key
/// sound.
#[derive(Debug, Clone, Copy, PartialEq, Eq, Structural)]
pub struct JudgeEvent {
    pub lane: Press4Key,
    pub judge: JudgeAccuracy,
}

/// The judgement step as a mathematical function; [`judge_note`] computes it.
///
/// The branches, in order: key-down against a short note's window; key-down
/// against an armed long note (a hit arms the hold, a late press resolves
/// the attack as bad without despawning the body); key-up of a long note (a
/// perfect release near the end time, a retiring miss for a release in the
/// middle of the body); hold accumulation while the key rests down inside
/// the note's span, with a periodic feedback pulse re-emitting the recorded
/// grade; and the terminal too-late fallback.
pub open spec fn spec_judge_note(
    an: ActiveNote,
    edges: KeyEdges,
    elapsed: u64,
    delta: u64,
    timer: LaneHoldTimer,
    score: Scoreboard,
) -> (ActiveNote, LaneHoldTimer, Scoreboard, NoteStep) {
    let n = an.note;
    if edges.just_pressed && n.note_type == NoteType::Short && within_window(
        n.timing as int,
        elapsed as int,
        PERFECT_WINDOW_CS as int,
    ) {
        (
            ActiveNote { note: Note { judge: JudgeAccuracy::Perfect, ..n }, ..an },
            timer,
            Scoreboard { perfect: (score.perfect + 1) as u64, ..score },
            NoteStep::Resolved { judge: JudgeAccuracy::Perfect, retire: true },
        )
    } else if edges.just_pressed && n.note_type == NoteType::Short && within_window(
        n.timing as int,
        elapsed as int,
        GREAT_WINDOW_CS as int,
    ) {
        (
            ActiveNote { note: Note { judge: JudgeAccuracy::Great, ..n }, ..an },
            timer,
            Scoreboard { great: (score.great + 1) as u64, ..score },
            NoteStep::Resolved { judge: JudgeAccuracy::Great, retire: true },
        )
    } else if edges.just_pressed && n.note_type == NoteType::Long && !n.pushed && within_window(
        n.timing as int,
        elapsed as int,
        PERFECT_WINDOW_CS as int,
    ) {
        (
            ActiveNote { note: Note { pushed: true, judge: JudgeAccuracy::Perfect, ..n }, ..an },
            LaneHoldTimer { since_pulse_ms: 0 },
            Scoreboard { perfect: (score.perfect + 1) as u64, ..score },
            NoteStep::Resolved { judge: JudgeAccuracy::Perfect, retire: false },
        )
    } else if edges.just_pressed && n.note_type == NoteType::Long && !n.pushed && within_window(
        n.timing as int,
        elapsed as int,
        GREAT_WINDOW_CS as int,
    ) {
        (
            ActiveNote { note: Note { pushed: true, judge: JudgeAccuracy::Great, ..n }, ..an },
            LaneHoldTimer { since_pulse_ms: 0 },
            Scoreboard { great: (score.great + 1) as u64, ..score },
            NoteStep::Resolved { judge: JudgeAccuracy::Great, retire: false },
        )
    } else if edges.just_pressed && n.note_type == NoteType::Long && !n.pushed && !n.missed
        && past_window(n.timing as int, elapsed as int, GREAT_WINDOW_CS as int) {
        (
            ActiveNote { note: Note { missed: true, judge: JudgeAccuracy::Bad, ..n }, ..an },
            timer,
            Scoreboard { miss: (score.miss + 1) as u64, ..score },
            NoteStep::Resolved { judge: JudgeAccuracy::Miss, retire: false },
        )
    } else if edges.just_released && n.note_type == NoteType::Long && within_window(
        n.release_timing as int,
        elapsed as int,
        GREAT_WINDOW_CS as int,
    ) {
        (
            an,
            timer,
            Scoreboard { perfect: (score.perfect + 1) as u64, ..score },
            NoteStep::Resolved { judge: JudgeAccuracy::Perfect, retire: true },
        )
    } else if edges.just_released && n.note_type == NoteType::Long && !n.missed && past_window(
        n.timing as int,
        elapsed as int,
        GREAT_WINDOW_CS as int,
    ) && 100 * (n.release_timing - elapsed) > GREAT_WINDOW_CS {
        (
            ActiveNote { note: Note { missed: true, judge: JudgeAccuracy::Bad, ..n }, ..an },
            timer,
            Scoreboard { miss: (score.miss + 1) as u64, ..score },
            NoteStep::Resolved { judge: JudgeAccuracy::Miss, retire: true },
        )
    } else if n.note_type == NoteType::Long && edges.pressed && n.timing <= elapsed && elapsed
        <= n.release_timing {
        let duration = (n.release_timing - n.timing) as u64;
        let an2 = ActiveNote {
            held_ms: if an.held_ms + delta >= duration {
                duration
            } else {
                (an.held_ms + delta) as u64
            },
            ..an
        };
        let pulse = timer.since_pulse_ms + delta >= HOLD_PULSE_MS;
        let timer2 = LaneHoldTimer {
            since_pulse_ms: ((timer.since_pulse_ms + delta) % (HOLD_PULSE_MS as int)) as u64,
        };
        if pulse && n.judge != JudgeAccuracy::Pending {
            (an2, timer2, score, NoteStep::Resolved { judge: n.judge, retire: false })
        } else {
            (an2, timer2, score, NoteStep::HoldTick)
        }
    } else if past_window(n.release_timing as int, elapsed as int, GREAT_WINDOW_CS as int) {
        (
            an,
            timer,
            Scoreboard { miss: (score.miss + 1) as u64, ..score },
            NoteStep::Resolved { judge: JudgeAccuracy::Miss, retire: true },
        )
    } else {
        (an, timer, score, NoteStep::Untouched)
    }
}

/// Judge one active note against this frame's key snapshot at song time
/// `elapsed`, advancing hold state by the frame's `delta` milliseconds.
///
/// Returns the updated note, hold timer and scoreboard, and what happened.
/// Only called while the clock is running.
pub fn judge_note(
    an: &ActiveNote,
    edges: KeyEdges,
    elapsed: u64,
    delta: u64,
    timer: &LaneHoldTimer,
    score: &Scoreboard,
) -> (r: (ActiveNote, LaneHoldTimer, Scoreboard, NoteStep))
    requires
        an.wf(),
        timer.wf(),
        score.has_headroom(),
    ensures
        r == spec_judge_note(*an, edges, elapsed, delta, *timer, *score),
        r.0.wf(),
        r.1.wf(),
{
    let n = an.note;
    if edges.just_pressed {
        if n.note_type == NoteType::Short {
            if in_window(n.timing, elapsed, PERFECT_WINDOW_CS) {
                let note2 = Note { judge: JudgeAccuracy::Perfect, ..n };
                let score2 = Scoreboard { perfect: score.perfect + 1, ..*score };
                return (
                    ActiveNote { note: note2, ..*an },
                    *timer,
                    score2,
                    NoteStep::Resolved { judge: JudgeAccuracy::Perfect, retire: true },
                );
            } else if in_window(n.timing, elapsed, GREAT_WINDOW_CS) {
                let note2 = Note { judge: JudgeAccuracy::Great, ..n };
                let score2 = Scoreboard { great: score.great + 1, ..*score };
                return (
                    ActiveNote { note: note2, ..*an },
                    *timer,
                    score2,
                    NoteStep::Resolved { judge: JudgeAccuracy::Great, retire: true },
                );
            }
        } else if n.note_type == NoteType::Long && !n.pushed {
            if in_window(n.timing, elapsed, PERFECT_WINDOW_CS) {
                let note2 = Note { pushed: true, judge: JudgeAccuracy::Perfect, ..n };
                let score2 = Scoreboard { perfect: score.perfect + 1, ..*score };
                return (
                    ActiveNote { note: note2, ..*an },
                    LaneHoldTimer { since_pulse_ms: 0 },
                    score2,
                    NoteStep::Resolved { judge: JudgeAccuracy::Perfect, retire: false },
                );
            } else if in_window(n.timing, elapsed, GREAT_WINDOW_CS) {
                let note2 = Note { pushed: true, judge: JudgeAccuracy::Great, ..n };
                let score2 = Scoreboard { great: score.great + 1, ..*score };
                return (
                    ActiveNote { note: note2, ..*an },
                    LaneHoldTimer { since_pulse_ms: 0 },
                    score2,
                    NoteStep::Resolved { judge: JudgeAccuracy::Great, retire: false },
                );
            } else if !n.missed && beyond_window(n.timing, elapsed, GREAT_WINDOW_CS) {
                let note2 = Note { missed: true, judge: JudgeAccuracy::Bad, ..n };
                let score2 = Scoreboard { miss: score.miss + 1, ..*score };
                return (
                    ActiveNote { note: note2, ..*an },
                    *timer,
                    score2,
                    NoteStep::Resolved { judge: JudgeAccuracy::Miss, retire: false },
                );
            }
        }
    }
    if edges.just_released && n.note_type == NoteType::Long {
        if in_window(n.release_timing, elapsed, GREAT_WINDOW_CS) {
            let score2 = Scoreboard { perfect: score.perfect + 1, ..*score };
            return (
                *an,
                *timer,
                score2,
                NoteStep::Resolved { judge: JudgeAccuracy::Perfect, retire: true },
            );
        } else if !n.missed && beyond_window(n.timing, elapsed, GREAT_WINDOW_CS) && elapsed
            < n.release_timing && ((n.release_timing - elapsed) as u128) * 100 > (
        GREAT_WINDOW_CS as u128) {
            let note2 = Note { missed: true, judge: JudgeAccuracy::Bad, ..n };
            let score2 = Scoreboard { miss: score.miss + 1, ..*score };
            return (
                ActiveNote { note: note2, ..*an },
                *timer,
                score2,
                NoteStep::Resolved { judge: JudgeAccuracy::Miss, retire: true },
            );
        }
    }
    if n.note_type == NoteType::Long && edges.pressed && n.timing <= elapsed && elapsed
        <= n.release_timing {
        let duration = n.release_timing - n.timing;
        let held2: u64 = if delta >= duration - an.held_ms {
            duration
        } else {
            an.held_ms + delta
        };
        let mut timer2 = *timer;
        let pulse = timer2.tick(delta);
        let an2 = ActiveNote { held_ms: held2, ..*an };
        if pulse && n.judge != JudgeAccuracy::Pending {
            return (an2, timer2, *score, NoteStep::Resolved { judge: n.judge, retire: false });
        } else {
            return (an2, timer2, *score, NoteStep::HoldTick);
        }
    }
    if beyond_window(n.release_timing, elapsed, GREAT_WINDOW_CS) {
        let score2 = Scoreboard { miss: score.miss + 1, ..*score };
        return (*an, *timer, score2, NoteStep::Resolved { judge: JudgeAccuracy::Miss, retire: true });
    }
    (*an, *timer, *score, NoteStep::Untouched)
}

/// Single-resolution law for short notes: one judgement step either leaves a
/// short note untouched, or resolves it with exactly one of perfect, great
/// or miss, incrementing exactly that counter and despawning the note; a
/// short note never accumulates hold state, and once the great window has
/// closed behind it, the step always resolves it.
pub proof fn lemma_short_note_single_resolution(
    an: ActiveNote,
    edges: KeyEdges,
    elapsed: u64,
    delta: u64,
    timer: LaneHoldTimer,
    score: Scoreboard,
)
    requires
        an.wf(),
        an.note.note_type == NoteType::Short,
        score.has_headroom(),
    ensures
        ({
            let (an2, timer2, score2, step) = spec_judge_note(an, edges, elapsed, delta, timer, score);
            &&& !(step matches NoteStep::HoldTick)
            &&& (step matches NoteStep::Resolved { judge, retire } ==> {
                &&& retire
                &&& (judge == JudgeAccuracy::Perfect || judge == JudgeAccuracy::Great || judge
                    == JudgeAccuracy::Miss)
                &&& score2.total() == score.total() + 1
                &&& (judge == JudgeAccuracy::Perfect ==> score2 == Scoreboard {
                    perfect: (score.perfect + 1) as u64,
                    ..score
                })
                &&& (judge == JudgeAccuracy::Great ==> score2 == Scoreboard {
                    great: (score.great + 1) as u64,
                    ..score
                })
                &&& (judge == JudgeAccuracy::Miss ==> score2 == Scoreboard {
                    miss: (score.miss + 1) as u64,
                    ..score
                })
            })
            &&& (step matches NoteStep::Untouched ==> an2 == an && score2 == score && timer2
                == timer)
            &&& (past_window(
                an.note.release_timing as int,
                elapsed as int,
                GREAT_WINDOW_CS as int,
            ) ==> step matches NoteStep::Resolved { judge: _, retire: _ })
        }),
{
}

/// Phase laws for long notes, over one judgement step.
///
/// The attack verdict (`pushed`) and the bad verdict (`missed`) are monotone
/// flags, so each of the attack phase and the miss verdict contributes to
/// the scoreboard at most once over the note's whole life; each step adds at
/// most one judgement in total; a retiring perfect is the release judgement
/// inside the end window; a retiring miss is an early release inside the
/// body or the terminal fallback past the end window; and once the end
/// window has closed, the step always resolves the note — with a despawn
/// unless a late key-down still records the armed note's bad verdict first.
pub proof fn lemma_long_note_phases(
    an: ActiveNote,
    edges: KeyEdges,
    elapsed: u64,
    delta: u64,
    timer: LaneHoldTimer,
    score: Scoreboard,
)
    requires
        an.wf(),
        an.note.note_type == NoteType::Long,
        an.phase_consistent(),
        score.has_headroom(),
    ensures
        ({
            let (an2, timer2, score2, step) = spec_judge_note(an, edges, elapsed, delta, timer, score);
            &&& score.total() <= score2.total() <= score.total() + 1
            &&& an2.phase_consistent()
            &&& (an.note.pushed ==> an2.note.pushed)
            &&& (an.note.missed ==> an2.note.missed)
            &&& (step matches NoteStep::Resolved { judge, retire: false } && (judge
                == JudgeAccuracy::Perfect || judge == JudgeAccuracy::Great) && !an.note.pushed
                ==> an2.note.pushed && score2.total() == score.total() + 1)
            &&& (step matches NoteStep::Resolved { judge: JudgeAccuracy::Miss, retire: false }
                ==> !an.note.missed && an2.note.missed)
            &&& (step matches NoteStep::Resolved { judge, retire: false } && an.note.pushed
                && judge != JudgeAccuracy::Miss ==> score2 == score)
            &&& (step matches NoteStep::Resolved { judge: JudgeAccuracy::Miss, retire: _ }
                ==> score2 == Scoreboard { miss: (score.miss + 1) as u64, ..score })
            &&& (step matches NoteStep::Resolved { judge: JudgeAccuracy::Perfect, retire: true }
                ==> within_window(
                an.note.release_timing as int,
                elapsed as int,
                GREAT_WINDOW_CS as int,
            ) && score2 == Scoreboard { perfect: (score.perfect + 1) as u64, ..score })
            &&& (step matches NoteStep::Resolved { judge: JudgeAccuracy::Miss, retire: true }
                ==> past_window(
                an.note.release_timing as int,
                elapsed as int,
                GREAT_WINDOW_CS as int,
            ) || (!an.note.missed && edges.just_released && past_window(
                an.note.timing as int,
                elapsed as int,
                GREAT_WINDOW_CS as int,
            ) && 100 * (an.note.release_timing - elapsed) > GREAT_WINDOW_CS))
            &&& (step matches NoteStep::Resolved { judge: JudgeAccuracy::Bad, retire } ==> !retire
                && an.note.missed && score2 == score)
            &&& (step matches NoteStep::HoldTick ==> score2 == score && an2.note == an.note)
            &&& (step matches NoteStep::Untouched ==> an2 == an && score2 == score && timer2
                == timer)
            &&& (past_window(an.note.release_timing as int, elapsed as int, GREAT_WINDOW_CS as int)
                ==> step matches NoteStep::Resolved { judge: JudgeAccuracy::Miss, retire: _ })
            &&& (past_window(an.note.release_timing as int, elapsed as int, GREAT_WINDOW_CS as int)
                && (an.note.missed || an.note.pushed || !edges.just_pressed) ==> step
                == NoteStep::Resolved { judge: JudgeAccuracy::Miss, retire: true })
        }),
{
}

/// One frame of a note's run: the key snapshot, the song time, and the
/// frame's duration.
pub open spec fn run_frames_monotone(frames: Seq<(KeyEdges, u64, u64)>) -> bool {
    forall|i: int| 0 <= i < frames.len() - 1 ==> (#[trigger] frames[i].1) <= frames[i + 1].1
}

/// Scoreboard increments one note collects over a span of frames, stepping
/// it with [`spec_judge_note`] until some frame retires it.
pub open spec fn spec_note_run_increments(
    an: ActiveNote,
    frames: Seq<(KeyEdges, u64, u64)>,
    timer: LaneHoldTimer,
    score: Scoreboard,
) -> int
    decreases frames.len(),
{
    if frames.len() == 0 {
        0
    } else {
        let (an2, t2, s2, step) = spec_judge_note(
            an,
            frames[0].0,
            frames[0].1,
            frames[0].2,
            timer,
            score,
        );
        let inc = s2.total() - score.total();
        if step matches NoteStep::Resolved { judge, retire: true } {
            inc
        } else {
            inc + spec_note_run_increments(an2, frames.drop_first(), t2, s2)
        }
    }
}

/// How many more judgements a long note can still put on the scoreboard:
/// two while it is armed (attack, then release or terminal), one after.
pub open spec fn note_potential(an: ActiveNote) -> int {
    if !an.note.pushed && !an.note.missed {
        2
    } else {
        1
    }
}

/// Counting law for short notes: over any span of frames that reaches past
/// the note's window, a short note is judged exactly once — a single
/// perfect, great or miss, each of which also despawns it — so no short
/// note is ever counted twice or slips through unjudged.
pub proof fn lemma_short_note_run_single(
    an: ActiveNote,
    frames: Seq<(KeyEdges, u64, u64)>,
    timer: LaneHoldTimer,
    score: Scoreboard,
)
    requires
        an.wf(),
        an.note.note_type == NoteType::Short,
        score.has_headroom(),
        frames.len() > 0,
        past_window(
            an.note.release_timing as int,
            frames.last().1 as int,
            GREAT_WINDOW_CS as int,
        ),
    ensures
        spec_note_run_increments(an, frames, timer, score) == 1,
    decreases frames.len(),
{
    reveal_with_fuel(spec_note_run_increments, 2);
    let (an2, t2, s2, step) = spec_judge_note(
        an,
        frames[0].0,
        frames[0].1,
        frames[0].2,
        timer,
        score,
    );
    match step {
        NoteStep::Untouched => {
            assert(frames.len() > 1);
            assert(frames.drop_first().last() == frames.last());
            lemma_short_note_run_single(an2, frames.drop_first(), t2, s2);
        },
        _ => {},
    }
}

/// Counting law for long notes (upper half): over any span of frames with
/// non-decreasing song time, a long note adds at most two judgements to the
/// scoreboard — one from its attack phase and one from its release,
/// early-release or terminal phase — and an already-armed or already-missed
/// note adds at most one more.
pub proof fn lemma_long_note_run_bounded(
    an: ActiveNote,
    frames: Seq<(KeyEdges, u64, u64)>,
    timer: LaneHoldTimer,
    score: Scoreboard,
)
    requires
        an.wf(),
        an.note.note_type == NoteType::Long,
        an.phase_consistent(),
        score.perfect + note_potential(an) <= u64::MAX,
        score.great + note_potential(an) <= u64::MAX,
        score.miss + note_potential(an) <= u64::MAX,
        run_frames_monotone(frames),
        an.note.missed && frames.len() > 0 ==> past_window(
            an.note.timing as int,
            frames[0].1 as int,
            GREAT_WINDOW_CS as int,
        ),
    ensures
        0 <= spec_note_run_increments(an, frames, timer, score) <= note_potential(an),
    decreases frames.len(),
{
    if frames.len() > 0 {
        let (an2, t2, s2, step) = spec_judge_note(
            an,
            frames[0].0,
            frames[0].1,
            frames[0].2,
            timer,
            score,
        );
        assert(frames.drop_first() =~= frames.skip(1));
        assert forall|i: int| 0 <= i < frames.drop_first().len() - 1 implies (
        #[trigger] frames.drop_first()[i].1) <= frames.drop_first()[i + 1].1 by {
            assert(frames.drop_first()[i] == frames[i + 1]);
            assert(frames.drop_first()[i + 1] == frames[i + 2]);
        }
        if !(step matches NoteStep::Resolved { judge, retire: true }) {
            if frames.len() > 1 {
                assert(frames.drop_first()[0] == frames[1]);
                assert(frames[0].1 <= frames[1].1);
            }
            lemma_long_note_run_bounded(an2, frames.drop_first(), t2, s2);
        }
    }
}

/// Counting law for long notes (lower half): a span of frames that reaches
/// past the note's end window always records at least one judgement — no
/// long note slips through unjudged.
pub proof fn lemma_long_note_run_resolves(
    an: ActiveNote,
    frames: Seq<(KeyEdges, u64, u64)>,
    timer: LaneHoldTimer,
    score: Scoreboard,
)
    requires
        an.wf(),
        an.note.note_type == NoteType::Long,
        an.phase_consistent(),
        score.perfect + note_potential(an) <= u64::MAX,
        score.great + note_potential(an) <= u64::MAX,
        score.miss + note_potential(an) <= u64::MAX,
        run_frames_monotone(frames),
        an.note.missed && frames.len() > 0 ==> past_window(
            an.note.timing as int,
            frames[0].1 as int,
            GREAT_WINDOW_CS as int,
        ),
        frames.len() > 0,
        past_window(
            an.note.release_timing as int,
            frames.last().1 as int,
            GREAT_WINDOW_CS as int,
        ),
    ensures
        spec_note_run_increments(an, frames, timer, score) >= 1,
    decreases frames.len(),
{
    reveal_with_fuel(spec_note_run_increments, 2);
    let (an2, t2, s2, step) = spec_judge_note(
        an,
        frames[0].0,
        frames[0].1,
        frames[0].2,
        timer,
        score,
    );
    assert(frames.drop_first() =~= frames.skip(1));
    assert forall|i: int| 0 <= i < frames.drop_first().len() - 1 implies (
    #[trigger] frames.drop_first()[i].1) <= frames.drop_first()[i + 1].1 by {
        assert(frames.drop_first()[i] == frames[i + 1]);
        assert(frames.drop_first()[i + 1] == frames[i + 2]);
    }
    if !(step matches NoteStep::Resolved { judge, retire: true }) {
        if frames.len() == 1 {
            // At the last frame, past the end window, the only surviving
            // step is the armed note's late-press verdict — an increment.
            assert(frames.last() == frames[0]);
            assert(s2.total() == score.total() + 1);
        } else {
            assert(frames.drop_first()[0] == frames[1]);
            assert(frames[0].1 <= frames[1].1);
            assert(frames.drop_first().last() == frames.last());
            if s2.total() == score.total() + 1 {
                lemma_long_note_run_bounded(an2, frames.drop_first(), t2, s2);
            } else {
                lemma_long_note_run_resolves(an2, frames.drop_first(), t2, s2);
            }
        }
    }
}

} // verus!
