//! The play clock: an initial countdown, the elapsed-time counter, and the
//! pause toggle, plus the per-lane periodic hold timer.

use vstd::prelude::*;
use vstd::arithmetic::div_mod::{lemma_mod_self_0, lemma_mod_twice, lemma_sub_mod_noop};

verus! {

/// Length of the initial countdown before the song starts, in milliseconds.
pub const HOLD_MS: u64 = 3000;

/// Upper bound on the song clock, in milliseconds.
pub const MAX_MUSIC_MS: u64 = 600000;

/// Period of the per-lane hold timer, in milliseconds: while a long note is
/// held, a feedback pulse fires each time this much hold time accumulates.
pub const HOLD_PULSE_MS: u64 = 250;

/// Emitted by the pause toggle so the presentation layer sees each
/// transition edge exactly once.
#[derive(Debug, Clone, Copy, PartialEq, Eq, Structural)]
pub enum PauseSignal {
    /// The toggle had no effect (the countdown is still running).
    Unchanged,
    /// The clock just froze.
    JustPaused,
    /// The clock just resumed.
    JustResumed,
}

/// The clock of one play session.
///
/// It starts in a countdown phase (`hold_remaining_ms > 0`) during which the
/// song clock stays at zero; once the countdown runs out the song clock
/// advances on every tick except while paused. Pausing is only reachable
/// after the countdown has finished.
#[derive(Debug, Clone, Copy, PartialEq, Eq, Structural)]
pub struct Clock {
    /// Countdown left before the song clock starts.
    pub hold_remaining_ms: u64,
    /// Song time, in milliseconds; never exceeds [`MAX_MUSIC_MS`].
    pub elapsed_ms: u64,
    /// The clock is frozen by the pause toggle.
    pub paused: bool,
}

impl Clock {
    /// Structural invariant.
    pub open spec fn wf(self) -> bool {
        &&& self.elapsed_ms <= MAX_MUSIC_MS
        &&& self.hold_remaining_ms > 0 ==> self.elapsed_ms == 0 && !self.paused
    }

    /// The countdown has finished and the clock is not paused: the session
    /// is live, so notes spawn and judgement runs.
    pub open spec fn is_running(self) -> bool {
        self.hold_remaining_ms == 0 && !self.paused
    }

    /// A fresh clock at the head of the countdown.
    pub fn new() -> (c: Clock)
        ensures
            c.wf(),
            c.hold_remaining_ms == HOLD_MS,
            c.elapsed_ms == 0,
            !c.paused,
    {
        Clock { hold_remaining_ms: HOLD_MS, elapsed_ms: 0, paused: false }
    }

    /// Advance the clock by one frame of `delta_ms` milliseconds.
    ///
    /// While the countdown runs it consumes the whole frame; while paused
    /// nothing moves; otherwise the song clock advances, saturating at
    /// [`MAX_MUSIC_MS`].
    pub fn tick(&mut self, delta_ms: u64)
        requires
            old(self).wf(),
        ensures
            final(self).wf(),
            *final(self) == ticked(*old(self), delta_ms),
            final(self).paused == old(self).paused,
            old(self).hold_remaining_ms > 0 ==> {
                &&& final(self).elapsed_ms == old(self).elapsed_ms
                &&& final(self).hold_remaining_ms == if delta_ms >= old(self).hold_remaining_ms {
                    0
                } else {
                    old(self).hold_remaining_ms - delta_ms
                }
            },
            old(self).hold_remaining_ms == 0 ==> final(self).hold_remaining_ms == 0,
            old(self).paused || old(self).hold_remaining_ms > 0 ==> final(self).elapsed_ms == old(
                self,
            ).elapsed_ms,
            old(self).is_running() ==> final(self).elapsed_ms == if old(self).elapsed_ms + delta_ms
                <= MAX_MUSIC_MS {
                old(self).elapsed_ms + delta_ms
            } else {
                MAX_MUSIC_MS as int
            },
    {
        if self.hold_remaining_ms > 0 {
            if delta_ms >= self.hold_remaining_ms {
                self.hold_remaining_ms = 0;
            } else {
                self.hold_remaining_ms = self.hold_remaining_ms - delta_ms;
            }
        } else if !self.paused {
            if delta_ms >= MAX_MUSIC_MS - self.elapsed_ms {
                self.elapsed_ms = MAX_MUSIC_MS;
            } else {
                self.elapsed_ms = self.elapsed_ms + delta_ms;
            }
        }
    }

    /// React to one pause-toggle edge.
    ///
    /// The toggle flips `Running` and `Paused`; during the countdown it does
    /// nothing. The returned signal reports the transition edge, exactly one
    /// signal per effective toggle.
    pub fn toggle_pause(&mut self) -> (signal: PauseSignal)
        requires
            old(self).wf(),
        ensures
            final(self).wf(),
            *final(self) == toggled(*old(self)),
            signal == toggle_signal(*old(self)),
            final(self).elapsed_ms == old(self).elapsed_ms,
            final(self).hold_remaining_ms == old(self).hold_remaining_ms,
            old(self).hold_remaining_ms > 0 ==> *final(self) == *old(self) && signal
                == PauseSignal::Unchanged,
            old(self).hold_remaining_ms == 0 ==> final(self).paused == !old(self).paused,
            signal == PauseSignal::JustPaused <==> old(self).hold_remaining_ms == 0 && !old(
                self,
            ).paused,
            signal == PauseSignal::JustResumed <==> old(self).hold_remaining_ms == 0 && old(
                self,
            ).paused,
    {
        if self.hold_remaining_ms > 0 {
            PauseSignal::Unchanged
        } else if !self.paused {
            self.paused = true;
            PauseSignal::JustPaused
        } else {
            self.paused = false;
            PauseSignal::JustResumed
        }
    }
}

/// A paused clock is a fixed point of ticking: no sequence of frames moves
/// it.
pub proof fn lemma_paused_clock_fixed(c: Clock, deltas: Seq<u64>)
    requires
        c.paused,
        c.hold_remaining_ms == 0,
    ensures
        ticked_many(c, deltas) == c,
    decreases deltas.len(),
{
    if deltas.len() > 0 {
        lemma_paused_clock_fixed(c, deltas.drop_last());
    }
}

/// Freezing law: however many frames elapse between a pause and the matching
/// resume, the song clock reads afterwards exactly what it read before, so a
/// pause/resume pair costs no song time.
pub proof fn lemma_pause_freezes_clock(c0: Clock, deltas: Seq<u64>)
    requires
        c0.wf(),
        c0.hold_remaining_ms == 0,
        !c0.paused,
    ensures
        ({
            let paused = Clock { paused: true, ..c0 };
            let after = ticked_many(paused, deltas);
            &&& after.elapsed_ms == c0.elapsed_ms
            &&& Clock { paused: false, ..after } == c0
        }),
{
    let paused = Clock { paused: true, ..c0 };
    lemma_paused_clock_fixed(paused, deltas);
}

/// The clock after one tick of `delta_ms`, as a mathematical function; agrees
/// with [`Clock::tick`].
pub open spec fn ticked(c: Clock, delta_ms: u64) -> Clock {
    if c.hold_remaining_ms > 0 {
        Clock {
            hold_remaining_ms: if delta_ms >= c.hold_remaining_ms {
                0
            } else {
                (c.hold_remaining_ms - delta_ms) as u64
            },
            ..c
        }
    } else if !c.paused {
        Clock {
            elapsed_ms: if c.elapsed_ms + delta_ms <= MAX_MUSIC_MS {
                (c.elapsed_ms + delta_ms) as u64
            } else {
                MAX_MUSIC_MS
            },
            ..c
        }
    } else {
        c
    }
}

/// The clock after one pause-toggle edge, as a mathematical function; agrees
/// with [`Clock::toggle_pause`].
pub open spec fn toggled(c: Clock) -> Clock {
    if c.hold_remaining_ms > 0 {
        c
    } else {
        Clock { paused: !c.paused, ..c }
    }
}

/// The signal one pause-toggle edge emits; agrees with
/// [`Clock::toggle_pause`].
pub open spec fn toggle_signal(c: Clock) -> PauseSignal {
    if c.hold_remaining_ms > 0 {
        PauseSignal::Unchanged
    } else if !c.paused {
        PauseSignal::JustPaused
    } else {
        PauseSignal::JustResumed
    }
}

/// The clock after a sequence of ticks.
pub open spec fn ticked_many(c: Clock, deltas: Seq<u64>) -> Clock
    decreases deltas.len(),
{
    if deltas.len() == 0 {
        c
    } else {
        ticked(ticked_many(c, deltas.drop_last()), deltas.last())
    }
}

/// The periodic timer of one lane, driving feedback pulses while a long note
/// is held.
#[derive(Debug, Clone, Copy, PartialEq, Eq, Structural)]
pub struct LaneHoldTimer {
    /// Hold time accumulated since the last pulse, in milliseconds; always
    /// below [`HOLD_PULSE_MS`].
    pub since_pulse_ms: u64,
}

impl LaneHoldTimer {
    /// Structural invariant.
    pub open spec fn wf(self) -> bool {
        self.since_pulse_ms < HOLD_PULSE_MS
    }

    /// A timer at the head of its period.
    pub fn new() -> (t: LaneHoldTimer)
        ensures
            t.wf(),
            t.since_pulse_ms == 0,
    {
        LaneHoldTimer { since_pulse_ms: 0 }
    }

    /// Restart the period (a long note's attack was just hit).
    pub fn reset(&mut self)
        ensures
            final(self).wf(),
            final(self).since_pulse_ms == 0,
    {
        self.since_pulse_ms = 0;
    }

    /// Accumulate `delta_ms` of hold time; report whether at least one full
    /// period elapsed (one pulse fires per frame at most, as in a repeating
    /// frame timer).
    pub fn tick(&mut self, delta_ms: u64) -> (pulse: bool)
        requires
            old(self).wf(),
        ensures
            final(self).wf(),
            pulse == (old(self).since_pulse_ms + delta_ms >= HOLD_PULSE_MS),
            final(self).since_pulse_ms == (old(self).since_pulse_ms + delta_ms) % (
            HOLD_PULSE_MS as int),
    {
        if delta_ms >= HOLD_PULSE_MS - self.since_pulse_ms {
            let overshoot = delta_ms - (HOLD_PULSE_MS - self.since_pulse_ms);
            proof {
                lemma_sub_mod_noop(
                    self.since_pulse_ms + delta_ms,
                    HOLD_PULSE_MS as int,
                    HOLD_PULSE_MS as int,
                );
                lemma_mod_twice(overshoot as int, HOLD_PULSE_MS as int);
                lemma_mod_self_0(HOLD_PULSE_MS as int);
            }
            self.since_pulse_ms = overshoot % HOLD_PULSE_MS;
            true
        } else {
            self.since_pulse_ms = self.since_pulse_ms + delta_ms;
            false
        }
    }
}

} // verus!
