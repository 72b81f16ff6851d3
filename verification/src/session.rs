//! One play session: the per-frame update that ties the clock, the
//! scheduler, the judgement engine and the feedback counters together.
//!
//! The presentation layer calls [`GameSession::tick`] once per frame with
//! the frame's wall-clock delta and an edge snapshot of the four keys and
//! the pause toggle; it receives the pause transition and the judgement
//! events of the frame, and reads positions, counters and backlight state
//! back out of the session.

use vstd::prelude::*;
use vstd::pervasive::VecAdditionalExecFns;
use crate::chart::{sorted_by_timing, Chart};
use crate::clock::{ticked, toggle_signal, toggled, Clock, LaneHoldTimer, PauseSignal};
use crate::judge::{judge_note, spec_judge_note, ActiveNote, JudgeEvent, KeyEdges, NoteStep};
use crate::note::{lane_of_index, spec_lane_of_index, JudgeAccuracy, Note, spec_velocity};
use crate::scheduler::{should_spawn, spec_should_spawn};
use crate::score::{spec_accuracy_centi, Combo, Scoreboard, TotalAccuracy};

verus! {

/// The judgement scan of one lane, as a mathematical function.
///
/// Active notes are examined in spawn order. A note the step leaves
/// untouched lets the scan move on; the first note that resolves or absorbs
/// hold time stops it. A resolved note is replaced (or removed, when
/// retired) and its grade is the lane's event for this frame.
pub open spec fn spec_judge_lane(
    notes: Seq<ActiveNote>,
    edges: KeyEdges,
    elapsed: u64,
    delta: u64,
    timer: LaneHoldTimer,
    score: Scoreboard,
) -> (Seq<ActiveNote>, LaneHoldTimer, Scoreboard, Option<JudgeAccuracy>)
    decreases notes.len(),
{
    if notes.len() == 0 {
        (notes, timer, score, Option::None)
    } else {
        let (an2, t2, s2, step) = spec_judge_note(notes[0], edges, elapsed, delta, timer, score);
        match step {
            NoteStep::Untouched => {
                let r = spec_judge_lane(notes.drop_first(), edges, elapsed, delta, timer, score);
                (seq![notes[0]] + r.0, r.1, r.2, r.3)
            },
            NoteStep::HoldTick => (notes.update(0, an2), t2, s2, Option::None),
            NoteStep::Resolved { judge, retire } => (
                if retire {
                    notes.drop_first()
                } else {
                    notes.update(0, an2)
                },
                t2,
                s2,
                Option::Some(judge),
            ),
        }
    }
}

/// A lane-scan result with already-passed notes put back in front.
pub open spec fn with_kept(
    pre: Seq<ActiveNote>,
    r: (Seq<ActiveNote>, LaneHoldTimer, Scoreboard, Option<JudgeAccuracy>),
) -> (Seq<ActiveNote>, LaneHoldTimer, Scoreboard, Option<JudgeAccuracy>) {
    (pre + r.0, r.1, r.2, r.3)
}

/// Scan one lane's active notes against this frame's key snapshot; only
/// called while the clock runs.
#[verifier::loop_isolation(false)]
pub fn judge_lane(
    notes: Vec<ActiveNote>,
    edges: KeyEdges,
    elapsed: u64,
    delta: u64,
    timer: LaneHoldTimer,
    score: Scoreboard,
) -> (r: (Vec<ActiveNote>, LaneHoldTimer, Scoreboard, Option<JudgeAccuracy>))
    requires
        forall|k: int| 0 <= k < notes@.len() ==> (#[trigger] notes@[k]).wf(),
        timer.wf(),
        score.has_headroom(),
    ensures
        (r.0@, r.1, r.2, r.3) == spec_judge_lane(notes@, edges, elapsed, delta, timer, score),
        forall|k: int| 0 <= k < r.0@.len() ==> (#[trigger] r.0@[k]).wf(),
        r.1.wf(),
        score.perfect <= r.2.perfect <= score.perfect + 1,
        score.great <= r.2.great <= score.great + 1,
        score.miss <= r.2.miss <= score.miss + 1,
        r.2.bad == score.bad,
        r.2.total() <= score.total() + 1,
{
    let ghost orig = notes@;
    let mut notes = notes;
    let mut i: usize = 0;
    proof {
        assert(orig.skip(0) =~= orig);
        assert(orig.take(0) + orig =~= orig);
        let rr = spec_judge_lane(orig, edges, elapsed, delta, timer, score);
        assert(with_kept(orig.take(0), spec_judge_lane(orig.skip(0), edges, elapsed, delta, timer, score))
            == rr);
    }
    while i < notes.len()
        invariant
            0 <= i <= notes@.len(),
            notes@ == orig,
            forall|k: int| 0 <= k < orig.len() ==> (#[trigger] orig[k]).wf(),
            timer.wf(),
            score.has_headroom(),
            spec_judge_lane(orig, edges, elapsed, delta, timer, score) == with_kept(
                orig.take(i as int),
                spec_judge_lane(orig.skip(i as int), edges, elapsed, delta, timer, score),
            ),
        decreases notes@.len() - i,
    {
        proof {
            assert(orig.skip(i as int)[0] == orig[i as int]);
            assert(orig.skip(i as int).drop_first() =~= orig.skip(i + 1));
        }
        let (an2, t2, s2, step) = judge_note(&notes[i], edges, elapsed, delta, &timer, &score);
        match step {
            NoteStep::Untouched => {
                proof {
                    let rest = spec_judge_lane(
                        orig.skip(i + 1),
                        edges,
                        elapsed,
                        delta,
                        timer,
                        score,
                    );
                    assert(orig.take(i as int) + (seq![orig[i as int]] + rest.0) =~= orig.take(
                        i + 1,
                    ) + rest.0);
                }
                i = i + 1;
            },
            NoteStep::HoldTick => {
                notes.set(i, an2);
                proof {
                    assert(orig.skip(i as int).update(0, an2) =~= orig.update(i as int, an2).skip(
                        i as int,
                    ));
                    assert(orig.take(i as int) + orig.update(i as int, an2).skip(i as int)
                        =~= orig.update(i as int, an2));
                    assert(notes@ =~= orig.update(i as int, an2));
                }
                return (notes, t2, s2, Option::None);
            },
            NoteStep::Resolved { judge, retire } => {
                if retire {
                    notes.remove(i);
                    proof {
                        assert(orig.take(i as int) + orig.skip(i + 1) =~= orig.remove(i as int));
                        assert(notes@ =~= orig.remove(i as int));
                        assert(orig.skip(i as int).drop_first() =~= orig.skip(i + 1));
                    }
                } else {
                    notes.set(i, an2);
                    proof {
                        assert(orig.skip(i as int).update(0, an2) =~= orig.update(
                            i as int,
                            an2,
                        ).skip(i as int));
                        assert(orig.take(i as int) + orig.update(i as int, an2).skip(i as int)
                            =~= orig.update(i as int, an2));
                        assert(notes@ =~= orig.update(i as int, an2));
                    }
                }
                return (notes, t2, s2, Option::Some(judge));
            },
        }
    }
    proof {
        assert(orig.skip(i as int) =~= Seq::<ActiveNote>::empty());
        assert(orig.take(i as int) + Seq::<ActiveNote>::empty() =~= orig);
    }
    (notes, timer, score, Option::None)
}

/// The spawn-ahead step of one lane, as a mathematical function: the head of
/// the queue materializes once it reaches the visibility threshold, and at
/// most one note materializes per frame.
pub open spec fn spec_spawn_lane(queue: Seq<Note>, active: Seq<ActiveNote>, elapsed: u64) -> (
    Seq<Note>,
    Seq<ActiveNote>,
) {
    if queue.len() > 0 && spec_should_spawn(
        queue[0].timing as int,
        elapsed as int,
        spec_velocity(queue[0].speed_centi as int),
    ) {
        (queue.drop_first(), active.push(ActiveNote { note: queue[0], held_ms: 0 }))
    } else {
        (queue, active)
    }
}

/// One lane's whole frame, as a mathematical function: spawn, then judge.
pub open spec fn spec_lane_tick(
    queue: Seq<Note>,
    active: Seq<ActiveNote>,
    edges: KeyEdges,
    elapsed: u64,
    delta: u64,
    timer: LaneHoldTimer,
    score: Scoreboard,
) -> (Seq<Note>, Seq<ActiveNote>, LaneHoldTimer, Scoreboard, Option<JudgeAccuracy>) {
    let (q2, a2) = spec_spawn_lane(queue, active, elapsed);
    let (a3, t2, s2, ev) = spec_judge_lane(a2, edges, elapsed, delta, timer, score);
    (q2, a3, t2, s2, ev)
}

/// Run one lane's frame: materialize the head of the queue if it is due,
/// then judge the lane's active notes.
pub fn lane_tick(
    queue: Vec<Note>,
    active: Vec<ActiveNote>,
    edges: KeyEdges,
    elapsed: u64,
    delta: u64,
    timer: LaneHoldTimer,
    score: Scoreboard,
) -> (r: (Vec<Note>, Vec<ActiveNote>, LaneHoldTimer, Scoreboard, Option<JudgeAccuracy>))
    requires
        forall|k: int| 0 <= k < queue@.len() ==> (#[trigger] queue@[k]).wf(),
        forall|k: int| 0 <= k < active@.len() ==> (#[trigger] active@[k]).wf(),
        timer.wf(),
        score.has_headroom(),
    ensures
        (r.0@, r.1@, r.2, r.3, r.4) == spec_lane_tick(
            queue@,
            active@,
            edges,
            elapsed,
            delta,
            timer,
            score,
        ),
        forall|k: int| 0 <= k < r.0@.len() ==> (#[trigger] r.0@[k]).wf(),
        forall|k: int| 0 <= k < r.1@.len() ==> (#[trigger] r.1@[k]).wf(),
        r.2.wf(),
        score.perfect <= r.3.perfect <= score.perfect + 1,
        score.great <= r.3.great <= score.great + 1,
        score.miss <= r.3.miss <= score.miss + 1,
        r.3.bad == score.bad,
        r.3.total() <= score.total() + 1,
{
    let ghost q0 = queue@;
    let mut queue = queue;
    let mut active = active;
    if queue.len() > 0 && should_spawn(&queue[0], elapsed) {
        let head = queue.remove(0);
        active.push(ActiveNote { note: head, held_ms: 0 });
        proof {
            assert(queue@ =~= q0.drop_first());
        }
    }
    let (a3, t2, s2, ev) = judge_lane(active, edges, elapsed, delta, timer, score);
    (queue, a3, t2, s2, ev)
}

/// Per-frame input from the presentation layer: the frame's duration, one
/// edge snapshot per key, and the pause toggle edge. Judgement and backlight
/// consume the same snapshot, so one physical press is never counted twice.
#[derive(Debug, Clone, Copy)]
pub struct TickInput {
    /// Wall-clock duration of the frame, in milliseconds.
    pub delta_ms: u64,
    /// Edge snapshot of the four lane keys, indexed by lane.
    pub keys: [KeyEdges; 4],
    /// The pause toggle went down this frame.
    pub pause_pressed: bool,
}

/// What one frame produced for the presentation layer.
#[derive(Debug)]
pub struct TickOutput {
    /// Pause transition of this frame, exactly one signal per toggle edge.
    pub pause: PauseSignal,
    /// Judgement events of this frame, at most one per lane, in lane order.
    /// Every non-miss event also triggers its lane's key sound.
    pub events: Vec<JudgeEvent>,
}

/// The lane's judgement event of the frame, as a sequence of zero or one
/// events.
pub open spec fn opt_event(lane: int, ev: Option<JudgeAccuracy>) -> Seq<JudgeEvent> {
    match ev {
        Option::None => Seq::empty(),
        Option::Some(j) => seq![JudgeEvent { lane: spec_lane_of_index(lane), judge: j }],
    }
}

/// The combo after a sequence of judgement events: a miss resets it to zero,
/// anything else lengthens it by one.
pub open spec fn combo_fold(start: int, evs: Seq<JudgeEvent>) -> int
    decreases evs.len(),
{
    if evs.len() == 0 {
        start
    } else {
        combo_fold(
            if evs[0].judge == JudgeAccuracy::Miss {
                0
            } else {
                start + 1
            },
            evs.drop_first(),
        )
    }
}

/// Appending one event to a run of events steps the folded combo once.
pub proof fn lemma_combo_fold_snoc(start: int, evs: Seq<JudgeEvent>, e: JudgeEvent)
    ensures
        combo_fold(start, evs.push(e)) == if e.judge == JudgeAccuracy::Miss {
            0int
        } else {
            combo_fold(start, evs) + 1
        },
    decreases evs.len(),
{
    reveal_with_fuel(combo_fold, 2);
    if evs.len() == 0 {
        assert(evs.push(e).drop_first() =~= evs);
        assert(evs.push(e)[0] == e);
    } else {
        let step0: int = if evs[0].judge == JudgeAccuracy::Miss {
            0int
        } else {
            start + 1
        };
        assert(evs.push(e)[0] == evs[0]);
        assert(evs.push(e).drop_first() =~= evs.drop_first().push(e));
        assert(combo_fold(start, evs.push(e)) == combo_fold(step0, evs.drop_first().push(e)));
        lemma_combo_fold_snoc(step0, evs.drop_first(), e);
        assert(combo_fold(start, evs) == combo_fold(step0, evs.drop_first()));
    }
}

/// A lane's backlight after one frame: a key-down while the clock is not
/// paused lights it, a key-up clears it.
pub open spec fn spec_backlight_next(on: bool, k: KeyEdges, paused: bool) -> bool {
    if k.just_pressed && !paused {
        !k.just_released
    } else if k.just_released {
        false
    } else {
        on
    }
}

/// A lane's backlight after one frame.
pub fn backlight_next(on: bool, k: KeyEdges, paused: bool) -> (r: bool)
    ensures
        r == spec_backlight_next(on, k, paused),
{
    if k.just_pressed && !paused {
        !k.just_released
    } else if k.just_released {
        false
    } else {
        on
    }
}

/// One play session: the chart's remaining queues, the active notes, the
/// clock, and the feedback state, updated once per rendered frame.
#[derive(Debug)]
pub struct GameSession {
    /// Not-yet-spawned notes, one sorted queue per lane.
    pub chart: Chart,
    /// Materialized, unresolved notes, one list per lane in spawn order.
    pub active: Vec<Vec<ActiveNote>>,
    /// The play clock.
    pub clock: Clock,
    /// Judgement counters.
    pub score: Scoreboard,
    /// Consecutive-non-miss streak.
    pub combo: Combo,
    /// Accuracy readout, in hundredths of a percent.
    pub accuracy: TotalAccuracy,
    /// One periodic hold timer per lane.
    pub hold_timers: Vec<LaneHoldTimer>,
    /// One backlight flag per lane.
    pub backlight: Vec<bool>,
}

impl GameSession {
    /// Structural invariant of a session.
    pub open spec fn wf(self) -> bool {
        &&& self.chart.wf()
        &&& self.active@.len() == 4
        &&& forall|l: int, k: int|
            0 <= l < 4 && 0 <= k < self.active@[l]@.len() ==> (
            #[trigger] self.active@[l]@[k]).wf()
        &&& self.clock.wf()
        &&& self.hold_timers@.len() == 4
        &&& forall|l: int| 0 <= l < 4 ==> (#[trigger] self.hold_timers@[l]).wf()
        &&& self.backlight@.len() == 4
        &&& self.score.judged_total() > 0 ==> self.accuracy.centi_percent == spec_accuracy_centi(
            self.score.perfect as int,
            self.score.great as int,
            self.score.miss as int,
        )
    }

    /// Open a session on a loaded chart: countdown at its head, no active
    /// notes, zeroed counters, dark backlights.
    pub fn new(chart: Chart) -> (s: GameSession)
        requires
            chart.wf(),
        ensures
            s.wf(),
            s.chart == chart,
            s.active@.len() == 4 && forall|l: int| 0 <= l < 4 ==> (#[trigger] s.active@[l]@).len()
                == 0,
            s.clock == (Clock {
                hold_remaining_ms: crate::clock::HOLD_MS,
                elapsed_ms: 0,
                paused: false,
            }),
            s.score == (Scoreboard { perfect: 0, great: 0, bad: 0, miss: 0 }),
            s.combo.count == 0,
            s.accuracy.centi_percent == 0,
            forall|l: int| 0 <= l < 4 ==> (#[trigger] s.hold_timers@[l]).since_pulse_ms == 0,
            forall|l: int| 0 <= l < 4 ==> !(#[trigger] s.backlight@[l]),
    {
        let mut active: Vec<Vec<ActiveNote>> = Vec::new();
        active.push(Vec::new());
        active.push(Vec::new());
        active.push(Vec::new());
        active.push(Vec::new());
        let mut hold_timers: Vec<LaneHoldTimer> = Vec::new();
        hold_timers.push(LaneHoldTimer::new());
        hold_timers.push(LaneHoldTimer::new());
        hold_timers.push(LaneHoldTimer::new());
        hold_timers.push(LaneHoldTimer::new());
        let mut backlight: Vec<bool> = Vec::new();
        backlight.push(false);
        backlight.push(false);
        backlight.push(false);
        backlight.push(false);
        GameSession {
            chart,
            active,
            clock: Clock::new(),
            score: Scoreboard::new(),
            combo: Combo::new(),
            accuracy: TotalAccuracy::new(),
            hold_timers,
            backlight,
        }
    }

    /// Run one lane's frame against the session: spawn and judge the lane,
    /// commit its new queue, active list, hold timer and the scoreboard, and
    /// append the lane's judgement event — which also steps the combo.
    fn run_lane(
        &mut self,
        l: usize,
        edges: KeyEdges,
        elapsed: u64,
        delta: u64,
        events: &mut Vec<JudgeEvent>,
        Ghost(combo0): Ghost<int>,
    )
        requires
            l < 4,
            old(self).chart.lanes@.len() == 4,
            old(self).active@.len() == 4,
            old(self).hold_timers@.len() == 4,
            sorted_by_timing(old(self).chart.lanes@[l as int]@),
            forall|k: int|
                0 <= k < old(self).chart.lanes@[l as int]@.len() ==> (#[trigger] old(self).chart.lanes@[l as int]@[k]).wf() && old(self).chart.lanes@[l as int]@[k].is_unjudged()
                    && crate::note::spec_lane_index(
                    old(self).chart.lanes@[l as int]@[k].press_key,
                ) == l,
            forall|k: int|
                0 <= k < old(self).active@[l as int]@.len() ==> (#[trigger] old(self).active@[l as int]@[k]).wf(),
            old(self).hold_timers@[l as int].wf(),
            old(self).score.has_headroom(),
            old(self).combo.count < u64::MAX,
            old(self).combo.count == combo_fold(combo0, old(events)@),
        ensures
            ({
                let r = spec_lane_tick(
                    old(self).chart.lanes@[l as int]@,
                    old(self).active@[l as int]@,
                    edges,
                    elapsed,
                    delta,
                    old(self).hold_timers@[l as int],
                    old(self).score,
                );
                &&& final(self).chart.lanes@[l as int]@ == r.0
                &&& final(self).active@[l as int]@ == r.1
                &&& final(self).hold_timers@[l as int] == r.2
                &&& final(self).score == r.3
                &&& final(events)@ == old(events)@ + opt_event(l as int, r.4)
            }),
            final(self).chart.lanes@.len() == 4,
            final(self).active@.len() == 4,
            final(self).hold_timers@.len() == 4,
            forall|m: int|
                0 <= m < 4 && m != l ==> final(self).chart.lanes@[m] == old(self).chart.lanes@[m],
            forall|m: int| 0 <= m < 4 && m != l ==> final(self).active@[m] == old(self).active@[m],
            forall|m: int|
                0 <= m < 4 && m != l ==> final(self).hold_timers@[m] == old(self).hold_timers@[m],
            final(self).clock == old(self).clock,
            final(self).backlight == old(self).backlight,
            final(self).accuracy == old(self).accuracy,
            sorted_by_timing(final(self).chart.lanes@[l as int]@),
            forall|k: int|
                0 <= k < final(self).chart.lanes@[l as int]@.len() ==> (#[trigger] final(self).chart.lanes@[l as int]@[k]).wf() && final(self).chart.lanes@[l as int]@[k].is_unjudged() && crate::note::spec_lane_index(
                    final(self).chart.lanes@[l as int]@[k].press_key,
                ) == l,
            forall|k: int|
                0 <= k < final(self).active@[l as int]@.len() ==> (#[trigger] final(self).active@[l as int]@[k]).wf(),
            final(self).hold_timers@[l as int].wf(),
            old(self).score.perfect <= final(self).score.perfect <= old(self).score.perfect + 1,
            old(self).score.great <= final(self).score.great <= old(self).score.great + 1,
            old(self).score.miss <= final(self).score.miss <= old(self).score.miss + 1,
            final(self).score.bad == old(self).score.bad,
            final(self).combo.count <= old(self).combo.count + 1,
            final(self).combo.count == combo_fold(combo0, final(events)@),
    {
        let ghost oldq = self.chart.lanes@[l as int]@;
        let mut q: Vec<Note> = Vec::new();
        core::mem::swap(&mut self.chart.lanes[l], &mut q);
        let mut a: Vec<ActiveNote> = Vec::new();
        core::mem::swap(&mut self.active[l], &mut a);
        let t = self.hold_timers[l];
        let (q2, a2, t2, s2, ev) = lane_tick(q, a, edges, elapsed, delta, t, self.score);
        proof {
            if oldq.len() > 0 && spec_should_spawn(
                oldq[0].timing as int,
                elapsed as int,
                spec_velocity(oldq[0].speed_centi as int),
            ) {
                crate::chart::lemma_queue_tail(oldq, l as int);
            }
        }
        self.chart.lanes.set(l, q2);
        self.active.set(l, a2);
        self.hold_timers.set(l, t2);
        self.score = s2;
        match ev {
            Option::Some(j) => {
                let ghost pre = events@;
                events.push(JudgeEvent { lane: lane_of_index(l), judge: j });
                self.combo.apply_judgement(j);
                proof {
                    lemma_combo_fold_snoc(
                        combo0,
                        pre,
                        JudgeEvent { lane: spec_lane_of_index(l as int), judge: j },
                    );
                    assert(events@ =~= pre + opt_event(l as int, ev));
                }
            },
            Option::None => {
                proof {
                    assert(events@ =~= events@ + opt_event(l as int, ev));
                }
            },
        }
    }

    /// Advance the session by one frame.
    ///
    /// In order: the pause toggle is applied, the clock advances, and — only
    /// while the clock runs — each lane spawns its due note and judges its
    /// active notes against the same key snapshot; every judgement event
    /// then drives the combo, and the accuracy readout is recomputed. The
    /// backlights follow the raw key edges whenever the clock is not paused.
    #[verifier::rlimit(80)]
    pub fn tick(&mut self, input: TickInput) -> (out: TickOutput)
        requires
            old(self).wf(),
            old(self).score.perfect + 4 <= u64::MAX,
            old(self).score.great + 4 <= u64::MAX,
            old(self).score.miss + 4 <= u64::MAX,
            old(self).combo.count + 4 <= u64::MAX,
        ensures
            final(self).wf(),
            final(self).clock == ticked(
                if input.pause_pressed {
                    toggled(old(self).clock)
                } else {
                    old(self).clock
                },
                input.delta_ms,
            ),
            out.pause == if input.pause_pressed {
                toggle_signal(old(self).clock)
            } else {
                PauseSignal::Unchanged
            },
            final(self).score.bad == old(self).score.bad,
            old(self).score.perfect <= final(self).score.perfect <= old(self).score.perfect + 4,
            old(self).score.great <= final(self).score.great <= old(self).score.great + 4,
            old(self).score.miss <= final(self).score.miss <= old(self).score.miss + 4,
            final(self).combo.count == combo_fold(old(self).combo.count as int, out.events@),
            final(self).score.judged_total() > 0 ==> final(self).accuracy.centi_percent
                == spec_accuracy_centi(
                final(self).score.perfect as int,
                final(self).score.great as int,
                final(self).score.miss as int,
            ),
            final(self).score.judged_total() == 0 ==> final(self).accuracy == old(self).accuracy,
            forall|l: int|
                0 <= l < 4 ==> final(self).backlight@[l] == spec_backlight_next(
                    old(self).backlight@[l],
                    input.keys@[l],
                    final(self).clock.paused,
                ),
            !final(self).clock.is_running() ==> final(self).chart == old(self).chart && final(self).active@ == old(self).active@ && final(self).score == old(self).score && final(self).hold_timers@ == old(self).hold_timers@ && out.events@ == Seq::<JudgeEvent>::empty(),
            final(self).clock.is_running() ==> ({
                let elapsed = final(self).clock.elapsed_ms;
                let r0 = spec_lane_tick(
                    old(self).chart.lanes@[0]@,
                    old(self).active@[0]@,
                    input.keys@[0],
                    elapsed,
                    input.delta_ms,
                    old(self).hold_timers@[0],
                    old(self).score,
                );
                let r1 = spec_lane_tick(
                    old(self).chart.lanes@[1]@,
                    old(self).active@[1]@,
                    input.keys@[1],
                    elapsed,
                    input.delta_ms,
                    old(self).hold_timers@[1],
                    r0.3,
                );
                let r2 = spec_lane_tick(
                    old(self).chart.lanes@[2]@,
                    old(self).active@[2]@,
                    input.keys@[2],
                    elapsed,
                    input.delta_ms,
                    old(self).hold_timers@[2],
                    r1.3,
                );
                let r3 = spec_lane_tick(
                    old(self).chart.lanes@[3]@,
                    old(self).active@[3]@,
                    input.keys@[3],
                    elapsed,
                    input.delta_ms,
                    old(self).hold_timers@[3],
                    r2.3,
                );
                &&& final(self).chart.lanes@[0]@ == r0.0
                &&& final(self).active@[0]@ == r0.1
                &&& final(self).hold_timers@[0] == r0.2
                &&& final(self).chart.lanes@[1]@ == r1.0
                &&& final(self).active@[1]@ == r1.1
                &&& final(self).hold_timers@[1] == r1.2
                &&& final(self).chart.lanes@[2]@ == r2.0
                &&& final(self).active@[2]@ == r2.1
                &&& final(self).hold_timers@[2] == r2.2
                &&& final(self).chart.lanes@[3]@ == r3.0
                &&& final(self).active@[3]@ == r3.1
                &&& final(self).hold_timers@[3] == r3.2
                &&& final(self).score == r3.3
                &&& out.events@ == opt_event(0, r0.4) + opt_event(1, r1.4) + opt_event(2, r2.4)
                    + opt_event(3, r3.4)
            }),
    {
        let pause_sig = if input.pause_pressed {
            self.clock.toggle_pause()
        } else {
            PauseSignal::Unchanged
        };
        self.clock.tick(input.delta_ms);
        let elapsed = self.clock.elapsed_ms;
        let ghost combo0 = self.combo.count as int;
        let mut events: Vec<JudgeEvent> = Vec::new();
        let running = self.clock.hold_remaining_ms == 0 && !self.clock.paused;
        if running {
            self.run_lane(0, input.keys[0], elapsed, input.delta_ms, &mut events, Ghost(combo0));
            self.run_lane(1, input.keys[1], elapsed, input.delta_ms, &mut events, Ghost(combo0));
            self.run_lane(2, input.keys[2], elapsed, input.delta_ms, &mut events, Ghost(combo0));
            self.run_lane(3, input.keys[3], elapsed, input.delta_ms, &mut events, Ghost(combo0));
        }
        let b0 = backlight_next(self.backlight[0], input.keys[0], self.clock.paused);
        let b1 = backlight_next(self.backlight[1], input.keys[1], self.clock.paused);
        let b2 = backlight_next(self.backlight[2], input.keys[2], self.clock.paused);
        let b3 = backlight_next(self.backlight[3], input.keys[3], self.clock.paused);
        self.backlight.set(0, b0);
        self.backlight.set(1, b1);
        self.backlight.set(2, b2);
        self.backlight.set(3, b3);
        self.accuracy.update(&self.score);
        TickOutput { pause: pause_sig, events }
    }
}

} // verus!
