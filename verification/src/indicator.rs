//! The transient on-screen judgement indicator: its display timer and
//! shrink-in animation, as plain data the presentation layer renders.
//!
//! An indicator shows one judgement grade for a fixed duration, shrinking a
//! step per frame over its first tenth of a second; at most one indicator is
//! kept on screen, so when a second one appears the older ones leave at the
//! next update.

use vstd::prelude::*;
use crate::judge::JudgeEvent;
use crate::note::JudgeAccuracy;

verus! {

/// How long an indicator stays on screen, in milliseconds.
pub const INDICATOR_MS: u64 = 1500;

/// The shrink-in animation runs while the indicator is younger than this,
/// in milliseconds.
pub const INDICATOR_SHRINK_MS: u64 = 100;

/// Scale of a fresh indicator, in hundredths.
pub const INDICATOR_SCALE_CENTI: u32 = 100;

/// The shrink animation never goes below this scale, in hundredths.
pub const INDICATOR_SCALE_FLOOR_CENTI: u32 = 70;

/// How much scale one shrink step takes, in hundredths.
pub const INDICATOR_SHRINK_STEP_CENTI: u32 = 2;

/// One on-screen judgement indicator.
#[derive(Debug, Clone, Copy, PartialEq, Eq, Structural)]
pub struct JudgeIndicator {
    /// The grade it shows.
    pub judge: JudgeAccuracy,
    /// How long it has been shown, in milliseconds.
    pub age_ms: u64,
    /// Its current scale, in hundredths.
    pub scale_centi: u32,
}

/// The indicator a frame's judgement events put on screen: one for the first
/// event, at full scale and age zero.
pub fn indicator_for(events: &Vec<JudgeEvent>) -> (r: Option<JudgeIndicator>)
    ensures
        events@.len() == 0 ==> r is None,
        events@.len() > 0 ==> r == Option::Some(
            JudgeIndicator {
                judge: events@[0].judge,
                age_ms: 0,
                scale_centi: INDICATOR_SCALE_CENTI,
            },
        ),
{
    if events.len() > 0 {
        Option::Some(
            JudgeIndicator {
                judge: events[0].judge,
                age_ms: 0,
                scale_centi: INDICATOR_SCALE_CENTI,
            },
        )
    } else {
        Option::None
    }
}

/// One indicator aged by one frame: the shrink step applies while it is
/// young and above the scale floor.
pub open spec fn spec_aged(ind: JudgeIndicator, delta: u64) -> JudgeIndicator {
    let age2: u64 = if ind.age_ms + delta <= INDICATOR_MS {
        (ind.age_ms + delta) as u64
    } else {
        INDICATOR_MS
    };
    let scale2: u32 = if age2 < INDICATOR_SHRINK_MS && ind.scale_centi
        > INDICATOR_SCALE_FLOOR_CENTI && ind.scale_centi >= INDICATOR_SHRINK_STEP_CENTI {
        (ind.scale_centi - INDICATOR_SHRINK_STEP_CENTI) as u32
    } else {
        ind.scale_centi
    };
    JudgeIndicator { age_ms: age2, scale_centi: scale2, ..ind }
}

/// Whether this frame ends the indicator's display time.
pub open spec fn spec_expired(ind: JudgeIndicator, delta: u64) -> bool {
    ind.age_ms + delta >= INDICATOR_MS
}

/// The indicators kept after one frame, scanning in display order with
/// `count` indicators initially on screen: an indicator leaves when its time
/// is up or while more than one is on screen.
pub open spec fn spec_update_indicators(inds: Seq<JudgeIndicator>, delta: u64, count: int) -> Seq<
    JudgeIndicator,
>
    decreases inds.len(),
{
    if inds.len() == 0 {
        inds
    } else if spec_expired(inds[0], delta) || count >= 2 {
        spec_update_indicators(inds.drop_first(), delta, count - 1)
    } else {
        seq![spec_aged(inds[0], delta)] + spec_update_indicators(inds.drop_first(), delta, count)
    }
}

/// Age every on-screen indicator by one frame, dropping the expired ones and
/// thinning the display back towards a single indicator.
pub fn update_indicators(inds: Vec<JudgeIndicator>, delta_ms: u64) -> (r: Vec<JudgeIndicator>)
    ensures
        r@ == spec_update_indicators(inds@, delta_ms, inds@.len() as int),
{
    let ghost orig = inds@;
    let mut out: Vec<JudgeIndicator> = Vec::new();
    let mut i: usize = 0;
    let mut count: usize = inds.len();
    proof {
        assert(orig.skip(0) =~= orig);
        assert(out@ + spec_update_indicators(orig, delta_ms, orig.len() as int)
            =~= spec_update_indicators(orig, delta_ms, orig.len() as int));
    }
    while i < inds.len()
        invariant
            0 <= i <= orig.len(),
            orig == inds@,
            count <= orig.len(),
            i + count >= orig.len(),
            spec_update_indicators(orig, delta_ms, orig.len() as int) == out@
                + spec_update_indicators(orig.skip(i as int), delta_ms, count as int),
        decreases orig.len() - i,
    {
        let ind = inds[i];
        proof {
            assert(orig.skip(i as int)[0] == orig[i as int]);
            assert(orig.skip(i as int).drop_first() =~= orig.skip(i + 1));
        }
        let expired = ind.age_ms >= INDICATOR_MS || delta_ms >= INDICATOR_MS - ind.age_ms;
        if expired || count >= 2 {
            count = count - 1;
        } else {
            let age2: u64 = if INDICATOR_MS - ind.age_ms <= delta_ms {
                INDICATOR_MS
            } else {
                ind.age_ms + delta_ms
            };
            let scale2: u32 = if age2 < INDICATOR_SHRINK_MS && ind.scale_centi
                > INDICATOR_SCALE_FLOOR_CENTI && ind.scale_centi >= INDICATOR_SHRINK_STEP_CENTI {
                ind.scale_centi - INDICATOR_SHRINK_STEP_CENTI
            } else {
                ind.scale_centi
            };
            let aged = JudgeIndicator { age_ms: age2, scale_centi: scale2, ..ind };
            let ghost pre = out@;
            out.push(aged);
            proof {
                assert(aged == spec_aged(orig[i as int], delta_ms));
                assert(pre + (seq![aged] + spec_update_indicators(
                    orig.skip(i + 1),
                    delta_ms,
                    count as int,
                )) =~= out@ + spec_update_indicators(orig.skip(i + 1), delta_ms, count as int));
            }
        }
        i = i + 1;
    }
    proof {
        assert(orig.skip(i as int) =~= Seq::<JudgeIndicator>::empty());
        assert(out@ + Seq::<JudgeIndicator>::empty() =~= out@);
    }
    out
}

} // verus!
