//! Score counters, the combo streak, and the derived accuracy percentage.

use vstd::prelude::*;
use vstd::arithmetic::div_mod::{lemma_div_is_ordered, lemma_div_multiples_vanish};
use crate::note::JudgeAccuracy;

verus! {

/// Judgement counters of one play session. They only grow while the session
/// runs. `bad` is displayed by the presentation layer as its own counter,
/// but — a deliberate quirk of the scoring rules — no judgement path
/// increments it and the accuracy formula ignores it.
#[derive(Debug, Clone, Copy, PartialEq, Eq, Structural)]
pub struct Scoreboard {
    pub perfect: u64,
    pub great: u64,
    pub bad: u64,
    pub miss: u64,
}

impl Scoreboard {
    /// A zeroed scoreboard.
    pub fn new() -> (s: Scoreboard)
        ensures
            s == (Scoreboard { perfect: 0, great: 0, bad: 0, miss: 0 }),
    {
        Scoreboard { perfect: 0, great: 0, bad: 0, miss: 0 }
    }

    /// Denominator of the accuracy formula: judgements that count towards
    /// accuracy (`bad` is deliberately excluded).
    pub open spec fn judged_total(self) -> int {
        self.perfect + self.great + self.miss
    }

    /// Sum of every counter.
    pub open spec fn total(self) -> int {
        self.perfect + self.great + self.bad + self.miss
    }

    /// Every counter has room for one more judgement.
    pub open spec fn has_headroom(self) -> bool {
        &&& self.perfect < u64::MAX
        &&& self.great < u64::MAX
        &&& self.miss < u64::MAX
    }
}

/// The consecutive-non-miss streak.
#[derive(Debug, Clone, Copy, PartialEq, Eq, Structural)]
pub struct Combo {
    pub count: u64,
}

impl Combo {
    /// A streak of zero.
    pub fn new() -> (c: Combo)
        ensures
            c.count == 0,
    {
        Combo { count: 0 }
    }

    /// Feed one judgement event into the streak: a miss resets it to zero,
    /// anything else lengthens it by exactly one.
    pub fn apply_judgement(&mut self, judge: JudgeAccuracy)
        requires
            old(self).count < u64::MAX,
        ensures
            final(self).count == if judge == JudgeAccuracy::Miss {
                0
            } else {
                old(self).count + 1
            },
    {
        if judge == JudgeAccuracy::Miss {
            self.count = 0;
        } else {
            self.count = self.count + 1;
        }
    }
}

/// The accuracy percentage in hundredths of a percent: `10000` means 100%.
///
/// The value is `(perfect * 100 + great * 90) / (perfect + great + miss)`
/// percent, rounded down to hundredths; while no judgement has been counted
/// it holds its previous value.
pub open spec fn spec_accuracy_centi(perfect: int, great: int, miss: int) -> int {
    (perfect * 10000 + great * 9000) / (perfect + great + miss)
}

/// Running accuracy readout, in hundredths of a percent.
#[derive(Debug, Clone, Copy, PartialEq, Eq, Structural)]
pub struct TotalAccuracy {
    pub centi_percent: u32,
}

impl TotalAccuracy {
    /// Initial readout of zero.
    pub fn new() -> (a: TotalAccuracy)
        ensures
            a.centi_percent == 0,
    {
        TotalAccuracy { centi_percent: 0 }
    }

    /// Recompute the percentage from the scoreboard, holding the previous
    /// value while the denominator is zero.
    pub fn update(&mut self, score: &Scoreboard)
        ensures
            score.judged_total() == 0 ==> *final(self) == *old(self),
            score.judged_total() > 0 ==> final(self).centi_percent == spec_accuracy_centi(
                score.perfect as int,
                score.great as int,
                score.miss as int,
            ),
            final(self).centi_percent <= 10000 || *final(self) == *old(self),
    {
        if score.perfect == 0 && score.great == 0 && score.miss == 0 {
            return ;
        }
        let numer: u128 = (score.perfect as u128) * 10000 + (score.great as u128) * 9000;
        let denom: u128 = (score.perfect as u128) + (score.great as u128) + (score.miss as u128);
        proof {
            lemma_accuracy_centi_in_range(
                score.perfect as int,
                score.great as int,
                score.miss as int,
            );
        }
        self.centi_percent = (numer / denom) as u32;
    }
}

/// Range law behind the accuracy readout: whenever it is recomputed, the
/// percentage lies between 0% and 100%.
pub proof fn lemma_accuracy_centi_in_range(perfect: int, great: int, miss: int)
    requires
        perfect >= 0,
        great >= 0,
        miss >= 0,
        perfect + great + miss > 0,
    ensures
        0 <= spec_accuracy_centi(perfect, great, miss) <= 10000,
{
    let numer = perfect * 10000 + great * 9000;
    let denom = perfect + great + miss;
    assert(numer <= 10000 * denom) by (nonlinear_arith)
        requires
            perfect >= 0,
            great >= 0,
            miss >= 0,
            numer == perfect * 10000 + great * 9000,
            denom == perfect + great + miss,
    ;
    lemma_div_is_ordered(0, numer, denom);
    lemma_div_is_ordered(numer, 10000 * denom, denom);
    lemma_div_multiples_vanish(10000, denom);
}

} // verus!
