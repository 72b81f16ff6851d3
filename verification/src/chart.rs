//! Per-lane queues of not-yet-spawned notes, and the chart loader.
//!
//! A chart holds one queue per lane, sorted ascending by start time (the
//! scheduler only ever pops the earliest). Loading parses every line,
//! partitions the notes by lane in file order, and sorts each lane; the
//! first bad line aborts the whole load.

use vstd::prelude::*;
use crate::note::{spec_lane_index, Note};
use crate::parse::{
    lemma_parsed_note_wf,
    lemma_split_nonempty,
    parse_note_line,
    spec_parse_line,
    split_by,
    split_bytes,
    ParseError,
    NEWLINE,
};

verus! {

broadcast use vstd::seq_lib::group_to_multiset_ensures, vstd::seq_lib::to_multiset_insert;

/// Queue order: start times never decrease.
pub open spec fn sorted_by_timing(s: Seq<Note>) -> bool {
    forall|i: int, j: int|
        0 <= i < j < s.len() ==> #[trigger] s[i].timing <= #[trigger] s[j].timing
}

/// The notes of `s` that belong to lane `lane`, in their order in `s`.
pub open spec fn lane_notes(s: Seq<Note>, lane: int) -> Seq<Note>
    decreases s.len(),
{
    if s.len() == 0 {
        Seq::empty()
    } else {
        let rest = lane_notes(s.drop_last(), lane);
        if spec_lane_index(s.last().press_key) == lane {
            rest.push(s.last())
        } else {
            rest
        }
    }
}

/// A note filtered into a lane comes from the source and belongs to that
/// lane.
pub proof fn lemma_lane_notes_membership(s: Seq<Note>, lane: int, x: Note)
    requires
        lane_notes(s, lane).contains(x),
    ensures
        s.contains(x),
        spec_lane_index(x.press_key) == lane,
    decreases s.len(),
{
    if s.len() > 0 {
        let rest = lane_notes(s.drop_last(), lane);
        if spec_lane_index(s.last().press_key) == lane && x == s.last() {
            assert(s[s.len() - 1] == x);
        } else {
            assert(rest.contains(x));
            lemma_lane_notes_membership(s.drop_last(), lane, x);
            let j = choose|j: int| 0 <= j < s.drop_last().len() && s.drop_last()[j] == x;
            assert(s[j] == x);
        }
    }
}

/// Popping the head of a sorted, well-formed lane queue leaves a sorted,
/// well-formed lane queue.
pub proof fn lemma_queue_tail(s: Seq<Note>, l: int)
    requires
        sorted_by_timing(s),
        s.len() > 0,
        forall|k: int|
            0 <= k < s.len() ==> (#[trigger] s[k]).wf() && s[k].is_unjudged() && spec_lane_index(
                s[k].press_key,
            ) == l,
    ensures
        sorted_by_timing(s.drop_first()),
        forall|k: int|
            0 <= k < s.drop_first().len() ==> (#[trigger] s.drop_first()[k]).wf()
                && s.drop_first()[k].is_unjudged() && spec_lane_index(
                s.drop_first()[k].press_key,
            ) == l,
{
    assert forall|i: int, j: int| 0 <= i < j < s.drop_first().len() implies #[trigger] s.drop_first()[i].timing
        <= #[trigger] s.drop_first()[j].timing by {
        assert(s.drop_first()[i] == s[i + 1]);
        assert(s.drop_first()[j] == s[j + 1]);
    }
    assert forall|k: int| 0 <= k < s.drop_first().len() implies (#[trigger] s.drop_first()[k]).wf()
        && s.drop_first()[k].is_unjudged() && spec_lane_index(s.drop_first()[k].press_key)
        == l by {
        assert(s.drop_first()[k] == s[k + 1]);
    }
}

/// Sort notes ascending by start time. The sort is stable: a note is always
/// inserted after the already-placed notes that share its start time.
pub fn sort_notes(notes: Vec<Note>) -> (r: Vec<Note>)
    ensures
        sorted_by_timing(r@),
        r@.to_multiset() == notes@.to_multiset(),
{
    let mut out: Vec<Note> = Vec::new();
    let mut i: usize = 0;
    proof {
        assert(notes@.take(0) =~= Seq::<Note>::empty());
    }
    while i < notes.len()
        invariant
            0 <= i <= notes@.len(),
            sorted_by_timing(out@),
            out@.to_multiset() == notes@.take(i as int).to_multiset(),
        decreases notes@.len() - i,
    {
        let note = notes[i];
        let ghost pre = out@;
        let mut j: usize = out.len();
        while j > 0 && out[j - 1].timing > note.timing
            invariant
                0 <= j <= out@.len(),
                out@ == pre,
                forall|k: int| j <= k < out@.len() ==> #[trigger] out@[k].timing > note.timing,
            decreases j,
        {
            j = j - 1;
        }
        out.insert(j, note);
        proof {
            assert forall|p: int, q: int| 0 <= p < q < out@.len() implies #[trigger] out@[p].timing
                <= #[trigger] out@[q].timing by {
                assert(forall|k: int| 0 <= k < j ==> out@[k] == pre[k]);
                assert(forall|k: int| j < k < out@.len() ==> out@[k] == pre[k - 1]);
                assert(out@[j as int] == note);
            }
            assert(notes@.take(i + 1).drop_last() =~= notes@.take(i as int));
            assert(notes@.take(i + 1) =~= notes@.take(i as int).push(note));
        }
        i = i + 1;
    }
    proof {
        assert(notes@.take(i as int) =~= notes@);
    }
    out
}

/// The lines of a chart text: the text split at each line feed, with the
/// empty tail after a final line feed dropped.
pub open spec fn spec_lines(text: Seq<u8>) -> Seq<Seq<u8>> {
    let ls = split_by(text, NEWLINE);
    if ls.last().len() == 0 {
        ls.drop_last()
    } else {
        ls
    }
}

/// Split a chart text into lines.
pub fn split_text_lines(text: &[u8]) -> (r: Vec<Vec<u8>>)
    ensures
        r@.map_values(|v: Vec<u8>| v@) == spec_lines(text@),
{
    let mut ls = split_bytes(text, NEWLINE);
    proof {
        lemma_split_nonempty(text@, NEWLINE);
        assert(ls@.map_values(|v: Vec<u8>| v@).len() == ls@.len());
    }
    if ls[ls.len() - 1].len() == 0 {
        let ghost pre = ls@;
        ls.pop();
        proof {
            assert(ls@.map_values(|v: Vec<u8>| v@) =~= pre.map_values(
                |v: Vec<u8>| v@,
            ).drop_last());
            assert(pre.map_values(|v: Vec<u8>| v@).last().len() == 0);
        }
    } else {
        proof {
            assert(ls@.map_values(|v: Vec<u8>| v@).last().len() != 0);
        }
    }
    ls
}

/// The notes of a list of lines in order, or the first parse failure.
pub open spec fn spec_parse_notes(lines: Seq<Seq<u8>>) -> Result<Seq<Note>, ParseError>
    decreases lines.len(),
{
    if lines.len() == 0 {
        Result::Ok(Seq::empty())
    } else {
        match spec_parse_line(lines[0]) {
            Result::Err(e) => Result::Err(e),
            Result::Ok(n) => match spec_parse_notes(lines.drop_first()) {
                Result::Err(e) => Result::Err(e),
                Result::Ok(rest) => Result::Ok(seq![n] + rest),
            },
        }
    }
}

/// A successful parse result prefixed with already-parsed notes.
pub open spec fn with_prefix(pre: Seq<Note>, r: Result<Seq<Note>, ParseError>) -> Result<
    Seq<Note>,
    ParseError,
> {
    match r {
        Result::Ok(s) => Result::Ok(pre + s),
        Result::Err(e) => Result::Err(e),
    }
}

/// Every note of a successful parse is well-formed and unjudged.
pub proof fn lemma_parsed_notes_wf(lines: Seq<Seq<u8>>, ns: Seq<Note>)
    requires
        spec_parse_notes(lines) == Result::Ok::<Seq<Note>, ParseError>(ns),
    ensures
        forall|k: int| 0 <= k < ns.len() ==> (#[trigger] ns[k]).wf() && ns[k].is_unjudged(),
    decreases lines.len(),
{
    if lines.len() > 0 {
        lemma_parsed_note_wf(lines[0]);
        if let Result::Ok(n) = spec_parse_line(lines[0]) {
            if let Result::Ok(rest) = spec_parse_notes(lines.drop_first()) {
                lemma_parsed_notes_wf(lines.drop_first(), rest);
                assert(ns == seq![n] + rest);
                assert forall|k: int| 0 <= k < ns.len() implies (#[trigger] ns[k]).wf()
                    && ns[k].is_unjudged() by {
                    if k > 0 {
                        assert(ns[k] == rest[k - 1]);
                    } else {
                        assert(ns[k] == n);
                    }
                }
            }
        }
    }
}

/// Parse every line in order, stopping at the first failure.
pub fn parse_notes(lines: &Vec<Vec<u8>>) -> (r: Result<Vec<Note>, ParseError>)
    ensures
        r matches Result::Ok(v) ==> spec_parse_notes(lines@.map_values(|l: Vec<u8>| l@))
            == Result::Ok::<Seq<Note>, ParseError>(v@),
        r matches Result::Err(e) ==> spec_parse_notes(lines@.map_values(|l: Vec<u8>| l@))
            == Result::Err::<Seq<Note>, ParseError>(e),
{
    let ghost lviews = lines@.map_values(|l: Vec<u8>| l@);
    let mut acc: Vec<Note> = Vec::new();
    let mut i: usize = 0;
    proof {
        assert(lviews.skip(0) =~= lviews);
        if let Result::Ok(all) = spec_parse_notes(lviews) {
            assert(acc@ + all =~= all);
        }
    }
    while i < lines.len()
        invariant
            0 <= i <= lines@.len(),
            lviews == lines@.map_values(|l: Vec<u8>| l@),
            spec_parse_notes(lviews) == with_prefix(acc@, spec_parse_notes(lviews.skip(i as int))),
        decreases lines@.len() - i,
    {
        proof {
            assert(lviews.skip(i as int)[0] == lviews[i as int]);
            assert(lviews.skip(i as int).drop_first() =~= lviews.skip(i + 1));
        }
        match parse_note_line(lines[i].as_slice()) {
            Result::Err(e) => {
                return Result::Err(e);
            },
            Result::Ok(n) => {
                let ghost pre = acc@;
                acc.push(n);
                proof {
                    if let Result::Ok(rest) = spec_parse_notes(lviews.skip(i + 1)) {
                        assert(pre + (seq![n] + rest) =~= acc@ + rest);
                    }
                }
            },
        }
        i = i + 1;
    }
    proof {
        assert(lviews.skip(i as int) =~= Seq::<Seq<u8>>::empty());
        assert(acc@ + Seq::<Note>::empty() =~= acc@);
    }
    Result::Ok(acc)
}

/// The parse of a whole chart text: its notes in file order, or the first
/// failure.
pub open spec fn spec_chart_notes(text: Seq<u8>) -> Result<Seq<Note>, ParseError> {
    spec_parse_notes(spec_lines(text))
}

/// One queue of not-yet-spawned notes per lane.
#[derive(Debug, PartialEq, Eq)]
pub struct Chart {
    /// Exactly four queues, indexed by lane.
    pub lanes: Vec<Vec<Note>>,
}

impl Chart {
    /// Structural invariant: four queues, each sorted by start time and
    /// holding only well-formed, unjudged notes of its own lane.
    pub open spec fn wf(self) -> bool {
        &&& self.lanes@.len() == 4
        &&& forall|l: int| 0 <= l < 4 ==> sorted_by_timing(#[trigger] self.lanes@[l]@)
        &&& forall|l: int, k: int|
            0 <= l < 4 && 0 <= k < self.lanes@[l]@.len() ==> (#[trigger] self.lanes@[l]@[k]).wf()
                && self.lanes@[l]@[k].is_unjudged() && spec_lane_index(
                self.lanes@[l]@[k].press_key,
            ) == l
    }

    /// Total notes still queued.
    pub open spec fn queued_total(self) -> int {
        self.lanes@[0]@.len() + self.lanes@[1]@.len() + self.lanes@[2]@.len()
            + self.lanes@[3]@.len() as int
    }
}

/// Determinism law: any two charts loaded from the same text carry, lane by
/// lane, the same notes, each lane sorted by start time — loading the same
/// text twice can never give different queues.
pub proof fn lemma_load_deterministic(text: Seq<u8>, ns: Seq<Note>, c1: Chart, c2: Chart)
    requires
        spec_chart_notes(text) == Result::Ok::<Seq<Note>, ParseError>(ns),
        c1.wf(),
        c2.wf(),
        forall|l: int|
            0 <= l < 4 ==> (#[trigger] c1.lanes@[l]@).to_multiset() == lane_notes(
                ns,
                l,
            ).to_multiset(),
        forall|l: int|
            0 <= l < 4 ==> (#[trigger] c2.lanes@[l]@).to_multiset() == lane_notes(
                ns,
                l,
            ).to_multiset(),
    ensures
        forall|l: int|
            0 <= l < 4 ==> (#[trigger] c1.lanes@[l]@).to_multiset() == c2.lanes@[l]@.to_multiset(),
        forall|l: int|
            0 <= l < 4 ==> sorted_by_timing(#[trigger] c1.lanes@[l]@) && sorted_by_timing(
                c2.lanes@[l]@,
            ),
{
}

/// Load a chart from its text: parse every line, partition by lane, sort
/// each lane by start time. The first bad line aborts the load with its
/// error.
pub fn load_chart(text: &[u8]) -> (r: Result<Chart, ParseError>)
    ensures
        r matches Result::Err(e) ==> spec_chart_notes(text@) == Result::Err::<
            Seq<Note>,
            ParseError,
        >(e),
        r matches Result::Ok(c) ==> c.wf() && (spec_chart_notes(text@) matches Result::Ok(ns)
            && forall|l: int|
            0 <= l < 4 ==> (#[trigger] c.lanes@[l]@).to_multiset() == lane_notes(
                ns,
                l,
            ).to_multiset()),
{
    let lines = split_text_lines(text);
    let parsed = match parse_notes(&lines) {
        Result::Err(e) => {
            return Result::Err(e);
        },
        Result::Ok(v) => v,
    };
    let ghost ns = parsed@;
    proof {
        lemma_parsed_notes_wf(lines@.map_values(|l: Vec<u8>| l@), ns);
    }
    let mut lane0: Vec<Note> = Vec::new();
    let mut lane1: Vec<Note> = Vec::new();
    let mut lane2: Vec<Note> = Vec::new();
    let mut lane3: Vec<Note> = Vec::new();
    let mut i: usize = 0;
    proof {
        assert(ns.take(0) =~= Seq::<Note>::empty());
    }
    while i < parsed.len()
        invariant
            0 <= i <= ns.len(),
            ns == parsed@,
            lane0@ == lane_notes(ns.take(i as int), 0),
            lane1@ == lane_notes(ns.take(i as int), 1),
            lane2@ == lane_notes(ns.take(i as int), 2),
            lane3@ == lane_notes(ns.take(i as int), 3),
        decreases ns.len() - i,
    {
        let n = parsed[i];
        proof {
            assert(ns.take(i + 1).drop_last() =~= ns.take(i as int));
            assert(ns.take(i + 1).last() == ns[i as int]);
        }
        match n.press_key {
            crate::note::Press4Key::First => lane0.push(n),
            crate::note::Press4Key::Second => lane1.push(n),
            crate::note::Press4Key::Third => lane2.push(n),
            crate::note::Press4Key::Fourth => lane3.push(n),
        }
        i = i + 1;
    }
    proof {
        assert(ns.take(i as int) =~= ns);
    }
    let sorted0 = sort_notes(lane0);
    let sorted1 = sort_notes(lane1);
    let sorted2 = sort_notes(lane2);
    let sorted3 = sort_notes(lane3);
    let mut lanes: Vec<Vec<Note>> = Vec::new();
    lanes.push(sorted0);
    lanes.push(sorted1);
    lanes.push(sorted2);
    lanes.push(sorted3);
    let chart = Chart { lanes };
    proof {
        assert forall|l: int, k: int|
            0 <= l < 4 && 0 <= k < chart.lanes@[l]@.len() implies (
        #[trigger] chart.lanes@[l]@[k]).wf() && chart.lanes@[l]@[k].is_unjudged()
            && spec_lane_index(chart.lanes@[l]@[k].press_key) == l by {
            let x = chart.lanes@[l]@[k];
            assert(chart.lanes@[l]@.contains(x));
            assert(chart.lanes@[l]@.to_multiset().count(x) > 0);
            assert(lane_notes(ns, l).contains(x));
            lemma_lane_notes_membership(ns, l, x);
            let j = choose|j: int| 0 <= j < ns.len() && ns[j] == x;
            assert(ns[j].wf() && ns[j].is_unjudged());
        }
    }
    Result::Ok(chart)
}

} // verus!
