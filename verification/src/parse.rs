//! The chart parser: one comma-separated note per line.
//!
//! A line reads `lane,kind,start_ms` for a short note or
//! `lane,kind,start_ms,end_ms` for a long one, with `lane` a digit `0`-`3`
//! and `kind` the word `Short` or `Long`. Parsing is given a full
//! mathematical description ([`spec_parse_line`]), so that loading the same
//! text twice provably yields the same notes, and a formatted note provably
//! parses back to itself.

use vstd::prelude::*;
use crate::note::{spec_lane_of_index, JudgeAccuracy, Note, NoteType, Press4Key, NOTE_SPEED_CENTI};

verus! {

/// The field separator `,`.
pub const COMMA: u8 = 44;

/// The line separator (line feed).
pub const NEWLINE: u8 = 10;

/// Why a chart line was rejected; any of these aborts the whole load.
#[derive(Debug, Clone, Copy, PartialEq, Eq, Structural)]
pub enum ParseError {
    /// Too few comma-separated fields for the note kind.
    MalformedLine,
    /// The lane field is a number but not `0` to `3`.
    UnknownLane,
    /// The kind field is neither `Short` nor `Long`.
    UnknownKind,
    /// A numeric field is not a decimal number that fits 64 bits.
    BadNumber,
    /// A long note ends before it starts.
    InvertedTiming,
}

/// ASCII decimal digit.
pub open spec fn is_digit(b: u8) -> bool {
    48 <= b <= 57
}

/// Every byte of `s` is a decimal digit.
pub open spec fn all_digits(s: Seq<u8>) -> bool {
    forall|i: int| 0 <= i < s.len() ==> is_digit(#[trigger] s[i])
}

/// Value of a digit string read in base ten (meaningful when `all_digits`).
pub open spec fn digits_val(s: Seq<u8>) -> int
    decreases s.len(),
{
    if s.len() == 0 {
        0
    } else {
        digits_val(s.drop_last()) * 10 + (s.last() - 48)
    }
}

/// What a 64-bit decimal parse returns: the value of the digits if the
/// string is non-empty, all digits, and fits.
pub open spec fn spec_parse_u64(s: Seq<u8>) -> Option<u64> {
    if s.len() > 0 && all_digits(s) && digits_val(s) <= u64::MAX {
        Option::Some(digits_val(s) as u64)
    } else {
        Option::None
    }
}

/// A digit string's value is never negative.
pub proof fn lemma_digits_nonneg(s: Seq<u8>)
    requires
        all_digits(s),
    ensures
        digits_val(s) >= 0,
    decreases s.len(),
{
    if s.len() > 0 {
        lemma_digits_nonneg(s.drop_last());
    }
}

/// Extending a digit string to the right never decreases its value.
pub proof fn lemma_digits_prefix_le(s: Seq<u8>, j: int)
    requires
        all_digits(s),
        0 <= j <= s.len(),
    ensures
        digits_val(s.take(j)) <= digits_val(s),
    decreases s.len() - j,
{
    if j < s.len() {
        lemma_digits_nonneg(s.take(j));
        assert(s.take(j + 1).drop_last() =~= s.take(j));
        assert(digits_val(s.take(j + 1)) == digits_val(s.take(j)) * 10 + (s[j] - 48));
        lemma_digits_prefix_le(s, j + 1);
    } else {
        assert(s.take(j) =~= s);
    }
}

/// Parse a non-empty string of decimal digits as a 64-bit number.
pub fn parse_u64(s: &[u8]) -> (r: Option<u64>)
    ensures
        r == spec_parse_u64(s@),
{
    if s.len() == 0 {
        return Option::None;
    }
    let mut acc: u64 = 0;
    let mut i: usize = 0;
    while i < s.len()
        invariant
            0 <= i <= s@.len(),
            s@.len() > 0,
            all_digits(s@.take(i as int)),
            acc == digits_val(s@.take(i as int)),
        decreases s@.len() - i,
    {
        let b = s[i];
        if b < 48 || b > 57 {
            assert(!is_digit(s@[i as int]));
            return Option::None;
        }
        proof {
            assert(s@.take(i + 1).drop_last() =~= s@.take(i as int));
            assert(s@.take(i + 1).last() == s@[i as int]);
            assert(forall|k: int|
                0 <= k < i + 1 ==> is_digit(#[trigger] s@.take(i + 1)[k]));
        }
        let wide: u128 = (acc as u128) * 10 + ((b - 48) as u128);
        if wide > u64::MAX as u128 {
            proof {
                if all_digits(s@) {
                    lemma_digits_prefix_le(s@, i + 1);
                }
            }
            return Option::None;
        }
        acc = wide as u64;
        i = i + 1;
    }
    proof {
        assert(s@.take(i as int) =~= s@);
    }
    Option::Some(acc)
}

/// Fields of `s` split at each occurrence of `sep`: always one field more
/// than there are separators, fields may be empty.
pub open spec fn split_by(s: Seq<u8>, sep: u8) -> Seq<Seq<u8>>
    decreases s.len(),
{
    if s.len() == 0 {
        seq![Seq::<u8>::empty()]
    } else if s[0] == sep {
        seq![Seq::<u8>::empty()] + split_by(s.drop_first(), sep)
    } else {
        let rest = split_by(s.drop_first(), sep);
        seq![seq![s[0]] + rest[0]] + rest.drop_first()
    }
}

/// Splitting yields at least one field.
pub proof fn lemma_split_nonempty(s: Seq<u8>, sep: u8)
    ensures
        split_by(s, sep).len() >= 1,
    decreases s.len(),
{
    if s.len() > 0 {
        lemma_split_nonempty(s.drop_first(), sep);
    }
}

/// Split a byte string at each occurrence of `sep`.
pub fn split_bytes(s: &[u8], sep: u8) -> (r: Vec<Vec<u8>>)
    ensures
        r@.map_values(|v: Vec<u8>| v@) == split_by(s@, sep),
{
    let mut done: Vec<Vec<u8>> = Vec::new();
    let mut cur: Vec<u8> = Vec::new();
    let mut i: usize = 0;
    proof {
        lemma_split_nonempty(s@, sep);
        assert(s@.skip(0) =~= s@);
        assert(done@.map_values(|v: Vec<u8>| v@) + seq![cur@ + split_by(s@.skip(0), sep)[0]]
            + split_by(s@.skip(0), sep).drop_first() =~= split_by(s@, sep));
    }
    while i < s.len()
        invariant
            0 <= i <= s@.len(),
            split_by(s@, sep) == done@.map_values(|v: Vec<u8>| v@) + seq![
                cur@ + split_by(s@.skip(i as int), sep)[0],
            ] + split_by(s@.skip(i as int), sep).drop_first(),
        decreases s@.len() - i,
    {
        proof {
            assert(s@.skip(i as int)[0] == s@[i as int]);
            assert(s@.skip(i as int).drop_first() =~= s@.skip(i + 1));
            lemma_split_nonempty(s@.skip(i + 1), sep);
        }
        if s[i] == sep {
            proof {
                assert(split_by(s@.skip(i as int), sep) =~= seq![Seq::<u8>::empty()] + split_by(
                    s@.skip(i + 1),
                    sep,
                ));
                assert(cur@ + Seq::<u8>::empty() =~= cur@);
            }
            let ghost old_done = done@;
            let ghost old_cur = cur@;
            done.push(cur);
            cur = Vec::new();
            proof {
                assert(done@.map_values(|v: Vec<u8>| v@) =~= old_done.map_values(
                    |v: Vec<u8>| v@,
                ).push(old_cur));
                assert(split_by(s@, sep) =~= done@.map_values(|v: Vec<u8>| v@) + seq![
                    cur@ + split_by(s@.skip(i + 1), sep)[0],
                ] + split_by(s@.skip(i + 1), sep).drop_first());
            }
        } else {
            proof {
                let rest = split_by(s@.skip(i + 1), sep);
                assert(split_by(s@.skip(i as int), sep) =~= seq![seq![s@[i as int]] + rest[0]]
                    + rest.drop_first());
                assert(cur@.push(s@[i as int]) + rest[0] =~= cur@ + (seq![s@[i as int]] + rest[0]));
            }
            cur.push(s[i]);
            proof {
                assert(split_by(s@, sep) =~= done@.map_values(|v: Vec<u8>| v@) + seq![
                    cur@ + split_by(s@.skip(i + 1), sep)[0],
                ] + split_by(s@.skip(i + 1), sep).drop_first());
            }
        }
        i = i + 1;
    }
    proof {
        assert(s@.skip(i as int) =~= Seq::<u8>::empty());
        assert(split_by(s@.skip(i as int), sep) =~= seq![Seq::<u8>::empty()]);
        assert(cur@ + Seq::<u8>::empty() =~= cur@);
    }
    let ghost old_done = done@;
    let ghost old_cur = cur@;
    done.push(cur);
    proof {
        assert(done@.map_values(|v: Vec<u8>| v@) =~= old_done.map_values(|v: Vec<u8>| v@).push(
            old_cur,
        ));
        assert(done@.map_values(|v: Vec<u8>| v@) =~= split_by(s@, sep));
    }
    done
}

/// A field with no separator in it splits into itself alone.
pub proof fn lemma_split_single_field(f: Seq<u8>, sep: u8)
    requires
        forall|i: int| 0 <= i < f.len() ==> f[i] != sep,
    ensures
        split_by(f, sep) == seq![f],
    decreases f.len(),
{
    if f.len() == 0 {
        assert(f =~= Seq::<u8>::empty());
        assert(split_by(f, sep) =~= seq![f]);
    } else {
        lemma_split_single_field(f.drop_first(), sep);
        assert(seq![f[0]] + f.drop_first() =~= f);
        assert((seq![f.drop_first()]).drop_first() =~= Seq::<Seq<u8>>::empty());
        assert(split_by(f, sep) =~= seq![f]);
    }
}

/// Splitting starts with a separator-free field: the rest splits on its own.
pub proof fn lemma_split_prepend_field(f: Seq<u8>, rest: Seq<u8>, sep: u8)
    requires
        forall|i: int| 0 <= i < f.len() ==> f[i] != sep,
    ensures
        split_by(f + seq![sep] + rest, sep) == seq![f] + split_by(rest, sep),
    decreases f.len(),
{
    let s = f + seq![sep] + rest;
    if f.len() == 0 {
        assert(s[0] == sep);
        assert(s.drop_first() =~= rest);
        assert(f =~= Seq::<u8>::empty());
        assert(split_by(s, sep) =~= seq![f] + split_by(rest, sep));
    } else {
        assert(s[0] == f[0]);
        assert(s.drop_first() =~= f.drop_first() + seq![sep] + rest);
        lemma_split_prepend_field(f.drop_first(), rest, sep);
        let r2 = split_by(s.drop_first(), sep);
        assert(r2 == seq![f.drop_first()] + split_by(rest, sep));
        assert(r2[0] == f.drop_first());
        assert(seq![s[0]] + r2[0] =~= f);
        assert(r2.drop_first() =~= split_by(rest, sep));
        assert(split_by(s, sep) =~= seq![f] + split_by(rest, sep));
    }
}

/// The decimal digits of a non-negative number, most significant first.
pub open spec fn dec_digits(n: int) -> Seq<u8>
    decreases n,
{
    if n < 10 {
        seq![(48 + n) as u8]
    } else {
        dec_digits(n / 10).push((48 + n % 10) as u8)
    }
}

/// Decimal digits are digits: non-empty, within `0`-`9`, and free of
/// separators.
pub proof fn lemma_dec_digits_are_digits(n: int)
    requires
        0 <= n,
    ensures
        dec_digits(n).len() >= 1,
        all_digits(dec_digits(n)),
        forall|i: int| 0 <= i < dec_digits(n).len() ==> dec_digits(n)[i] != COMMA,
        forall|i: int| 0 <= i < dec_digits(n).len() ==> dec_digits(n)[i] != NEWLINE,
    decreases n,
{
    if n >= 10 {
        lemma_dec_digits_are_digits(n / 10);
        assert(0 <= n % 10 < 10);
    }
}

/// Reading the decimal digits of a number back in base ten gives the number.
pub proof fn lemma_dec_digits_value(n: int)
    requires
        0 <= n,
    ensures
        digits_val(dec_digits(n)) == n,
    decreases n,
{
    if n < 10 {
        let s = dec_digits(n);
        assert(s.drop_last() =~= Seq::<u8>::empty());
        assert(digits_val(s) == digits_val(Seq::<u8>::empty()) * 10 + (s.last() - 48));
    } else {
        lemma_dec_digits_value(n / 10);
        let s = dec_digits(n);
        assert(s.drop_last() =~= dec_digits(n / 10));
        assert(digits_val(s) == (n / 10) * 10 + n % 10);
        vstd::arithmetic::div_mod::lemma_fundamental_div_mod(n, 10);
    }
}

/// Write a number as decimal digits.
pub fn u64_to_dec(n: u64) -> (r: Vec<u8>)
    ensures
        r@ == dec_digits(n as int),
    decreases n,
{
    if n < 10 {
        let mut v: Vec<u8> = Vec::new();
        v.push(48 + n as u8);
        proof {
            assert(v@ =~= dec_digits(n as int));
        }
        v
    } else {
        let mut v = u64_to_dec(n / 10);
        v.push(48 + (n % 10) as u8);
        v
    }
}

/// The bytes of the kind word `Short`.
pub open spec fn short_bytes() -> Seq<u8> {
    seq![83u8, 104u8, 111u8, 114u8, 116u8]
}

/// The bytes of the kind word `Long`.
pub open spec fn long_bytes() -> Seq<u8> {
    seq![76u8, 111u8, 110u8, 103u8]
}

/// Does the field hold exactly the word `Short`?
pub fn is_short_kind(f: &[u8]) -> (r: bool)
    ensures
        r == (f@ == short_bytes()),
{
    if f.len() != 5 {
        return false;
    }
    let r = f[0] == 83 && f[1] == 104 && f[2] == 111 && f[3] == 114 && f[4] == 116;
    proof {
        if r {
            assert(f@ =~= short_bytes());
        }
    }
    r
}

/// Does the field hold exactly the word `Long`?
pub fn is_long_kind(f: &[u8]) -> (r: bool)
    ensures
        r == (f@ == long_bytes()),
{
    if f.len() != 4 {
        return false;
    }
    let r = f[0] == 76 && f[1] == 111 && f[2] == 110 && f[3] == 103;
    proof {
        if r {
            assert(f@ =~= long_bytes());
        }
    }
    r
}

/// The note a successful parse of a short line yields.
pub open spec fn spec_short_note(key: Press4Key, timing: u64) -> Note {
    Note {
        note_type: NoteType::Short,
        press_key: key,
        timing: timing,
        release_timing: timing,
        pushed: false,
        missed: false,
        speed_centi: NOTE_SPEED_CENTI,
        judge: JudgeAccuracy::Pending,
    }
}

/// The note a successful parse of a long line yields.
pub open spec fn spec_long_note(key: Press4Key, timing: u64, release: u64) -> Note {
    Note {
        note_type: NoteType::Long,
        press_key: key,
        timing: timing,
        release_timing: release,
        pushed: false,
        missed: false,
        speed_centi: NOTE_SPEED_CENTI,
        judge: JudgeAccuracy::Pending,
    }
}

/// What parsing one line returns: the note, or the first reason the line is
/// rejected. Fields past those a kind needs are ignored.
pub open spec fn spec_parse_line(line: Seq<u8>) -> Result<Note, ParseError> {
    let fs = split_by(line, COMMA);
    if fs.len() < 3 {
        Result::Err(ParseError::MalformedLine)
    } else {
        match spec_parse_u64(fs[0]) {
            Option::None => Result::Err(ParseError::BadNumber),
            Option::Some(lane_num) => if lane_num > 3 {
                Result::Err(ParseError::UnknownLane)
            } else {
                let key = spec_lane_of_index(lane_num as int);
                if fs[1] == short_bytes() {
                    match spec_parse_u64(fs[2]) {
                        Option::None => Result::Err(ParseError::BadNumber),
                        Option::Some(t) => Result::Ok(spec_short_note(key, t)),
                    }
                } else if fs[1] == long_bytes() {
                    if fs.len() < 4 {
                        Result::Err(ParseError::MalformedLine)
                    } else {
                        match spec_parse_u64(fs[2]) {
                            Option::None => Result::Err(ParseError::BadNumber),
                            Option::Some(t) => match spec_parse_u64(fs[3]) {
                                Option::None => Result::Err(ParseError::BadNumber),
                                Option::Some(e) => if e < t {
                                    Result::Err(ParseError::InvertedTiming)
                                } else {
                                    Result::Ok(spec_long_note(key, t, e))
                                },
                            },
                        }
                    }
                } else {
                    Result::Err(ParseError::UnknownKind)
                }
            },
        }
    }
}

/// A successfully parsed note satisfies the note invariant, has not been
/// judged, and carries the standard speed multiplier.
pub proof fn lemma_parsed_note_wf(line: Seq<u8>)
    ensures
        spec_parse_line(line) matches Result::Ok(n) ==> n.wf() && n.is_unjudged()
            && n.speed_centi == NOTE_SPEED_CENTI,
{
}

/// Parse one chart line.
pub fn parse_note_line(line: &[u8]) -> (r: Result<Note, ParseError>)
    ensures
        r == spec_parse_line(line@),
{
    let fields = split_bytes(line, COMMA);
    proof {
        assert(fields@.map_values(|v: Vec<u8>| v@).len() == fields@.len());
    }
    if fields.len() < 3 {
        return Result::Err(ParseError::MalformedLine);
    }
    let lane_num = match parse_u64(fields[0].as_slice()) {
        Option::None => {
            return Result::Err(ParseError::BadNumber);
        },
        Option::Some(v) => v,
    };
    if lane_num > 3 {
        return Result::Err(ParseError::UnknownLane);
    }
    let key = crate::note::lane_of_index(lane_num as usize);
    if is_short_kind(fields[1].as_slice()) {
        match parse_u64(fields[2].as_slice()) {
            Option::None => Result::Err(ParseError::BadNumber),
            Option::Some(t) => Result::Ok(
                Note {
                    note_type: NoteType::Short,
                    press_key: key,
                    timing: t,
                    release_timing: t,
                    pushed: false,
                    missed: false,
                    speed_centi: NOTE_SPEED_CENTI,
                    judge: JudgeAccuracy::Pending,
                },
            ),
        }
    } else if is_long_kind(fields[1].as_slice()) {
        if fields.len() < 4 {
            return Result::Err(ParseError::MalformedLine);
        }
        let t = match parse_u64(fields[2].as_slice()) {
            Option::None => {
                return Result::Err(ParseError::BadNumber);
            },
            Option::Some(v) => v,
        };
        let e = match parse_u64(fields[3].as_slice()) {
            Option::None => {
                return Result::Err(ParseError::BadNumber);
            },
            Option::Some(v) => v,
        };
        if e < t {
            return Result::Err(ParseError::InvertedTiming);
        }
        Result::Ok(
            Note {
                note_type: NoteType::Long,
                press_key: key,
                timing: t,
                release_timing: e,
                pushed: false,
                missed: false,
                speed_centi: NOTE_SPEED_CENTI,
                judge: JudgeAccuracy::Pending,
            },
        )
    } else {
        Result::Err(ParseError::UnknownKind)
    }
}

/// The chart line that denotes a short note: `lane,Short,start_ms`.
pub open spec fn spec_format_short(lane: int, timing: int) -> Seq<u8> {
    dec_digits(lane) + seq![COMMA] + short_bytes() + seq![COMMA] + dec_digits(timing)
}

/// Write the chart line for a short note on `key` at `timing` milliseconds.
pub fn format_short_line(key: Press4Key, timing: u64) -> (r: Vec<u8>)
    ensures
        r@ == spec_format_short(crate::note::spec_lane_index(key), timing as int),
{
    let mut v = u64_to_dec(crate::note::lane_index(key) as u64);
    v.push(COMMA);
    v.push(83);
    v.push(104);
    v.push(111);
    v.push(114);
    v.push(116);
    v.push(COMMA);
    let mut t = u64_to_dec(timing);
    v.append(&mut t);
    proof {
        assert(v@ =~= spec_format_short(crate::note::spec_lane_index(key), timing as int));
    }
    v
}

/// Round-trip law: the formatted line of a short note parses back to exactly
/// that note.
pub proof fn lemma_short_line_round_trip(key: Press4Key, timing: u64)
    ensures
        spec_parse_line(spec_format_short(crate::note::spec_lane_index(key), timing as int))
            == Result::Ok::<Note, ParseError>(spec_short_note(key, timing)),
{
    let lane = crate::note::spec_lane_index(key);
    let lb = dec_digits(lane);
    let tb = dec_digits(timing as int);
    let line = spec_format_short(lane, timing as int);
    lemma_dec_digits_are_digits(lane);
    lemma_dec_digits_are_digits(timing as int);
    lemma_dec_digits_value(lane);
    lemma_dec_digits_value(timing as int);
    assert(line =~= lb + seq![COMMA] + (short_bytes() + seq![COMMA] + tb));
    lemma_split_prepend_field(lb, short_bytes() + seq![COMMA] + tb, COMMA);
    assert(forall|i: int| 0 <= i < short_bytes().len() ==> short_bytes()[i] != COMMA);
    lemma_split_prepend_field(short_bytes(), tb, COMMA);
    lemma_split_single_field(tb, COMMA);
    let fs = split_by(line, COMMA);
    assert(fs =~= seq![lb, short_bytes(), tb]);
    assert(fs[0] == lb && fs[1] == short_bytes() && fs[2] == tb);
    assert(spec_parse_u64(lb) == Option::Some(lane as u64));
    assert(spec_parse_u64(tb) == Option::Some(timing));
    assert(spec_lane_of_index(lane) == key);
}

} // verus!
