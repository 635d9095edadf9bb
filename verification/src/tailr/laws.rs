//! What holds of tail selection as a whole.

use crate::tailr::extract::{
    action_at, seen_next, selected_bytes, selected_lines, tail_of, LineAction, LineRead, Mode,
};
use crate::lines::{
    lemma_line_count_rest, lemma_line_end, lemma_line_offset_bounds, lemma_line_offset_monotonic,
    lemma_line_offset_newlines, lemma_line_offset_total, line_count, line_end, line_offset,
    NEWLINE,
};
use crate::tailr::resolve::start_index;
use crate::tailr::take::TakeValue;
use vstd::prelude::*;

verus! {

/// The smaller of two numbers.
pub open spec fn smaller(a: int, b: int) -> int {
    if a < b {
        a
    } else {
        b
    }
}

/// A line that ends within a prefix of a source ends at the same place in
/// the prefix.
pub proof fn lemma_line_end_in_prefix(s: Seq<u8>, p: int, from: int)
    requires
        0 <= from <= p <= s.len(),
        line_end(s, from) <= p,
    ensures
        line_end(s.take(p), from) == line_end(s, from),
    decreases p - from,
{
    lemma_line_end(s, from);
    if from < p && s[from] != NEWLINE {
        lemma_line_end(s, from + 1);
        lemma_line_end_in_prefix(s, p, from + 1);
    }
}

/// Up to the offset behind `k` lines, a source and its prefix of `k` lines
/// have the same line offsets.
pub proof fn lemma_line_offset_in_prefix(s: Seq<u8>, k: nat, j: nat)
    requires
        j <= k,
    ensures
        line_offset(s.take(line_offset(s, k)), j) == line_offset(s, j),
    decreases j,
{
    lemma_line_offset_bounds(s, k);
    if j > 0 {
        lemma_line_offset_in_prefix(s, k, (j - 1) as nat);
        lemma_line_offset_bounds(s, (j - 1) as nat);
        lemma_line_offset_monotonic(s, (j - 1) as nat, k);
        lemma_line_offset_monotonic(s, j, k);
        lemma_line_end_in_prefix(s, line_offset(s, k), line_offset(s, (j - 1) as nat));
    }
}

/// The first `k` lines of a source hold `k` lines, or all of its lines
/// where it has fewer.
pub proof fn lemma_line_count_of_prefix(s: Seq<u8>, k: nat)
    ensures
        line_count(s.take(line_offset(s, k))) == smaller(k as int, line_count(s) as int),
{
    lemma_line_offset_total(s, k);
    lemma_line_offset_bounds(s, k);
    if k >= line_count(s) {
        assert(s.take(line_offset(s, k)) =~= s);
    } else {
        lemma_line_offset_newlines(s, k);
    }
}

/// Line mode emits the lines from the resolved offset up to the counted
/// total and no more, however long the source is by then: as many lines as
/// lie between the two, or as many as the source still has there.
pub proof fn lemma_selected_line_count(s: Seq<u8>, take_val: TakeValue, total: int)
    requires
        total >= 0,
    ensures
        match start_index(take_val, total) {
            Some(st) => line_count(selected_lines(s, take_val, total)) == if smaller(
                total,
                line_count(s) as int,
            ) > st {
                smaller(total, line_count(s) as int) - st
            } else {
                0
            },
            None => selected_lines(s, take_val, total) == Seq::<u8>::empty(),
        },
{
    match start_index(take_val, total) {
        Some(st) => {
            let p = line_offset(s, total as nat);
            let t = s.take(p);
            lemma_line_offset_bounds(s, total as nat);
            lemma_line_offset_bounds(s, st as nat);
            lemma_line_offset_monotonic(s, st as nat, total as nat);
            lemma_line_offset_in_prefix(s, total as nat, st as nat);
            lemma_line_count_of_prefix(s, total as nat);
            assert(selected_lines(s, take_val, total) =~= t.skip(line_offset(t, st as nat)));
            if st <= line_count(t) {
                lemma_line_count_rest(t, st as nat);
            } else {
                lemma_line_offset_total(t, st as nat);
                assert(t.skip(line_offset(t, st as nat)) =~= Seq::<u8>::empty());
            }
        },
        None => {},
    }
}

/// From a source that has not changed since its lines were counted, line
/// mode emits everything from the resolved offset to the end.
pub proof fn lemma_selected_lines_unchanged(s: Seq<u8>, take_val: TakeValue)
    ensures
        match start_index(take_val, line_count(s) as int) {
            Some(st) => {
                &&& selected_lines(s, take_val, line_count(s) as int) == s.skip(
                    line_offset(s, st as nat),
                )
                &&& line_count(selected_lines(s, take_val, line_count(s) as int)) == line_count(s)
                    - st
            },
            None => selected_lines(s, take_val, line_count(s) as int) == Seq::<u8>::empty(),
        },
{
    let total = line_count(s) as int;
    match start_index(take_val, total) {
        Some(st) => {
            lemma_line_offset_total(s, total as nat);
            lemma_line_offset_bounds(s, st as nat);
            lemma_line_count_rest(s, st as nat);
            assert(selected_lines(s, take_val, total) =~= s.skip(line_offset(s, st as nat)));
        },
        None => {},
    }
}

/// A negative count of lines selects that many lines from the end of an
/// unchanged source, or the whole source where it has no more.
pub proof fn lemma_last_lines(s: Seq<u8>, n: i64)
    requires
        n < 0,
    ensures
        -n <= line_count(s) ==> line_count(
            selected_lines(s, TakeValue::TakeNum(n), line_count(s) as int),
        ) == -n,
        -n >= line_count(s) ==> selected_lines(s, TakeValue::TakeNum(n), line_count(s) as int)
            == s,
{
    lemma_selected_lines_unchanged(s, TakeValue::TakeNum(n));
    if -n >= line_count(s) {
        if line_count(s) == 0 {
            assert(s.len() == 0);
            assert(selected_lines(s, TakeValue::TakeNum(n), 0) =~= s);
        } else {
            assert(s.skip(0) =~= s);
        }
    }
}

/// From a source that has not changed since its size was taken, byte mode
/// emits everything from the resolved offset to the end.
pub proof fn lemma_selected_bytes_unchanged(s: Seq<u8>, take_val: TakeValue)
    ensures
        match start_index(take_val, s.len() as int) {
            Some(st) => {
                &&& selected_bytes(s, take_val, s.len() as int) == s.skip(st)
                &&& selected_bytes(s, take_val, s.len() as int).len() == s.len() - st
            },
            None => selected_bytes(s, take_val, s.len() as int) == Seq::<u8>::empty(),
        },
{
    match start_index(take_val, s.len() as int) {
        Some(st) => {
            assert(selected_bytes(s, take_val, s.len() as int) =~= s.skip(st));
        },
        None => {
            assert(selected_bytes(s, take_val, s.len() as int) =~= Seq::<u8>::empty());
        },
    }
}

/// A positive count `n` of bytes selects what starts at offset `n - 1` of an
/// unchanged source: one byte more than the source is longer than `n`.
pub proof fn lemma_bytes_from_front(s: Seq<u8>, n: i64)
    requires
        0 < n <= s.len(),
    ensures
        selected_bytes(s, TakeValue::TakeNum(n), s.len() as int) == s.skip(n - 1),
        selected_bytes(s, TakeValue::TakeNum(n), s.len() as int).len() == s.len() - n + 1,
{
    lemma_selected_bytes_unchanged(s, TakeValue::TakeNum(n));
}

/// Byte mode never emits more bytes than lie between the resolved offset
/// and the size that was given.
pub proof fn lemma_selected_bytes_budget(s: Seq<u8>, take_val: TakeValue, total: int)
    ensures
        match start_index(take_val, total) {
            Some(st) => selected_bytes(s, take_val, total).len() <= if total > st {
                total - st
            } else {
                0
            },
            None => selected_bytes(s, take_val, total) == Seq::<u8>::empty(),
        },
{
    match start_index(take_val, total) {
        Some(st) => {},
        None => {
            assert(selected_bytes(s, take_val, total) =~= Seq::<u8>::empty());
        },
    }
}

/// How many lines a pass emits over the reads given, one after the other,
/// from the state in which it has read `seen` lines. The pass ends with the
/// first read that calls for no line to be kept or dropped, and before any
/// read once the total is reached.
pub open spec fn emitted_over(start: Option<int>, total: int, seen: int, reads: Seq<LineRead>) -> nat
    decreases reads.len(),
{
    if reads.len() == 0 || (start is Some && seen >= total) {
        0
    } else {
        let rest = emitted_over(
            start,
            total,
            seen_next(start, total, seen, reads[0]),
            reads.drop_first(),
        );
        match action_at(start, total, seen, reads[0]) {
            Ok(LineAction::Emit) => 1 + rest,
            Ok(LineAction::Skip) => rest,
            _ => 0,
        }
    }
}

/// The lines that are still to be emitted once `seen` lines are read: those
/// between the start, or the line that is next, and the total.
pub open spec fn still_due(start: int, total: int, seen: int) -> nat {
    let next = if seen > start {
        seen
    } else {
        start
    };
    if total > next {
        (total - next) as nat
    } else {
        0
    }
}

/// Whatever the source gives, and however much, a pass emits no more lines
/// than lie between its start and the counted total; where nothing is
/// selected it emits none.
pub proof fn lemma_emit_budget(start: Option<int>, total: int, seen: int, reads: Seq<LineRead>)
    requires
        0 <= seen,
    ensures
        match start {
            Some(st) => emitted_over(start, total, seen, reads) <= still_due(st, total, seen),
            None => emitted_over(start, total, seen, reads) == 0,
        },
    decreases reads.len(),
{
    if reads.len() > 0 && !(start is Some && seen >= total) {
        lemma_emit_budget(
            start,
            total,
            seen_next(start, total, seen, reads[0]),
            reads.drop_first(),
        );
    }
}

/// From a source that gives line after line for as long as the count
/// lasts, a pass emits exactly the lines between its start and the counted
/// total.
pub proof fn lemma_emit_all(start: int, total: int, seen: int, reads: Seq<LineRead>)
    requires
        0 <= seen,
        0 <= start,
        reads.len() >= total - seen,
        forall|i: int| 0 <= i < reads.len() && i < total - seen ==> reads[i] == LineRead::Line,
    ensures
        emitted_over(Some(start), total, seen, reads) == still_due(start, total, seen),
    decreases reads.len(),
{
    if reads.len() > 0 && seen < total {
        let rest = reads.drop_first();
        assert forall|i: int| 0 <= i < rest.len() && i < total - (seen + 1) implies rest[i]
            == LineRead::Line by {
            assert(rest[i] == reads[i + 1]);
        }
        lemma_emit_all(start, total, seen + 1, rest);
    }
}

/// Two extractions from the same source, with the same take value and in
/// the same mode, into sinks that held the same bytes, leave the same bytes
/// in both sinks.
pub proof fn lemma_extraction_repeats(
    s: Seq<u8>,
    mode: Mode,
    take_val: TakeValue,
    sink_before: Seq<u8>,
    first: Seq<u8>,
    second: Seq<u8>,
)
    requires
        first == sink_before + tail_of(s, mode, take_val),
        second == sink_before + tail_of(s, mode, take_val),
    ensures
        first == second,
{
}

} // verus!
