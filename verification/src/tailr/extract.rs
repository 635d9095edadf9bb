//! Emitting the selected suffix of a source, by lines or by bytes.

use crate::lines::{
    find_line_end, lemma_line_end, lemma_line_offset_at_end, lemma_line_offset_bounds,
    lemma_line_offset_monotonic, line_count, line_offset,
};
use crate::tailr::laws::{lemma_selected_bytes_unchanged, lemma_selected_lines_unchanged};
use crate::tailr::resolve::{get_start_index, lemma_start_index_bounds, start_index};
use crate::tailr::take::{parse_num, parse_spec, TailError, TakeValue};
use crate::tailr::totals::count_lines_bytes;
use vstd::prelude::*;

verus! {

/// What reading the next line of the source gave.
#[derive(Debug, PartialEq, Eq, Structural, Clone, Copy)]
pub enum LineRead {
    /// A line, with its terminator where it has one.
    Line,
    /// Nothing: the source has ended.
    End,
    /// The read failed.
    Failed,
}

/// What to do after a read.
#[derive(Debug, PartialEq, Eq, Structural, Clone, Copy)]
pub enum LineAction {
    /// Drop the line and read on.
    Skip,
    /// Write the line to the sink as it was read.
    Emit,
    /// The pass is over.
    Stop,
}

/// The action that a read calls for in a pass that starts its output at
/// `start`, was given `total` lines, and has read `seen` of them. A failed
/// read calls for none and is an error; at the end of the source the pass
/// is over; a line is dropped before the start, emitted from there on, and
/// not even looked at once the total is reached. Where nothing is selected
/// every line is dropped.
pub open spec fn action_at(start: Option<int>, total: int, seen: int, read: LineRead) -> Result<
    LineAction,
    TailError,
> {
    match read {
        LineRead::Failed => Err(TailError::IoError),
        LineRead::End => Ok(LineAction::Stop),
        LineRead::Line => match start {
            None => Ok(LineAction::Skip),
            Some(st) => if seen >= total {
                Ok(LineAction::Stop)
            } else if seen < st {
                Ok(LineAction::Skip)
            } else {
                Ok(LineAction::Emit)
            },
        },
    }
}

/// The number of lines read once a read has been answered: one more for a
/// line within the total, where lines are selected.
pub open spec fn seen_next(start: Option<int>, total: int, seen: int, read: LineRead) -> int {
    if read == LineRead::Line && start is Some && seen < total {
        seen + 1
    } else {
        seen
    }
}

/// The state of the pass that emits the selected lines of one source.
///
/// It holds where output starts, how many lines the source had when they
/// were counted, and how many lines of the selection's reach have been read.
pub struct LinePass {
    start: Option<i64>,
    total: i64,
    seen: i64,
}

impl LinePass {
    #[verifier::type_invariant]
    spec fn well_formed(self) -> bool {
        match self.start {
            Some(st) => 0 <= st && (self.total > 0 ==> st < self.total) && 0 <= self.seen && (
            self.seen <= self.total || self.seen == 0),
            None => self.seen == 0,
        }
    }

    /// The offset in lines at which output starts, or `None` for no output.
    pub closed spec fn start(self) -> Option<int> {
        match self.start {
            Some(st) => Some(st as int),
            None => None,
        }
    }

    /// The number of lines that the source had when they were counted.
    pub closed spec fn total(self) -> int {
        self.total as int
    }

    /// The number of lines read so far; it stays zero where nothing is
    /// selected.
    pub closed spec fn seen(self) -> int {
        self.seen as int
    }

    /// Where lines are selected, output starts before the counted total and
    /// no more lines are read than were counted. Where none is, no line is
    /// counted.
    pub open spec fn in_bounds(self) -> bool {
        match self.start() {
            Some(st) => 0 <= st && (self.total() > 0 ==> st < self.total()) && 0 <= self.seen()
                && (self.seen() <= self.total() || self.seen() == 0),
            None => self.seen() == 0,
        }
    }

    /// Whether every line up to the counted total has been read.
    pub open spec fn is_finished(self) -> bool {
        self.start() is Some && self.seen() >= self.total()
    }

    /// The action that a read calls for in this state; a failed read calls
    /// for none and is an error.
    pub open spec fn action_for(self, read: LineRead) -> Result<LineAction, TailError> {
        action_at(self.start(), self.total(), self.seen(), read)
    }

    /// The number of lines read once a read has been answered.
    pub open spec fn seen_after(self, read: LineRead) -> int {
        seen_next(self.start(), self.total(), self.seen(), read)
    }

    /// The pass for a take value and the counted total of lines.
    pub fn new(num_lines: &TakeValue, total_lines: i64) -> (pass: LinePass)
        ensures
            pass.start() == start_index(*num_lines, total_lines as int),
            pass.total() == total_lines,
            pass.seen() == 0,
            pass.in_bounds(),
    {
        let start = get_start_index(num_lines, total_lines);
        proof {
            lemma_start_index_bounds(*num_lines, total_lines as int);
        }
        LinePass { start, total: total_lines, seen: 0 }
    }

    /// Whether the pass is over before the next read: after the last line
    /// that was counted, no further line is read.
    pub fn finished(&self) -> (done: bool)
        ensures
            done == self.is_finished(),
    {
        self.start.is_some() && self.seen >= self.total
    }

    /// Answers one read: says what to do with it and counts the line. A
    /// failed read ends the pass with `IoError`.
    pub fn step(&mut self, read: LineRead) -> (action: Result<LineAction, TailError>)
        ensures
            action == old(self).action_for(read),
            final(self).start() == old(self).start(),
            final(self).total() == old(self).total(),
            final(self).seen() == old(self).seen_after(read),
            final(self).in_bounds(),
    {
        proof {
            use_type_invariant(&*self);
        }
        match read {
            LineRead::Failed => Err(TailError::IoError),
            LineRead::End => Ok(LineAction::Stop),
            LineRead::Line => match self.start {
                None => Ok(LineAction::Skip),
                Some(st) => {
                    if self.seen >= self.total {
                        Ok(LineAction::Stop)
                    } else {
                        let emit = self.seen >= st;
                        self.seen = self.seen + 1;
                        if emit {
                            Ok(LineAction::Emit)
                        } else {
                            Ok(LineAction::Skip)
                        }
                    }
                },
            },
        }
    }
}

/// The lines that a take value selects from a source whose lines were
/// counted as `total`: those from the resolved offset up to the counted
/// total, each with its terminator. Lines that the source has gained since
/// the count are left out.
pub open spec fn selected_lines(s: Seq<u8>, take_val: TakeValue, total: int) -> Seq<u8> {
    match start_index(take_val, total) {
        None => Seq::empty(),
        Some(st) => if total > 0 {
            s.subrange(line_offset(s, st as nat), line_offset(s, total as nat))
        } else {
            Seq::empty()
        },
    }
}

/// The range of bytes that a take value selects from a source of `len`
/// bytes whose size was given as `total`: from the resolved offset up to the
/// given size, as far as the source reaches.
pub open spec fn selected_range(len: int, take_val: TakeValue, total: int) -> (int, int) {
    match start_index(take_val, total) {
        None => (0, 0),
        Some(st) => if st < total && st < len {
            (st, if total < len { total } else { len })
        } else {
            (0, 0)
        },
    }
}

/// The bytes that a take value selects from a source whose size was given
/// as `total`.
pub open spec fn selected_bytes(s: Seq<u8>, take_val: TakeValue, total: int) -> Seq<u8> {
    let (from, to) = selected_range(s.len() as int, take_val, total);
    s.subrange(from, to)
}

/// Appends the bytes of `source` from `from` up to `to` to `sink`.
fn copy_range(source: &[u8], from: usize, to: usize, sink: &mut Vec<u8>)
    requires
        from <= to <= source@.len(),
    ensures
        final(sink)@ == old(sink)@ + source@.subrange(from as int, to as int),
{
    let mut i: usize = from;
    assert(source@.subrange(from as int, from as int) =~= Seq::<u8>::empty());
    assert(sink@ =~= old(sink)@ + source@.subrange(from as int, i as int));
    while i < to
        invariant
            from <= i <= to <= source@.len(),
            sink@ == old(sink)@ + source@.subrange(from as int, i as int),
        decreases to - i,
    {
        sink.push(source[i]);
        assert(source@.subrange(from as int, i + 1) =~= source@.subrange(
            from as int,
            i as int,
        ).push(source@[i as int]));
        i = i + 1;
    }
}

/// What the pass has written once it has read `seen` lines and stands at
/// `pos`: the bytes from the start of the selection on, or nothing before
/// the selection starts.
pub open spec fn emitted_so_far(s: Seq<u8>, start: Option<int>, seen: int, pos: int) -> Seq<u8> {
    match start {
        Some(st) => if seen > st {
            s.subrange(line_offset(s, st as nat), pos)
        } else {
            Seq::empty()
        },
        None => Seq::empty(),
    }
}

/// Emits the selected lines of a source held in memory.
///
/// The lines before the resolved offset are read and dropped, the lines from
/// there on are appended to `sink` as they are, and the pass ends with the
/// line that brings the count to `total_lines`. Where nothing is selected
/// the source is still read through, and nothing is written.
pub fn print_lines(source: &[u8], num_lines: &TakeValue, total_lines: i64, sink: &mut Vec<u8>)
    ensures
        final(sink)@ == old(sink)@ + selected_lines(source@, *num_lines, total_lines as int),
{
    let mut pass = LinePass::new(num_lines, total_lines);
    let mut pos: usize = 0;
    let ghost s = source@;
    let ghost start = pass.start();
    assert(sink@ =~= old(sink)@ + Seq::<u8>::empty());
    if total_lines < 0 {
        assert(selected_lines(s, *num_lines, total_lines as int) =~= Seq::<u8>::empty());
        return ;
    }
    loop
        invariant
            s == source@,
            total_lines >= 0,
            pos <= s.len(),
            pass.start() == start,
            start == start_index(*num_lines, total_lines as int),
            pass.total() == total_lines,
            pass.in_bounds(),
            start is Some ==> pos == line_offset(s, pass.seen() as nat),
            sink@ == old(sink)@ + emitted_so_far(s, start, pass.seen(), pos as int),
        ensures
            sink@ == old(sink)@ + selected_lines(s, *num_lines, total_lines as int),
        decreases s.len() - pos, (if pass.is_finished() { 0int } else { 1int }),
    {
        if pass.finished() {
            proof {
                let st = start->0;
                lemma_line_offset_monotonic(s, st as nat, total_lines as nat);
            }
            break ;
        }
        let end = find_line_end(source, pos);
        let read = if end == pos {
            LineRead::End
        } else {
            LineRead::Line
        };
        proof {
            lemma_line_end(s, pos as int);
        }
        let ghost before = pass.seen();
        match pass.step(read) {
            Ok(LineAction::Emit) => {
                copy_range(source, pos, end, sink);
                proof {
                    let st = start->0;
                    lemma_line_offset_bounds(s, st as nat);
                    lemma_line_offset_monotonic(s, st as nat, before as nat);
                    assert(s.subrange(line_offset(s, st as nat), pos as int) + s.subrange(
                        pos as int,
                        end as int,
                    ) =~= s.subrange(line_offset(s, st as nat), end as int));
                    assert(sink@ =~= old(sink)@ + s.subrange(
                        line_offset(s, st as nat),
                        end as int,
                    ));
                }
            },
            Ok(LineAction::Skip) => {},
            _ => {
                proof {
                    assert(pos == s.len());
                    if start is Some {
                        let st = start->0;
                        lemma_line_offset_at_end(s, before as nat, total_lines as nat);
                        lemma_line_offset_bounds(s, st as nat);
                        if before < st {
                            lemma_line_offset_at_end(s, before as nat, st as nat);
                            assert(s.subrange(line_offset(s, st as nat), s.len() as int) =~= Seq::<
                                u8,
                            >::empty());
                        }
                    }
                }
                break ;
            },
        }
        pos = end;
    }
}

/// Where byte output starts and how many bytes it may hold at most, for a
/// source whose size was given as `total_bytes`; `None` where nothing is
/// selected.
pub open spec fn byte_span_spec(take_val: TakeValue, total: int) -> Option<(int, int)> {
    match start_index(take_val, total) {
        Some(st) => if st < total {
            Some((st, total - st))
        } else {
            None
        },
        None => None,
    }
}

/// Plans byte output: the offset to seek to and the number of bytes to
/// copy from there at most.
pub fn byte_span(num_bytes: &TakeValue, total_bytes: i64) -> (span: Option<(u64, u64)>)
    ensures
        match span {
            Some((offset, budget)) => byte_span_spec(*num_bytes, total_bytes as int) == Some(
                (offset as int, budget as int),
            ),
            None => byte_span_spec(*num_bytes, total_bytes as int) is None,
        },
{
    match get_start_index(num_bytes, total_bytes) {
        Some(st) => {
            if st < total_bytes {
                Some((st as u64, (total_bytes - st) as u64))
            } else {
                None
            }
        },
        None => None,
    }
}

/// Emits the selected bytes of a source held in memory: those from the
/// resolved offset on, as they are, up to the size that was given.
pub fn print_bytes(source: &[u8], num_bytes: &TakeValue, total_bytes: i64, sink: &mut Vec<u8>)
    ensures
        final(sink)@ == old(sink)@ + selected_bytes(source@, *num_bytes, total_bytes as int),
{
    let len: usize = source.len();
    assert(source@.subrange(0, 0) =~= Seq::<u8>::empty());
    assert(sink@ =~= old(sink)@ + Seq::<u8>::empty());
    match byte_span(num_bytes, total_bytes) {
        Some((offset, budget)) => {
            if offset < len as u64 {
                let from: usize = offset as usize;
                let room: usize = len - from;
                let to: usize = if budget < room as u64 {
                    from + budget as usize
                } else {
                    len
                };
                copy_range(source, from, to, sink);
            }
        },
        None => {},
    }
}

/// What a selection counts.
#[derive(Debug, PartialEq, Eq, Structural, Clone, Copy)]
pub enum Mode {
    Lines,
    Bytes,
}

/// The end of a source that a take value selects, counted in lines or in
/// bytes: everything from the resolved offset on, or nothing where nothing
/// is selected.
pub open spec fn tail_of(s: Seq<u8>, mode: Mode, take_val: TakeValue) -> Seq<u8> {
    match mode {
        Mode::Lines => match start_index(take_val, line_count(s) as int) {
            Some(st) => s.skip(line_offset(s, st as nat)),
            None => Seq::empty(),
        },
        Mode::Bytes => match start_index(take_val, s.len() as int) {
            Some(st) => s.skip(st),
            None => Seq::empty(),
        },
    }
}

/// Selects the end of a source held in memory: parses the take value,
/// takes the totals of the source, resolves the offset and emits from
/// there on.
///
/// A text that is no take value comes back inside `InvalidSpec`, and a
/// source too large for its totals to be taken gives `IoError`; in both
/// cases nothing is written.
pub fn extract(source: &[u8], mode: Mode, spec: &str, sink: &mut Vec<u8>) -> (result: Result<
    (),
    TailError,
>)
    ensures
        match result {
            Ok(_) => parse_spec(spec@) matches Some(take_val) && final(sink)@ == old(sink)@
                + tail_of(source@, mode, take_val),
            Err(TailError::InvalidSpec(text)) => parse_spec(spec@) is None && text@ == spec@
                && final(sink)@ == old(sink)@,
            Err(TailError::IoError) => parse_spec(spec@) is Some && source@.len() > i64::MAX
                && final(sink)@ == old(sink)@,
        },
{
    let take_val = match parse_num(spec) {
        Ok(v) => v,
        Err(e) => {
            return Err(e);
        },
    };
    let (total_lines, total_bytes) = match count_lines_bytes(source) {
        Ok(totals) => totals,
        Err(e) => {
            return Err(e);
        },
    };
    proof {
        lemma_selected_lines_unchanged(source@, take_val);
        lemma_selected_bytes_unchanged(source@, take_val);
    }
    match mode {
        Mode::Lines => print_lines(source, &take_val, total_lines, sink),
        Mode::Bytes => print_bytes(source, &take_val, total_bytes, sink),
    }
    Ok(())
}

} // verus!
