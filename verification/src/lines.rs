//! Lines of a byte source: how many there are and where each starts.
//!
//! A line runs up to and including its terminator. Bytes behind the last
//! terminator form a final line of their own.

use crate::text::{lemma_text_of_bytes, str_of_bytes, text_of, texts};
use vstd::prelude::*;
use vstd::utf8::{
    is_char_boundary, is_char_boundary_start_end_of_seq, length_of_first_scalar,
    pop_first_scalar, valid_utf8, valid_utf8_concat, valid_utf8_split,
};

verus! {

/// The line terminator.
pub const NEWLINE: u8 = 10;

/// How many terminators a source holds.
pub open spec fn newline_count(s: Seq<u8>) -> nat
    decreases s.len(),
{
    if s.len() == 0 {
        0
    } else {
        newline_count(s.drop_last()) + if s.last() == NEWLINE {
            1nat
        } else {
            0nat
        }
    }
}

/// How many lines a source holds: one for each terminator, and one more
/// where bytes follow the last terminator.
pub open spec fn line_count(s: Seq<u8>) -> nat {
    newline_count(s) + if s.len() > 0 && s.last() != NEWLINE {
        1nat
    } else {
        0nat
    }
}

/// Where the line that starts at `from` ends: behind its terminator, or at
/// the end of the source where it has none.
pub open spec fn line_end(s: Seq<u8>, from: int) -> int
    decreases s.len() - from,
{
    if from < 0 || from >= s.len() {
        s.len() as int
    } else if s[from] == NEWLINE {
        from + 1
    } else {
        line_end(s, from + 1)
    }
}

/// The offset behind the first `k` lines; the length of the source where it
/// holds fewer.
pub open spec fn line_offset(s: Seq<u8>, k: nat) -> int
    decreases k,
{
    if k == 0 {
        0
    } else {
        line_end(s, line_offset(s, (k - 1) as nat))
    }
}

/// A line ends within the source, behind where it starts, and holds no
/// terminator before its last byte.
pub proof fn lemma_line_end(s: Seq<u8>, from: int)
    requires
        0 <= from <= s.len(),
    ensures
        from <= line_end(s, from) <= s.len(),
        from < s.len() ==> from < line_end(s, from),
        forall|j: int| from <= j < line_end(s, from) - 1 ==> s[j] != NEWLINE,
        line_end(s, from) < s.len() ==> s[line_end(s, from) - 1] == NEWLINE,
    decreases s.len() - from,
{
    if from < s.len() && s[from] != NEWLINE {
        lemma_line_end(s, from + 1);
    }
}

/// Line offsets lie within the source.
pub proof fn lemma_line_offset_bounds(s: Seq<u8>, k: nat)
    ensures
        0 <= line_offset(s, k) <= s.len(),
    decreases k,
{
    if k > 0 {
        lemma_line_offset_bounds(s, (k - 1) as nat);
        lemma_line_end(s, line_offset(s, (k - 1) as nat));
    }
}

/// Line offsets grow with the number of lines.
pub proof fn lemma_line_offset_monotonic(s: Seq<u8>, j: nat, k: nat)
    requires
        j <= k,
    ensures
        line_offset(s, j) <= line_offset(s, k),
    decreases k,
{
    if j < k {
        lemma_line_offset_monotonic(s, j, (k - 1) as nat);
        lemma_line_offset_bounds(s, (k - 1) as nat);
        lemma_line_end(s, line_offset(s, (k - 1) as nat));
    }
}

/// Once a line offset has reached the end of the source, it stays there.
pub proof fn lemma_line_offset_at_end(s: Seq<u8>, j: nat, k: nat)
    requires
        j <= k,
        line_offset(s, j) == s.len(),
    ensures
        line_offset(s, k) == s.len(),
{
    lemma_line_offset_monotonic(s, j, k);
    lemma_line_offset_bounds(s, k);
}

/// A source holds no more terminators than bytes.
pub proof fn lemma_newline_count_bound(s: Seq<u8>)
    ensures
        newline_count(s) <= s.len(),
    decreases s.len(),
{
    if s.len() > 0 {
        lemma_newline_count_bound(s.drop_last());
    }
}

/// A source holds no more lines than bytes.
pub proof fn lemma_line_count_bound(s: Seq<u8>)
    ensures
        line_count(s) <= s.len(),
{
    lemma_newline_count_bound(s);
    if s.len() > 0 && s.last() != NEWLINE {
        lemma_newline_count_bound(s.drop_last());
    }
}

/// The terminators of two sources put together are those of both.
pub proof fn lemma_newline_count_concat(a: Seq<u8>, b: Seq<u8>)
    ensures
        newline_count(a + b) == newline_count(a) + newline_count(b),
    decreases b.len(),
{
    if b.len() == 0 {
        assert(a + b =~= a);
    } else {
        lemma_newline_count_concat(a, b.drop_last());
        assert((a + b).drop_last() =~= a + b.drop_last());
    }
}

/// Cut at `p`, the terminators of a source fall on either side.
pub proof fn lemma_newline_count_split(s: Seq<u8>, p: int)
    requires
        0 <= p <= s.len(),
    ensures
        newline_count(s) == newline_count(s.take(p)) + newline_count(s.skip(p)),
{
    lemma_newline_count_concat(s.take(p), s.skip(p));
    assert(s.take(p) + s.skip(p) =~= s);
}

/// A stretch without a terminator counts none.
pub proof fn lemma_newline_count_none(s: Seq<u8>)
    requires
        forall|j: int| 0 <= j < s.len() ==> s[j] != NEWLINE,
    ensures
        newline_count(s) == 0,
    decreases s.len(),
{
    if s.len() > 0 {
        lemma_newline_count_none(s.drop_last());
    }
}

/// Reading one line on from `from` passes one terminator where the line has
/// one, and none where the source ends without.
pub proof fn lemma_newline_count_line(s: Seq<u8>, from: int)
    requires
        0 <= from < s.len(),
    ensures
        newline_count(s.take(line_end(s, from))) == newline_count(s.take(from)) + if s[line_end(
            s,
            from,
        ) - 1] == NEWLINE {
            1nat
        } else {
            0nat
        },
{
    lemma_line_end(s, from);
    let e = line_end(s, from);
    let head = s.take(e - 1);
    lemma_newline_count_split(head, from);
    assert(head.take(from) =~= s.take(from));
    lemma_newline_count_none(head.skip(from));
    assert(s.take(e).drop_last() =~= head);
}

/// Behind `k` lines lie `k` terminators, as long as the source holds that
/// many, and the byte before the offset is the last of them.
pub proof fn lemma_line_offset_newlines(s: Seq<u8>, k: nat)
    requires
        k <= newline_count(s),
    ensures
        newline_count(s.take(line_offset(s, k))) == k,
        k > 0 ==> 0 < line_offset(s, k) <= s.len() && s[line_offset(s, k) - 1] == NEWLINE,
        k < newline_count(s) ==> line_offset(s, k) < s.len(),
    decreases k,
{
    lemma_line_offset_bounds(s, k);
    if k == 0 {
        assert(s.take(0) =~= Seq::<u8>::empty());
    } else {
        let q = line_offset(s, (k - 1) as nat);
        lemma_line_offset_newlines(s, (k - 1) as nat);
        lemma_line_end(s, q);
        lemma_newline_count_line(s, q);
        let e = line_end(s, q);
        if s[e - 1] != NEWLINE {
            assert(s.take(e) =~= s);
        }
    }
    if line_offset(s, k) == s.len() {
        assert(s.take(line_offset(s, k)) =~= s);
    }
}

/// The offset behind all lines of a source is its length, and the offset
/// behind fewer lines lies before it.
pub proof fn lemma_line_offset_total(s: Seq<u8>, k: nat)
    ensures
        k >= line_count(s) ==> line_offset(s, k) == s.len(),
        k < line_count(s) ==> line_offset(s, k) < s.len(),
{
    let m = newline_count(s);
    lemma_line_offset_newlines(s, m);
    lemma_line_offset_bounds(s, m);
    let p = line_offset(s, m);
    lemma_newline_count_split(s, p);
    if s.len() > 0 && s.last() != NEWLINE {
        assert(p < s.len());
        lemma_line_end(s, p);
        lemma_newline_count_line(s, p);
        let e = line_end(s, p);
        lemma_newline_count_split(s, e);
        assert(e == s.len());
        assert(line_offset(s, m + 1) == e);
    } else if s.len() > 0 {
        if p < s.len() {
            assert(s.skip(p).last() == NEWLINE);
            assert(newline_count(s.skip(p)) >= 1);
        }
    }
    if k >= line_count(s) {
        lemma_line_offset_at_end(s, line_count(s), k);
    } else if k < m {
        lemma_line_offset_newlines(s, k);
    }
}

/// What is left behind the first `k` lines of a source holds the other
/// lines of it.
pub proof fn lemma_line_count_rest(s: Seq<u8>, k: nat)
    requires
        k <= line_count(s),
    ensures
        line_count(s.skip(line_offset(s, k))) == line_count(s) - k,
{
    let p = line_offset(s, k);
    lemma_line_offset_bounds(s, k);
    lemma_line_offset_total(s, k);
    lemma_newline_count_split(s, p);
    if p < s.len() {
        assert(s.skip(p).last() == s.last());
        if k <= newline_count(s) {
            lemma_line_offset_newlines(s, k);
        }
    } else {
        assert(s.skip(p) =~= Seq::<u8>::empty());
    }
}

/// The bytes of line `k` of a source, terminator included.
pub open spec fn line_at(s: Seq<u8>, k: nat) -> Seq<u8> {
    s.subrange(line_offset(s, k), line_offset(s, k + 1))
}

/// In valid UTF-8, a character starts behind every ASCII byte.
pub proof fn lemma_boundary_behind_ascii(s: Seq<u8>, i: int)
    requires
        valid_utf8(s),
        0 <= i < s.len(),
        s[i] < 0x80,
    ensures
        is_char_boundary(s, i + 1),
    decreases s.len(),
{
    let width = length_of_first_scalar(s);
    let rest = pop_first_scalar(s);
    if i < width {
        assert(i == 0);
        assert(is_char_boundary(rest, 0));
    } else {
        assert(rest[i - width] == s[i]);
        lemma_boundary_behind_ascii(rest, i - width);
    }
}

/// In valid UTF-8, a character starts at every line offset.
pub proof fn lemma_line_offset_is_boundary(s: Seq<u8>, k: nat)
    requires
        valid_utf8(s),
    ensures
        is_char_boundary(s, line_offset(s, k)),
{
    let p = line_offset(s, k);
    lemma_line_offset_bounds(s, k);
    is_char_boundary_start_end_of_seq(s);
    if 0 < p < s.len() {
        let q = line_offset(s, (k - 1) as nat);
        lemma_line_offset_bounds(s, (k - 1) as nat);
        lemma_line_end(s, q);
        lemma_boundary_behind_ascii(s, p - 1);
    }
}

/// Every line of valid UTF-8 is valid UTF-8, and so is what stands before
/// it.
pub proof fn lemma_line_of_text(s: Seq<u8>, k: nat)
    requires
        valid_utf8(s),
    ensures
        valid_utf8(line_at(s, k)),
        valid_utf8(s.take(line_offset(s, k))),
{
    let p = line_offset(s, k);
    let q = line_offset(s, k + 1);
    lemma_line_offset_bounds(s, k);
    lemma_line_offset_bounds(s, k + 1);
    lemma_line_offset_monotonic(s, k, k + 1);
    lemma_line_offset_is_boundary(s, k);
    lemma_line_offset_is_boundary(s, k + 1);
    valid_utf8_split(s, q);
    valid_utf8_split(s, p);
    let rest = s.subrange(p, s.len() as int);
    assert(s.take(p) =~= s.subrange(0, p));
    if q == p {
        assert(line_at(s, k) =~= Seq::<u8>::empty());
    } else {
        // the line ends behind a terminator or at the end of the source
        is_char_boundary_start_end_of_seq(rest);
        if q < s.len() {
            lemma_line_end(s, p);
            assert(rest[q - p - 1] == s[q - 1]);
            lemma_boundary_behind_ascii(rest, q - p - 1);
        }
        valid_utf8_split(rest, q - p);
        assert(rest.subrange(0, q - p) =~= line_at(s, k));
    }
}

/// A source whose first `k` lines are each valid UTF-8 is valid UTF-8 up to
/// the end of those lines.
pub proof fn lemma_text_of_lines(s: Seq<u8>, k: nat)
    requires
        forall|j: nat| j < k ==> valid_utf8(#[trigger] line_at(s, j)),
    ensures
        valid_utf8(s.take(line_offset(s, k))),
    decreases k,
{
    if k == 0 {
        assert(s.take(0) =~= Seq::<u8>::empty());
    } else {
        let j = (k - 1) as nat;
        lemma_text_of_lines(s, j);
        lemma_line_offset_bounds(s, j);
        lemma_line_offset_bounds(s, k);
        lemma_line_offset_monotonic(s, j, k);
        assert(valid_utf8(line_at(s, j)));
        valid_utf8_concat(s.take(line_offset(s, j)), line_at(s, j));
        assert(s.take(line_offset(s, j)) + line_at(s, j) =~= s.take(line_offset(s, k)));
    }
}

/// The first `k` lines of a text, each with its terminator.
pub open spec fn lines_of_text(s: Seq<u8>, k: nat) -> Seq<Seq<char>> {
    Seq::new(k, |j: int| text_of(line_at(s, j as nat)))
}

/// Finds where the line that starts at `from` ends.
pub(crate) fn find_line_end(source: &[u8], from: usize) -> (end: usize)
    requires
        from <= source@.len(),
    ensures
        end == line_end(source@, from as int),
        from <= end <= source@.len(),
{
    let mut i: usize = from;
    proof {
        lemma_line_end(source@, from as int);
    }
    while i < source.len() && source[i] != NEWLINE
        invariant
            from <= i <= source@.len(),
            line_end(source@, i as int) == line_end(source@, from as int),
        decreases source@.len() - i,
    {
        i = i + 1;
    }
    if i < source.len() {
        i + 1
    } else {
        i
    }
}

/// Counts the terminators of `content`.
fn count_newlines(content: &[u8]) -> (n: usize)
    ensures
        n == newline_count(content@),
{
    let mut n: usize = 0;
    let mut i: usize = 0;
    assert(content@.take(0) =~= Seq::<u8>::empty());
    while i < content.len()
        invariant
            i <= content.len(),
            n <= i,
            n == newline_count(content@.take(i as int)),
        decreases content.len() - i,
    {
        assert(content@.take(i + 1).drop_last() =~= content@.take(i as int));
        if content[i] == NEWLINE {
            n = n + 1;
        }
        i = i + 1;
    }
    assert(content@.take(i as int) =~= content@);
    n
}

/// Counts the lines of `content` in one pass over it.
pub fn count_lines(content: &[u8]) -> (n: usize)
    ensures
        n == line_count(content@),
{
    let newlines = count_newlines(content);
    let len = content.len();
    if len > 0 && content[len - 1] != NEWLINE {
        assert(newlines < len) by {
            lemma_newline_count_split(content@, len - 1);
            lemma_newline_count_bound(content@.take(len - 1));
            assert(content@.skip(len - 1).drop_last() =~= Seq::<u8>::empty());
        }
        newlines + 1
    } else {
        newlines
    }
}

/// Cuts a text into its lines, each with its terminator; gives `None`
/// where the bytes are not valid UTF-8.
pub fn text_lines(content: &[u8]) -> (result: Option<Vec<String>>)
    ensures
        match result {
            Some(lines) => valid_utf8(content@) && texts(lines@) == lines_of_text(
                content@,
                line_count(content@),
            ),
            None => !valid_utf8(content@),
        },
{
    let ghost s = content@;
    let mut lines: Vec<String> = Vec::new();
    let mut pos: usize = 0;
    let ghost mut k: nat = 0;
    assert(texts(lines@) =~= lines_of_text(s, 0));
    while pos < content.len()
        invariant
            s == content@,
            pos <= s.len(),
            pos == line_offset(s, k),
            k <= line_count(s),
            pos < s.len() ==> k < line_count(s),
            forall|j: nat| j < k ==> valid_utf8(#[trigger] line_at(s, j)),
            texts(lines@) == lines_of_text(s, k),
        decreases s.len() - pos,
    {
        let end = find_line_end(content, pos);
        proof {
            lemma_line_end(s, pos as int);
            lemma_line_offset_total(s, k + 1);
            lemma_line_offset_total(s, k);
        }
        let line = vstd::slice::slice_subrange(content, pos, end);
        assert(line@ == line_at(s, k));
        match str_of_bytes(line) {
            None => {
                proof {
                    if valid_utf8(s) {
                        lemma_line_of_text(s, k);
                    }
                }
                return None;
            },
            Some(text) => {
                proof {
                    lemma_text_of_bytes(text, line@);
                }
                let ghost before = lines@;
                lines.push(text.to_owned());
                assert(texts(lines@) =~= texts(before).push(text@));
                assert(lines_of_text(s, k + 1) =~= lines_of_text(s, k).push(text@));
            },
        }
        proof {
            k = k + 1;
        }
        pos = end;
    }
    proof {
        lemma_line_offset_total(s, k);
        assert(k == line_count(s));
        lemma_text_of_lines(s, k);
        assert(s.take(s.len() as int) =~= s);
    }
    Some(lines)
}

} // verus!
