//! Picking the wanted characters, bytes or fields out of one line.

use crate::text::{join, joined_with, lossy_string, texts, utf8_lossy};
use std::ops::Range;
use vstd::prelude::*;
use vstd::string::*;

verus! {

/// The ranges of offsets that are wanted, in the order in which they are
/// put out.
pub type PositionList = Vec<Range<usize>>;

/// What is cut out of each line.
#[derive(Debug)]
pub enum Extract {
    Fields(PositionList),
    Bytes(PositionList),
    Chars(PositionList),
}

/// The part of a range that lies within `len` elements.
pub open spec fn clipped(r: Range<usize>, len: nat) -> (int, int) {
    let from = if r.start < len {
        r.start as int
    } else {
        len as int
    };
    let to = if r.end < len {
        r.end as int
    } else {
        len as int
    };
    if from <= to {
        (from, to)
    } else {
        (from, from)
    }
}

/// The elements of `s` whose offset lies in `r`.
pub open spec fn picked<T>(s: Seq<T>, r: Range<usize>) -> Seq<T> {
    s.subrange(clipped(r, s.len()).0, clipped(r, s.len()).1)
}

/// The elements of `s` that the ranges pick, range after range.
pub open spec fn picked_all<T>(s: Seq<T>, ranges: Seq<Range<usize>>) -> Seq<T>
    decreases ranges.len(),
{
    if ranges.len() == 0 {
        Seq::empty()
    } else {
        picked_all(s, ranges.drop_last()) + picked(s, ranges.last())
    }
}

/// The texts of the bytes of `s` that the ranges pick: the bytes of each
/// range are read as text by themselves.
pub open spec fn lossy_pieces(s: Seq<u8>, ranges: Seq<Range<usize>>) -> Seq<Seq<char>> {
    Seq::new(ranges.len(), |i: int| utf8_lossy(picked(s, ranges[i])))
}

/// Clips a range to `len` elements.
fn clip(r: &Range<usize>, len: usize) -> (bounds: (usize, usize))
    ensures
        bounds.0 <= bounds.1 <= len,
        bounds.0 == clipped(*r, len as nat).0,
        bounds.1 == clipped(*r, len as nat).1,
{
    let from = if r.start < len {
        r.start
    } else {
        len
    };
    let to = if r.end < len {
        r.end
    } else {
        len
    };
    if from <= to {
        (from, to)
    } else {
        (from, from)
    }
}

/// Picks the characters of a line whose offset lies in one of the ranges,
/// range after range.
pub fn extract_chars(line: &str, char_pos: &[Range<usize>]) -> (picked: String)
    ensures
        picked@ == picked_all(line@, char_pos@),
{
    let len = line.unicode_len();
    let mut result = String::new();
    let mut i: usize = 0;
    assert(char_pos@.take(0) =~= Seq::<Range<usize>>::empty());
    while i < char_pos.len()
        invariant
            i <= char_pos@.len(),
            len == line@.len(),
            result@ == picked_all(line@, char_pos@.take(i as int)),
        decreases char_pos@.len() - i,
    {
        let (from, to) = clip(&char_pos[i], len);
        result.append(line.substring_char(from, to));
        proof {
            assert(char_pos@.take(i + 1).drop_last() =~= char_pos@.take(i as int));
        }
        i = i + 1;
    }
    assert(char_pos@.take(i as int) =~= char_pos@);
    result
}

/// Reads the bytes of a line that each of the ranges picks as a text of
/// its own, so that a character cut in two shows as the replacement
/// character.
pub fn byte_pieces(line: &str, byte_pos: &[Range<usize>]) -> (pieces: Vec<String>)
    ensures
        texts(pieces@) == lossy_pieces(line.spec_bytes(), byte_pos@),
{
    let bytes = line.as_bytes();
    let len = bytes.len();
    let mut pieces: Vec<String> = Vec::new();
    let mut i: usize = 0;
    while i < byte_pos.len()
        invariant
            i <= byte_pos@.len(),
            bytes@ == line.spec_bytes(),
            len == bytes@.len(),
            pieces@.len() == i,
            forall|j: int|
                0 <= j < i ==> (#[trigger] pieces@[j])@ == utf8_lossy(
                    picked(bytes@, byte_pos@[j]),
                ),
        decreases byte_pos@.len() - i,
    {
        let (from, to) = clip(&byte_pos[i], len);
        pieces.push(lossy_string(vstd::slice::slice_subrange(bytes, from, to)));
        i = i + 1;
    }
    assert(texts(pieces@) =~= lossy_pieces(bytes@, byte_pos@));
    pieces
}

/// Picks the bytes of a line whose offset lies in one of the ranges, range
/// after range, as text: the pieces that the ranges give, put together.
pub fn extract_bytes(line: &str, byte_pos: &[Range<usize>]) -> (picked: String)
    ensures
        picked@ == joined_with(lossy_pieces(line.spec_bytes(), byte_pos@), Seq::empty()),
{
    let pieces = byte_pieces(line, byte_pos);
    let nothing = "";
    proof {
        reveal_strlit("");
        assert(nothing@ =~= Seq::<char>::empty());
    }
    join(&pieces, nothing)
}

} // verus!
