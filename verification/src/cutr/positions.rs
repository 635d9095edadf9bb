//! Position lists: which characters, bytes or fields of a line are wanted.
//!
//! A list is written as parts between commas. A part is one number, or two
//! numbers with a dash between them. Positions are counted from one.

use crate::digits::{
    all_digits, decimal_text, is_digit, positive_number, push_decimal, read_positive,
};
use crate::text::{chars_of, find_char, find_from, lemma_find_from, trim, trim_bounds};
use std::ops::Range;
use vstd::prelude::*;
use vstd::string::*;

verus! {

/// The complaint about a value that is no position.
pub open spec fn illegal_value(text: Seq<char>) -> Seq<char> {
    "illegal list value: \""@ + text + "\""@
}

/// The complaint about a range that does not run upwards.
pub open spec fn wrong_order(first: nat, second: nat) -> Seq<char> {
    "First number in range ("@ + decimal_text(first) + ") must be lower than second number ("@
        + decimal_text(second) + ")"@
}

/// The complaint about a list that holds nothing.
pub open spec fn empty_list() -> Seq<char> {
    "empty position list"@
}

/// The complaint about a part that holds nothing.
pub open spec fn empty_field() -> Seq<char> {
    "empty field in position list"@
}

/// The positions from `first` up to `second`, counted from one, as a range
/// of offsets counted from zero.
pub open spec fn offsets(first: nat, second: nat) -> Range<usize> {
    Range { start: (first - 1) as usize, end: second as usize }
}

/// The range that one part of a list stands for, or the complaint about it.
pub open spec fn parse_part(part: Seq<char>) -> Result<Range<usize>, Seq<char>> {
    if part.len() == 0 {
        Err(empty_field())
    } else {
        let dash = find_from(part, '-', 0);
        if dash >= part.len() {
            match positive_number(part) {
                Some(n) => if all_digits(part) {
                    Ok(offsets(n, n))
                } else {
                    Err(illegal_value(part))
                },
                None => Err(illegal_value(part)),
            }
        } else {
            let first = part.take(dash);
            let second = part.skip(dash + 1);
            if find_from(second, '-', 0) < second.len() {
                Err(illegal_value(part))
            } else if !all_digits(first) || !all_digits(second) {
                Err(illegal_value(part))
            } else {
                match positive_number(first) {
                    None => Err(illegal_value(first)),
                    Some(x) => match positive_number(second) {
                        None => Err(illegal_value(second)),
                        Some(y) => if x >= y {
                            Err(wrong_order(x, y))
                        } else {
                            Ok(offsets(x, y))
                        },
                    },
                }
            }
        }
    }
}

/// A list whose first part gave `head` and whose other parts gave `tail`.
pub open spec fn joined(
    head: Seq<Range<usize>>,
    tail: Result<Seq<Range<usize>>, Seq<char>>,
) -> Result<Seq<Range<usize>>, Seq<char>> {
    match tail {
        Ok(rest) => Ok(head + rest),
        Err(e) => Err(e),
    }
}

/// The ranges that the parts of a list stand for, in the order of the
/// parts, or the complaint about the first part that stands for none.
/// White space around a part does not count.
pub open spec fn parse_parts(s: Seq<char>) -> Result<Seq<Range<usize>>, Seq<char>>
    decreases s.len(),
{
    let comma = find_from(s, ',', 0);
    match parse_part(trim(s.take(comma))) {
        Err(e) => Err(e),
        Ok(r) => if 0 <= comma < s.len() {
            joined(seq![r], parse_parts(s.skip(comma + 1)))
        } else {
            Ok(seq![r])
        },
    }
}

/// The ranges that a position list stands for, or the complaint about it.
pub open spec fn parse_pos_spec(s: Seq<char>) -> Result<Seq<Range<usize>>, Seq<char>> {
    if s.len() == 0 {
        Err(empty_list())
    } else {
        parse_parts(s)
    }
}

/// The complaint about the characters of `text` from `from` up to `to`.
fn complain_about(text: &str, from: usize, to: usize) -> (message: String)
    requires
        from <= to <= text@.len(),
    ensures
        message@ == illegal_value(text@.subrange(from as int, to as int)),
{
    let mut message = String::from_str("illegal list value: \"");
    message.append(text.substring_char(from, to));
    message.append("\"");
    message
}

/// Says whether the characters from `from` up to `to` are all digits.
fn digits_only(chars: &[char], from: usize, to: usize) -> (all: bool)
    requires
        from <= to <= chars@.len(),
    ensures
        all == all_digits(chars@.subrange(from as int, to as int)),
{
    let ghost part = chars@.subrange(from as int, to as int);
    let mut i: usize = from;
    while i < to
        invariant
            from <= i <= to <= chars@.len(),
            part == chars@.subrange(from as int, to as int),
            forall|j: int| 0 <= j < i - from ==> is_digit(#[trigger] part[j]),
        decreases to - i,
    {
        let c: char = chars[i];
        assert(c == part[i - from]);
        if c < '0' || c > '9' {
            return false;
        }
        i = i + 1;
    }
    true
}

/// Reads a position: a number above zero.
pub fn parse_number(value: &str) -> (result: Result<usize, String>)
    ensures
        match result {
            Ok(n) => positive_number(value@) == Some(n as nat),
            Err(message) => positive_number(value@) is None && message@ == illegal_value(value@),
        },
{
    let chars = chars_of(value);
    assert(chars@.subrange(0, chars@.len() as int) =~= value@);
    match read_positive(chars.as_slice(), 0, chars.len()) {
        Some(n) => Ok(n),
        None => {
            let message = complain_about(value, 0, chars.len());
            Err(message)
        },
    }
}

/// Reads the part of a list that the characters from `from` up to `to`
/// hold.
fn read_part(text: &str, chars: &[char], from: usize, to: usize) -> (result: Result<
    Range<usize>,
    String,
>)
    requires
        chars@ == text@,
        from <= to <= chars@.len(),
    ensures
        match result {
            Ok(r) => parse_part(chars@.subrange(from as int, to as int)) == Ok::<
                Range<usize>,
                Seq<char>,
            >(r),
            Err(message) => parse_part(chars@.subrange(from as int, to as int)) == Err::<
                Range<usize>,
                Seq<char>,
            >(message@),
        },
{
    let ghost part = chars@.subrange(from as int, to as int);
    if from == to {
        return Err(String::from_str("empty field in position list"));
    }
    let dash = find_char(chars, '-', from, to);
    if dash == to {
        if !digits_only(chars, from, to) {
            return Err(complain_about(text, from, to));
        }
        return match read_positive(chars, from, to) {
            Some(n) => Ok(Range { start: n - 1, end: n }),
            None => Err(complain_about(text, from, to)),
        };
    }
    let ghost first = part.take(dash - from);
    let ghost second = part.skip(dash - from + 1);
    assert(first =~= chars@.subrange(from as int, dash as int));
    assert(second =~= chars@.subrange(dash + 1, to as int));
    let next_dash = find_char(chars, '-', dash + 1, to);
    if next_dash < to {
        return Err(complain_about(text, from, to));
    }
    if !digits_only(chars, from, dash) || !digits_only(chars, dash + 1, to) {
        return Err(complain_about(text, from, to));
    }
    let x = match read_positive(chars, from, dash) {
        Some(x) => x,
        None => {
            return Err(complain_about(text, from, dash));
        },
    };
    let y = match read_positive(chars, dash + 1, to) {
        Some(y) => y,
        None => {
            return Err(complain_about(text, dash + 1, to));
        },
    };
    if x >= y {
        let mut message = String::from_str("First number in range (");
        push_decimal(x as u64, &mut message);
        message.append(") must be lower than second number (");
        push_decimal(y as u64, &mut message);
        message.append(")");
        return Err(message);
    }
    Ok(Range { start: x - 1, end: y })
}

/// Reads a position list.
///
/// Gives the ranges of offsets that the parts of the list stand for, in the
/// order of the parts, or the complaint about the first part that stands
/// for none.
pub fn parse_pos(range: &str) -> (result: Result<Vec<Range<usize>>, String>)
    ensures
        match result {
            Ok(list) => parse_pos_spec(range@) == Ok::<Seq<Range<usize>>, Seq<char>>(list@),
            Err(message) => parse_pos_spec(range@) == Err::<Seq<Range<usize>>, Seq<char>>(
                message@,
            ),
        },
{
    let chars = chars_of(range);
    let n: usize = chars.len();
    if n == 0 {
        return Err(String::from_str("empty position list"));
    }
    let ghost s = range@;
    let mut list: Vec<Range<usize>> = Vec::new();
    let mut from: usize = 0;
    assert(s.skip(0) =~= s);
    loop
        invariant
            s == range@,
            chars@ == s,
            n == s.len(),
            from <= n,
            parse_pos_spec(s) == joined(list@, parse_parts(s.skip(from as int))),
        decreases n - from,
    {
        let ghost rest = s.skip(from as int);
        let comma = find_char(chars.as_slice(), ',', from, n);
        let (first, last) = trim_bounds(chars.as_slice(), from, comma);
        proof {
            assert(chars@.subrange(from as int, n as int) =~= rest);
            assert(rest.take(comma - from) =~= chars@.subrange(from as int, comma as int));
            lemma_find_from(rest, ',', 0);
        }
        match read_part(range, chars.as_slice(), first, last) {
            Err(message) => {
                return Err(message);
            },
            Ok(r) => {
                let ghost before = list@;
                list.push(r);
                if comma >= n {
                    assert(before + seq![r] =~= list@);
                    return Ok(list);
                }
                proof {
                    assert(rest.skip(comma - from + 1) =~= s.skip(comma + 1));
                    let tail = parse_parts(s.skip(comma + 1));
                    match tail {
                        Ok(more) => {
                            assert(before + (seq![r] + more) =~= list@ + more);
                        },
                        Err(_) => {},
                    }
                }
                from = comma + 1;
            },
        }
    }
}

} // verus!
