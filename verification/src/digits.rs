//! Decimal digits: the number that a text writes and the text that writes a
//! number.

use vstd::prelude::*;
use vstd::string::*;

verus! {

/// Whether a character is one of the ten decimal digits.
pub open spec fn is_digit(c: char) -> bool {
    '0' <= c <= '9'
}

/// Whether a text holds nothing but decimal digits.
pub open spec fn all_digits(s: Seq<char>) -> bool {
    forall|i: int| 0 <= i < s.len() ==> is_digit(#[trigger] s[i])
}

/// What a decimal digit is worth; a character that is none is worth nothing.
pub open spec fn digit_of(c: char) -> nat {
    if is_digit(c) {
        (c as u32 - '0' as u32) as nat
    } else {
        0
    }
}

/// The number that a sequence of decimal digits writes.
pub open spec fn digits_value(s: Seq<char>) -> nat
    decreases s.len(),
{
    if s.len() == 0 {
        0
    } else {
        digits_value(s.drop_last()) * 10 + digit_of(s.last())
    }
}

/// The number that `d` writes, where `d` is one decimal digit or more and
/// the number does not exceed `limit`.
pub open spec fn number_up_to(d: Seq<char>, limit: nat) -> Option<nat> {
    if d.len() > 0 && all_digits(d) && digits_value(d) <= limit {
        Some(digits_value(d))
    } else {
        None
    }
}

/// The number that a text writes, where it is a number above zero that a
/// `usize` can hold. A plus sign may come before the digits.
pub open spec fn positive_number(d: Seq<char>) -> Option<nat> {
    let digits = if d.len() > 0 && d[0] == '+' {
        d.skip(1)
    } else {
        d
    };
    match number_up_to(digits, usize::MAX as nat) {
        Some(n) => if n > 0 {
            Some(n)
        } else {
            None
        },
        None => None,
    }
}

/// The character that writes a digit below ten.
pub open spec fn digit_char(d: nat) -> char {
    (('0' as u32) + (d % 10) as u32) as char
}

/// A number written in decimal digits, without a sign or leading zeros.
pub open spec fn decimal_text(n: nat) -> Seq<char>
    decreases n,
{
    if n < 10 {
        seq![digit_char(n)]
    } else {
        decimal_text(n / 10).push(digit_char(n % 10))
    }
}

/// Appending a digit multiplies the value by ten and adds the digit.
pub proof fn lemma_digits_value_step(s: Seq<char>, k: int)
    requires
        0 <= k < s.len(),
    ensures
        digits_value(s.take(k + 1)) == digits_value(s.take(k)) * 10 + digit_of(s[k]),
        all_digits(s.take(k)) && is_digit(s[k]) ==> all_digits(s.take(k + 1)),
{
    assert(s.take(k + 1).drop_last() =~= s.take(k));
    assert(s.take(k + 1).last() == s[k]);
}

/// A digit sequence is worth at least as much as each of its prefixes.
pub proof fn lemma_digits_value_prefix(s: Seq<char>, k: int)
    requires
        0 <= k <= s.len(),
    ensures
        digits_value(s.take(k)) <= digits_value(s),
    decreases s.len() - k,
{
    if k == s.len() {
        assert(s.take(k) =~= s);
    } else {
        lemma_digits_value_step(s, k);
        lemma_digits_value_prefix(s, k + 1);
    }
}

/// The digit characters are digits and are worth what they write.
pub proof fn lemma_digit_char(d: nat)
    requires
        d < 10,
    ensures
        is_digit(digit_char(d)),
        digit_of(digit_char(d)) == d,
{
    let u: u32 = (48 + d) as u32;
    assert(digit_char(d) == u as char);
    assert((u as char) as u32 == u);
}

/// The decimal text of a number is made of digits and writes that number.
pub proof fn lemma_decimal_text(n: nat)
    ensures
        decimal_text(n).len() > 0,
        all_digits(decimal_text(n)),
        digits_value(decimal_text(n)) == n,
    decreases n,
{
    if n < 10 {
        lemma_digit_char(n);
        let t = decimal_text(n);
        assert(t.drop_last() =~= Seq::<char>::empty());
        assert(digits_value(t.drop_last()) == 0);
    } else {
        lemma_decimal_text(n / 10);
        lemma_digit_char(n % 10);
        let t = decimal_text(n);
        assert(t.drop_last() =~= decimal_text(n / 10));
        assert(t.last() == digit_char(n % 10));
        assert forall|i: int| 0 <= i < t.len() implies is_digit(#[trigger] t[i]) by {
            if i < t.len() - 1 {
                assert(t[i] == decimal_text(n / 10)[i]);
            }
        }
    }
}

/// A character of the sequence is a digit exactly when it lies between `0`
/// and `9`, and is then worth its distance from `0`.
pub proof fn lemma_digit_of(c: char)
    ensures
        is_digit(c) == (48 <= c as u32 <= 57),
        is_digit(c) ==> digit_of(c) == c as u32 - 48,
{
}

/// Reads the decimal number that the characters from `from` up to `to`
/// write, where they write a number up to `limit`.
pub(crate) fn read_digits(chars: &[char], from: usize, to: usize, limit: u64) -> (number: Option<
    u64,
>)
    requires
        from <= to <= chars@.len(),
    ensures
        match number {
            Some(n) => number_up_to(chars@.subrange(from as int, to as int), limit as nat) == Some(
                n as nat,
            ),
            None => number_up_to(chars@.subrange(from as int, to as int), limit as nat) is None,
        },
{
    let ghost digits = chars@.subrange(from as int, to as int);
    if from == to {
        return None;
    }
    let mut acc: u64 = 0;
    let mut i: usize = from;
    assert(digits.take(0) =~= Seq::<char>::empty());
    while i < to
        invariant
            from <= i <= to <= chars@.len(),
            digits == chars@.subrange(from as int, to as int),
            all_digits(digits.take(i - from)),
            acc == digits_value(digits.take(i - from)),
            acc <= limit,
        decreases to - i,
    {
        let c: char = chars[i];
        proof {
            assert(c == digits[i - from]);
            lemma_digit_of(c);
            lemma_digits_value_step(digits, i - from);
        }
        if c < '0' || c > '9' {
            assert(!all_digits(digits));
            return None;
        }
        let next: u128 = acc as u128 * 10 + (c as u32 - 48) as u128;
        if next > limit as u128 {
            proof {
                lemma_digits_value_prefix(digits, i - from + 1);
            }
            return None;
        }
        acc = next as u64;
        i = i + 1;
    }
    assert(digits.take(to - from) =~= digits);
    Some(acc)
}

/// Reads the characters from `from` up to `to` as a number above zero.
pub(crate) fn read_positive(chars: &[char], from: usize, to: usize) -> (number: Option<usize>)
    requires
        from <= to <= chars@.len(),
    ensures
        match number {
            Some(n) => positive_number(chars@.subrange(from as int, to as int)) == Some(n as nat),
            None => positive_number(chars@.subrange(from as int, to as int)) is None,
        },
{
    let ghost part = chars@.subrange(from as int, to as int);
    let first: usize = if from < to && chars[from] == '+' {
        from + 1
    } else {
        from
    };
    proof {
        if from < to {
            assert(part[0] == chars@[from as int]);
        }
        if first > from {
            assert(part.skip(1) =~= chars@.subrange(first as int, to as int));
        }
    }
    match read_digits(chars, first, to, usize::MAX as u64) {
        Some(n) => if n > 0 {
            Some(n as usize)
        } else {
            None
        },
        None => None,
    }
}

/// The text of one digit.
fn digit_str(d: u64) -> (text: &'static str)
    requires
        d < 10,
    ensures
        text@ == seq![digit_char(d as nat)],
{
    proof {
        reveal_strlit("0");
        reveal_strlit("1");
        reveal_strlit("2");
        reveal_strlit("3");
        reveal_strlit("4");
        reveal_strlit("5");
        reveal_strlit("6");
        reveal_strlit("7");
        reveal_strlit("8");
        reveal_strlit("9");
    }
    let text = if d == 0 {
        "0"
    } else if d == 1 {
        "1"
    } else if d == 2 {
        "2"
    } else if d == 3 {
        "3"
    } else if d == 4 {
        "4"
    } else if d == 5 {
        "5"
    } else if d == 6 {
        "6"
    } else if d == 7 {
        "7"
    } else if d == 8 {
        "8"
    } else {
        "9"
    };
    assert(text@ =~= seq![digit_char(d as nat)]);
    text
}

/// Appends the decimal text of `n` to `out`.
pub fn push_decimal(n: u64, out: &mut String)
    ensures
        final(out)@ == old(out)@ + decimal_text(n as nat),
    decreases n,
{
    if n >= 10 {
        push_decimal(n / 10, out);
    }
    out.append(digit_str(n % 10));
    assert(out@ =~= old(out)@ + decimal_text(n as nat));
}

/// The decimal text of `n`.
pub fn decimal_string(n: u64) -> (text: String)
    ensures
        text@ == decimal_text(n as nat),
{
    let mut text = String::new();
    push_decimal(n, &mut text);
    assert(text@ =~= decimal_text(n as nat));
    text
}

} // verus!
