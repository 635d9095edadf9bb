//! Take values and the text form they are parsed from.

use crate::digits::{
    all_digits, decimal_text, digits_value, is_digit, lemma_decimal_text, read_digits,
};
use crate::text::chars_of;
use vstd::prelude::*;
use vstd::string::*;

verus! {

/// A parsed take value.
///
/// `PlusZero` selects from the first element on. `TakeNum(n)` with `n > 0`
/// starts at the element whose one-based position is `n`; with `n < 0` it
/// starts `-n` elements before the end; `TakeNum(0)` selects nothing.
#[derive(Debug, PartialEq, Eq, Structural, Clone, Copy)]
pub enum TakeValue {
    PlusZero,
    TakeNum(i64),
}

/// Why tail selection failed.
#[derive(Debug, PartialEq, Eq)]
pub enum TailError {
    /// The text is no take value; it is carried along for the report.
    InvalidSpec(String),
    /// Reading from the source failed.
    IoError,
}

impl TailError {
    /// What the report of this failure says.
    pub open spec fn message(self) -> Seq<char> {
        match self {
            TailError::InvalidSpec(text) => text@,
            TailError::IoError => "read failed"@,
        }
    }

    /// The report of this failure: the text that was no take value, or a
    /// word on the failed read.
    pub fn to_string(&self) -> (text: String)
        ensures
            text@ == self.message(),
    {
        match self {
            TailError::InvalidSpec(text) => text.clone(),
            TailError::IoError => String::from_str("read failed"),
        }
    }
}

/// The largest magnitude that a take value counted from the end can hold.
pub const END_LIMIT: u64 = 9223372036854775808;

/// The largest magnitude that a take value counted from the front can hold.
pub const FRONT_LIMIT: u64 = 9223372036854775807;

/// Whether a text starts with a plus or a minus sign.
pub open spec fn has_sign(s: Seq<char>) -> bool {
    s.len() > 0 && (s[0] == '+' || s[0] == '-')
}

/// What follows the optional sign.
pub open spec fn magnitude_text(s: Seq<char>) -> Seq<char> {
    if has_sign(s) {
        s.subrange(1, s.len() as int)
    } else {
        s
    }
}

/// An optional sign followed by one decimal digit or more.
pub open spec fn is_signed_number(s: Seq<char>) -> bool {
    magnitude_text(s).len() > 0 && all_digits(magnitude_text(s))
}

/// The one text that selects from the first element on.
pub open spec fn plus_zero_text() -> Seq<char> {
    seq!['+', '0']
}

/// The take value that a text stands for, or `None` where it stands for none.
///
/// `+0` alone is `PlusZero`. A leading `+` gives a positive count. A leading
/// `-`, or no sign at all, gives a negative count. A magnitude that the
/// count cannot hold stands for nothing.
pub open spec fn parse_spec(s: Seq<char>) -> Option<TakeValue> {
    if s == plus_zero_text() {
        Some(TakeValue::PlusZero)
    } else if !is_signed_number(s) {
        None
    } else {
        let m = digits_value(magnitude_text(s));
        if s[0] == '+' {
            if m <= FRONT_LIMIT {
                Some(TakeValue::TakeNum(m as i64))
            } else {
                None
            }
        } else if m <= END_LIMIT {
            Some(TakeValue::TakeNum((-m) as i64))
        } else {
            None
        }
    }
}

/// Written without a sign, or behind a minus sign, a number up to the
/// largest magnitude parses to the count of that many elements from the
/// end. Behind a plus sign, a number from one up to the largest positive
/// count parses to that count from the front.
pub proof fn lemma_parse_signs(n: nat)
    ensures
        n <= END_LIMIT ==> parse_spec(decimal_text(n)) == Some(TakeValue::TakeNum((-n) as i64)),
        n <= END_LIMIT ==> parse_spec(seq!['-'] + decimal_text(n)) == Some(
            TakeValue::TakeNum((-n) as i64),
        ),
        0 < n <= FRONT_LIMIT ==> parse_spec(seq!['+'] + decimal_text(n)) == Some(
            TakeValue::TakeNum(n as i64),
        ),
{
    lemma_decimal_text(n);
    let t = decimal_text(n);
    assert(is_digit(t[0]));
    assert(!has_sign(t));
    assert(t != plus_zero_text()) by {
        if t == plus_zero_text() {
            assert(t[0] == '+');
        }
    }
    let minus = seq!['-'] + t;
    assert(has_sign(minus));
    assert(magnitude_text(minus) =~= t);
    assert(minus != plus_zero_text()) by {
        if minus == plus_zero_text() {
            assert(minus[0] == '+');
        }
    }
    let plus = seq!['+'] + t;
    assert(has_sign(plus));
    assert(magnitude_text(plus) =~= t);
    if n > 0 {
        assert(plus != plus_zero_text()) by {
            if plus == plus_zero_text() {
                assert(t =~= seq!['0']);
                assert(t.drop_last() =~= Seq::<char>::empty());
                assert(digits_value(t.drop_last()) == 0);
                assert(digits_value(t) == 0);
            }
        }
    }
}

/// Parses the text of a take value.
///
/// Succeeds exactly on the texts that stand for a take value, with that
/// value. Every other text comes back inside `InvalidSpec`.
pub fn parse_num(s: &str) -> (result: Result<TakeValue, TailError>)
    ensures
        match result {
            Ok(v) => parse_spec(s@) == Some(v),
            Err(TailError::InvalidSpec(text)) => parse_spec(s@) is None && text@ == s@,
            Err(TailError::IoError) => false,
        },
{
    let chars = chars_of(s);
    let n: usize = chars.len();
    if n == 2 && chars[0] == '+' && chars[1] == '0' {
        assert(s@ =~= plus_zero_text());
        return Ok(TakeValue::PlusZero);
    }
    assert(s@ != plus_zero_text()) by {
        if s@ == plus_zero_text() {
            assert(s@[0] == '+' && s@[1] == '0');
        }
    }
    let front: bool = n > 0 && chars[0] == '+';
    let signed: bool = front || (n > 0 && chars[0] == '-');
    let first: usize = if signed {
        1
    } else {
        0
    };
    assert(magnitude_text(s@) =~= chars@.subrange(first as int, n as int));
    let limit: u64 = if front {
        FRONT_LIMIT
    } else {
        END_LIMIT
    };
    match read_digits(chars.as_slice(), first, n, limit) {
        None => Err(TailError::InvalidSpec(s.to_owned())),
        Some(magnitude) => {
            if front {
                Ok(TakeValue::TakeNum(magnitude as i64))
            } else if magnitude == END_LIMIT {
                Ok(TakeValue::TakeNum(i64::MIN))
            } else {
                Ok(TakeValue::TakeNum(-(magnitude as i64)))
            }
        },
    }
}

} // verus!
