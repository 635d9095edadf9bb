//! From a take value and a total to the offset at which output starts.

use crate::tailr::take::TakeValue;
use vstd::prelude::*;

verus! {

/// The zero-based offset at which output starts, for a source of `total`
/// elements, or `None` where nothing is selected.
pub open spec fn start_index(take_val: TakeValue, total: int) -> Option<int> {
    if total == 0 {
        None
    } else {
        match take_val {
            TakeValue::PlusZero => Some(0),
            TakeValue::TakeNum(n) => {
                if n == 0 {
                    None
                } else if n > 0 {
                    if n > total {
                        None
                    } else {
                        Some(n - 1)
                    }
                } else if total + n < 0 {
                    Some(0)
                } else {
                    Some(total + n)
                }
            },
        }
    }
}

/// A resolved offset is never negative, and lies before the end of a source
/// that holds anything. Nothing is selected from an empty source, nor by a
/// count of zero.
pub proof fn lemma_start_index_bounds(take_val: TakeValue, total: int)
    ensures
        start_index(take_val, total) matches Some(k) ==> 0 <= k && (total > 0 ==> k < total),
        total == 0 ==> start_index(take_val, total) is None,
        take_val == TakeValue::TakeNum(0) ==> start_index(take_val, total) is None,
{
}

/// Resolves a take value against the number of elements of a source.
/// The same function serves lines and bytes.
pub fn get_start_index(take_val: &TakeValue, total: i64) -> (start: Option<i64>)
    ensures
        match start {
            Some(k) => start_index(*take_val, total as int) == Some(k as int),
            None => start_index(*take_val, total as int) is None,
        },
        start matches Some(k) ==> 0 <= k && (total > 0 ==> k < total),
{
    if total == 0 {
        return None;
    }
    match *take_val {
        TakeValue::PlusZero => Some(0),
        TakeValue::TakeNum(n) => {
            if n == 0 {
                None
            } else if n > 0 {
                if n > total {
                    None
                } else {
                    Some(n - 1)
                }
            } else if total < 0 {
                Some(0)
            } else {
                let k: i64 = total + n;
                if k < 0 {
                    Some(0)
                } else {
                    Some(k)
                }
            }
        },
    }
}

} // verus!
