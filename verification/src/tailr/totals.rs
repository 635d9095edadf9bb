//! The totals of a source: how many lines and how many bytes it holds.

use crate::lines::{count_lines, lemma_line_count_bound, line_count};
use crate::tailr::take::TailError;
use vstd::prelude::*;

verus! {

/// The totals of a source held in memory: its lines and its bytes.
///
/// Fails with `IoError` where the source holds more bytes than a total can
/// count.
pub fn count_lines_bytes(content: &[u8]) -> (totals: Result<(i64, i64), TailError>)
    ensures
        match totals {
            Ok((lines, bytes)) => lines == line_count(content@) && bytes == content@.len(),
            Err(e) => content@.len() > i64::MAX && e == TailError::IoError,
        },
{
    if content.len() as u64 > i64::MAX as u64 {
        return Err(TailError::IoError);
    }
    proof {
        lemma_line_count_bound(content@);
    }
    Ok((count_lines(content) as i64, content.len() as i64))
}

} // verus!
