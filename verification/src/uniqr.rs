//! Folding runs of equal lines into one.

use crate::digits::{decimal_string, decimal_text};
use crate::text::{chars_of, chomp, chomp_len, right_align, right_aligned, same_prefix};
use vstd::prelude::*;
use vstd::string::*;

verus! {

/// Where to read, where to write, and whether runs are counted.
#[derive(Debug)]
pub struct Config {
    pub in_file: String,
    pub out_file: Option<String>,
    pub count: bool,
}

/// The width of the column in which the length of a run is shown.
pub const RUN_WIDTH: usize = 4;

/// The run of equal lines that is being read: its first line, as it was
/// read, and how many lines it has so far. Before the first line is read
/// the line is empty.
#[derive(Debug)]
pub struct Run {
    pub last_line: String,
    pub count: u64,
}

/// Whether two lines are equal but for the line feeds at their ends.
pub open spec fn same_line(a: Seq<char>, b: Seq<char>) -> bool {
    chomp(a) == chomp(b)
}

/// What is written for a run: nothing where it has no line; else its
/// line, behind the length of the run where runs are counted.
pub open spec fn entry(last_line: Seq<char>, count: nat, counted: bool) -> Seq<char> {
    if last_line.len() == 0 {
        Seq::empty()
    } else if counted {
        right_aligned(decimal_text(count), RUN_WIDTH as nat) + seq![' '] + last_line
    } else {
        last_line
    }
}

/// The length of a run that has gained a line; it stops growing at the
/// largest number that the counter holds.
pub open spec fn grown(count: u64) -> u64 {
    if count < u64::MAX {
        (count + 1) as u64
    } else {
        count
    }
}

impl Run {
    /// The state before the first line is read.
    pub fn new() -> (run: Run)
        ensures
            run.last_line@ == Seq::<char>::empty(),
            run.count == 1,
    {
        Run { last_line: String::new(), count: 1 }
    }

    /// Whether `line` carries the run on: it is some line, and equal to the
    /// line of the run.
    pub open spec fn continues_with(self, line: Seq<char>) -> bool {
        line.len() > 0 && same_line(line, self.last_line@)
    }

    /// Takes what the next read gave: a line with its line end, or the
    /// empty text at the end of the input.
    ///
    /// A line that carries the run on is counted and nothing is written.
    /// Any other line closes the run: the entry of the run comes back to be
    /// written, and the line starts the next run. At the end of the input
    /// the entry of the last run comes back and the second result is `true`.
    pub fn step(&mut self, line: &str, counted: bool) -> (out: (String, bool))
        ensures
            old(self).continues_with(line@) ==> {
                &&& out.0@ == Seq::<char>::empty()
                &&& !out.1
                &&& final(self).last_line@ == old(self).last_line@
                &&& final(self).count == grown(old(self).count)
            },
            !old(self).continues_with(line@) ==> {
                &&& out.0@ == entry(old(self).last_line@, old(self).count as nat, counted)
                &&& out.1 == (line@.len() == 0)
                &&& line@.len() == 0 ==> final(self).last_line@ == old(self).last_line@
                    && final(self).count == old(self).count
                &&& line@.len() > 0 ==> final(self).last_line@ == line@ && final(self).count == 1
            },
    {
        let chars = chars_of(line);
        let last = chars_of(self.last_line.as_str());
        let same = same_prefix(
            chars.as_slice(),
            chomp_len(chars.as_slice()),
            last.as_slice(),
            chomp_len(last.as_slice()),
        );
        if same && chars.len() > 0 {
            if self.count < u64::MAX {
                self.count = self.count + 1;
            }
            return (String::new(), false);
        }
        let mut text = String::new();
        if last.len() > 0 {
            if counted {
                let digits = decimal_string(self.count);
                text = right_align(digits.as_str(), RUN_WIDTH);
                proof {
                    reveal_strlit(" ");
                }
                text.append(" ");
            }
            text.append(self.last_line.as_str());
        }
        assert(text@ =~= entry(old(self).last_line@, old(self).count as nat, counted));
        if chars.len() == 0 {
            return (text, true);
        }
        self.last_line = line.to_owned();
        self.count = 1;
        (text, false)
    }
}

} // verus!
