//! Comparing two texts line by line, in three columns.

use crate::text::{chars_of, is_stdin, same_prefix, stdin_name, trim_end, trim_end_len};
use vstd::prelude::*;
use vstd::string::*;

verus! {

/// The two inputs, the columns that are shown, and what stands between
/// columns.
#[derive(Debug)]
pub struct Config {
    pub file1: String,
    pub file2: String,
    pub show_col1: bool,
    pub show_col2: bool,
    pub show_col3: bool,
    pub insensitive: bool,
    pub delimiter: String,
}

/// The complaint about two inputs that are both the standard input.
pub open spec fn both_stdin() -> Seq<char> {
    "Both input files cannot be STDIN (\"-\")"@
}

/// A text where it is shown, nothing where it is not.
pub open spec fn shown(text: Seq<char>, show: bool) -> Seq<char> {
    if show {
        text
    } else {
        Seq::empty()
    }
}

/// One line of output. What is given for the first column stands at the
/// start of the line; what is given for the second stands behind one
/// delimiter; what is given for the third stands behind one delimiter, and
/// behind two where the first or the second column is shown. An empty text
/// and a column that is not shown leave nothing. The line always ends.
pub open spec fn columns(
    show_col1: bool,
    show_col2: bool,
    show_col3: bool,
    delimiter: Seq<char>,
    col1: Seq<char>,
    col2: Seq<char>,
    col3: Seq<char>,
) -> Seq<char> {
    shown(col1, show_col1 && col1.len() > 0) + shown(delimiter + col2, show_col2 && col2.len() > 0)
        + shown(
        shown(delimiter, show_col1 || show_col2) + delimiter + col3,
        show_col3 && col3.len() > 0,
    ) + seq!['\n']
}

/// What is written for one pair of reads, each a line with its line end,
/// or the empty text where its input has ended. Nothing is written, and
/// the comparison is over, once both inputs have ended. Lines that are
/// equal but for the white space at their ends go to the third column; of
/// unequal lines the first goes to the first column and the second to the
/// second, each on a line of its own, as far as its input has not ended.
pub open spec fn compare_spec(
    show_col1: bool,
    show_col2: bool,
    show_col3: bool,
    delimiter: Seq<char>,
    line1: Seq<char>,
    line2: Seq<char>,
) -> Option<Seq<char>> {
    let empty = Seq::<char>::empty();
    if line1.len() == 0 && line2.len() == 0 {
        None
    } else if trim_end(line1) == trim_end(line2) {
        Some(columns(show_col1, show_col2, show_col3, delimiter, empty, empty, trim_end(line1)))
    } else {
        Some(
            shown(
                columns(show_col1, show_col2, show_col3, delimiter, trim_end(line1), empty, empty),
                line1.len() > 0,
            ) + shown(
                columns(show_col1, show_col2, show_col3, delimiter, empty, trim_end(line2), empty),
                line2.len() > 0,
            ),
        )
    }
}

impl Config {
    /// Refuses a run in which both inputs are the standard input.
    pub fn check_inputs(&self) -> (result: Result<(), String>)
        ensures
            match result {
                Ok(_) => !(self.file1@ == stdin_name() && self.file2@ == stdin_name()),
                Err(message) => self.file1@ == stdin_name() && self.file2@ == stdin_name()
                    && message@ == both_stdin(),
            },
    {
        if is_stdin(self.file1.as_str()) && is_stdin(self.file2.as_str()) {
            Err(String::from_str("Both input files cannot be STDIN (\"-\")"))
        } else {
            Ok(())
        }
    }

    /// Puts one line of output together.
    pub fn columns_line(&self, col1: &str, col2: &str, col3: &str) -> (line: String)
        ensures
            line@ == columns(
                self.show_col1,
                self.show_col2,
                self.show_col3,
                self.delimiter@,
                col1@,
                col2@,
                col3@,
            ),
    {
        let mut line = String::new();
        if self.show_col1 && col1.unicode_len() > 0 {
            line.append(col1);
        }
        if self.show_col2 && col2.unicode_len() > 0 {
            line.append(self.delimiter.as_str());
            line.append(col2);
        }
        if self.show_col3 && col3.unicode_len() > 0 {
            if self.show_col1 || self.show_col2 {
                line.append(self.delimiter.as_str());
            }
            line.append(self.delimiter.as_str());
            line.append(col3);
        }
        proof {
            reveal_strlit("\n");
        }
        line.append("\n");
        assert(line@ =~= columns(
            self.show_col1,
            self.show_col2,
            self.show_col3,
            self.delimiter@,
            col1@,
            col2@,
            col3@,
        ));
        line
    }

    /// Compares what the two inputs gave at one read each; see
    /// `compare_spec`.
    pub fn compare(&self, line1: &str, line2: &str) -> (out: Option<String>)
        ensures
            match out {
                Some(text) => compare_spec(
                    self.show_col1,
                    self.show_col2,
                    self.show_col3,
                    self.delimiter@,
                    line1@,
                    line2@,
                ) == Some(text@),
                None => compare_spec(
                    self.show_col1,
                    self.show_col2,
                    self.show_col3,
                    self.delimiter@,
                    line1@,
                    line2@,
                ) is None,
            },
    {
        let chars1 = chars_of(line1);
        let chars2 = chars_of(line2);
        if chars1.len() == 0 && chars2.len() == 0 {
            return None;
        }
        let len1 = trim_end_len(chars1.as_slice());
        let len2 = trim_end_len(chars2.as_slice());
        let text1 = line1.substring_char(0, len1);
        let text2 = line2.substring_char(0, len2);
        assert(text1@ =~= trim_end(line1@));
        assert(text2@ =~= trim_end(line2@));
        let nothing = "";
        proof {
            reveal_strlit("");
            assert(nothing@ =~= Seq::<char>::empty());
        }
        if same_prefix(chars1.as_slice(), len1, chars2.as_slice(), len2) {
            return Some(self.columns_line(nothing, nothing, text1));
        }
        let mut text = String::new();
        if chars1.len() > 0 {
            text.append(self.columns_line(text1, nothing, nothing).as_str());
        }
        if chars2.len() > 0 {
            text.append(self.columns_line(nothing, text2, nothing).as_str());
        }
        proof {
            let empty = Seq::<char>::empty();
            assert(text@ =~= shown(
                columns(
                    self.show_col1,
                    self.show_col2,
                    self.show_col3,
                    self.delimiter@,
                    trim_end(line1@),
                    empty,
                    empty,
                ),
                line1@.len() > 0,
            ) + shown(
                columns(
                    self.show_col1,
                    self.show_col2,
                    self.show_col3,
                    self.delimiter@,
                    empty,
                    trim_end(line2@),
                    empty,
                ),
                line2@.len() > 0,
            ));
        }
        Some(text)
    }
}

} // verus!
