//! What one run of tail selection is asked to do.

use crate::tailr::take::{parse_num, parse_spec, TakeValue};
use crate::text::opt_view;
use vstd::prelude::*;
use vstd::string::*;

verus! {

/// The files to select from and how.
#[derive(Debug)]
pub struct Config {
    /// The sources, in the order in which they are handled.
    pub files: Vec<String>,
    /// The take value for lines.
    pub lines: TakeValue,
    /// The take value for bytes; where it is present, bytes are selected
    /// and lines are not.
    pub bytes: Option<TakeValue>,
    /// Whether the header of each file is left out.
    pub quiet: bool,
}

/// The unit in which a run counts.
#[derive(Debug, PartialEq, Eq, Structural, Clone, Copy)]
pub enum Unit {
    Lines(TakeValue),
    Bytes(TakeValue),
}

/// How the complaint about the count of lines starts.
pub open spec fn line_count_complaint() -> Seq<char> {
    "illegal line count -- "@
}

/// How the complaint about the count of bytes starts.
pub open spec fn byte_count_complaint() -> Seq<char> {
    "illegal byte count -- "@
}

impl Config {
    /// The configuration that the texts of the two counts stand for, or the
    /// complaint about the first of them that is no take value.
    pub open spec fn from_args_spec(
        files: Seq<String>,
        lines: Seq<char>,
        bytes: Option<Seq<char>>,
        quiet: bool,
    ) -> Result<(Seq<String>, TakeValue, Option<TakeValue>, bool), Seq<char>> {
        match parse_spec(lines) {
            None => Err(line_count_complaint() + lines),
            Some(l) => match bytes {
                None => Ok((files, l, None, quiet)),
                Some(b) => match parse_spec(b) {
                    None => Err(byte_count_complaint() + b),
                    Some(v) => Ok((files, l, Some(v), quiet)),
                },
            },
        }
    }

    /// What this configuration holds.
    pub open spec fn parts(self) -> (Seq<String>, TakeValue, Option<TakeValue>, bool) {
        (self.files@, self.lines, self.bytes, self.quiet)
    }

    /// Builds the configuration from the texts given for the two counts.
    pub fn from_args(files: Vec<String>, lines: &str, bytes: Option<&str>, quiet: bool) -> (result:
        Result<Config, String>)
        ensures
            match result {
                Ok(config) => Config::from_args_spec(files@, lines@, opt_view(bytes), quiet)
                    == Ok::<(Seq<String>, TakeValue, Option<TakeValue>, bool), Seq<char>>(
                    config.parts(),
                ),
                Err(message) => Config::from_args_spec(files@, lines@, opt_view(bytes), quiet)
                    == Err::<(Seq<String>, TakeValue, Option<TakeValue>, bool), Seq<char>>(
                    message@,
                ),
            },
    {
        let line_value = match parse_num(lines) {
            Ok(v) => v,
            Err(e) => {
                let mut message = String::from_str("illegal line count -- ");
                message.append(e.to_string().as_str());
                return Err(message);
            },
        };
        let byte_value = match bytes {
            None => None,
            Some(text) => match parse_num(text) {
                Ok(v) => Some(v),
                Err(e) => {
                    let mut message = String::from_str("illegal byte count -- ");
                    message.append(e.to_string().as_str());
                    return Err(message);
                },
            },
        };
        Ok(Config { files, lines: line_value, bytes: byte_value, quiet })
    }

    /// Bytes where a byte count was given, lines otherwise.
    pub fn unit(&self) -> (unit: Unit)
        ensures
            unit == match self.bytes {
                Some(b) => Unit::Bytes(b),
                None => Unit::Lines(self.lines),
            },
    {
        match self.bytes {
            Some(b) => Unit::Bytes(b),
            None => Unit::Lines(self.lines),
        }
    }

    /// Whether each file gets a header: not when quiet, and not for a single
    /// file.
    pub fn shows_headers(&self) -> (shown: bool)
        ensures
            shown == (!self.quiet && self.files@.len() > 1),
    {
        !self.quiet && self.files.len() > 1
    }

    /// Whether an empty line follows the output of the file at `index`:
    /// where headers are shown, behind every file but the last.
    pub fn separates_after(&self, index: usize) -> (separated: bool)
        ensures
            separated == (!self.quiet && self.files@.len() > 1 && index + 1 < self.files@.len()),
    {
        self.shows_headers() && index < self.files.len() - 1
    }
}

/// The header line of a file, without its line end.
pub fn header(filename: &str) -> (line: String)
    ensures
        line@ == "==> "@ + filename@ + " <=="@,
{
    let mut line = String::from_str("==> ");
    line.append(filename);
    line.append(" <==");
    line
}

} // verus!
