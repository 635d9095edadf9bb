//! What one run of cutting is asked to do.

use crate::cutr::extract::Extract;
use crate::cutr::positions::{parse_pos, parse_pos_spec};
use crate::text::opt_view;
use std::ops::Range;
use vstd::prelude::*;
use vstd::string::*;

verus! {

/// The files to cut from, the byte between fields, and what to cut.
#[derive(Debug)]
pub struct Config {
    pub files: Vec<String>,
    pub delimiter: u8,
    pub extract: Extract,
}

/// What is cut out of each line, as plain ranges.
pub enum Selection {
    Fields(Seq<Range<usize>>),
    Bytes(Seq<Range<usize>>),
    Chars(Seq<Range<usize>>),
}

impl View for Extract {
    type V = Selection;

    open spec fn view(&self) -> Selection {
        match self {
            Extract::Fields(list) => Selection::Fields(list@),
            Extract::Bytes(list) => Selection::Bytes(list@),
            Extract::Chars(list) => Selection::Chars(list@),
        }
    }
}

/// The complaint about a delimiter that is not one byte long.
pub open spec fn delimiter_complaint(text: Seq<char>) -> Seq<char> {
    "--delim \""@ + text + "\" must be a single byte"@
}

/// The complaint about a run that is given no position list.
pub open spec fn nothing_wanted() -> Seq<char> {
    "Must have --fields, --bytes, or --chars"@
}

/// The byte that a delimiter text gives, where the text is one byte long.
pub open spec fn delimiter_spec(text: &str) -> Result<u8, Seq<char>> {
    if text.spec_bytes().len() == 1 {
        Ok(text.spec_bytes()[0])
    } else {
        Err(delimiter_complaint(text@))
    }
}

/// Reads the delimiter: a text of exactly one byte.
pub fn parse_delimiter(text: &str) -> (result: Result<u8, String>)
    ensures
        match result {
            Ok(b) => delimiter_spec(text) == Ok::<u8, Seq<char>>(b),
            Err(message) => delimiter_spec(text) == Err::<u8, Seq<char>>(message@),
        },
{
    let bytes = text.as_bytes();
    if bytes.len() == 1 {
        Ok(bytes[0])
    } else {
        let mut message = String::from_str("--delim \"");
        message.append(text);
        message.append("\" must be a single byte");
        Err(message)
    }
}

/// What the three position lists ask for: fields where a list of fields is
/// given, else bytes, else characters. The complaint is that of the list
/// that is looked at, or that none is given.
pub open spec fn selection_spec(
    fields: Option<Seq<char>>,
    bytes: Option<Seq<char>>,
    chars: Option<Seq<char>>,
) -> Result<Selection, Seq<char>> {
    match fields {
        Some(text) => match parse_pos_spec(text) {
            Ok(list) => Ok(Selection::Fields(list)),
            Err(e) => Err(e),
        },
        None => match bytes {
            Some(text) => match parse_pos_spec(text) {
                Ok(list) => Ok(Selection::Bytes(list)),
                Err(e) => Err(e),
            },
            None => match chars {
                Some(text) => match parse_pos_spec(text) {
                    Ok(list) => Ok(Selection::Chars(list)),
                    Err(e) => Err(e),
                },
                None => Err(nothing_wanted()),
            },
        },
    }
}

/// Reads what is to be cut from the three position lists.
pub fn parse_selection(fields: Option<&str>, bytes: Option<&str>, chars: Option<&str>) -> (result:
    Result<Extract, String>)
    ensures
        match result {
            Ok(extract) => selection_spec(opt_view(fields), opt_view(bytes), opt_view(chars))
                == Ok::<Selection, Seq<char>>(extract@),
            Err(message) => selection_spec(opt_view(fields), opt_view(bytes), opt_view(chars))
                == Err::<Selection, Seq<char>>(message@),
        },
{
    if let Some(text) = fields {
        match parse_pos(text) {
            Ok(list) => Ok(Extract::Fields(list)),
            Err(e) => Err(e),
        }
    } else if let Some(text) = bytes {
        match parse_pos(text) {
            Ok(list) => Ok(Extract::Bytes(list)),
            Err(e) => Err(e),
        }
    } else if let Some(text) = chars {
        match parse_pos(text) {
            Ok(list) => Ok(Extract::Chars(list)),
            Err(e) => Err(e),
        }
    } else {
        Err(String::from_str("Must have --fields, --bytes, or --chars"))
    }
}

impl Config {
    /// Builds the configuration from the texts given on the command line.
    /// The delimiter is looked at first, then the position lists.
    pub fn from_args(
        files: Vec<String>,
        delimiter: &str,
        fields: Option<&str>,
        bytes: Option<&str>,
        chars: Option<&str>,
    ) -> (result: Result<Config, String>)
        ensures
            match result {
                Ok(config) => {
                    &&& config.files == files
                    &&& delimiter_spec(delimiter) == Ok::<u8, Seq<char>>(config.delimiter)
                    &&& selection_spec(opt_view(fields), opt_view(bytes), opt_view(chars)) == Ok::<
                        Selection,
                        Seq<char>,
                    >(config.extract@)
                },
                Err(message) => match delimiter_spec(delimiter) {
                    Err(complaint) => message@ == complaint,
                    Ok(_) => selection_spec(opt_view(fields), opt_view(bytes), opt_view(chars))
                        == Err::<Selection, Seq<char>>(message@),
                },
            },
    {
        let delimiter = match parse_delimiter(delimiter) {
            Ok(b) => b,
            Err(message) => {
                return Err(message);
            },
        };
        match parse_selection(fields, bytes, chars) {
            Ok(extract) => Ok(Config { files, delimiter, extract }),
            Err(message) => Err(message),
        }
    }
}

} // verus!
