//! Counting the lines, words, bytes and characters of a text.

use crate::digits::{decimal_string, decimal_text};
use crate::lines::{count_lines, line_count};
use crate::text::{lemma_text_of_bytes, right_align, right_aligned, str_of_bytes, text_of};
use vstd::prelude::*;
use vstd::string::*;

verus! {

/// Which counts are shown, and for which files.
#[derive(Debug)]
pub struct Config {
    pub files: Vec<String>,
    pub lines: bool,
    pub words: bool,
    pub bytes: bool,
    pub chars: bool,
}

/// The counts of one text.
#[derive(Debug, PartialEq, Eq, Structural, Clone, Copy)]
pub struct FileInfo {
    pub num_lines: usize,
    pub num_words: usize,
    pub num_bytes: usize,
    pub num_chars: usize,
}

/// Why a text could not be counted.
#[derive(Debug, PartialEq, Eq, Structural, Clone, Copy)]
pub enum CountError {
    /// The bytes are not valid UTF-8.
    InvalidUtf8,
}

impl CountError {
    /// The report of this failure.
    pub fn to_string(&self) -> (text: String)
        ensures
            text@ == "stream did not contain valid UTF-8"@,
    {
        String::from_str("stream did not contain valid UTF-8")
    }
}

/// The width of the column in which a count is shown.
pub const COUNT_WIDTH: usize = 8;

/// The bytes that part words: space, tab, line feed, form feed and carriage
/// return.
pub open spec fn is_ascii_space(b: u8) -> bool {
    b == 32 || b == 9 || b == 10 || b == 12 || b == 13
}

/// Whether a word starts at `i`: a byte that parts no words, at the start
/// or behind one that does.
pub open spec fn word_starts_at(s: Seq<u8>, i: int) -> bool {
    0 <= i < s.len() && !is_ascii_space(s[i]) && (i == 0 || is_ascii_space(s[i - 1]))
}

/// How many words a byte sequence holds: the runs of bytes between those
/// that part words.
pub open spec fn word_count(s: Seq<u8>) -> nat
    decreases s.len(),
{
    if s.len() == 0 {
        0
    } else {
        word_count(s.drop_last()) + if word_starts_at(s, s.len() - 1) {
            1nat
        } else {
            0nat
        }
    }
}

/// The counts of a text given by its bytes.
pub open spec fn counts_of(content: Seq<u8>) -> FileInfo {
    FileInfo {
        num_lines: line_count(content) as usize,
        num_words: word_count(content) as usize,
        num_bytes: content.len() as usize,
        num_chars: text_of(content).len() as usize,
    }
}

fn is_space(b: u8) -> (space: bool)
    ensures
        space == is_ascii_space(b),
{
    b == 32 || b == 9 || b == 10 || b == 12 || b == 13
}

/// Counts the words of `content`.
pub fn count_words(content: &[u8]) -> (n: usize)
    ensures
        n == word_count(content@),
{
    let mut n: usize = 0;
    let mut i: usize = 0;
    let mut in_word: bool = false;
    assert(content@.take(0) =~= Seq::<u8>::empty());
    while i < content.len()
        invariant
            i <= content.len(),
            n <= i,
            n == word_count(content@.take(i as int)),
            in_word == (i > 0 && !is_ascii_space(content@[i - 1])),
        decreases content.len() - i,
    {
        assert(content@.take(i + 1).drop_last() =~= content@.take(i as int));
        let space = is_space(content[i]);
        if !space && !in_word {
            n = n + 1;
        }
        in_word = !space;
        i = i + 1;
    }
    assert(content@.take(i as int) =~= content@);
    n
}

/// Counts the lines, words, bytes and characters of a text.
///
/// A text that is not valid UTF-8 is not counted.
pub fn count(content: &[u8]) -> (result: Result<FileInfo, CountError>)
    ensures
        match result {
            Ok(info) => vstd::utf8::valid_utf8(content@) && info == counts_of(content@),
            Err(_) => !vstd::utf8::valid_utf8(content@),
        },
{
    match str_of_bytes(content) {
        None => Err(CountError::InvalidUtf8),
        Some(text) => {
            proof {
                lemma_text_of_bytes(text, content@);
            }
            Ok(
                FileInfo {
                    num_lines: count_lines(content),
                    num_words: count_words(content),
                    num_bytes: content.len(),
                    num_chars: text.unicode_len(),
                },
            )
        },
    }
}

/// How a count is shown: right-aligned in its column where it is wanted,
/// not at all where it is not.
pub open spec fn format_count_spec(size: usize, flg: bool) -> Seq<char> {
    if flg {
        right_aligned(decimal_text(size as nat), COUNT_WIDTH as nat)
    } else {
        Seq::empty()
    }
}

/// Shows one count.
pub fn format_count(size: &usize, flg: bool) -> (text: String)
    ensures
        text@ == format_count_spec(*size, flg),
{
    if flg {
        let digits = decimal_string(*size as u64);
        right_align(digits.as_str(), COUNT_WIDTH)
    } else {
        String::new()
    }
}

/// How the counts of a text are shown: lines, words, bytes and characters,
/// in that order, each where it is wanted.
pub open spec fn format_info_spec(config: &Config, info: &FileInfo) -> Seq<char> {
    format_count_spec(info.num_lines, config.lines) + format_count_spec(
        info.num_words,
        config.words,
    ) + format_count_spec(info.num_bytes, config.bytes) + format_count_spec(
        info.num_chars,
        config.chars,
    )
}

/// Shows the counts of a text.
pub fn format_info(config: &Config, info: &FileInfo) -> (text: String)
    ensures
        text@ == format_info_spec(config, info),
{
    let mut text = format_count(&info.num_lines, config.lines);
    text.append(format_count(&info.num_words, config.words).as_str());
    text.append(format_count(&info.num_bytes, config.bytes).as_str());
    text.append(format_count(&info.num_chars, config.chars).as_str());
    text
}

impl FileInfo {
    /// The counts of nothing.
    pub fn zero() -> (info: FileInfo)
        ensures
            info == (FileInfo { num_lines: 0, num_words: 0, num_bytes: 0, num_chars: 0 }),
    {
        FileInfo { num_lines: 0, num_words: 0, num_bytes: 0, num_chars: 0 }
    }

    /// Whether the counts of `other` can be added to these.
    pub open spec fn can_add(self, other: FileInfo) -> bool {
        &&& self.num_lines + other.num_lines <= usize::MAX
        &&& self.num_words + other.num_words <= usize::MAX
        &&& self.num_bytes + other.num_bytes <= usize::MAX
        &&& self.num_chars + other.num_chars <= usize::MAX
    }

    /// Says whether the counts of `other` can be added to these.
    pub fn fits(&self, other: &FileInfo) -> (fits: bool)
        ensures
            fits == self.can_add(*other),
    {
        self.num_lines <= usize::MAX - other.num_lines && self.num_words <= usize::MAX
            - other.num_words && self.num_bytes <= usize::MAX - other.num_bytes && self.num_chars
            <= usize::MAX - other.num_chars
    }

    /// Adds the counts of one more text to a running total.
    pub fn add(&mut self, other: &FileInfo)
        requires
            old(self).can_add(*other),
        ensures
            final(self).num_lines == old(self).num_lines + other.num_lines,
            final(self).num_words == old(self).num_words + other.num_words,
            final(self).num_bytes == old(self).num_bytes + other.num_bytes,
            final(self).num_chars == old(self).num_chars + other.num_chars,
    {
        self.num_lines = self.num_lines + other.num_lines;
        self.num_words = self.num_words + other.num_words;
        self.num_bytes = self.num_bytes + other.num_bytes;
        self.num_chars = self.num_chars + other.num_chars;
    }
}

impl Config {
    /// The configuration for the flags given: where none of the four counts
    /// is asked for, lines, words and bytes are shown.
    pub fn from_flags(
        files: Vec<String>,
        lines: bool,
        words: bool,
        bytes: bool,
        chars: bool,
    ) -> (config: Config)
        ensures
            config.files == files,
            config.chars == chars,
            lines || words || bytes || chars ==> config.lines == lines && config.words == words
                && config.bytes == bytes,
            !(lines || words || bytes || chars) ==> config.lines && config.words && config.bytes,
    {
        if !lines && !words && !bytes && !chars {
            Config { files, lines: true, words: true, bytes: true, chars }
        } else {
            Config { files, lines, words, bytes, chars }
        }
    }
}

} // verus!
