//! The first lines or bytes of a text.

use crate::digits::{positive_number, read_positive};
use crate::lines::{find_line_end, lemma_line_offset_at_end, line_offset};
use crate::text::{chars_of, is_stdin, lossy_string, opt_view, stdin_name, utf8_lossy};
use vstd::prelude::*;
use vstd::string::*;

verus! {

/// The files to show the start of, and how much of each.
#[derive(Debug)]
pub struct Config {
    pub files: Vec<String>,
    /// The number of lines that are shown.
    pub lines: usize,
    /// The number of bytes that are shown; where it is present, bytes are
    /// shown and lines are not.
    pub bytes: Option<usize>,
}

/// Reads a count above zero. A text that writes none comes back as the
/// complaint.
pub fn parse_positive_int(val: &str) -> (result: Result<usize, String>)
    ensures
        match result {
            Ok(n) => positive_number(val@) == Some(n as nat),
            Err(text) => positive_number(val@) is None && text@ == val@,
        },
{
    let chars = chars_of(val);
    assert(chars@.subrange(0, chars@.len() as int) =~= val@);
    match read_positive(chars.as_slice(), 0, chars.len()) {
        Some(n) => Ok(n),
        None => Err(val.to_owned()),
    }
}

/// How the complaint about the count of lines starts.
pub open spec fn line_count_complaint() -> Seq<char> {
    "illegal line count -- "@
}

/// How the complaint about the count of bytes starts.
pub open spec fn byte_count_complaint() -> Seq<char> {
    "illegal byte count -- "@
}

/// The two counts that the texts given stand for, or the complaint about
/// the first of them that is no count above zero.
pub open spec fn counts_spec(lines: Seq<char>, bytes: Option<Seq<char>>) -> Result<
    (usize, Option<usize>),
    Seq<char>,
> {
    match positive_number(lines) {
        None => Err(line_count_complaint() + lines),
        Some(l) => match bytes {
            None => Ok((l as usize, None)),
            Some(text) => match positive_number(text) {
                None => Err(byte_count_complaint() + text),
                Some(b) => Ok((l as usize, Some(b as usize))),
            },
        },
    }
}

impl Config {
    /// Builds the configuration from the texts given for the two counts.
    pub fn from_args(files: Vec<String>, lines: &str, bytes: Option<&str>) -> (result: Result<
        Config,
        String,
    >)
        ensures
            match result {
                Ok(config) => config.files == files && counts_spec(lines@, opt_view(bytes)) == Ok::<
                    (usize, Option<usize>),
                    Seq<char>,
                >((config.lines, config.bytes)),
                Err(message) => counts_spec(lines@, opt_view(bytes)) == Err::<
                    (usize, Option<usize>),
                    Seq<char>,
                >(message@),
            },
    {
        let line_count = match parse_positive_int(lines) {
            Ok(n) => n,
            Err(text) => {
                let mut message = String::from_str("illegal line count -- ");
                message.append(text.as_str());
                return Err(message);
            },
        };
        let byte_count = match bytes {
            None => None,
            Some(given) => match parse_positive_int(given) {
                Ok(n) => Some(n),
                Err(text) => {
                    let mut message = String::from_str("illegal byte count -- ");
                    message.append(text.as_str());
                    return Err(message);
                },
            },
        };
        Ok(Config { files, lines: line_count, bytes: byte_count })
    }
}

/// The header of the file at `index`, without its line end: an empty line
/// goes before every header but the first, and the standard input is
/// called by its name in words.
pub open spec fn header_spec(index: usize, filename: Seq<char>) -> Seq<char> {
    (if index > 0 {
        "\n"@
    } else {
        Seq::<char>::empty()
    }) + "==> "@ + (if filename == stdin_name() {
        "standard input"@
    } else {
        filename
    }) + " <=="@
}

/// Puts the header of a file together.
pub fn header(index: usize, filename: &str) -> (line: String)
    ensures
        line@ == header_spec(index, filename@),
{
    let mut line = String::new();
    if index > 0 {
        line.append("\n");
    }
    line.append("==> ");
    if is_stdin(filename) {
        line.append("standard input");
    } else {
        line.append(filename);
    }
    line.append(" <==");
    assert(line@ =~= header_spec(index, filename@));
    line
}

/// The first `lines` lines of a source, each with its terminator.
pub open spec fn first_lines(s: Seq<u8>, lines: nat) -> Seq<u8> {
    s.take(line_offset(s, lines))
}

/// Cuts the first `lines` lines off a source held in memory.
pub fn head_lines(content: &[u8], lines: usize) -> (head: &[u8])
    ensures
        head@ == first_lines(content@, lines as nat),
{
    let mut pos: usize = 0;
    let mut seen: usize = 0;
    while seen < lines && pos < content.len()
        invariant
            seen <= lines,
            pos <= content@.len(),
            pos == line_offset(content@, seen as nat),
        decreases lines - seen,
    {
        pos = find_line_end(content, pos);
        seen = seen + 1;
    }
    proof {
        if seen < lines {
            lemma_line_offset_at_end(content@, seen as nat, lines as nat);
        }
        assert(content@.subrange(0, pos as int) =~= content@.take(pos as int));
    }
    vstd::slice::slice_subrange(content, 0, pos)
}

/// A buffer of `bytes` bytes after one read from a source: the start of the
/// source, and zeros behind it where the source is shorter.
pub open spec fn read_buffer(s: Seq<u8>, bytes: nat) -> Seq<u8> {
    if s.len() >= bytes {
        s.take(bytes as int)
    } else {
        s + Seq::new((bytes - s.len()) as nat, |i: int| 0u8)
    }
}

/// What is shown of the first `bytes` bytes of a source: nothing where the
/// read gave nothing; else the whole buffer, read as text whatever the
/// bytes are.
pub open spec fn first_bytes(s: Seq<u8>, bytes: nat) -> Seq<char> {
    if s.len() == 0 || bytes == 0 {
        Seq::empty()
    } else {
        utf8_lossy(read_buffer(s, bytes))
    }
}

/// Shows the first `bytes` bytes of a source held in memory.
pub fn head_bytes(content: &[u8], bytes: usize) -> (text: String)
    ensures
        text@ == first_bytes(content@, bytes as nat),
{
    if content.len() == 0 || bytes == 0 {
        return String::new();
    }
    let mut buffer: Vec<u8> = Vec::new();
    let mut i: usize = 0;
    let ghost s = content@;
    while i < bytes
        invariant
            i <= bytes,
            s == content@,
            buffer@.len() == i,
            forall|j: int| 0 <= j < i ==> buffer@[j] == if j < s.len() { s[j] } else { 0u8 },
        decreases bytes - i,
    {
        if i < content.len() {
            buffer.push(content[i]);
        } else {
            buffer.push(0);
        }
        i = i + 1;
    }
    assert(buffer@ =~= read_buffer(s, bytes as nat));
    lossy_string(buffer.as_slice())
}

} // verus!
