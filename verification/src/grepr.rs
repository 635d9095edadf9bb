//! Finding the lines of a text that a pattern matches.

use crate::digits::{decimal_text, push_decimal};
use crate::lines::{line_count, lines_of_text, text_lines};
use crate::pattern::{regex_compiles, Pattern};
use crate::text::{is_stdin, stdin_name, texts};
use vstd::prelude::*;
use vstd::string::*;
use vstd::utf8::valid_utf8;

verus! {

/// What to look for, where, and what to show.
#[derive(Debug)]
pub struct Config {
    pub pattern: Pattern,
    pub files: Vec<String>,
    pub recursive: bool,
    pub count: bool,
    pub invert_match: bool,
}

/// Why the lines of a text could not be searched.
#[derive(Debug, PartialEq, Eq, Structural, Clone, Copy)]
pub enum SearchError {
    /// The text is not valid UTF-8.
    InvalidUtf8,
}

impl SearchError {
    /// The report of this failure.
    pub fn to_string(&self) -> (text: String)
        ensures
            text@ == "stream did not contain valid UTF-8"@,
    {
        String::from_str("stream did not contain valid UTF-8")
    }
}

/// The lines that are kept among the first `k` of those given, in order.
/// For each line it is given whether the pattern matches it; a line is
/// kept where it does, or, with the match inverted, where it does not.
pub open spec fn selected(
    lines: Seq<Seq<char>>,
    matched: Seq<bool>,
    invert_match: bool,
    k: nat,
) -> Seq<Seq<char>>
    decreases k,
{
    if k == 0 {
        Seq::empty()
    } else {
        let kept = selected(lines, matched, invert_match, (k - 1) as nat);
        if matched[k - 1] != invert_match {
            kept.push(lines[k - 1])
        } else {
            kept
        }
    }
}

/// For each of the lines given, whether the pattern matches it.
pub open spec fn matches_of(pattern: &Pattern, lines: Seq<Seq<char>>) -> Seq<bool> {
    Seq::new(lines.len(), |j: int| pattern.matches(lines[j]))
}

/// The smaller of two lengths.
pub open spec fn shorter(a: nat, b: nat) -> nat {
    if a < b {
        a
    } else {
        b
    }
}

/// Keeps the lines that the pattern matched, or, with the match inverted,
/// those that it did not match. Lines and answers are paired as far as
/// both reach.
pub fn select_lines(lines: &Vec<String>, matched: &Vec<bool>, invert_match: bool) -> (kept: Vec<
    String,
>)
    ensures
        texts(kept@) == selected(
            texts(lines@),
            matched@,
            invert_match,
            shorter(lines@.len(), matched@.len()),
        ),
{
    let n = if lines.len() < matched.len() {
        lines.len()
    } else {
        matched.len()
    };
    let mut kept: Vec<String> = Vec::new();
    let mut i: usize = 0;
    assert(texts(kept@) =~= Seq::<Seq<char>>::empty());
    while i < n
        invariant
            i <= n,
            n == shorter(lines@.len(), matched@.len()),
            texts(kept@) == selected(texts(lines@), matched@, invert_match, i as nat),
        decreases n - i,
    {
        if matched[i] != invert_match {
            let ghost before = kept@;
            kept.push(lines[i].clone());
            assert(texts(kept@) =~= texts(before).push(lines@[i as int]@));
        }
        i = i + 1;
    }
    kept
}

/// Finds the lines of a text that the pattern matches, or, with the match
/// inverted, those that it does not match.
///
/// The lines come back in order, each with its terminator. The search
/// fails where the text is not valid UTF-8.
pub fn find_lines(content: &[u8], pattern: &Pattern, invert_match: bool) -> (result: Result<
    Vec<String>,
    SearchError,
>)
    ensures
        match result {
            Ok(found) => {
                let lines = lines_of_text(content@, line_count(content@));
                &&& valid_utf8(content@)
                &&& texts(found@) == selected(
                    lines,
                    matches_of(pattern, lines),
                    invert_match,
                    lines.len(),
                )
            },
            Err(_) => !valid_utf8(content@),
        },
{
    let lines = match text_lines(content) {
        Some(lines) => lines,
        None => {
            return Err(SearchError::InvalidUtf8);
        },
    };
    let mut matched: Vec<bool> = Vec::new();
    let mut i: usize = 0;
    while i < lines.len()
        invariant
            i <= lines@.len(),
            matched@.len() == i,
            forall|j: int| 0 <= j < i ==> matched@[j] == pattern.matches(#[trigger] lines@[j]@),
        decreases lines@.len() - i,
    {
        matched.push(pattern.is_match(lines[i].as_str()));
        i = i + 1;
    }
    assert(matched@ =~= matches_of(pattern, texts(lines@)));
    Ok(select_lines(&lines, &matched, invert_match))
}

/// What the file system says of a path.
#[derive(Debug, PartialEq, Eq, Structural, Clone, Copy)]
pub enum PathKind {
    /// Nothing is there.
    Missing,
    /// A file.
    File,
    /// A directory.
    Dir,
    /// Something else.
    Other,
}

/// What becomes of a path that was given to search in.
#[derive(Debug, PartialEq, Eq)]
pub enum FileEntry {
    /// The path is searched.
    Found(String),
    /// The path is not searched; the complaint says why.
    Failed(String),
    /// The path is a directory whose entries are looked at in turn.
    Walk,
}

/// What becomes of a path, as plain values.
pub enum EntryView {
    Found(Seq<char>),
    Failed(Seq<char>),
    Walk,
}

impl View for FileEntry {
    type V = EntryView;

    open spec fn view(&self) -> EntryView {
        match self {
            FileEntry::Found(path) => EntryView::Found(path@),
            FileEntry::Failed(message) => EntryView::Failed(message@),
            FileEntry::Walk => EntryView::Walk,
        }
    }
}

/// What becomes of a path: the standard input is taken as it is; a path to
/// nothing is refused; a file is searched; a directory is walked in a
/// recursive search and refused otherwise; anything else is searched.
pub open spec fn classify_spec(path: Seq<char>, kind: PathKind, recursive: bool) -> EntryView {
    if path == stdin_name() {
        EntryView::Found(path)
    } else {
        match kind {
            PathKind::Missing => EntryView::Failed(path + ": does not exist"@),
            PathKind::File => EntryView::Found(path),
            PathKind::Dir => if recursive {
                EntryView::Walk
            } else {
                EntryView::Failed(path + " is a directory"@)
            },
            PathKind::Other => EntryView::Found(path),
        }
    }
}

/// Decides what becomes of a path, given what the file system says of it.
pub fn classify(path: &str, kind: PathKind, recursive: bool) -> (entry: FileEntry)
    ensures
        entry@ == classify_spec(path@, kind, recursive),
{
    if is_stdin(path) {
        return FileEntry::Found(path.to_owned());
    }
    match kind {
        PathKind::Missing => {
            let mut message = path.to_owned();
            message.append(": does not exist");
            FileEntry::Failed(message)
        },
        PathKind::File => FileEntry::Found(path.to_owned()),
        PathKind::Dir => {
            if recursive {
                FileEntry::Walk
            } else {
                let mut message = path.to_owned();
                message.append(" is a directory");
                FileEntry::Failed(message)
            }
        },
        PathKind::Other => FileEntry::Found(path.to_owned()),
    }
}

/// The complaint about a pattern that is no regular expression.
pub open spec fn invalid_pattern(source: Seq<char>) -> Seq<char> {
    "Invalid pattern \""@ + source + "\"\n"@
}

/// The text of one line end.
pub open spec fn line_break() -> Seq<char> {
    "\n"@
}

impl Config {
    /// Builds the configuration around a pattern that was compiled from
    /// `source`, or gives the complaint about `source` where it could not
    /// be compiled.
    pub fn with_pattern(
        compiled: Option<Pattern>,
        source: &str,
        files: Vec<String>,
        recursive: bool,
        count: bool,
        invert_match: bool,
    ) -> (result: Result<Config, String>)
        ensures
            match result {
                Ok(config) => {
                    &&& compiled == Some(config.pattern)
                    &&& config.files == files
                    &&& config.recursive == recursive
                    &&& config.count == count
                    &&& config.invert_match == invert_match
                },
                Err(message) => compiled is None && message@ == invalid_pattern(source@),
            },
    {
        match compiled {
            Some(pattern) => Ok(Config { pattern, files, recursive, count, invert_match }),
            None => {
                let mut message = String::from_str("Invalid pattern \"");
                message.append(source);
                message.append("\"\n");
                Err(message)
            },
        }
    }

    /// Builds the configuration; the pattern is compiled on the way, and a
    /// pattern that is no regular expression gives the complaint.
    pub fn from_args(
        pattern: &str,
        files: Vec<String>,
        insensitive: bool,
        recursive: bool,
        count: bool,
        invert_match: bool,
    ) -> (result: Result<Config, String>)
        ensures
            match result {
                Ok(config) => {
                    &&& regex_compiles(pattern@, insensitive)
                    &&& config.pattern.source() == pattern@
                    &&& config.pattern.insensitive() == insensitive
                    &&& config.files == files
                    &&& config.recursive == recursive
                    &&& config.count == count
                    &&& config.invert_match == invert_match
                },
                Err(message) => !regex_compiles(pattern@, insensitive) && message@
                    == invalid_pattern(pattern@),
            },
    {
        Config::with_pattern(
            Pattern::new(pattern, insensitive),
            pattern,
            files,
            recursive,
            count,
            invert_match,
        )
    }

    /// Whether what is shown of a file is marked with its name: where more
    /// than one file was given, and in a recursive search.
    pub fn shows_names(&self) -> (shown: bool)
        ensures
            shown == (self.files@.len() > 1 || self.recursive),
    {
        self.files.len() > 1 || self.recursive
    }
}

/// The mark that goes before what is shown of a file: its name and a
/// colon, where names are shown.
pub open spec fn mark(filename: Seq<char>, named: bool) -> Seq<char> {
    if named {
        filename + seq![':']
    } else {
        Seq::empty()
    }
}

/// The lines given, each behind the mark.
pub open spec fn marked_lines(lines: Seq<Seq<char>>, mark: Seq<char>) -> Seq<char>
    decreases lines.len(),
{
    if lines.len() == 0 {
        Seq::empty()
    } else {
        marked_lines(lines.drop_last(), mark) + mark + lines.last()
    }
}

/// What is shown of one file: the number of lines found, on a line of its
/// own, where the count is asked for; the lines themselves where it is not.
pub open spec fn report_spec(
    filename: Seq<char>,
    named: bool,
    count: bool,
    lines: Seq<Seq<char>>,
) -> Seq<char> {
    if count {
        mark(filename, named) + decimal_text(lines.len()) + line_break()
    } else {
        marked_lines(lines, mark(filename, named))
    }
}

/// Puts together what is shown of one file.
pub fn report(config: &Config, filename: &str, lines: &Vec<String>) -> (text: String)
    ensures
        text@ == report_spec(
            filename@,
            config.files@.len() > 1 || config.recursive,
            config.count,
            texts(lines@),
        ),
{
    let named = config.shows_names();
    let mut prefix = String::new();
    proof {
        reveal_strlit(":");
    }
    if named {
        prefix.append(filename);
        prefix.append(":");
    }
    assert(prefix@ =~= mark(filename@, named));
    let mut text = String::new();
    if config.count {
        text.append(prefix.as_str());
        push_decimal(lines.len() as u64, &mut text);
        text.append("\n");
        assert(text@ =~= mark(filename@, named) + decimal_text(lines@.len()) + line_break());
        assert(texts(lines@).len() == lines@.len());
        return text;
    }
    let mut i: usize = 0;
    assert(texts(lines@).take(0) =~= Seq::<Seq<char>>::empty());
    while i < lines.len()
        invariant
            i <= lines@.len(),
            prefix@ == mark(filename@, named),
            text@ == marked_lines(texts(lines@).take(i as int), prefix@),
        decreases lines@.len() - i,
    {
        let ghost part = texts(lines@).take(i + 1);
        assert(part.drop_last() =~= texts(lines@).take(i as int));
        assert(part.last() == lines@[i as int]@);
        text.append(prefix.as_str());
        text.append(lines[i].as_str());
        i = i + 1;
    }
    assert(texts(lines@).take(i as int) =~= texts(lines@));
    text
}

} // verus!
