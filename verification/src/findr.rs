//! Choosing among the entries of a directory tree by kind and by name.

use crate::pattern::{regex_compiles, Pattern};
use crate::text::chars_of;
use vstd::prelude::*;
use vstd::string::*;

verus! {

/// The kinds of entry that can be asked for.
#[derive(Debug, PartialEq, Eq, Structural, Clone, Copy)]
pub enum EntryType {
    Dir,
    File,
    Link,
}

/// Where to look, and for which names and kinds.
#[derive(Debug)]
pub struct Config {
    pub paths: Vec<String>,
    pub names: Vec<Pattern>,
    pub entry_types: Vec<EntryType>,
}

/// The kind of an entry, from what the file system says of it: a
/// directory, else a file, else a link; `None` where it is none of them.
pub open spec fn kind_of(is_dir: bool, is_file: bool, is_symlink: bool) -> Option<EntryType> {
    if is_dir {
        Some(EntryType::Dir)
    } else if is_file {
        Some(EntryType::File)
    } else if is_symlink {
        Some(EntryType::Link)
    } else {
        None
    }
}

/// Whether an entry passes by its kind: every entry does where no kinds
/// are asked for; otherwise its kind must be among those asked for.
pub open spec fn type_wanted_spec(
    entry_types: Seq<EntryType>,
    is_dir: bool,
    is_file: bool,
    is_symlink: bool,
) -> bool {
    entry_types.len() == 0 || match kind_of(is_dir, is_file, is_symlink) {
        Some(kind) => entry_types.contains(kind),
        None => false,
    }
}

/// Says whether an entry passes by its kind.
pub fn type_wanted(
    entry_types: &Vec<EntryType>,
    is_dir: bool,
    is_file: bool,
    is_symlink: bool,
) -> (wanted: bool)
    ensures
        wanted == type_wanted_spec(entry_types@, is_dir, is_file, is_symlink),
{
    if entry_types.len() == 0 {
        return true;
    }
    let kind = if is_dir {
        EntryType::Dir
    } else if is_file {
        EntryType::File
    } else if is_symlink {
        EntryType::Link
    } else {
        return false;
    };
    let mut i: usize = 0;
    while i < entry_types.len()
        invariant
            i <= entry_types@.len(),
            kind_of(is_dir, is_file, is_symlink) == Some(kind),
            forall|j: int| 0 <= j < i ==> entry_types@[j] != kind,
        decreases entry_types@.len() - i,
    {
        if entry_types[i] == kind {
            assert(entry_types@[i as int] == kind);
            return true;
        }
        i = i + 1;
    }
    false
}

/// Whether an entry passes by its name: every entry does where no names
/// are asked for; otherwise one of the patterns must match its name.
pub open spec fn name_wanted_spec(names: Seq<Pattern>, file_name: Seq<char>) -> bool {
    names.len() == 0 || exists|i: int|
        0 <= i < names.len() && (#[trigger] names[i]).matches(file_name)
}

/// Says whether an entry passes by its name, given for each of the names
/// asked for whether it matches: every entry passes where no names are
/// asked for; otherwise one of them must match.
pub fn passes_by_name(matched: &Vec<bool>) -> (wanted: bool)
    ensures
        wanted == (matched@.len() == 0 || matched@.contains(true)),
{
    if matched.len() == 0 {
        return true;
    }
    let mut i: usize = 0;
    while i < matched.len()
        invariant
            i <= matched@.len(),
            forall|j: int| 0 <= j < i ==> !matched@[j],
        decreases matched@.len() - i,
    {
        if matched[i] {
            assert(matched@[i as int] == true);
            return true;
        }
        i = i + 1;
    }
    false
}

/// Says whether an entry passes by its name.
pub fn name_wanted(names: &Vec<Pattern>, file_name: &str) -> (wanted: bool)
    ensures
        wanted == name_wanted_spec(names@, file_name@),
{
    let mut matched: Vec<bool> = Vec::new();
    let mut i: usize = 0;
    while i < names.len()
        invariant
            i <= names@.len(),
            matched@.len() == i,
            forall|j: int| 0 <= j < i ==> matched@[j] == (#[trigger] names@[j]).matches(file_name@),
        decreases names@.len() - i,
    {
        matched.push(names[i].is_match(file_name));
        i = i + 1;
    }
    let wanted = passes_by_name(&matched);
    proof {
        if matched@.contains(true) {
            let j = choose|j: int| 0 <= j < matched@.len() && matched@[j] == true;
            assert(names@[j].matches(file_name@));
        }
        if names@.len() > 0 && exists|j: int|
            0 <= j < names@.len() && (#[trigger] names@[j]).matches(file_name@) {
            let j = choose|j: int|
                0 <= j < names@.len() && (#[trigger] names@[j]).matches(file_name@);
            assert(matched@[j] == true);
        }
    }
    wanted
}

/// Says whether an entry is shown: it passes by its kind and by its name.
pub fn wanted(
    config: &Config,
    is_dir: bool,
    is_file: bool,
    is_symlink: bool,
    file_name: &str,
) -> (shown: bool)
    ensures
        shown == (type_wanted_spec(config.entry_types@, is_dir, is_file, is_symlink)
            && name_wanted_spec(config.names@, file_name@)),
{
    type_wanted(&config.entry_types, is_dir, is_file, is_symlink) && name_wanted(
        &config.names,
        file_name,
    )
}

/// The kind that a letter asks for: `f` a file, `d` a directory, `l` a
/// link.
pub open spec fn entry_type_spec(letter: Seq<char>) -> Option<EntryType> {
    if letter == seq!['f'] {
        Some(EntryType::File)
    } else if letter == seq!['d'] {
        Some(EntryType::Dir)
    } else if letter == seq!['l'] {
        Some(EntryType::Link)
    } else {
        None
    }
}

/// Reads the letter of a kind.
pub fn parse_entry_type(letter: &str) -> (kind: Option<EntryType>)
    ensures
        kind == entry_type_spec(letter@),
{
    let chars = chars_of(letter);
    if chars.len() != 1 {
        return None;
    }
    let c = chars[0];
    assert(letter@ =~= seq![c]);
    if c == 'f' {
        Some(EntryType::File)
    } else if c == 'd' {
        Some(EntryType::Dir)
    } else if c == 'l' {
        Some(EntryType::Link)
    } else {
        assert(seq![c][0] == c);
        None
    }
}

/// The complaint about a name that is no regular expression.
pub open spec fn invalid_name(source: Seq<char>) -> Seq<char> {
    "Invalid --name \""@ + source + "\""@
}

/// Gives the pattern that was compiled from `source`, or the complaint
/// about `source` where it could not be compiled.
pub fn name_or_complaint(compiled: Option<Pattern>, source: &str) -> (result: Result<
    Pattern,
    String,
>)
    ensures
        match result {
            Ok(pattern) => compiled == Some(pattern),
            Err(message) => compiled is None && message@ == invalid_name(source@),
        },
{
    match compiled {
        Some(pattern) => Ok(pattern),
        None => {
            let mut message = String::from_str("Invalid --name \"");
            message.append(source);
            message.append("\"");
            Err(message)
        },
    }
}

/// Compiles a name; gives the complaint where it is no regular expression.
pub fn parse_name(source: &str) -> (result: Result<Pattern, String>)
    ensures
        match result {
            Ok(pattern) => regex_compiles(source@, false) && pattern.source() == source@
                && !pattern.insensitive(),
            Err(message) => !regex_compiles(source@, false) && message@ == invalid_name(source@),
        },
{
    name_or_complaint(Pattern::new(source, false), source)
}

} // verus!
