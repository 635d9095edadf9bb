//! Texts as sequences of characters: finding, trimming and cutting.

use vstd::prelude::*;
use vstd::string::*;

verus! {

/// The characters of a text, in order.
pub fn chars_of(s: &str) -> (chars: Vec<char>)
    ensures
        chars@ == s@,
{
    let mut chars: Vec<char> = Vec::new();
    for c in it: s.chars()
        invariant
            chars@ == it.seq().take(it.index() as int),
            it.seq() == s@,
    {
        chars.push(c);
    }
    chars
}

/// The text of an optional text.
pub open spec fn opt_view(text: Option<&str>) -> Option<Seq<char>> {
    match text {
        Some(t) => Some(t@),
        None => None,
    }
}

/// The texts of a list of strings.
pub open spec fn texts(list: Seq<String>) -> Seq<Seq<char>> {
    list.map_values(|s: String| s@)
}

/// The name that stands for the standard input.
pub open spec fn stdin_name() -> Seq<char> {
    seq!['-']
}

/// Says whether a name stands for the standard input.
pub fn is_stdin(path: &str) -> (stdin: bool)
    ensures
        stdin == (path@ == stdin_name()),
{
    let chars = chars_of(path);
    let stdin = chars.len() == 1 && chars[0] == '-';
    proof {
        if stdin {
            assert(path@ =~= stdin_name());
        }
    }
    stdin
}

/// The characters that count as white space: those with the Unicode
/// property `White_Space`.
pub open spec fn is_whitespace(c: char) -> bool {
    let u = c as u32;
    ||| 0x09 <= u <= 0x0d
    ||| u == 0x20
    ||| u == 0x85
    ||| u == 0xa0
    ||| u == 0x1680
    ||| 0x2000 <= u <= 0x200a
    ||| u == 0x2028
    ||| u == 0x2029
    ||| u == 0x202f
    ||| u == 0x205f
    ||| u == 0x3000
}

/// Says whether a character counts as white space.
pub fn is_whitespace_char(c: char) -> (white: bool)
    ensures
        white == is_whitespace(c),
{
    let u: u32 = c as u32;
    (0x09 <= u && u <= 0x0d) || u == 0x20 || u == 0x85 || u == 0xa0 || u == 0x1680 || (0x2000 <= u
        && u <= 0x200a) || u == 0x2028 || u == 0x2029 || u == 0x202f || u == 0x205f || u == 0x3000
}

/// A text without the white space at its start.
pub open spec fn trim_start(s: Seq<char>) -> Seq<char>
    decreases s.len(),
{
    if s.len() > 0 && is_whitespace(s[0]) {
        trim_start(s.drop_first())
    } else {
        s
    }
}

/// A text without the white space at its end.
pub open spec fn trim_end(s: Seq<char>) -> Seq<char>
    decreases s.len(),
{
    if s.len() > 0 && is_whitespace(s.last()) {
        trim_end(s.drop_last())
    } else {
        s
    }
}

/// A text without the white space at its start and at its end.
pub open spec fn trim(s: Seq<char>) -> Seq<char> {
    trim_end(trim_start(s))
}

/// Finds the part of `chars` between `from` and `to` that is left when the
/// white space at both of its ends is taken off.
pub(crate) fn trim_bounds(chars: &[char], from: usize, to: usize) -> (bounds: (usize, usize))
    requires
        from <= to <= chars@.len(),
    ensures
        from <= bounds.0 <= bounds.1 <= to,
        chars@.subrange(bounds.0 as int, bounds.1 as int) == trim(
            chars@.subrange(from as int, to as int),
        ),
{
    let mut first: usize = from;
    while first < to && is_whitespace_char(chars[first])
        invariant
            from <= first <= to <= chars@.len(),
            trim_start(chars@.subrange(first as int, to as int)) == trim_start(
                chars@.subrange(from as int, to as int),
            ),
        decreases to - first,
    {
        assert(chars@.subrange(first as int, to as int).drop_first() =~= chars@.subrange(
            first + 1,
            to as int,
        ));
        first = first + 1;
    }
    let mut last: usize = to;
    while first < last && is_whitespace_char(chars[last - 1])
        invariant
            first <= last <= to <= chars@.len(),
            trim_end(chars@.subrange(first as int, last as int)) == trim_end(
                chars@.subrange(first as int, to as int),
            ),
        decreases last - first,
    {
        assert(chars@.subrange(first as int, last as int).drop_last() =~= chars@.subrange(
            first as int,
            last - 1,
        ));
        last = last - 1;
    }
    (first, last)
}

/// Finds how many characters of `chars` are left when the white space at
/// its end is taken off.
pub(crate) fn trim_end_len(chars: &[char]) -> (len: usize)
    ensures
        len <= chars@.len(),
        chars@.take(len as int) == trim_end(chars@),
{
    let mut len: usize = chars.len();
    assert(chars@.take(len as int) =~= chars@);
    while len > 0 && is_whitespace_char(chars[len - 1])
        invariant
            len <= chars@.len(),
            trim_end(chars@.take(len as int)) == trim_end(chars@),
        decreases len,
    {
        assert(chars@.take(len as int).drop_last() =~= chars@.take(len - 1));
        len = len - 1;
    }
    len
}

/// A text without the line feeds at its end.
pub open spec fn chomp(s: Seq<char>) -> Seq<char>
    decreases s.len(),
{
    if s.len() > 0 && s.last() == '\n' {
        chomp(s.drop_last())
    } else {
        s
    }
}

/// Finds how many characters of `chars` are left when the line feeds at its
/// end are taken off.
pub(crate) fn chomp_len(chars: &[char]) -> (len: usize)
    ensures
        len <= chars@.len(),
        chars@.take(len as int) == chomp(chars@),
{
    let mut len: usize = chars.len();
    assert(chars@.take(len as int) =~= chars@);
    while len > 0 && chars[len - 1] == '\n'
        invariant
            len <= chars@.len(),
            chomp(chars@.take(len as int)) == chomp(chars@),
        decreases len,
    {
        assert(chars@.take(len as int).drop_last() =~= chars@.take(len - 1));
        len = len - 1;
    }
    len
}

/// Says whether the first `a_len` characters of `a` are the first `b_len`
/// characters of `b`.
pub(crate) fn same_prefix(a: &[char], a_len: usize, b: &[char], b_len: usize) -> (same: bool)
    requires
        a_len <= a@.len(),
        b_len <= b@.len(),
    ensures
        same == (a@.take(a_len as int) == b@.take(b_len as int)),
{
    if a_len != b_len {
        assert(a@.take(a_len as int).len() != b@.take(b_len as int).len());
        return false;
    }
    let mut i: usize = 0;
    while i < a_len
        invariant
            i <= a_len,
            a_len == b_len,
            a_len <= a@.len(),
            b_len <= b@.len(),
            forall|j: int| 0 <= j < i ==> a@[j] == b@[j],
        decreases a_len - i,
    {
        if a[i] != b[i] {
            assert(a@.take(a_len as int)[i as int] != b@.take(b_len as int)[i as int]);
            return false;
        }
        i = i + 1;
    }
    assert(a@.take(a_len as int) =~= b@.take(b_len as int));
    true
}

/// Where `c` first stands in `s` at or behind `from`; the length of `s`
/// where it stands nowhere there.
pub open spec fn find_from(s: Seq<char>, c: char, from: int) -> int
    decreases s.len() - from,
{
    if from < 0 || from >= s.len() {
        s.len() as int
    } else if s[from] == c {
        from
    } else {
        find_from(s, c, from + 1)
    }
}

/// What `find_from` finds lies at or behind `from`, and `c` stands nowhere
/// before it.
pub proof fn lemma_find_from(s: Seq<char>, c: char, from: int)
    requires
        0 <= from <= s.len(),
    ensures
        from <= find_from(s, c, from) <= s.len(),
        find_from(s, c, from) < s.len() ==> s[find_from(s, c, from)] == c,
        forall|j: int| from <= j < find_from(s, c, from) ==> s[j] != c,
    decreases s.len() - from,
{
    if from < s.len() && s[from] != c {
        lemma_find_from(s, c, from + 1);
    }
}

/// Finds where `c` first stands in `chars` at or behind `from` and before
/// `to`; gives `to` where it stands nowhere there.
pub(crate) fn find_char(chars: &[char], c: char, from: usize, to: usize) -> (at: usize)
    requires
        from <= to <= chars@.len(),
    ensures
        from <= at <= to,
        at - from == find_from(chars@.subrange(from as int, to as int), c, 0),
{
    let mut at: usize = from;
    let ghost part = chars@.subrange(from as int, to as int);
    while at < to && chars[at] != c
        invariant
            from <= at <= to <= chars@.len(),
            part == chars@.subrange(from as int, to as int),
            find_from(part, c, at - from) == find_from(part, c, 0),
        decreases to - at,
    {
        assert(part[at - from] == chars@[at as int]);
        at = at + 1;
    }
    proof {
        if at < to {
            assert(part[at - from] == chars@[at as int]);
        }
    }
    at
}

/// The text that a byte sequence encodes: its characters where it is valid
/// UTF-8.
pub open spec fn text_of(bytes: Seq<u8>) -> Seq<char> {
    vstd::utf8::decode_utf8(bytes)
}

/// Reads a byte sequence as text.
///
/// Calls `core::str::from_utf8`, which checks that the bytes are valid
/// UTF-8 and, where they are, hands the same bytes back as a `str`.
#[verifier::external_body]
pub(crate) fn str_of_bytes(bytes: &[u8]) -> (text: Option<&str>)
    ensures
        match text {
            Some(t) => vstd::utf8::valid_utf8(bytes@) && t.spec_bytes() == bytes@,
            None => !vstd::utf8::valid_utf8(bytes@),
        },
{
    core::str::from_utf8(bytes).ok()
}

/// The text that `String::from_utf8_lossy` makes of a byte sequence: what
/// the bytes decode to, with the replacement character in place of every
/// stretch that is not valid UTF-8.
pub uninterp spec fn utf8_lossy(bytes: Seq<u8>) -> Seq<char>;

/// Reads a byte sequence as text, whatever the bytes are.
///
/// Calls `String::from_utf8_lossy`. Its result is named `utf8_lossy`; of
/// valid UTF-8 it is the text that the bytes encode.
#[verifier::external_body]
pub(crate) fn lossy_string(bytes: &[u8]) -> (text: String)
    ensures
        text@ == utf8_lossy(bytes@),
        vstd::utf8::valid_utf8(bytes@) ==> text@ == text_of(bytes@),
{
    String::from_utf8_lossy(bytes).into_owned()
}

/// The text of valid UTF-8 is what its bytes decode to.
pub proof fn lemma_text_of_bytes(t: &str, bytes: Seq<u8>)
    requires
        t.spec_bytes() == bytes,
    ensures
        t@ == text_of(bytes),
{
    vstd::utf8::encode_utf8_decode_utf8(t@);
}

/// The texts of a list put together, with `between` between each two.
pub open spec fn joined_with(list: Seq<Seq<char>>, between: Seq<char>) -> Seq<char>
    decreases list.len(),
{
    if list.len() == 0 {
        Seq::empty()
    } else if list.len() == 1 {
        list[0]
    } else {
        joined_with(list.drop_last(), between) + between + list.last()
    }
}

/// Puts the texts of a list together, with `between` between each two.
pub fn join(list: &Vec<String>, between: &str) -> (text: String)
    ensures
        text@ == joined_with(texts(list@), between@),
{
    let mut text = String::new();
    let mut i: usize = 0;
    assert(texts(list@).take(0) =~= Seq::<Seq<char>>::empty());
    while i < list.len()
        invariant
            i <= list@.len(),
            text@ == joined_with(texts(list@).take(i as int), between@),
        decreases list@.len() - i,
    {
        let ghost part = texts(list@).take(i + 1);
        assert(part.drop_last() =~= texts(list@).take(i as int));
        assert(part.last() == list@[i as int]@);
        if i > 0 {
            text.append(between);
        }
        text.append(list[i].as_str());
        proof {
            if i == 0 {
                assert(text@ =~= part[0]);
            }
        }
        i = i + 1;
    }
    assert(texts(list@).take(i as int) =~= texts(list@));
    text
}

/// A run of `n` spaces.
pub open spec fn spaces(n: nat) -> Seq<char> {
    Seq::new(n, |i: int| ' ')
}

/// A text moved to the right edge of a column: spaces come before it until
/// it is `width` characters long. A text that is as long or longer stays
/// as it is.
pub open spec fn right_aligned(t: Seq<char>, width: nat) -> Seq<char> {
    if t.len() >= width {
        t
    } else {
        spaces((width - t.len()) as nat) + t
    }
}

/// Moves a text to the right edge of a column of `width` characters.
pub fn right_align(text: &str, width: usize) -> (aligned: String)
    ensures
        aligned@ == right_aligned(text@, width as nat),
{
    let len = text.unicode_len();
    let mut aligned = String::new();
    let mut i: usize = len;
    proof {
        reveal_strlit(" ");
    }
    assert(aligned@ =~= spaces(0));
    while i < width
        invariant
            len <= i,
            i <= width || i == len,
            aligned@ == spaces((i - len) as nat),
            " "@ == seq![' '],
        decreases width - i,
    {
        aligned.append(" ");
        i = i + 1;
        assert(aligned@ =~= spaces((i - len) as nat));
    }
    aligned.append(text);
    proof {
        if len >= width {
            assert(aligned@ =~= text@);
        } else {
            assert(aligned@ =~= spaces((width - len) as nat) + text@);
        }
    }
    aligned
}

} // verus!
