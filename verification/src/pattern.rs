//! Regular expressions, compiled and matched by the `regex` crate.

use regex::{Regex, RegexBuilder};
use vstd::prelude::*;
use vstd::string::*;

verus! {

/// A compiled regular expression of the `regex` crate.
#[verifier::external_type_specification]
#[verifier::external_body]
pub struct ExRegex(Regex);

/// Whether the `regex` crate accepts `source` as a regular expression, with
/// or without regard to case.
pub uninterp spec fn regex_compiles(source: Seq<char>, insensitive: bool) -> bool;

/// Whether the regular expression `source`, compiled with or without
/// regard to case, matches anywhere in `text`.
pub uninterp spec fn regex_is_match(source: Seq<char>, insensitive: bool, text: Seq<char>) -> bool;

/// A regular expression together with the text it was compiled from.
///
/// The fields are private and a pattern is only made by `new`, so that its
/// compiled form is always that of its own source and flag.
#[derive(Debug)]
pub struct Pattern {
    source: String,
    insensitive: bool,
    compiled: Regex,
}

/// Compiles a regular expression.
///
/// Calls `RegexBuilder::new`, `case_insensitive` and `build`, which compile
/// the expression or refuse it; which of the two is named
/// `regex_compiles`.
#[verifier::external_body]
fn compile_regex(source: &str, insensitive: bool) -> (compiled: Option<Regex>)
    ensures
        compiled.is_some() == regex_compiles(source@, insensitive),
{
    RegexBuilder::new(source).case_insensitive(insensitive).build().ok()
}

/// Says whether a pattern matches anywhere in `text`.
///
/// Calls `Regex::is_match` on the compiled form of the pattern, which every
/// pattern has from `compile_regex` on its own source and flag; the answer
/// is named `regex_is_match`.
#[verifier::external_body]
fn regex_matches(pattern: &Pattern, text: &str) -> (found: bool)
    ensures
        found == regex_is_match(pattern.source@, pattern.insensitive, text@),
{
    pattern.compiled.is_match(text)
}

impl Pattern {
    /// The text that the pattern was compiled from.
    pub closed spec fn source(&self) -> Seq<char> {
        self.source@
    }

    /// Whether the pattern matches without regard to case.
    pub closed spec fn insensitive(&self) -> bool {
        self.insensitive
    }

    /// Whether the pattern matches anywhere in `text`.
    pub open spec fn matches(&self, text: Seq<char>) -> bool {
        regex_is_match(self.source(), self.insensitive(), text)
    }

    /// Compiles `source`; gives `None` where it is no regular expression.
    pub fn new(source: &str, insensitive: bool) -> (pattern: Option<Pattern>)
        ensures
            pattern.is_some() == regex_compiles(source@, insensitive),
            pattern matches Some(p) ==> p.source() == source@ && p.insensitive() == insensitive,
    {
        match compile_regex(source, insensitive) {
            Some(compiled) => Some(Pattern { source: source.to_owned(), insensitive, compiled }),
            None => None,
        }
    }

    /// Says whether the pattern matches anywhere in `text`.
    pub fn is_match(&self, text: &str) -> (found: bool)
        ensures
            found == self.matches(text@),
    {
        regex_matches(self, text)
    }

    /// The text that the pattern was compiled from.
    pub fn as_str(&self) -> (source: &str)
        ensures
            source@ == self.source(),
    {
        self.source.as_str()
    }
}

} // verus!
