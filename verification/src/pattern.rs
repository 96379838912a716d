//! Regular expressions and joining, as the `regex` and `itertools` crates
//! provide them.
//!
//! Nothing in this file is proved. What a pattern matches is not written down
//! here either: each call has a name for its result, and the rest of the
//! library is proved for every value that those names may have.

use itertools::Itertools;
use regex::Regex;
use vstd::prelude::*;

verus! {

/// `regex::Regex`: a compiled pattern, of whose inside nothing is known here.
#[verifier::external_type_specification]
#[verifier::external_body]
pub struct ExRegex(regex::Regex);

/// `regex::Error`: why a pattern was refused, of whose inside nothing is known here.
#[verifier::external_type_specification]
#[verifier::external_body]
pub struct ExRegexError(regex::Error);

/// Whether `regex::Regex::new` accepts the pattern.
pub uninterp spec fn regex_compiles(pattern: Seq<char>) -> bool;

/// What `regex::Regex::captures_len` returns for the pattern: the number of
/// its groups, the whole match counted as one.
pub uninterp spec fn regex_group_count(pattern: Seq<char>) -> nat;

/// What `regex::Regex::captures_iter` yields for the pattern on a text: for
/// each match, in order, the text of every group, `None` for a group that took
/// no part in the match.
pub uninterp spec fn regex_captures(pattern: Seq<char>, haystack: Seq<char>) -> Seq<
    Seq<Option<Seq<char>>>,
>;

/// What `regex::Regex::find_iter` yields for the pattern on a text: the text of
/// each match, in order.
pub uninterp spec fn regex_matches(pattern: Seq<char>, haystack: Seq<char>) -> Seq<Seq<char>>;

/// What `regex::Regex::split` yields for the pattern on a text: the pieces of
/// the text that lie between the matches.
pub uninterp spec fn regex_split(pattern: Seq<char>, haystack: Seq<char>) -> Seq<Seq<char>>;

/// The texts of a list of strings.
pub open spec fn texts(strings: Seq<String>) -> Seq<Seq<char>> {
    strings.map_values(|s: String| s@)
}

/// The texts of the groups of one match.
pub open spec fn group_texts(groups: Seq<Option<String>>) -> Seq<Option<Seq<char>>> {
    groups.map_values(
        |group: Option<String>|
            match group {
                Some(text) => Some(text@),
                None => None,
            },
    )
}

/// The texts of the groups of a list of matches.
pub open spec fn capture_texts(captures: Seq<Vec<Option<String>>>) -> Seq<Seq<Option<Seq<char>>>> {
    captures.map_values(|groups: Vec<Option<String>>| group_texts(groups@))
}

/// The strings with `separator` between each two of them.
pub open spec fn joined(parts: Seq<Seq<char>>, separator: Seq<char>) -> Seq<char>
    decreases parts.len(),
{
    if parts.len() == 0 {
        Seq::empty()
    } else if parts.len() == 1 {
        parts[0]
    } else {
        joined(parts.drop_last(), separator) + separator + parts.last()
    }
}

/// A compiled regular expression, with the text that it was compiled from.
/// Only [`Pattern::compile`] makes one, so the two belong together.
pub struct Pattern {
    source: String,
    regex: Regex,
}

impl View for Pattern {
    type V = Seq<char>;

    /// The text of the pattern.
    closed spec fn view(&self) -> Seq<char> {
        self.source@
    }
}

impl Pattern {
    /// Calls `regex::Regex::new`. The contract claims that whether it accepts
    /// a pattern depends on the pattern alone, and that the value returned
    /// stands for that pattern.
    #[verifier::external_body]
    pub(crate) fn compile(source: &str) -> (compiled: Result<Pattern, regex::Error>)
        ensures
            compiled is Ok <==> regex_compiles(source@),
            compiled matches Ok(pattern) ==> pattern@ == source@,
    {
        let regex = Regex::new(source)?;
        Ok(Pattern { source: source.to_string(), regex })
    }

    /// Calls `regex::Regex::captures_len`. The contract claims that the number
    /// depends on the pattern alone.
    #[verifier::external_body]
    pub(crate) fn captures_len(&self) -> (count: usize)
        ensures
            count == regex_group_count(self@),
    {
        self.regex.captures_len()
    }

    /// Calls `regex::Regex::captures_iter` and copies the text of every group
    /// of every match. The contract claims that the matches depend on the
    /// pattern and the text alone.
    #[verifier::external_body]
    pub(crate) fn captures_iter(&self, haystack: &str) -> (captures: Vec<Vec<Option<String>>>)
        ensures
            capture_texts(captures@) == regex_captures(self@, haystack@),
    {
        self.regex.captures_iter(haystack).map(
            |found| found.iter().map(|group| group.map(|m| m.as_str().to_string())).collect(),
        ).collect()
    }

    /// Calls `regex::Regex::find_iter` and copies the text of every match. The
    /// contract claims that the matches depend on the pattern and the text
    /// alone.
    #[verifier::external_body]
    pub(crate) fn find_iter(&self, haystack: &str) -> (found: Vec<String>)
        ensures
            texts(found@) == regex_matches(self@, haystack@),
    {
        self.regex.find_iter(haystack).map(|m| m.as_str().to_string()).collect()
    }

    /// Calls `regex::Regex::split` and copies every piece. The contract claims
    /// that the pieces depend on the pattern and the text alone.
    #[verifier::external_body]
    pub(crate) fn split(&self, haystack: &str) -> (pieces: Vec<String>)
        ensures
            texts(pieces@) == regex_split(self@, haystack@),
    {
        self.regex.split(haystack).map(|piece| piece.to_string()).collect()
    }
}

/// Calls `itertools::Itertools::join` on the strings. The contract claims that
/// the result is the strings in their order with the separator between each
/// two, and the empty string where there is none.
#[verifier::external_body]
pub(crate) fn join(parts: &Vec<String>, separator: &str) -> (whole: String)
    ensures
        whole@ == joined(texts(parts@), separator@),
{
    parts.iter().join(separator)
}

} // verus!
