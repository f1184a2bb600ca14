//! Regular expressions, compiled and run by the `regex` crate.

use vstd::prelude::*;
use crate::error::{Error, ErrorKind};

verus! {

/// `regex::Regex`, a compiled regular expression. Nothing is known of what a
/// value of it holds.
#[verifier::external_type_specification]
#[verifier::external_body]
pub struct ExRegex(regex::Regex);

/// Whether `source` is the text of a regular expression that compiles.
pub uninterp spec fn pattern_compiles(source: Seq<char>) -> bool;

/// Whether the regular expression written as `pattern` finds a match anywhere
/// in `text`.
pub uninterp spec fn pattern_matches(pattern: Seq<char>, text: Seq<char>) -> bool;

/// The part of `text` that the capture group called `group` holds in the
/// first match of the regular expression written as `pattern`, if there is a
/// match and the group took part in it.
pub uninterp spec fn pattern_capture(pattern: Seq<char>, group: Seq<char>, text: Seq<char>) -> Option<
    Seq<char>,
>;

/// A compiled regular expression together with the text it was compiled
/// from. A pattern only ever comes from compiling its text.
#[derive(Debug)]
pub struct Pattern {
    source: String,
    regex: regex::Regex,
}

impl View for Pattern {
    type V = Seq<char>;

    closed spec fn view(&self) -> Seq<char> {
        self.source@
    }
}

/// `regex::Regex::new`: compiles `source`. Whether that succeeds depends on
/// `source` alone. The pattern that comes back on success records `source`
/// as its text; on failure the message of the crate's error comes back.
#[verifier::external_body]
fn compile(source: &str) -> (r: Result<Pattern, String>)
    ensures
        r is Ok <==> pattern_compiles(source@),
        r matches Ok(p) ==> p@ == source@,
{
    match regex::Regex::new(source) {
        Ok(regex) => Ok(Pattern { source: source.to_owned(), regex }),
        Err(e) => Err(e.to_string()),
    }
}

/// `regex::Regex::is_match`: whether the expression matches somewhere in
/// `text`. The answer depends on the pattern text and on `text` alone.
#[verifier::external_body]
fn is_match(pattern: &Pattern, text: &str) -> (b: bool)
    ensures
        b == pattern_matches(pattern@, text@),
{
    pattern.regex.is_match(text)
}

/// `regex::Regex::captures`, then `Captures::name` and `Match::as_str`: the
/// text of the group called `group` in the first match within `text`. The
/// answer depends on the pattern text, the group name and `text` alone.
#[verifier::external_body]
fn capture(pattern: &Pattern, group: &str, text: &str) -> (r: Option<String>)
    ensures
        r is Some <==> pattern_capture(pattern@, group@, text@) is Some,
        r matches Some(s) ==> pattern_capture(pattern@, group@, text@) == Some(s@),
{
    let found = pattern.regex.captures(text)?;
    let held = found.name(group)?;
    Some(held.as_str().to_owned())
}

impl Pattern {
    /// Compiles `source`. Whether a text compiles is for the regular
    /// expression engine to say; when it does not, the error carries the
    /// engine's message.
    pub fn new(source: &str) -> (r: Result<Pattern, Error>)
        ensures
            match r {
                Ok(p) => pattern_compiles(source@) && p@ == source@,
                Err(e) => !pattern_compiles(source@) && e.kind == ErrorKind::Pattern,
            },
    {
        match compile(source) {
            Ok(p) => Ok(p),
            Err(message) => Err(Error::new(ErrorKind::Pattern, message.as_str())),
        }
    }

    /// The text this pattern was compiled from.
    pub fn source(&self) -> (s: &str)
        ensures
            s@ == self@,
    {
        self.source.as_str()
    }

    /// Whether the pattern matches somewhere in `text`.
    pub fn matches(&self, text: &str) -> (b: bool)
        ensures
            b == pattern_matches(self@, text@),
    {
        is_match(self, text)
    }

    /// What the group called `group` holds in the first match within `text`.
    pub fn capture(&self, group: &str, text: &str) -> (r: Option<String>)
        ensures
            r is Some <==> pattern_capture(self@, group@, text@) is Some,
            r matches Some(s) ==> pattern_capture(self@, group@, text@) == Some(s@),
    {
        capture(self, group, text)
    }
}

} // verus!
