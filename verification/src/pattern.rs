//! The boundary to the `regex` crate.
use regex::Regex;
use vstd::prelude::*;

verus! {

/// `regex::Regex`, carried through as an opaque value.
#[verifier::external_type_specification]
#[verifier::external_body]
pub struct ExRegex(regex::Regex);

/// Whether `regex` compiles a pattern with its default options.
pub uninterp spec fn compiles(pattern: Seq<char>) -> bool;

/// The pattern that a regular expression was compiled from.
pub uninterp spec fn pattern_of(regex: Regex) -> Seq<char>;

/// What the first capture group holds in the leftmost match of a pattern in a text, if the
/// pattern matches and the group took part in the match.
pub uninterp spec fn first_capture(pattern: Seq<char>, text: Seq<char>) -> Option<Seq<char>>;

/// `Regex::new`: compiles a pattern. Whether a pattern compiles depends on the pattern
/// alone and is named by [`compiles`]; a compiled expression is one of the pattern it was
/// given.
#[verifier::external_body]
pub(crate) fn compile(pattern: &str) -> (compiled: Option<Regex>)
    ensures
        compiled is Some == compiles(pattern@),
        compiled matches Some(regex) ==> pattern_of(regex) == pattern@,
{
    Regex::new(pattern).ok()
}

/// `Regex::captures` and `Captures::get` for the first group. The result is a function of
/// the pattern and the text alone and is named by [`first_capture`]; nothing else is
/// claimed of it.
#[verifier::external_body]
pub(crate) fn capture(regex: &Regex, text: &str) -> (found: Option<String>)
    ensures
        found is Some == first_capture(pattern_of(*regex), text@) is Some,
        found matches Some(group) ==> Some(group@) == first_capture(pattern_of(*regex), text@),
{
    regex.captures(text).and_then(|captures| captures.get(1)).map(|group| group.as_str().to_string())
}

} // verus!
