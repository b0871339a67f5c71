//! Regular expressions, as the `regex` crate compiles and matches them. A
//! [`Pattern`] can only be made by [`Pattern::new`], so every pattern is one
//! that `Regex::new` compiled, with the settings that `Regex::new` uses.

use crate::failure::{Failure, FailureView};
use vstd::prelude::*;

verus! {

#[verifier::external_type_specification]
#[verifier::external_body]
pub struct ExRegexError(regex::Error);

/// A regular expression that `Regex::new` compiled. Its field is hidden:
/// nothing but the functions of this file reaches the expression in it.
#[verifier::external_body]
#[derive(Debug)]
pub struct Pattern {
    re: regex::Regex,
}

/// Whether `Regex::new` accepts `pattern`: whether it returns `Ok` for it.
pub uninterp spec fn regex_compiles(pattern: Seq<char>) -> bool;

/// The text that a pattern was compiled from.
pub uninterp spec fn regex_source(re: &Pattern) -> Seq<char>;

/// Whether the regular expression `pattern` matches somewhere in `haystack`:
/// what `Regex::is_match` returns for the expression that `Regex::new` made
/// of `pattern`.
pub uninterp spec fn regex_matches(pattern: Seq<char>, haystack: Seq<char>) -> bool;

/// `Regex::new`: compiles `pattern`. Whether it succeeds depends on the
/// pattern alone, and the compiled expression is kept with the text it was
/// made from.
#[verifier::external_body]
fn compile(pattern: &str) -> (r: Result<Pattern, regex::Error>)
    ensures
        r is Ok <==> regex_compiles(pattern@),
        r matches Ok(re) ==> regex_source(&re) == pattern@,
{
    Ok(Pattern { re: regex::Regex::new(pattern)? })
}

/// `Regex::is_match`: whether the expression matches somewhere in `haystack`.
/// For an expression that `Regex::new` made, the answer depends on the text
/// of the pattern and on the haystack alone.
#[verifier::external_body]
pub(crate) fn is_match(re: &Pattern, haystack: &str) -> (b: bool)
    ensures
        b == regex_matches(regex_source(re), haystack@),
{
    re.re.is_match(haystack)
}

impl Pattern {
    /// Compiles `source`. A text that is no regular expression, or one that
    /// is too large, is refused with `PatternRejected`.
    pub fn new(source: &str) -> (r: Result<Pattern, Failure>)
        ensures
            r is Ok <==> regex_compiles(source@),
            r matches Ok(pattern) ==> regex_source(&pattern) == source@,
            r matches Err(e) ==> e@ == FailureView::PatternRejected,
    {
        match compile(source) {
            Ok(pattern) => Ok(pattern),
            Err(_) => Err(Failure::PatternRejected),
        }
    }

    /// Whether the pattern matches somewhere in `haystack`.
    pub fn matches(&self, haystack: &str) -> (b: bool)
        ensures
            b == regex_matches(regex_source(self), haystack@),
    {
        is_match(self, haystack)
    }
}

} // verus!
