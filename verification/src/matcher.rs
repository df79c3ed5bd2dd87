//! The regular expressions of the `regex` crate: compiling a pattern and
//! finding the first match in a line.

use crate::line::is_span;
use regex::Regex;
use vstd::prelude::*;

verus! {

/// A compiled regular expression of the `regex` crate.
#[verifier::external_type_specification]
#[verifier::external_body]
pub struct ExRegex(Regex);

/// What `Regex::new` makes of a pattern: the compiled expression, or the
/// error that says why there is none.
pub uninterp spec fn compiled(pattern: Seq<char>) -> Result<Regex, regex::Error>;

/// What `Regex::find` finds in a haystack: the byte offsets at which the
/// first match starts and ends, if there is a match.
pub uninterp spec fn first_match(re: Regex, haystack: Seq<char>) -> Option<(int, int)>;

/// `Regex::new`: compiles `pattern` with the crate's default settings.
#[verifier::external_body]
pub(crate) fn compile_regex(pattern: &str) -> (r: Result<Regex, regex::Error>)
    ensures
        r == compiled(pattern@),
{
    Regex::new(pattern)
}

/// `Regex::find`, with the match given as its two byte offsets. The crate
/// promises that a match starts and ends between characters, start first.
#[verifier::external_body]
pub(crate) fn find_first(re: &Regex, haystack: &str) -> (r: Option<(usize, usize)>)
    ensures
        r is Some <==> first_match(*re, haystack@) is Some,
        r matches Some(found) ==> first_match(*re, haystack@) == Some(
            (found.0 as int, found.1 as int),
        ) && is_span(haystack@, found.0 as int, found.1 as int),
{
    re.find(haystack).map(|m| (m.start(), m.end()))
}

} // verus!
