//! The compiled pattern and what the regex engine is trusted to do with it.
//!
//! Matching itself is the engine's work. The library gives each of the
//! engine's answers a name, so that the contracts of the matchers and sinks
//! can say exactly which answer they pass on.

use vstd::prelude::*;

verus! {

/// A compiled regular expression of the `regex` crate, carried as an opaque
/// value.
#[verifier::external_type_specification]
#[verifier::external_body]
pub struct ExRegex(regex::Regex);

/// The error with which the `regex` crate refuses a pattern.
#[verifier::external_type_specification]
#[verifier::external_body]
pub struct ExRegexError(regex::Error);

/// Whether the engine finds at least one match of `re` in `line`.
pub uninterp spec fn regex_is_match(re: regex::Regex, line: Seq<char>) -> bool;

/// The successive non-overlapping matches of `re` in `line`, left to right,
/// each as the matched text.
pub uninterp spec fn regex_fragments(re: regex::Regex, line: Seq<char>) -> Seq<Seq<char>>;

/// The parts of `line` that lie between the matches of `re`, left to right:
/// what `Regex::split` yields.
pub uninterp spec fn regex_gaps(re: regex::Regex, line: Seq<char>) -> Seq<Seq<char>>;

/// The text with which the engine reports the error `e`.
pub uninterp spec fn regex_error_message(e: regex::Error) -> Seq<char>;

/// The compiled form of `pattern` under the given case sensitivity, or
/// `None` where the engine refuses the pattern: for its syntax, or because
/// the compiled program would exceed the engine's default size limit.
pub uninterp spec fn regex_compiled(pattern: Seq<char>, ignore_case: bool) -> Option<regex::Regex>;

/// The views of a vector of string slices, in order.
pub open spec fn str_views(v: Seq<&str>) -> Seq<Seq<char>> {
    Seq::new(v.len(), |i: int| v[i]@)
}

/// A line put together again from its gaps and its matches: the first gap,
/// then each match followed by the gap after it.
pub open spec fn woven(gaps: Seq<Seq<char>>, frags: Seq<Seq<char>>) -> Seq<char>
    decreases frags.len(),
{
    if gaps.len() == 0 {
        Seq::<char>::empty()
    } else if frags.len() == 0 {
        gaps[0]
    } else {
        woven(gaps.drop_last(), frags.drop_last()) + frags.last() + gaps.last()
    }
}

/// Calls `regex::RegexBuilder::new`, `case_insensitive` and `build`. Trusted:
/// whether the pattern compiles, and to what, depends on the pattern and the
/// flag alone; the result is the one named `regex_compiled`.
#[verifier::external_body]
pub(crate) fn compile_regex(pattern: &str, ignore_case: bool) -> (r: Result<
    regex::Regex,
    regex::Error,
>)
    ensures
        match r {
            Ok(re) => regex_compiled(pattern@, ignore_case) == Some(re),
            Err(_) => regex_compiled(pattern@, ignore_case) is None,
        },
{
    regex::RegexBuilder::new(pattern).case_insensitive(ignore_case).build()
}

/// Calls the `Display` implementation of `regex::Error`. Trusted: the text
/// depends on the error alone; it is the one named `regex_error_message`.
#[verifier::external_body]
pub(crate) fn regex_error_text(e: &regex::Error) -> (r: String)
    ensures
        r@ == regex_error_message(*e),
{
    format!("{}", e)
}

/// Calls `regex::Regex::is_match`. Trusted: the answer is the one named
/// `regex_is_match`.
#[verifier::external_body]
pub(crate) fn is_match(re: &regex::Regex, line: &str) -> (r: bool)
    ensures
        r == regex_is_match(*re, line@),
{
    re.is_match(line)
}

/// Calls `regex::Regex::find_iter` and takes the text of each match. Trusted:
/// the texts are the ones named `regex_fragments`, in the same order.
#[verifier::external_body]
pub(crate) fn find_fragments<'h>(re: &regex::Regex, line: &'h str) -> (r: Vec<&'h str>)
    ensures
        str_views(r@) == regex_fragments(*re, line@),
{
    re.find_iter(line).map(|m| m.as_str()).collect()
}

/// Calls `regex::Regex::split`. Trusted: the pieces are the ones named
/// `regex_gaps`, in the same order. The engine cuts the line at the matches
/// that `find_iter` yields: there is one gap before each match and one after
/// the last, and gaps and matches in turn make up the line.
#[verifier::external_body]
pub(crate) fn split_gaps<'h>(re: &regex::Regex, line: &'h str) -> (r: Vec<&'h str>)
    ensures
        str_views(r@) == regex_gaps(*re, line@),
        r@.len() == regex_fragments(*re, line@).len() + 1,
        woven(str_views(r@), regex_fragments(*re, line@)) == line@,
{
    re.split(line).collect()
}

} // verus!
