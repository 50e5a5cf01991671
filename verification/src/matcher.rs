//! Line classification: does a line match, and what of it matched.

use vstd::prelude::*;
use crate::pattern::{find_fragments, is_match, regex_fragments, regex_is_match, str_views};

verus! {

/// What a matcher found in one line. The slices borrow from the line.
#[derive(Debug, PartialEq)]
pub enum MatchResult<'a> {
    /// The matched parts of the line, left to right.
    Content(Vec<&'a str>),
    /// The whole line.
    Line(&'a str),
}

/// The mathematical value of a `MatchResult`.
pub ghost enum MatchOutcome {
    Fragments(Seq<Seq<char>>),
    WholeLine(Seq<char>),
}

impl<'a> View for MatchResult<'a> {
    type V = MatchOutcome;

    open spec fn view(&self) -> MatchOutcome {
        match *self {
            MatchResult::Content(v) => MatchOutcome::Fragments(str_views(v@)),
            MatchResult::Line(l) => MatchOutcome::WholeLine(l@),
        }
    }
}

/// The value of an optional `MatchResult`.
pub open spec fn outcome_of(r: Option<MatchResult<'_>>) -> Option<MatchOutcome> {
    match r {
        Some(m) => Some(m@),
        None => None,
    }
}

/// The whole line where the pattern's verdict, flipped by `invert`, is
/// positive; nothing otherwise.
pub open spec fn whole_line_outcome(matched: bool, invert: bool, line: Seq<char>) -> Option<
    MatchOutcome,
> {
    if matched != invert {
        Some(MatchOutcome::WholeLine(line))
    } else {
        None
    }
}

/// The matched parts where there is at least one; nothing otherwise.
pub open spec fn fragments_outcome(fragments: Seq<Seq<char>>) -> Option<MatchOutcome> {
    if fragments.len() == 0 {
        None
    } else {
        Some(MatchOutcome::Fragments(fragments))
    }
}

/// The outcome of the default matcher: the whole line when the line matches
/// and the sense is not inverted, or does not match and the sense is
/// inverted.
pub open spec fn default_outcome(re: regex::Regex, invert: bool, line: Seq<char>) -> Option<
    MatchOutcome,
> {
    whole_line_outcome(regex_is_match(re, line), invert, line)
}

/// The outcome of the only-matching matcher: every match in the line, or
/// nothing when there is none.
pub open spec fn only_matching_outcome(re: regex::Regex, line: Seq<char>) -> Option<MatchOutcome> {
    fragments_outcome(regex_fragments(re, line))
}

/// Decides on a line, given whether the pattern matched it.
pub fn whole_line_if<'b>(matched: bool, invert: bool, line: &'b str) -> (r: Option<
    MatchResult<'b>,
>)
    ensures
        outcome_of(r) == whole_line_outcome(matched, invert, line@),
{
    if (matched && !invert) || (!matched && invert) {
        Some(MatchResult::Line(line))
    } else {
        None
    }
}

/// Decides on a line, given the matches found in it.
pub fn fragments_if_any<'b>(matches: Vec<&'b str>) -> (r: Option<MatchResult<'b>>)
    ensures
        outcome_of(r) == fragments_outcome(str_views(matches@)),
{
    if matches.len() == 0 {
        None
    } else {
        Some(MatchResult::Content(matches))
    }
}

/// A pure classifier of lines.
pub trait Matcher {
    /// What `find` returns for a line, as a mathematical value.
    spec fn outcome(&self, line: Seq<char>) -> Option<MatchOutcome>;

    /// Classifies one line.
    fn find<'b>(&self, line: &'b str) -> (r: Option<MatchResult<'b>>)
        ensures
            outcome_of(r) == self.outcome(line@),
    ;
}

/// Matches whole lines, optionally with the sense of the test inverted.
pub struct DefaultMatcher<'a> {
    pub re: &'a regex::Regex,
    pub invert_match: bool,
}

impl<'a> Matcher for DefaultMatcher<'a> {
    open spec fn outcome(&self, line: Seq<char>) -> Option<MatchOutcome> {
        default_outcome(*self.re, self.invert_match, line)
    }

    fn find<'b>(&self, line: &'b str) -> (r: Option<MatchResult<'b>>) {
        whole_line_if(is_match(self.re, line), self.invert_match, line)
    }
}

/// Reports the matched parts of a line instead of the line.
pub struct OnlyMatchingMatcher<'a> {
    pub re: &'a regex::Regex,
}

impl<'a> Matcher for OnlyMatchingMatcher<'a> {
    open spec fn outcome(&self, line: Seq<char>) -> Option<MatchOutcome> {
        only_matching_outcome(*self.re, line)
    }

    fn find<'b>(&self, line: &'b str) -> (r: Option<MatchResult<'b>>) {
        fragments_if_any(find_fragments(self.re, line))
    }
}

/// The matcher of a run: one of the two kinds, chosen once.
pub enum LineMatcher<'a> {
    Default(DefaultMatcher<'a>),
    OnlyMatching(OnlyMatchingMatcher<'a>),
}

impl<'a> Matcher for LineMatcher<'a> {
    open spec fn outcome(&self, line: Seq<char>) -> Option<MatchOutcome> {
        match *self {
            LineMatcher::Default(m) => m.outcome(line),
            LineMatcher::OnlyMatching(m) => m.outcome(line),
        }
    }

    fn find<'b>(&self, line: &'b str) -> (r: Option<MatchResult<'b>>) {
        match self {
            LineMatcher::Default(m) => m.find(line),
            LineMatcher::OnlyMatching(m) => m.find(line),
        }
    }
}

} // verus!
