//! What flows from the context manager into a sink, and what a sink hands
//! back to be shown.

use vstd::prelude::*;
use crate::matcher::{MatchOutcome, MatchResult};
use crate::pathset::string_views;

verus! {

/// On which side of a match a context line stands.
#[derive(Debug, Clone, Copy, PartialEq, Eq, Structural)]
pub enum ContextKind {
    Before,
    After,
}

/// A line shown around a match. It owns its text.
#[derive(Debug, Clone, PartialEq, Eq)]
pub struct ContextLine {
    pub path: String,
    pub line_number: usize,
    pub content: String,
    pub kind: ContextKind,
}

/// The value of a `ContextLine`.
pub ghost struct ContextLineView {
    pub path: Seq<char>,
    pub line_number: usize,
    pub content: Seq<char>,
    pub kind: ContextKind,
}

impl View for ContextLine {
    type V = ContextLineView;

    open spec fn view(&self) -> ContextLineView {
        ContextLineView {
            path: self.path@,
            line_number: self.line_number,
            content: self.content@,
            kind: self.kind,
        }
    }
}

/// A matched line on its way into a sink.
#[derive(Debug)]
pub struct MatchedLine<'a> {
    pub path: &'a str,
    pub line_number: usize,
    pub match_result: MatchResult<'a>,
}

/// The value of a `MatchedLine`.
pub ghost struct MatchedLineView {
    pub path: Seq<char>,
    pub line_number: usize,
    pub outcome: MatchOutcome,
}

impl<'a> View for MatchedLine<'a> {
    type V = MatchedLineView;

    open spec fn view(&self) -> MatchedLineView {
        MatchedLineView {
            path: self.path@,
            line_number: self.line_number,
            outcome: self.match_result@,
        }
    }
}

/// What the context manager tells a sink, in the order it tells it.
pub ghost enum Event {
    /// A gap between two groups of lines.
    GroupBreak,
    /// A line of context.
    Context(ContextLineView),
    /// A matched line.
    Matched(MatchedLineView),
}

/// How a piece of text is to be painted. The library names the role; the
/// caller picks the colours.
#[derive(Debug, Clone, Copy, PartialEq, Eq, Structural)]
pub enum Style {
    Plain,
    Path,
    LineNumber,
    Match,
    Divider,
}

/// A piece of text with its role.
#[derive(Debug, Clone, PartialEq, Eq)]
pub struct Span {
    pub text: String,
    pub style: Style,
}

/// The value of a `Span`.
pub ghost struct SpanView {
    pub text: Seq<char>,
    pub style: Style,
}

impl View for Span {
    type V = SpanView;

    open spec fn view(&self) -> SpanView {
        SpanView { text: self.text@, style: self.style }
    }
}

/// The values of a vector of spans, in order.
pub open spec fn span_views(v: Seq<Span>) -> Seq<SpanView> {
    Seq::new(v.len(), |i: int| v[i]@)
}

/// The payload of a structured record: the whole line, or its matched parts.
#[derive(Debug, Clone, PartialEq, Eq)]
pub enum JsonContent {
    Line(String),
    Matches(Vec<String>),
}

/// The value of a `JsonContent`.
pub ghost enum JsonContentView {
    Line(Seq<char>),
    Matches(Seq<Seq<char>>),
}

impl View for JsonContent {
    type V = JsonContentView;

    open spec fn view(&self) -> JsonContentView {
        match *self {
            JsonContent::Line(l) => JsonContentView::Line(l@),
            JsonContent::Matches(m) => JsonContentView::Matches(string_views(m@)),
        }
    }
}

/// One structured record: a matched line with where it was found.
#[derive(Debug, Clone, PartialEq, Eq)]
pub struct JsonMatch {
    pub path: String,
    pub line_number: usize,
    pub content: JsonContent,
}

/// The value of a `JsonMatch`.
pub ghost struct JsonMatchView {
    pub path: Seq<char>,
    pub line_number: usize,
    pub content: JsonContentView,
}

impl View for JsonMatch {
    type V = JsonMatchView;

    open spec fn view(&self) -> JsonMatchView {
        JsonMatchView {
            path: self.path@,
            line_number: self.line_number,
            content: self.content@,
        }
    }
}

/// The values of a vector of records, in order.
pub open spec fn record_views(v: Seq<JsonMatch>) -> Seq<JsonMatchView> {
    Seq::new(v.len(), |i: int| v[i]@)
}

/// One thing for the caller to show.
#[derive(Debug, Clone, PartialEq, Eq)]
pub enum Output {
    /// A line of text, as painted pieces.
    Line(Vec<Span>),
    /// The records of the whole run, to be written as one array document.
    Records(Vec<JsonMatch>),
}

/// The value of an `Output`.
pub ghost enum OutputView {
    Line(Seq<SpanView>),
    Records(Seq<JsonMatchView>),
}

impl View for Output {
    type V = OutputView;

    open spec fn view(&self) -> OutputView {
        match *self {
            Output::Line(spans) => OutputView::Line(span_views(spans@)),
            Output::Records(records) => OutputView::Records(record_views(records@)),
        }
    }
}

/// The values of a vector of outputs, in order.
pub open spec fn output_views(v: Seq<Output>) -> Seq<OutputView> {
    Seq::new(v.len(), |i: int| v[i]@)
}

/// Appends `item` to the output log.
pub fn emit(out: &mut Vec<Output>, item: Output)
    ensures
        output_views(final(out)@) == output_views(old(out)@).push(item@),
{
    out.push(item);
}

/// A span with the given text and role.
pub fn span(text: &str, style: Style) -> (s: Span)
    ensures
        s@ == (SpanView { text: text@, style }),
{
    Span { text: text.to_owned(), style }
}

} // verus!
