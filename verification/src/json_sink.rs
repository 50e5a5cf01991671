//! The structured sink: one record per matched line, written out together
//! at the end of the run.

use std::ops::ControlFlow;
use vstd::prelude::*;
use crate::matcher::{MatchOutcome, MatchResult};
use crate::output::{
    emit, output_views, record_views, span, span_views, JsonContent, JsonContentView, JsonMatch,
    JsonMatchView, MatchedLine, MatchedLineView, Output, OutputView, Span, SpanView, Style,
};
use crate::pathset::string_views;
use crate::pattern::str_views;

verus! {

/// The record of a matched line: its path, its number, and the line or its
/// matched parts.
pub open spec fn record_of(m: MatchedLineView) -> JsonMatchView {
    JsonMatchView {
        path: m.path,
        line_number: m.line_number,
        content: match m.outcome {
            MatchOutcome::WholeLine(l) => JsonContentView::Line(l),
            MatchOutcome::Fragments(f) => JsonContentView::Matches(f),
        },
    }
}

/// What the structured sink shows at the end: the records as one document,
/// or the text of an empty array where there is none.
pub open spec fn json_report(records: Seq<JsonMatchView>) -> Seq<OutputView> {
    if records.len() == 0 {
        seq![OutputView::Line(seq![SpanView { text: seq!['[', ']'], style: Style::Plain }])]
    } else {
        seq![OutputView::Records(records)]
    }
}

/// Owned copies of string slices, in order.
pub fn own_all(parts: &Vec<&str>) -> (r: Vec<String>)
    ensures
        string_views(r@) == str_views(parts@),
{
    let mut r: Vec<String> = Vec::new();
    let mut i: usize = 0;
    while i < parts.len()
        invariant
            i <= parts.len(),
            string_views(r@) == str_views(parts@).subrange(0, i as int),
        decreases parts.len() - i,
    {
        let ghost mid = string_views(r@);
        r.push(parts[i].to_owned());
        assert(string_views(r@) =~= mid.push(parts@[i as int]@));
        i = i + 1;
    }
    r
}

/// A copy of a vector of strings.
pub fn copy_strings(v: &Vec<String>) -> (r: Vec<String>)
    ensures
        string_views(r@) == string_views(v@),
{
    let mut r: Vec<String> = Vec::new();
    let mut i: usize = 0;
    while i < v.len()
        invariant
            i <= v.len(),
            string_views(r@) == string_views(v@).subrange(0, i as int),
        decreases v.len() - i,
    {
        let ghost mid = string_views(r@);
        r.push(v[i].clone());
        assert(string_views(r@) =~= mid.push(v@[i as int]@));
        i = i + 1;
    }
    r
}

/// A copy of a record.
pub fn copy_record(m: &JsonMatch) -> (r: JsonMatch)
    ensures
        r@ == m@,
{
    let content = match &m.content {
        JsonContent::Line(l) => JsonContent::Line(l.clone()),
        JsonContent::Matches(v) => JsonContent::Matches(copy_strings(v)),
    };
    JsonMatch { path: m.path.clone(), line_number: m.line_number, content }
}

/// Collects a record per matched line. Context is of no interest to it.
#[derive(Debug)]
pub struct JsonSink {
    pub matches: Vec<JsonMatch>,
}

impl View for JsonSink {
    type V = Seq<JsonMatchView>;

    /// The records collected so far, oldest first.
    open spec fn view(&self) -> Seq<JsonMatchView> {
        record_views(self.matches@)
    }
}

impl JsonSink {
    /// A sink without records.
    pub fn new() -> (r: JsonSink)
        ensures
            r@ == Seq::<JsonMatchView>::empty(),
    {
        let r = JsonSink { matches: Vec::new() };
        r
    }

    /// Appends the record of a matched line, with its text copied. Always
    /// signals `Continue`.
    pub fn matched(&mut self, data: &MatchedLine<'_>, out: &mut Vec<Output>) -> (signal:
        ControlFlow<()>)
        ensures
            signal == ControlFlow::<(), ()>::Continue(()),
            final(self)@ == old(self)@.push(record_of(data@)),
            output_views(final(out)@) == output_views(old(out)@),
    {
        let content = match &data.match_result {
            MatchResult::Line(l) => JsonContent::Line((*l).to_owned()),
            MatchResult::Content(m) => JsonContent::Matches(own_all(m)),
        };
        let record = JsonMatch {
            path: data.path.to_owned(),
            line_number: data.line_number,
            content,
        };
        self.matches.push(record);
        ControlFlow::Continue(())
    }

    /// Hands out all records as one document, or the text `[]` where there
    /// is none. The sink itself is left as it was.
    pub fn finish(&mut self, out: &mut Vec<Output>)
        ensures
            final(self)@ == old(self)@,
            output_views(final(out)@) == output_views(old(out)@) + json_report(old(self)@),
    {
        if self.matches.len() == 0 {
            proof {
                reveal_strlit("[]");
            }
            let empty = "[]";
            assert(empty@ =~= seq!['[', ']']);
            let mut spans: Vec<Span> = Vec::new();
            spans.push(span(empty, Style::Plain));
            assert(span_views(spans@) =~= seq![
                SpanView { text: seq!['[', ']'], style: Style::Plain },
            ]);
            emit(out, Output::Line(spans));
            return ;
        }
        let mut records: Vec<JsonMatch> = Vec::new();
        let mut i: usize = 0;
        while i < self.matches.len()
            invariant
                i <= self.matches.len(),
                record_views(records@) == self@.subrange(0, i as int),
            decreases self.matches.len() - i,
        {
            let ghost mid = record_views(records@);
            records.push(copy_record(&self.matches[i]));
            assert(record_views(records@) =~= mid.push(self.matches@[i as int]@));
            i = i + 1;
        }
        assert(self@.subrange(0, i as int) =~= self@);
        emit(out, Output::Records(records));
    }
}

} // verus!
