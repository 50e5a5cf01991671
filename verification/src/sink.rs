//! The sink of a run: one of the five kinds, chosen once.

use std::ops::ControlFlow;
use vstd::prelude::*;
use crate::count_sink::{count_report, tallies_after, CountSink};
use crate::json_sink::{json_report, record_of, JsonSink};
use crate::order::listing;
use crate::output::{
    output_views, ContextLine, Event, JsonMatchView, MatchedLine, Output, OutputView,
};
use crate::sinks::{
    path_lines, standard_break, standard_context, standard_matched, FilesWithMatchesSink,
    FilesWithoutMatchSink, StandardSink,
};

verus! {

/// What a sink knows, as a mathematical value.
pub ghost enum SinkView {
    /// The pattern, and whether lines carry their path.
    Standard { re: regex::Regex, multi_file: bool },
    /// The records collected so far, oldest first.
    Json { records: Seq<JsonMatchView> },
    /// The count of each path that has matched.
    Count { tallies: Map<Seq<char>, u64> },
    /// The paths that have matched.
    FilesWithMatches { matched: Set<Seq<char>> },
    /// The candidate paths, and those among all paths that have matched.
    FilesWithoutMatch { universe: Set<Seq<char>>, matched: Set<Seq<char>> },
}

impl SinkView {
    /// The sink after it has been told `e`.
    pub open spec fn after(self, e: Event) -> SinkView {
        match e {
            Event::Matched(m) => match self {
                SinkView::Standard { .. } => self,
                SinkView::Json { records } => SinkView::Json { records: records.push(record_of(m)) },
                SinkView::Count { tallies } => SinkView::Count {
                    tallies: tallies_after(tallies, m.path),
                },
                SinkView::FilesWithMatches { matched } => SinkView::FilesWithMatches {
                    matched: matched.insert(m.path),
                },
                SinkView::FilesWithoutMatch { universe, matched } => SinkView::FilesWithoutMatch {
                    universe,
                    matched: matched.insert(m.path),
                },
            },
            _ => self,
        }
    }

    /// What the sink shows on being told `e`. Only the standard sink shows
    /// anything before the end of the run.
    pub open spec fn shows(self, e: Event) -> Seq<OutputView> {
        match self {
            SinkView::Standard { re, multi_file } => match e {
                Event::Matched(m) => standard_matched(re, multi_file, m),
                Event::Context(c) => standard_context(multi_file, c),
                Event::GroupBreak => standard_break(),
            },
            _ => Seq::<OutputView>::empty(),
        }
    }

    /// The signal with which the sink answers `e`: `Break` from the sink
    /// that lists matching files, once it is told of a match, and `Continue`
    /// in every other case.
    pub open spec fn signal(self, e: Event) -> ControlFlow<()> {
        match (self, e) {
            (SinkView::FilesWithMatches { .. }, Event::Matched(_)) => ControlFlow::Break(()),
            _ => ControlFlow::Continue(()),
        }
    }

    /// What the sink shows at the end of the run.
    pub open spec fn report(self) -> Seq<OutputView> {
        match self {
            SinkView::Standard { .. } => Seq::<OutputView>::empty(),
            SinkView::Json { records } => json_report(records),
            SinkView::Count { tallies } => count_report(tallies),
            SinkView::FilesWithMatches { matched } => path_lines(listing(matched)),
            SinkView::FilesWithoutMatch { universe, matched } => path_lines(
                listing(universe.difference(matched)),
            ),
        }
    }

    /// The sink after it has been told each of `events` in turn.
    pub open spec fn after_all(self, events: Seq<Event>) -> SinkView
        decreases events.len(),
    {
        if events.len() == 0 {
            self
        } else {
            self.after_all(events.drop_last()).after(events.last())
        }
    }

    /// All that the sink shows while it is told each of `events` in turn.
    pub open spec fn shows_all(self, events: Seq<Event>) -> Seq<OutputView>
        decreases events.len(),
    {
        if events.len() == 0 {
            Seq::<OutputView>::empty()
        } else {
            self.shows_all(events.drop_last()) + self.after_all(events.drop_last()).shows(
                events.last(),
            )
        }
    }
}

/// Telling a sink one more thing adds to what it has been told.
pub proof fn lemma_told_one_more(s: SinkView, events: Seq<Event>, e: Event)
    ensures
        s.after_all(events.push(e)) == s.after_all(events).after(e),
        s.shows_all(events.push(e)) == s.shows_all(events) + s.after_all(events).shows(e),
{
    assert(events.push(e).drop_last() =~= events);
}

/// A sink never changes its kind, so the signal it gives for a thing does
/// not depend on what it was told before.
pub proof fn lemma_signal_steady(s: SinkView, events: Seq<Event>, e: Event)
    ensures
        s.after_all(events).signal(e) == s.signal(e),
    decreases events.len(),
{
    if events.len() > 0 {
        lemma_signal_steady(s, events.drop_last(), e);
    }
}

/// The sink of a run.
pub enum Sink<'a> {
    Standard(StandardSink<'a>),
    Json(JsonSink),
    Count(CountSink),
    FilesWithMatches(FilesWithMatchesSink),
    FilesWithoutMatch(FilesWithoutMatchSink),
}

impl<'a> View for Sink<'a> {
    type V = SinkView;

    open spec fn view(&self) -> SinkView {
        match *self {
            Sink::Standard(s) => SinkView::Standard {
                re: *s.re,
                multi_file: s.formatter.multi_file,
            },
            Sink::Json(s) => SinkView::Json { records: s@ },
            Sink::Count(s) => SinkView::Count { tallies: s.tallies() },
            Sink::FilesWithMatches(s) => SinkView::FilesWithMatches {
                matched: s.matched_files.paths(),
            },
            Sink::FilesWithoutMatch(s) => SinkView::FilesWithoutMatch {
                universe: s.all_files.paths(),
                matched: s.files_with_matches.paths(),
            },
        }
    }
}

impl<'a> Sink<'a> {
    /// The invariant of the sink.
    pub open spec fn wf(&self) -> bool {
        match *self {
            Sink::Standard(_) => true,
            Sink::Json(_) => true,
            Sink::Count(s) => s.wf(),
            Sink::FilesWithMatches(s) => s.wf(),
            Sink::FilesWithoutMatch(s) => s.wf(),
        }
    }

    /// Takes a matched line.
    pub fn matched(&mut self, data: &MatchedLine<'_>, out: &mut Vec<Output>) -> (signal:
        ControlFlow<()>)
        requires
            old(self).wf(),
        ensures
            final(self).wf(),
            final(self)@ == old(self)@.after(Event::Matched(data@)),
            output_views(final(out)@) == output_views(old(out)@) + old(self)@.shows(
                Event::Matched(data@),
            ),
            signal == old(self)@.signal(Event::Matched(data@)),
    {
        let signal = match self {
            Sink::Standard(s) => s.matched(data, out),
            Sink::Json(s) => s.matched(data, out),
            Sink::Count(s) => s.matched(data, out),
            Sink::FilesWithMatches(s) => s.matched(data, out),
            Sink::FilesWithoutMatch(s) => s.matched(data, out),
        };
        signal
    }

    /// Takes a line of context. Only the standard sink has a use for it.
    pub fn context(&mut self, line: &ContextLine, out: &mut Vec<Output>) -> (signal: ControlFlow<
        (),
    >)
        requires
            old(self).wf(),
        ensures
            final(self).wf(),
            final(self)@ == old(self)@.after(Event::Context(line@)),
            output_views(final(out)@) == output_views(old(out)@) + old(self)@.shows(
                Event::Context(line@),
            ),
            signal == old(self)@.signal(Event::Context(line@)),
    {
        let signal = match self {
            Sink::Standard(s) => s.context(line, out),
            _ => ControlFlow::Continue(()),
        };
        signal
    }

    /// Takes note of a gap between two groups of lines. Only the standard
    /// sink has a use for it.
    pub fn context_break(&mut self, out: &mut Vec<Output>) -> (signal: ControlFlow<()>)
        requires
            old(self).wf(),
        ensures
            final(self).wf(),
            final(self)@ == old(self)@.after(Event::GroupBreak),
            output_views(final(out)@) == output_views(old(out)@) + old(self)@.shows(
                Event::GroupBreak,
            ),
            signal == old(self)@.signal(Event::GroupBreak),
    {
        let signal = match self {
            Sink::Standard(s) => s.context_break(out),
            _ => ControlFlow::Continue(()),
        };
        signal
    }

    /// Ends the run: the sink shows what it has gathered. It is itself left
    /// as it was, so that nothing beyond this output comes of the call.
    pub fn finish(&mut self, out: &mut Vec<Output>)
        requires
            old(self).wf(),
        ensures
            final(self).wf(),
            final(self)@ == old(self)@,
            output_views(final(out)@) == output_views(old(out)@) + old(self)@.report(),
    {
        match self {
            Sink::Standard(s) => s.finish(out),
            Sink::Json(s) => s.finish(out),
            Sink::Count(s) => s.finish(out),
            Sink::FilesWithMatches(s) => s.finish(out),
            Sink::FilesWithoutMatch(s) => s.finish(out),
        }
    }
}

} // verus!
