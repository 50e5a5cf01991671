//! The orchestrator: it drives the lines of each source through the matcher
//! and the context manager into the sink.

use std::ops::ControlFlow;
use vstd::prelude::*;
use crate::config::{Config, OutputMode};
use crate::context::ContextManager;
use crate::count_sink::CountSink;
use crate::files::{has_early_zero, is_binary};
use crate::json_sink::JsonSink;
use crate::matcher::{
    DefaultMatcher, LineMatcher, MatchOutcome, Matcher, OnlyMatchingMatcher,
};
use crate::output::{output_views, Event, JsonMatchView, MatchedLineView, Output};
use crate::pathset::string_views;
use crate::sink::{lemma_signal_steady, Sink, SinkView};
use crate::sinks::{FilesWithMatchesSink, FilesWithoutMatchSink, StandardSink};
use crate::stream::{
    after_line, events_to, fresh, lemma_manager_keeps_path, lemma_rest_is_silent,
    lemma_told_more, line_events, manager_at, stream_events,
};

verus! {

/// How a matcher classifies each of `lines`.
pub open spec fn outcomes_of(matcher: LineMatcher<'_>, lines: Seq<Seq<char>>) -> Seq<
    Option<MatchOutcome>,
> {
    Seq::new(lines.len(), |i: int| matcher.outcome(lines[i]))
}

/// The matcher that a configuration asks for.
pub open spec fn matcher_for<'a>(config: Config, re: &'a regex::Regex) -> LineMatcher<'a> {
    if config.search.only_matching {
        LineMatcher::OnlyMatching(OnlyMatchingMatcher { re })
    } else {
        LineMatcher::Default(DefaultMatcher { re, invert_match: config.search.invert_match })
    }
}

/// The set of the candidate paths, where they are given.
pub open spec fn universe_of(all_files: Option<Vec<String>>) -> Set<Seq<char>> {
    match all_files {
        Some(files) => string_views(files@).to_set(),
        None => Set::<Seq<char>>::empty(),
    }
}

/// The sink that a run starts with: empty, of the kind that the mode asks
/// for.
pub open spec fn sink_for(
    config: Config,
    re: regex::Regex,
    target_is_dir: bool,
    mode: OutputMode,
    universe: Set<Seq<char>>,
) -> SinkView {
    match mode {
        OutputMode::Standard => SinkView::Standard {
            re,
            multi_file: config.path.is_some() && target_is_dir,
        },
        OutputMode::Json => SinkView::Json { records: Seq::<JsonMatchView>::empty() },
        OutputMode::Count => SinkView::Count { tallies: Map::<Seq<char>, u64>::empty() },
        OutputMode::FilesWithMatches => SinkView::FilesWithMatches {
            matched: Set::<Seq<char>>::empty(),
        },
        OutputMode::FilesWithoutMatch => SinkView::FilesWithoutMatch {
            universe,
            matched: Set::<Seq<char>>::empty(),
        },
    }
}

/// A candidate file as the traversal found it, with what could be read of
/// it.
#[derive(Debug)]
pub struct FileEntry {
    /// The path under which its lines are reported.
    pub path: String,
    /// Whether the entry is a regular file.
    pub is_file: bool,
    /// The first bytes of the file; `None` where they could not be read.
    pub head: Option<Vec<u8>>,
    /// The lines of the file; `None` where it could not be opened or read.
    pub lines: Option<Vec<String>>,
}

impl FileEntry {
    /// Whether the entry is searched: it is a regular file, its first bytes
    /// could be read and do not look binary, and its lines could be read.
    pub open spec fn is_searched(&self) -> bool {
        &&& self.is_file
        &&& self.head is Some
        &&& !has_early_zero(self.head->0@)
        &&& self.lines is Some
    }
}

/// Everything the sink is told for the first `n` of `entries`: the events
/// of each searched entry, in the order of the entries. Each entry starts
/// with a context manager of its own.
pub open spec fn tree_events(
    matcher: LineMatcher<'_>,
    entries: Seq<FileEntry>,
    before_len: usize,
    after_len: usize,
    n: nat,
) -> Seq<Event>
    decreases n,
{
    if n == 0 {
        Seq::<Event>::empty()
    } else {
        let entry = entries[n - 1];
        tree_events(matcher, entries, before_len, after_len, (n - 1) as nat) + (
        if entry.is_searched() {
            stream_events(
                string_views(entry.lines->0@),
                outcomes_of(matcher, string_views(entry.lines->0@)),
                before_len,
                after_len,
                entry.path@,
            )
        } else {
            Seq::<Event>::empty()
        })
    }
}

/// Whether an entry is worth opening: it is a regular file whose first
/// bytes could be read and do not look binary.
pub fn is_searchable(is_file: bool, head: &Option<Vec<u8>>) -> (r: bool)
    ensures
        r == (is_file && head is Some && !has_early_zero(head->0@)),
{
    is_file && match head {
        Some(bytes) => !is_binary(bytes.as_slice()),
        None => false,
    }
}

/// The path under which the lines of the standard input stream go.
pub fn stdin_path() -> (r: &'static str)
    ensures
        r@ == "stdin"@,
{
    "stdin"
}

/// Builds the matcher and the sink of a run from its configuration.
pub struct SearcherBuilder<'a> {
    pub config: &'a Config,
    pub re: &'a regex::Regex,
    pub target_is_dir: bool,
}

impl<'a> SearcherBuilder<'a> {
    /// A builder for a run on `config` with the compiled pattern `re`.
    /// `target_is_dir` says whether the target is a directory.
    pub fn new(config: &'a Config, re: &'a regex::Regex, target_is_dir: bool) -> (r:
        SearcherBuilder<'a>)
        ensures
            r.config == config,
            r.re == re,
            r.target_is_dir == target_is_dir,
    {
        SearcherBuilder { config, re, target_is_dir }
    }

    /// The matcher: the only-matching one where the configuration asks for
    /// it, else the default one with the configured sense.
    pub fn build_matcher(&self) -> (r: LineMatcher<'a>)
        ensures
            r == matcher_for(*self.config, self.re),
    {
        if self.config.search.only_matching {
            LineMatcher::OnlyMatching(OnlyMatchingMatcher { re: self.re })
        } else {
            LineMatcher::Default(
                DefaultMatcher { re: self.re, invert_match: self.config.search.invert_match },
            )
        }
    }

    /// The sink of the given mode. The mode that lists files without a
    /// match needs the candidate paths.
    pub fn build_sink(&self, mode: OutputMode, all_files: Option<Vec<String>>) -> (r: Sink<'a>)
        requires
            mode == OutputMode::FilesWithoutMatch ==> all_files.is_some(),
        ensures
            r.wf(),
            r@ == sink_for(
                *self.config,
                *self.re,
                self.target_is_dir,
                mode,
                universe_of(all_files),
            ),
    {
        match mode {
            OutputMode::Standard => Sink::Standard(
                StandardSink::new(self.config, self.re, self.target_is_dir),
            ),
            OutputMode::Json => Sink::Json(JsonSink::new()),
            OutputMode::Count => Sink::Count(CountSink::new()),
            OutputMode::FilesWithMatches => Sink::FilesWithMatches(FilesWithMatchesSink::new()),
            OutputMode::FilesWithoutMatch => {
                let files = all_files.unwrap();
                Sink::FilesWithoutMatch(FilesWithoutMatchSink::new(files))
            },
        }
    }

    /// The searcher of a run.
    pub fn build(self, mode: OutputMode, all_files: Option<Vec<String>>) -> (r: Searcher<'a>)
        requires
            mode == OutputMode::FilesWithoutMatch ==> all_files.is_some(),
        ensures
            r.sink.wf(),
            r.matcher == matcher_for(*self.config, self.re),
            r.sink@ == sink_for(
                *self.config,
                *self.re,
                self.target_is_dir,
                mode,
                universe_of(all_files),
            ),
    {
        Searcher { matcher: self.build_matcher(), sink: self.build_sink(mode, all_files) }
    }
}

/// The matcher and the sink of a run.
pub struct Searcher<'a> {
    pub matcher: LineMatcher<'a>,
    pub sink: Sink<'a>,
}

impl<'a> Searcher<'a> {
    /// Everything the sink is told for the source at `path` with the given
    /// lines.
    pub open spec fn told_for(
        &self,
        lines: Seq<Seq<char>>,
        path: Seq<char>,
        before_len: usize,
        after_len: usize,
    ) -> Seq<Event> {
        stream_events(lines, outcomes_of(self.matcher, lines), before_len, after_len, path)
    }

    /// Takes one line of a source: classifies it and hands it to the context
    /// manager of that source. Returns the sink's answer where the line
    /// matched, and `Continue` where it did not. After `Break` the rest of
    /// the source need not be looked at.
    pub fn search_line(
        &mut self,
        manager: &mut ContextManager,
        line_num: usize,
        line: String,
        out: &mut Vec<Output>,
    ) -> (signal: ControlFlow<()>)
        requires
            old(self).sink.wf(),
            old(manager).wf(),
        ensures
            final(self).sink.wf(),
            final(manager).wf(),
            final(self).matcher == old(self).matcher,
            final(manager)@ == after_line(
                old(manager)@,
                line_num,
                line@,
                old(self).matcher.outcome(line@),
            ),
            final(self).sink@ == old(self).sink@.after_all(
                line_events(old(manager)@, line_num, line@, old(self).matcher.outcome(line@)),
            ),
            output_views(final(out)@) == output_views(old(out)@) + old(self).sink@.shows_all(
                line_events(old(manager)@, line_num, line@, old(self).matcher.outcome(line@)),
            ),
            signal == match old(self).matcher.outcome(line@) {
                Some(outcome) => old(self).sink@.signal(
                    Event::Matched(
                        MatchedLineView { path: old(manager)@.path, line_number: line_num, outcome },
                    ),
                ),
                None => ControlFlow::Continue(()),
            },
    {
        let found = self.matcher.find(line.as_str());
        match found {
            Some(result) => manager.handle_match(&mut self.sink, line_num, result, out),
            None => {
                manager.handle_non_match(&mut self.sink, line_num, line, out);
                ControlFlow::Continue(())
            },
        }
    }

    /// Searches one source, given as its lines in order. The sink ends up as
    /// if it had been told of every line; where it answers a match with
    /// `Break`, the lines after that match are not looked at, since they
    /// could change nothing.
    pub fn search_stream(
        &mut self,
        lines: &Vec<String>,
        path: &str,
        before_len: usize,
        after_len: usize,
        out: &mut Vec<Output>,
    )
        requires
            old(self).sink.wf(),
        ensures
            final(self).sink.wf(),
            final(self).matcher == old(self).matcher,
            final(self).sink@ == old(self).sink@.after_all(
                old(self).told_for(string_views(lines@), path@, before_len, after_len),
            ),
            output_views(final(out)@) == output_views(old(out)@) + old(self).sink@.shows_all(
                old(self).told_for(string_views(lines@), path@, before_len, after_len),
            ),
    {
        let ghost s0 = self.sink@;
        let ghost out0 = output_views(out@);
        let ghost m0 = fresh(before_len, after_len, path@);
        let ghost texts = string_views(lines@);
        let ghost outcomes = outcomes_of(self.matcher, texts);
        let mut manager = ContextManager::new(before_len, after_len, path);
        let mut i: usize = 0;
        while i < lines.len()
            invariant
                i <= lines.len(),
                s0 == old(self).sink@,
                out0 == output_views(old(out)@),
                texts == string_views(lines@),
                outcomes == outcomes_of(self.matcher, texts),
                self.matcher == old(self).matcher,
                m0 == fresh(before_len, after_len, path@),
                manager.wf(),
                self.sink.wf(),
                manager@ == manager_at(m0, texts, outcomes, i as nat),
                self.sink@ == s0.after_all(events_to(m0, texts, outcomes, i as nat)),
                output_views(out@) == out0 + s0.shows_all(
                    events_to(m0, texts, outcomes, i as nat),
                ),
            decreases lines.len() - i,
        {
            let line_num = i + 1;
            let ghost told = events_to(m0, texts, outcomes, i as nat);
            let ghost step = line_events(manager@, line_num, texts[i as int], outcomes[i as int]);
            proof {
                lemma_told_more(s0, told, step);
                lemma_manager_keeps_path(m0, texts, outcomes, i as nat);
            }
            let signal = self.search_line(&mut manager, line_num, lines[i].clone(), out);
            if let ControlFlow::Break(_) = signal {
                proof {
                    let outcome = outcomes[i as int]->0;
                    let e = Event::Matched(
                        MatchedLineView { path: path@, line_number: line_num, outcome },
                    );
                    let lead = manager_at(m0, texts, outcomes, i as nat).lead_events(line_num);
                    assert(step.drop_last() =~= lead);
                    lemma_signal_steady(s0.after_all(told), lead, e);
                    lemma_told_more(s0.after_all(told), lead, seq![e]);
                    lemma_rest_is_silent(s0, m0, texts, outcomes, (i + 1) as nat, texts.len());
                }
                return ;
            }
            i = i + 1;
        }
    }

    /// Searches the standard input stream, given as its lines. Its lines
    /// go under the path `stdin`.
    pub fn search_reader(
        &mut self,
        lines: &Vec<String>,
        before_len: usize,
        after_len: usize,
        out: &mut Vec<Output>,
    )
        requires
            old(self).sink.wf(),
        ensures
            final(self).sink.wf(),
            final(self).matcher == old(self).matcher,
            final(self).sink@ == old(self).sink@.after_all(
                old(self).told_for(string_views(lines@), "stdin"@, before_len, after_len),
            ),
            output_views(final(out)@) == output_views(old(out)@) + old(self).sink@.shows_all(
                old(self).told_for(string_views(lines@), "stdin"@, before_len, after_len),
            ),
    {
        self.search_stream(lines, stdin_path(), before_len, after_len, out)
    }

    /// Searches the candidate files of a target in the order given. Entries
    /// that are no regular files, that look binary or that could not be read
    /// are passed over.
    pub fn search_path(
        &mut self,
        entries: &Vec<FileEntry>,
        before_len: usize,
        after_len: usize,
        out: &mut Vec<Output>,
    )
        requires
            old(self).sink.wf(),
        ensures
            final(self).sink.wf(),
            final(self).matcher == old(self).matcher,
            final(self).sink@ == old(self).sink@.after_all(
                tree_events(old(self).matcher, entries@, before_len, after_len, entries@.len()),
            ),
            output_views(final(out)@) == output_views(old(out)@) + old(self).sink@.shows_all(
                tree_events(old(self).matcher, entries@, before_len, after_len, entries@.len()),
            ),
    {
        let ghost s0 = self.sink@;
        let ghost out0 = output_views(out@);
        let ghost matcher = self.matcher;
        let mut i: usize = 0;
        while i < entries.len()
            invariant
                i <= entries.len(),
                s0 == old(self).sink@,
                out0 == output_views(old(out)@),
                matcher == old(self).matcher,
                self.matcher == matcher,
                self.sink.wf(),
                self.sink@ == s0.after_all(
                    tree_events(matcher, entries@, before_len, after_len, i as nat),
                ),
                output_views(out@) == out0 + s0.shows_all(
                    tree_events(matcher, entries@, before_len, after_len, i as nat),
                ),
            decreases entries.len() - i,
        {
            let entry = &entries[i];
            let ghost told = tree_events(matcher, entries@, before_len, after_len, i as nat);
            if is_searchable(entry.is_file, &entry.head) {
                if let Some(lines) = &entry.lines {
                    let ghost step = self.told_for(
                        string_views(lines@),
                        entry.path@,
                        before_len,
                        after_len,
                    );
                    self.search_stream(lines, entry.path.as_str(), before_len, after_len, out);
                    proof {
                        lemma_told_more(s0, told, step);
                    }
                }
            }
            i = i + 1;
        }
    }
}

} // verus!
