//! The five sinks: what each keeps of the lines it is given, and what it
//! hands back to be shown.

use std::ops::ControlFlow;
use vstd::prelude::*;
use crate::config::Config;
use crate::formatter::{lemma_plain_text_concat, plain_text, prefix_spans, OutputFormatter};
use crate::highlight::{highlight, highlight_spans, lemma_highlight_text, marked, plain};
use crate::matcher::{MatchOutcome, MatchResult};
use crate::output::{
    emit, output_views, span, span_views, ContextLine, ContextLineView, MatchedLine,
    MatchedLineView, Output, OutputView, Span, SpanView, Style,
};
use crate::order::{lemma_sorted_is_listing, listing};
use crate::pathset::{string_views, PathSet};
use crate::pattern::{find_fragments, regex_fragments, regex_gaps, split_gaps, str_views};

verus! {

/// One output line per matched part, each behind the same prefix.
pub open spec fn fragment_lines(prefix: Seq<SpanView>, frags: Seq<Seq<char>>) -> Seq<OutputView> {
    Seq::new(frags.len(), |i: int| OutputView::Line(prefix.push(marked(frags[i]))))
}

/// What the standard sink shows for a matched line: the line with its
/// matches emphasized, or one line per matched part.
pub open spec fn standard_matched(re: regex::Regex, multi_file: bool, m: MatchedLineView) -> Seq<
    OutputView,
> {
    let prefix = prefix_spans(multi_file, m.path, m.line_number, None);
    match m.outcome {
        MatchOutcome::WholeLine(l) => seq![
            OutputView::Line(prefix + highlight_spans(regex_gaps(re, l), regex_fragments(re, l))),
        ],
        MatchOutcome::Fragments(f) => fragment_lines(prefix, f),
    }
}

/// The text of an output line, with the roles of its pieces dropped.
pub open spec fn shown_text(o: OutputView) -> Seq<char> {
    match o {
        OutputView::Line(spans) => plain_text(spans),
        OutputView::Records(_) => Seq::<char>::empty(),
    }
}

/// What the standard sink shows for a line of context.
pub open spec fn standard_context(multi_file: bool, c: ContextLineView) -> Seq<OutputView> {
    seq![
        OutputView::Line(
            prefix_spans(multi_file, c.path, c.line_number, Some(c.kind)).push(plain(c.content)),
        ),
    ]
}

/// The divider between two groups of lines.
pub open spec fn standard_break() -> Seq<OutputView> {
    seq![OutputView::Line(seq![SpanView { text: seq!['-', '-'], style: Style::Divider }])]
}

/// Shows every line as it comes, and keeps nothing.
pub struct StandardSink<'a> {
    pub re: &'a regex::Regex,
    pub formatter: OutputFormatter,
}

impl<'a> StandardSink<'a> {
    /// A standard sink for a run on `config` with the compiled pattern
    /// `re`. `target_is_dir` says whether the target is a directory.
    pub fn new(config: &Config, re: &'a regex::Regex, target_is_dir: bool) -> (r: StandardSink<'a>)
        ensures
            r.re == re,
            r.formatter.multi_file == (config.path.is_some() && target_is_dir),
    {
        StandardSink { re, formatter: OutputFormatter::new(config, target_is_dir) }
    }

    /// Shows a matched line. Always signals `Continue`. A whole line is
    /// shown as its prefix followed by the line itself, letter for letter;
    /// the emphasis lies in the roles of the pieces alone.
    pub fn matched(&mut self, data: &MatchedLine<'_>, out: &mut Vec<Output>) -> (signal:
        ControlFlow<()>)
        ensures
            signal == ControlFlow::<(), ()>::Continue(()),
            *final(self) == *old(self),
            output_views(final(out)@) == output_views(old(out)@) + standard_matched(
                *old(self).re,
                old(self).formatter.multi_file,
                data@,
            ),
            match data@.outcome {
                MatchOutcome::WholeLine(l) => shown_text(output_views(final(out)@).last())
                    == plain_text(
                    prefix_spans(
                        old(self).formatter.multi_file,
                        data@.path,
                        data@.line_number,
                        None,
                    ),
                ) + l,
                MatchOutcome::Fragments(_) => true,
            },
    {
        let ghost before = output_views(out@);
        let ghost prefix_view = prefix_spans(
            self.formatter.multi_file,
            data.path@,
            data.line_number,
            None,
        );
        match &data.match_result {
            MatchResult::Line(content) => {
                let mut spans = self.formatter.format_prefix(data.path, data.line_number, None);
                let gaps = split_gaps(self.re, content);
                let frags = find_fragments(self.re, content);
                highlight(&gaps, &frags, &mut spans);
                proof {
                    let pieces = highlight_spans(str_views(gaps@), str_views(frags@));
                    lemma_highlight_text(str_views(gaps@), str_views(frags@));
                    lemma_plain_text_concat(prefix_view, pieces);
                }
                emit(out, Output::Line(spans));
            },
            MatchResult::Content(matches) => {
                let ghost f = str_views(matches@);
                let mut i: usize = 0;
                while i < matches.len()
                    invariant
                        i <= matches.len(),
                        f == str_views(matches@),
                        prefix_view == prefix_spans(
                            self.formatter.multi_file,
                            data.path@,
                            data.line_number,
                            None,
                        ),
                        output_views(out@) == before + fragment_lines(prefix_view, f).subrange(
                            0,
                            i as int,
                        ),
                    decreases matches.len() - i,
                {
                    let mut spans = self.formatter.format_prefix(data.path, data.line_number, None);
                    spans.push(span(matches[i], Style::Match));
                    assert(span_views(spans@) =~= prefix_view.push(marked(f[i as int])));
                    emit(out, Output::Line(spans));
                    i = i + 1;
                }
            },
        }
        ControlFlow::Continue(())
    }

    /// Shows a line of context behind a prefix that ends in a dash.
    pub fn context(&mut self, line: &ContextLine, out: &mut Vec<Output>) -> (signal: ControlFlow<
        (),
    >)
        ensures
            signal == ControlFlow::<(), ()>::Continue(()),
            *final(self) == *old(self),
            output_views(final(out)@) == output_views(old(out)@) + standard_context(
                old(self).formatter.multi_file,
                line@,
            ),
    {
        let mut spans = self.formatter.format_prefix(
            line.path.as_str(),
            line.line_number,
            Some(line.kind),
        );
        spans.push(span(line.content.as_str(), Style::Plain));
        assert(span_views(spans@) =~= prefix_spans(
            self.formatter.multi_file,
            line.path@,
            line.line_number,
            Some(line.kind),
        ).push(plain(line.content@)));
        emit(out, Output::Line(spans));
        ControlFlow::Continue(())
    }

    /// Shows the divider between two groups of lines.
    pub fn context_break(&mut self, out: &mut Vec<Output>) -> (signal: ControlFlow<()>)
        ensures
            signal == ControlFlow::<(), ()>::Continue(()),
            *final(self) == *old(self),
            output_views(final(out)@) == output_views(old(out)@) + standard_break(),
    {
        proof {
            reveal_strlit("--");
        }
        let divider = "--";
        assert(divider@ =~= seq!['-', '-']);
        let mut spans: Vec<Span> = Vec::new();
        spans.push(span(divider, Style::Divider));
        assert(span_views(spans@) =~= seq![SpanView { text: seq!['-', '-'], style: Style::Divider }]);
        emit(out, Output::Line(spans));
        ControlFlow::Continue(())
    }

    /// Ends the run. The standard sink has shown everything already.
    pub fn finish(&mut self, out: &mut Vec<Output>)
        ensures
            *final(self) == *old(self),
            output_views(final(out)@) == output_views(old(out)@),
    {
    }
}

/// One output line per path, each holding the path alone.
pub open spec fn path_lines(paths: Seq<Seq<char>>) -> Seq<OutputView> {
    Seq::new(
        paths.len(),
        |i: int| OutputView::Line(seq![SpanView { text: paths[i], style: Style::Path }]),
    )
}

/// Appends one line per path of `paths`, in listing order.
pub fn emit_paths(paths: &PathSet, out: &mut Vec<Output>)
    requires
        paths.wf(),
    ensures
        output_views(final(out)@) == output_views(old(out)@) + path_lines(listing(paths.paths())),
{
    let ghost before = output_views(out@);
    let ghost all = path_lines(paths@);
    let mut i: usize = 0;
    while i < paths.len()
        invariant
            i <= paths@.len(),
            all == path_lines(paths@),
            output_views(out@) == before + all.subrange(0, i as int),
        decreases paths@.len() - i,
    {
        let mut spans: Vec<Span> = Vec::new();
        spans.push(span(paths.get(i), Style::Path));
        assert(span_views(spans@) =~= seq![
            SpanView { text: paths@[i as int], style: Style::Path },
        ]);
        emit(out, Output::Line(spans));
        i = i + 1;
    }
    proof {
        lemma_sorted_is_listing(paths@);
    }
}

/// Keeps the paths in which something matched, and lists them at the end.
#[derive(Debug)]
pub struct FilesWithMatchesSink {
    pub matched_files: PathSet,
}

impl FilesWithMatchesSink {
    /// The invariant of the sink.
    pub open spec fn wf(&self) -> bool {
        self.matched_files.wf()
    }

    /// A sink that has seen no match.
    pub fn new() -> (r: FilesWithMatchesSink)
        ensures
            r.wf(),
            r.matched_files.paths() == Set::<Seq<char>>::empty(),
    {
        FilesWithMatchesSink { matched_files: PathSet::new() }
    }

    /// Records the path of a matched line and signals `Break`: one match
    /// settles the question for that path.
    pub fn matched(&mut self, data: &MatchedLine<'_>, out: &mut Vec<Output>) -> (signal:
        ControlFlow<()>)
        requires
            old(self).wf(),
        ensures
            signal == ControlFlow::<(), ()>::Break(()),
            final(self).wf(),
            final(self).matched_files.paths() == old(self).matched_files.paths().insert(
                data@.path,
            ),
            output_views(final(out)@) == output_views(old(out)@),
    {
        self.matched_files.insert(data.path);
        ControlFlow::Break(())
    }

    /// Lists each recorded path once, in listing order. The sink itself is
    /// left as it was.
    pub fn finish(&mut self, out: &mut Vec<Output>)
        requires
            old(self).wf(),
        ensures
            final(self).wf(),
            final(self).matched_files@ == old(self).matched_files@,
            output_views(final(out)@) == output_views(old(out)@) + path_lines(
                listing(old(self).matched_files.paths()),
            ),
    {
        emit_paths(&self.matched_files, out);
    }
}

/// Keeps the paths in which something matched, and at the end lists the
/// candidate paths in which nothing did.
#[derive(Debug)]
pub struct FilesWithoutMatchSink {
    pub all_files: PathSet,
    pub files_with_matches: PathSet,
}

impl FilesWithoutMatchSink {
    /// The invariant of the sink.
    pub open spec fn wf(&self) -> bool {
        self.all_files.wf() && self.files_with_matches.wf()
    }

    /// A sink over the candidate paths `all_files`, with no match seen.
    pub fn new(all_files: Vec<String>) -> (r: FilesWithoutMatchSink)
        ensures
            r.wf(),
            r.all_files.paths() == string_views(all_files@).to_set(),
            r.files_with_matches.paths() == Set::<Seq<char>>::empty(),
    {
        FilesWithoutMatchSink {
            all_files: PathSet::from_vec(&all_files),
            files_with_matches: PathSet::new(),
        }
    }

    /// Records the path of a matched line.
    pub fn matched(&mut self, data: &MatchedLine<'_>, out: &mut Vec<Output>) -> (signal:
        ControlFlow<()>)
        requires
            old(self).wf(),
        ensures
            signal == ControlFlow::<(), ()>::Continue(()),
            final(self).wf(),
            final(self).all_files@ == old(self).all_files@,
            final(self).files_with_matches.paths() == old(self).files_with_matches.paths().insert(
                data@.path,
            ),
            output_views(final(out)@) == output_views(old(out)@),
    {
        self.files_with_matches.insert(data.path);
        ControlFlow::Continue(())
    }

    /// Lists the candidate paths without a match, in listing order. The
    /// sink itself is left as it was.
    pub fn finish(&mut self, out: &mut Vec<Output>)
        requires
            old(self).wf(),
        ensures
            final(self).wf(),
            final(self).all_files@ == old(self).all_files@,
            final(self).files_with_matches@ == old(self).files_with_matches@,
            output_views(final(out)@) == output_views(old(out)@) + path_lines(
                listing(
                    old(self).all_files.paths().difference(old(self).files_with_matches.paths()),
                ),
            ),
    {
        let rest = self.all_files.difference(&self.files_with_matches);
        emit_paths(&rest, out);
    }
}

} // verus!
