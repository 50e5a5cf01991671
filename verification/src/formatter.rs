//! The prefix that stands before each line of standard output.

use vstd::prelude::*;
use crate::config::Config;
use crate::output::{span, span_views, ContextKind, Span, SpanView, Style};
use crate::text::{decimal, decimal_string};

verus! {

/// The separator after the line number: a colon for a matched line, a dash
/// for a line of context.
pub open spec fn separator(kind: Option<ContextKind>) -> Seq<char> {
    match kind {
        Some(_) => seq!['-'],
        None => seq![':'],
    }
}

/// The pieces of a prefix: the path and a colon when several files are
/// searched, then the line number and the separator.
pub open spec fn prefix_spans(
    multi_file: bool,
    path: Seq<char>,
    line_number: usize,
    kind: Option<ContextKind>,
) -> Seq<SpanView> {
    let head = if multi_file {
        seq![
            SpanView { text: path, style: Style::Path },
            SpanView { text: seq![':'], style: Style::Plain },
        ]
    } else {
        Seq::<SpanView>::empty()
    };
    head + seq![
        SpanView { text: decimal(line_number as nat), style: Style::LineNumber },
        SpanView { text: separator(kind), style: Style::Plain },
    ]
}

/// The text of a sequence of pieces, with the roles dropped.
pub open spec fn plain_text(spans: Seq<SpanView>) -> Seq<char>
    decreases spans.len(),
{
    if spans.len() == 0 {
        Seq::<char>::empty()
    } else {
        plain_text(spans.drop_last()) + spans.last().text
    }
}

/// The text of two runs of pieces, one after the other, is the text of the
/// first followed by the text of the second.
pub proof fn lemma_plain_text_concat(a: Seq<SpanView>, b: Seq<SpanView>)
    ensures
        plain_text(a + b) == plain_text(a) + plain_text(b),
    decreases b.len(),
{
    if b.len() > 0 {
        lemma_plain_text_concat(a, b.drop_last());
        assert((a + b).drop_last() =~= a + b.drop_last());
    }
}

/// Renders prefixes. It holds one fact about the run: whether the target is
/// a directory, so that lines of several files are told apart by their path.
#[derive(Debug, Clone, Copy)]
pub struct OutputFormatter {
    pub multi_file: bool,
}

impl OutputFormatter {
    /// A formatter for a run on `config`. `target_is_dir` says whether the
    /// configured path names a directory; without a path the input is a
    /// single stream and no line carries a path.
    pub fn new(config: &Config, target_is_dir: bool) -> (r: OutputFormatter)
        ensures
            r.multi_file == (config.path.is_some() && target_is_dir),
    {
        let multi_file = match &config.path {
            Some(_) => target_is_dir,
            None => false,
        };
        OutputFormatter { multi_file }
    }

    /// The prefix of one line: `path:` when several files are searched, then
    /// the line number, then `:` for a match or `-` for context.
    pub fn format_prefix(
        &self,
        file_path: &str,
        line_number: usize,
        context_kind: Option<ContextKind>,
    ) -> (prefix: Vec<Span>)
        ensures
            span_views(prefix@) == prefix_spans(
                self.multi_file,
                file_path@,
                line_number,
                context_kind,
            ),
    {
        proof {
            reveal_strlit(":");
            reveal_strlit("-");
        }
        let colon = ":";
        assert(colon@ =~= seq![':']);
        let sep = match context_kind {
            Some(_) => "-",
            None => ":",
        };
        assert(sep@ =~= separator(context_kind));
        let mut prefix: Vec<Span> = Vec::new();
        if self.multi_file {
            prefix.push(span(file_path, Style::Path));
            prefix.push(span(colon, Style::Plain));
        }
        let digits = decimal_string(line_number as u64);
        prefix.push(Span { text: digits, style: Style::LineNumber });
        prefix.push(span(sep, Style::Plain));
        prefix
    }
}

/// The text of a prefix is the path and a colon, where shown, followed by
/// the number and the separator.
pub proof fn lemma_prefix_text(
    multi_file: bool,
    path: Seq<char>,
    line_number: usize,
    kind: Option<ContextKind>,
)
    ensures
        plain_text(prefix_spans(multi_file, path, line_number, kind)) == (if multi_file {
            path + seq![':']
        } else {
            Seq::<char>::empty()
        }) + decimal(line_number as nat) + separator(kind),
{
    let whole = prefix_spans(multi_file, path, line_number, kind);
    let none = Seq::<SpanView>::empty();
    assert(plain_text(none) == Seq::<char>::empty());
    let number = decimal(line_number as nat);
    if multi_file {
        let to_number = whole.drop_last();
        let to_colon = to_number.drop_last();
        let to_path = to_colon.drop_last();
        assert(to_path.drop_last() =~= none);
        assert(plain_text(to_path) =~= path);
        assert(plain_text(to_colon) =~= path + seq![':']);
        assert(plain_text(to_number) =~= path + seq![':'] + number);
    } else {
        let to_number = whole.drop_last();
        assert(to_number.drop_last() =~= none);
        assert(plain_text(to_number) =~= number);
    }
}

} // verus!
