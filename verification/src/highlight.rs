//! Emphasis of the matched parts of a line.

use vstd::prelude::*;
use crate::output::{span, span_views, Span, SpanView, Style};
use crate::formatter::plain_text;
use crate::pattern::{str_views, woven};

verus! {

/// A piece of text outside any match.
pub open spec fn plain(text: Seq<char>) -> SpanView {
    SpanView { text, style: Style::Plain }
}

/// A piece of matched text.
pub open spec fn marked(text: Seq<char>) -> SpanView {
    SpanView { text, style: Style::Match }
}

/// The smaller of two lengths.
pub open spec fn shorter(a: nat, b: nat) -> int {
    if a <= b {
        a as int
    } else {
        b as int
    }
}

/// The piece at position `i` when gaps and matches alternate, a gap first.
/// Once the shorter of the two has run out, the rest of the other follows.
pub open spec fn highlight_piece(gaps: Seq<Seq<char>>, frags: Seq<Seq<char>>, i: int) -> SpanView {
    let m = shorter(gaps.len(), frags.len());
    if i < 2 * m {
        if i % 2 == 0 {
            plain(gaps[i / 2])
        } else {
            marked(frags[i / 2])
        }
    } else if gaps.len() > frags.len() {
        plain(gaps[i - m])
    } else {
        marked(frags[i - m])
    }
}

/// A line cut into its gaps and its matches, in reading order. For a line
/// with `n` matches the pattern engine yields `n + 1` gaps, so the pieces
/// run gap, match, gap, ..., match, gap.
pub open spec fn highlight_spans(gaps: Seq<Seq<char>>, frags: Seq<Seq<char>>) -> Seq<SpanView> {
    Seq::new(gaps.len() + frags.len(), |i: int| highlight_piece(gaps, frags, i))
}

/// With one gap before each match and one after the last, the pieces carry
/// the text of the line: the gaps and the matches in turn.
pub proof fn lemma_highlight_text(gaps: Seq<Seq<char>>, frags: Seq<Seq<char>>)
    requires
        gaps.len() == frags.len() + 1,
    ensures
        plain_text(highlight_spans(gaps, frags)) == woven(gaps, frags),
    decreases frags.len(),
{
    let all = highlight_spans(gaps, frags);
    if frags.len() == 0 {
        let none = Seq::<SpanView>::empty();
        assert(all.drop_last() =~= none);
        assert(plain_text(none) =~= Seq::<char>::empty());
    } else {
        let inner = highlight_spans(gaps.drop_last(), frags.drop_last());
        lemma_highlight_text(gaps.drop_last(), frags.drop_last());
        let shorter_by_one = all.drop_last();
        assert(shorter_by_one.drop_last() =~= inner);
        assert(plain_text(shorter_by_one) == plain_text(inner) + frags.last());
    }
}

/// Appends to `spans` the pieces of a line, given its gaps and its matches.
pub fn highlight(gaps: &Vec<&str>, frags: &Vec<&str>, spans: &mut Vec<Span>)
    ensures
        span_views(final(spans)@) == span_views(old(spans)@) + highlight_spans(
            str_views(gaps@),
            str_views(frags@),
        ),
{
    let ghost before = span_views(spans@);
    let ghost g = str_views(gaps@);
    let ghost f = str_views(frags@);
    let ghost all = highlight_spans(g, f);
    let ghost m = shorter(g.len(), f.len());
    let mut i: usize = 0;
    while i < gaps.len() || i < frags.len()
        invariant
            g == str_views(gaps@),
            f == str_views(frags@),
            all == highlight_spans(g, f),
            m == shorter(g.len(), f.len()),
            i <= g.len() || i <= f.len(),
            span_views(spans@) == before + all.subrange(
                0,
                shorter(i as nat, g.len()) + shorter(i as nat, f.len()),
            ),
        decreases (if gaps.len() >= frags.len() {
            gaps.len()
        } else {
            frags.len()
        }) - i,
    {
        let ghost done = shorter(i as nat, g.len()) + shorter(i as nat, f.len());
        let ghost mid = span_views(spans@);
        if i < gaps.len() {
            spans.push(span(gaps[i], Style::Plain));
            proof {
                assert(span_views(spans@) =~= mid.push(plain(g[i as int])));
            }
        }
        let ghost done2 = shorter((i + 1) as nat, g.len()) + shorter(i as nat, f.len());
        let ghost mid2 = span_views(spans@);
        if i < frags.len() {
            spans.push(span(frags[i], Style::Match));
            proof {
                assert(span_views(spans@) =~= mid2.push(marked(f[i as int])));
            }
        }
        i = i + 1;
    }
}

} // verus!
