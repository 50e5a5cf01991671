//! The counting sink: how many lines matched in each path.

use std::ops::ControlFlow;
use vstd::prelude::*;
use vstd::string::StringExecFns;
use crate::order::{lemma_path_less_strict, lemma_sorted_is_listing, listing};
use crate::output::{
    emit, output_views, span, span_views, MatchedLine, Output, OutputView, Span, SpanView, Style,
};
use crate::pathset::PathSet;
use crate::text::{decimal, decimal_string};

verus! {

/// A count raised by one. A count that has reached the largest value stays
/// there.
pub open spec fn bump(c: u64) -> u64 {
    if c < u64::MAX {
        (c + 1) as u64
    } else {
        c
    }
}

/// The count of `path` in `tallies`; zero for a path not yet seen.
pub open spec fn tally_of(tallies: Map<Seq<char>, u64>, path: Seq<char>) -> u64 {
    if tallies.contains_key(path) {
        tallies[path]
    } else {
        0
    }
}

/// The tallies after one more matched line in `path`.
pub open spec fn tallies_after(tallies: Map<Seq<char>, u64>, path: Seq<char>) -> Map<
    Seq<char>,
    u64,
> {
    tallies.insert(path, bump(tally_of(tallies, path)))
}

/// The line that reports one path: the path, a colon and the count.
pub open spec fn count_line(path: Seq<char>, count: u64) -> OutputView {
    OutputView::Line(
        seq![
            SpanView { text: path, style: Style::Path },
            SpanView { text: seq![':'], style: Style::Plain },
            SpanView { text: decimal(count as nat), style: Style::Plain },
        ],
    )
}

/// One report line per path, in listing order.
pub open spec fn count_lines(tallies: Map<Seq<char>, u64>) -> Seq<OutputView> {
    let order = listing(tallies.dom());
    Seq::new(order.len(), |i: int| count_line(order[i], tallies[order[i]]))
}

/// The sum of the counts of the first `n` paths of `order`.
pub open spec fn sum_of(tallies: Map<Seq<char>, u64>, order: Seq<Seq<char>>, n: nat) -> nat
    decreases n,
{
    if n == 0 {
        0
    } else {
        sum_of(tallies, order, (n - 1) as nat) + tallies[order[n - 1]] as nat
    }
}

/// The total that is shown: the sum of all counts, or the largest value that
/// a count can take where the sum is beyond it.
pub open spec fn shown_total(tallies: Map<Seq<char>, u64>) -> u64 {
    let order = listing(tallies.dom());
    let sum = sum_of(tallies, order, order.len());
    if sum <= u64::MAX {
        sum as u64
    } else {
        u64::MAX
    }
}

/// The text before the total.
pub open spec fn total_label() -> Seq<char> {
    seq!['T', 'o', 't', 'a', 'l', ':', ' ']
}

/// The line that reports the total.
pub open spec fn total_line(total: u64) -> OutputView {
    OutputView::Line(
        seq![SpanView { text: total_label() + decimal(total as nat), style: Style::Plain }],
    )
}

/// What the counting sink shows at the end: a line per path, and the total
/// where more than one path matched.
pub open spec fn count_report(tallies: Map<Seq<char>, u64>) -> Seq<OutputView> {
    if listing(tallies.dom()).len() > 1 {
        count_lines(tallies).push(total_line(shown_total(tallies)))
    } else {
        count_lines(tallies)
    }
}

/// Counts matched lines per path. `counts[i]` belongs to the path at
/// position `i` of `paths`.
#[derive(Debug)]
pub struct CountSink {
    pub paths: PathSet,
    pub counts: Vec<u64>,
}

impl CountSink {
    /// The invariant of the sink.
    pub open spec fn wf(&self) -> bool {
        self.paths.wf() && self.counts@.len() == self.paths@.len()
    }

    /// The count of each path that has matched.
    pub open spec fn tallies(&self) -> Map<Seq<char>, u64> {
        Map::new(
            |p: Seq<char>| self.paths@.contains(p),
            |p: Seq<char>| self.counts@[self.paths@.index_of(p)],
        )
    }

    /// The path at position `i` has the count at position `i`.
    pub proof fn lemma_tally_at(&self, i: int)
        requires
            self.wf(),
            0 <= i < self.paths@.len(),
        ensures
            self.tallies().contains_key(self.paths@[i]),
            self.tallies()[self.paths@[i]] == self.counts@[i],
            self.tallies().dom() == self.paths.paths(),
    {
        let p = self.paths@[i];
        let j = self.paths@.index_of(p);
        if j < i {
            lemma_path_less_strict(self.paths@[j], self.paths@[i]);
        } else if i < j {
            lemma_path_less_strict(self.paths@[i], self.paths@[j]);
        }
    }

    /// A sink that has seen no match.
    pub fn new() -> (r: CountSink)
        ensures
            r.wf(),
            r.tallies() == Map::<Seq<char>, u64>::empty(),
    {
        let r = CountSink { paths: PathSet::new(), counts: Vec::new() };
        r
    }

    /// Counts one more matched line for the path of `data`, whatever the
    /// line holds. Always signals `Continue`.
    pub fn matched(&mut self, data: &MatchedLine<'_>, out: &mut Vec<Output>) -> (signal:
        ControlFlow<()>)
        requires
            old(self).wf(),
        ensures
            signal == ControlFlow::<(), ()>::Continue(()),
            final(self).wf(),
            final(self).tallies() == tallies_after(old(self).tallies(), data@.path),
            output_views(final(out)@) == output_views(old(out)@),
    {
        let ghost before = *self;
        let ghost path = data.path@;
        let placed = self.paths.insert(data.path);
        let at = placed.0;
        if placed.1 {
            self.counts.insert(at, 1);
        } else {
            let c = self.counts[at];
            let raised = if c < u64::MAX {
                c + 1
            } else {
                c
            };
            self.counts.set(at, raised);
        }
        proof {
            let after = *self;
            let want = tallies_after(before.tallies(), path);
            assert forall|p: Seq<char>| after.tallies().contains_key(p) implies after.tallies()[p]
                == want[p] by {
                let k = choose|k: int| 0 <= k < after.paths@.len() && after.paths@[k] == p;
                after.lemma_tally_at(k);
                if placed.1 {
                    if k < at {
                        before.lemma_tally_at(k);
                    } else if k > at {
                        before.lemma_tally_at(k - 1);
                        lemma_path_less_strict(after.paths@[at as int], p);
                    }
                } else {
                    before.lemma_tally_at(k);
                    if k != at {
                        if k < at {
                            lemma_path_less_strict(after.paths@[k], after.paths@[at as int]);
                        } else {
                            lemma_path_less_strict(after.paths@[at as int], after.paths@[k]);
                        }
                    }
                }
            }
        }
        ControlFlow::Continue(())
    }

    /// Reports each path with its count, in listing order, and the total
    /// where more than one path matched. The sink itself is left as it was.
    pub fn finish(&mut self, out: &mut Vec<Output>)
        requires
            old(self).wf(),
        ensures
            final(self).wf(),
            final(self).tallies() == old(self).tallies(),
            output_views(final(out)@) == output_views(old(out)@) + count_report(
                old(self).tallies(),
            ),
    {
        proof {
            reveal_strlit(":");
            reveal_strlit("Total: ");
        }
        let colon = ":";
        let ghost before = output_views(out@);
        let ghost tallies = self.tallies();
        let ghost order = self.paths@;
        proof {
            lemma_sorted_is_listing(order);
        }
        let ghost lines = count_lines(tallies);
        let mut total: u64 = 0;
        let mut i: usize = 0;
        while i < self.paths.len()
            invariant
                self.wf(),
                i <= self.paths@.len(),
                colon@ == seq![':'],
                tallies == self.tallies(),
                order == self.paths@,
                order == listing(tallies.dom()),
                lines == count_lines(tallies),
                output_views(out@) == before + lines.subrange(0, i as int),
                total as nat == (if sum_of(tallies, order, i as nat) <= u64::MAX {
                    sum_of(tallies, order, i as nat)
                } else {
                    u64::MAX as nat
                }),
            decreases self.paths@.len() - i,
        {
            let count = self.counts[i];
            proof {
                self.lemma_tally_at(i as int);
            }
            let mut spans: Vec<Span> = Vec::new();
            spans.push(span(self.paths.get(i), Style::Path));
            spans.push(span(colon, Style::Plain));
            spans.push(Span { text: decimal_string(count), style: Style::Plain });
            assert(span_views(spans@) =~= seq![
                SpanView { text: order[i as int], style: Style::Path },
                SpanView { text: seq![':'], style: Style::Plain },
                SpanView { text: decimal(count as nat), style: Style::Plain },
            ]);
            emit(out, Output::Line(spans));
            total = if count <= u64::MAX - total {
                total + count
            } else {
                u64::MAX
            };
            i = i + 1;
        }
        if self.paths.len() > 1 {
            let mut text = String::from_str("Total: ");
            let digits = decimal_string(total);
            text.append(digits.as_str());
            assert("Total: "@ =~= total_label());
            let mut spans: Vec<Span> = Vec::new();
            spans.push(Span { text, style: Style::Plain });
            assert(span_views(spans@) =~= seq![
                SpanView { text: total_label() + decimal(total as nat), style: Style::Plain },
            ]);
            emit(out, Output::Line(spans));
        }
    }
}

} // verus!
