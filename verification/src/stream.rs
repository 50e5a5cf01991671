//! What a whole source comes to: the states a context manager passes through
//! and everything it tells the sink, line by line.

use vstd::prelude::*;
use crate::context::{leading_of, ManagerView};
use crate::matcher::MatchOutcome;
use crate::output::{Event, OutputView};
use crate::sink::SinkView;

verus! {

/// The state of a manager before the first line of its source.
pub open spec fn fresh(before_len: usize, after_len: usize, path: Seq<char>) -> ManagerView {
    ManagerView {
        before_len,
        after_len,
        buffer: Seq::<(usize, Seq<char>)>::empty(),
        countdown: 0,
        last_match: 0,
        path,
    }
}

/// What the sink is told for one line, given how the line was classified.
pub open spec fn line_events(
    m: ManagerView,
    line_num: usize,
    text: Seq<char>,
    outcome: Option<MatchOutcome>,
) -> Seq<Event> {
    match outcome {
        Some(o) => m.match_events(line_num, o),
        None => m.non_match_events(line_num, text),
    }
}

/// The state after one line.
pub open spec fn after_line(
    m: ManagerView,
    line_num: usize,
    text: Seq<char>,
    outcome: Option<MatchOutcome>,
) -> ManagerView {
    match outcome {
        Some(_) => m.after_match(line_num),
        None => m.after_non_match(line_num, text),
    }
}

/// The state after the first `n` lines. Lines are numbered from one.
pub open spec fn manager_at(
    m0: ManagerView,
    lines: Seq<Seq<char>>,
    outcomes: Seq<Option<MatchOutcome>>,
    n: nat,
) -> ManagerView
    decreases n,
{
    if n == 0 {
        m0
    } else {
        after_line(
            manager_at(m0, lines, outcomes, (n - 1) as nat),
            n as usize,
            lines[n - 1],
            outcomes[n - 1],
        )
    }
}

/// Everything the sink is told for the first `n` lines, in order.
pub open spec fn events_to(
    m0: ManagerView,
    lines: Seq<Seq<char>>,
    outcomes: Seq<Option<MatchOutcome>>,
    n: nat,
) -> Seq<Event>
    decreases n,
{
    if n == 0 {
        Seq::<Event>::empty()
    } else {
        events_to(m0, lines, outcomes, (n - 1) as nat) + line_events(
            manager_at(m0, lines, outcomes, (n - 1) as nat),
            n as usize,
            lines[n - 1],
            outcomes[n - 1],
        )
    }
}

/// Everything the sink is told for a whole source.
pub open spec fn stream_events(
    lines: Seq<Seq<char>>,
    outcomes: Seq<Option<MatchOutcome>>,
    before_len: usize,
    after_len: usize,
    path: Seq<char>,
) -> Seq<Event> {
    events_to(fresh(before_len, after_len, path), lines, outcomes, lines.len())
}

/// Telling a sink two runs of things one after the other is telling it
/// their concatenation.
pub proof fn lemma_told_more(s: SinkView, a: Seq<Event>, b: Seq<Event>)
    ensures
        s.after_all(a + b) == s.after_all(a).after_all(b),
        s.shows_all(a + b) == s.shows_all(a) + s.after_all(a).shows_all(b),
    decreases b.len(),
{
    if b.len() > 0 {
        lemma_told_more(s, a, b.drop_last());
        assert((a + b).drop_last() =~= a + b.drop_last());
    }
}

/// Every matched line among `events` is a line of `path`.
pub open spec fn all_on(events: Seq<Event>, path: Seq<char>) -> bool {
    forall|i: int|
        0 <= i < events.len() ==> match #[trigger] events[i] {
            Event::Matched(m) => m.path == path,
            _ => true,
        }
}

/// A manager never changes its path or its window.
pub proof fn lemma_manager_keeps_path(
    m0: ManagerView,
    lines: Seq<Seq<char>>,
    outcomes: Seq<Option<MatchOutcome>>,
    n: nat,
)
    ensures
        manager_at(m0, lines, outcomes, n).path == m0.path,
        manager_at(m0, lines, outcomes, n).before_len == m0.before_len,
        manager_at(m0, lines, outcomes, n).after_len == m0.after_len,
    decreases n,
{
    if n > 0 {
        lemma_manager_keeps_path(m0, lines, outcomes, (n - 1) as nat);
    }
}

/// The matched line that a manager reports is a line of its own path.
pub proof fn lemma_line_events_on_path(
    m: ManagerView,
    line_num: usize,
    text: Seq<char>,
    outcome: Option<MatchOutcome>,
)
    ensures
        all_on(line_events(m, line_num, text, outcome), m.path),
{
    let events = line_events(m, line_num, text, outcome);
    match outcome {
        Some(o) => {
            lemma_leading_is_context(m.buffer, m.last_match, m.path);
            assert forall|i: int| 0 <= i < events.len() implies match #[trigger] events[i] {
                Event::Matched(x) => x.path == m.path,
                _ => true,
            } by {
            }
        },
        None => {},
    }
}

/// Leading context holds lines of context and nothing else.
pub proof fn lemma_leading_is_context(
    buffer: Seq<(usize, Seq<char>)>,
    last_match: usize,
    path: Seq<char>,
)
    ensures
        forall|i: int|
            0 <= i < leading_of(buffer, last_match, path).len() ==> (#[trigger] leading_of(
                buffer,
                last_match,
                path,
            )[i]) is Context,
    decreases buffer.len(),
{
    if buffer.len() > 0 {
        lemma_leading_is_context(buffer.drop_last(), last_match, path);
    }
}

/// A sink that lists matching files and already holds `path` neither
/// changes nor shows anything when told more about `path`.
pub proof fn lemma_settled(matched: Set<Seq<char>>, path: Seq<char>, events: Seq<Event>)
    requires
        matched.contains(path),
        all_on(events, path),
    ensures
        (SinkView::FilesWithMatches { matched }).after_all(events) == (SinkView::FilesWithMatches {
            matched,
        }),
        (SinkView::FilesWithMatches { matched }).shows_all(events) == Seq::<OutputView>::empty(),
    decreases events.len(),
{
    if events.len() > 0 {
        let head = events.drop_last();
        assert forall|i: int| 0 <= i < head.len() implies match #[trigger] head[i] {
            Event::Matched(m) => m.path == path,
            _ => true,
        } by {
        }
        lemma_settled(matched, path, head);
        let e = events.last();
        match e {
            Event::Matched(m) => {
                assert(matched.insert(m.path) =~= matched);
            },
            _ => {},
        }
    }
}

/// Once a sink that lists matching files holds the path of a source, the
/// rest of that source is of no consequence: scanning may stop.
pub proof fn lemma_rest_is_silent(
    s0: SinkView,
    m0: ManagerView,
    lines: Seq<Seq<char>>,
    outcomes: Seq<Option<MatchOutcome>>,
    k: nat,
    n: nat,
)
    requires
        k <= n,
        s0.after_all(events_to(m0, lines, outcomes, k)) is FilesWithMatches,
        s0.after_all(events_to(m0, lines, outcomes, k))->FilesWithMatches_matched.contains(
            m0.path,
        ),
    ensures
        s0.after_all(events_to(m0, lines, outcomes, n)) == s0.after_all(
            events_to(m0, lines, outcomes, k),
        ),
        s0.shows_all(events_to(m0, lines, outcomes, n)) == s0.shows_all(
            events_to(m0, lines, outcomes, k),
        ),
    decreases n - k,
{
    if k < n {
        let prev = (n - 1) as nat;
        lemma_rest_is_silent(s0, m0, lines, outcomes, k, prev);
        let settled = s0.after_all(events_to(m0, lines, outcomes, k));
        let matched = settled->FilesWithMatches_matched;
        let m = manager_at(m0, lines, outcomes, prev);
        let step = line_events(m, n as usize, lines[n - 1], outcomes[n - 1]);
        lemma_manager_keeps_path(m0, lines, outcomes, prev);
        lemma_line_events_on_path(m, n as usize, lines[n - 1], outcomes[n - 1]);
        lemma_told_more(s0, events_to(m0, lines, outcomes, prev), step);
        lemma_settled(matched, m0.path, step);
    }
}

} // verus!
