//! What holds of a source as a whole: where a context manager stands after
//! any number of lines, which lines lead a match, and where groups break.

use vstd::prelude::*;
use crate::context::{context_event, leading_of, ManagerView};
use crate::matcher::MatchOutcome;
use crate::output::{ContextKind, Event};
use crate::stream::{events_to, fresh, lemma_leading_is_context, line_events, manager_at};

verus! {

/// The number of the last matched line among the first `n`; zero where none
/// of them matched.
pub open spec fn last_match(outcomes: Seq<Option<MatchOutcome>>, n: nat) -> nat
    decreases n,
{
    if n == 0 {
        0
    } else if outcomes[n - 1] is Some {
        n
    } else {
        last_match(outcomes, (n - 1) as nat)
    }
}

/// The number of the last line among the first `n` that was shown as a match
/// or as trailing context: the last match, or the end of its trailing
/// window, or line `n` where the window reaches beyond it.
pub open spec fn last_shown(outcomes: Seq<Option<MatchOutcome>>, after_len: usize, n: nat) -> nat {
    let m = last_match(outcomes, n);
    if m == 0 {
        0
    } else if m + after_len <= n {
        (m + after_len) as nat
    } else {
        n
    }
}

/// The number of the line just before the buffered ones, after `n` lines:
/// the buffer holds the lines after the last match, the newest `before_len`
/// of them at most.
pub open spec fn window_start(outcomes: Seq<Option<MatchOutcome>>, before_len: usize, n: nat)
    -> nat {
    let m = last_match(outcomes, n);
    if n - before_len > m {
        (n - before_len) as nat
    } else {
        m
    }
}

/// The lines after line `from` up to line `to`, each with its number.
pub open spec fn numbered(lines: Seq<Seq<char>>, from: nat, to: nat) -> Seq<(usize, Seq<char>)> {
    Seq::new((to - from) as nat, |j: int| ((from + 1 + j) as usize, lines[from + j]))
}

/// The lines after line `from` up to line `to`, as leading context.
pub open spec fn before_lines(lines: Seq<Seq<char>>, path: Seq<char>, from: nat, to: nat) -> Seq<
    Event,
> {
    Seq::new(
        (to - from) as nat,
        |j: int| context_event(path, (from + 1 + j) as usize, lines[from + j], ContextKind::Before),
    )
}

/// The last match is one of the first `n` lines, and no line after it has
/// matched.
pub proof fn lemma_last_match(outcomes: Seq<Option<MatchOutcome>>, n: nat)
    requires
        n <= outcomes.len(),
    ensures
        last_match(outcomes, n) <= n,
        last_match(outcomes, n) > 0 ==> outcomes[last_match(outcomes, n) - 1] is Some,
        forall|k: int| last_match(outcomes, n) < k <= n ==> (#[trigger] outcomes[k - 1]) is None,
    decreases n,
{
    if n > 0 && !(outcomes[n - 1] is Some) {
        lemma_last_match(outcomes, (n - 1) as nat);
        let m = last_match(outcomes, n);
        assert forall|k: int| m < k <= n implies (#[trigger] outcomes[k - 1]) is None by {
        }
    }
}

/// Where a manager stands after the first `n` lines of a source.
pub proof fn lemma_manager_after(
    lines: Seq<Seq<char>>,
    outcomes: Seq<Option<MatchOutcome>>,
    before_len: usize,
    after_len: usize,
    path: Seq<char>,
    n: nat,
)
    requires
        lines.len() == outcomes.len(),
        lines.len() <= usize::MAX,
        n <= lines.len(),
    ensures
        manager_at(fresh(before_len, after_len, path), lines, outcomes, n) == (ManagerView {
            before_len,
            after_len,
            buffer: numbered(lines, window_start(outcomes, before_len, n), n),
            countdown: (if last_match(outcomes, n) == 0 {
                0
            } else {
                last_match(outcomes, n) + after_len - last_shown(outcomes, after_len, n)
            }) as usize,
            last_match: last_shown(outcomes, after_len, n) as usize,
            path,
        }),
        last_match(outcomes, n) <= last_shown(outcomes, after_len, n) <= n,
        last_match(outcomes, n) <= window_start(outcomes, before_len, n) <= n,
        n - window_start(outcomes, before_len, n) <= before_len,
    decreases n,
{
    let m0 = fresh(before_len, after_len, path);
    lemma_last_match(outcomes, n);
    if n == 0 {
        assert(numbered(lines, 0, 0) =~= Seq::<(usize, Seq<char>)>::empty());
    } else {
        let p = (n - 1) as nat;
        lemma_manager_after(lines, outcomes, before_len, after_len, path, p);
        lemma_last_match(outcomes, p);
        let here = manager_at(m0, lines, outcomes, n);
        let ws_p = window_start(outcomes, before_len, p);
        let ws_n = window_start(outcomes, before_len, n);
        if outcomes[n - 1] is Some {
            assert(numbered(lines, n, n) =~= Seq::<(usize, Seq<char>)>::empty());
        } else {
            let old_buffer = numbered(lines, ws_p, p);
            if before_len == 0 {
                assert(here.buffer =~= numbered(lines, ws_n, n));
            } else if old_buffer.len() == before_len {
                assert(here.buffer =~= numbered(lines, ws_n, n));
            } else {
                assert(here.buffer =~= numbered(lines, ws_n, n));
            }
        }
    }
}

/// The larger of two numbers.
pub open spec fn larger(a: nat, b: nat) -> nat {
    if a >= b {
        a
    } else {
        b
    }
}

/// Of numbered lines, those that come after line `shown` are leading
/// context, in their order.
pub proof fn lemma_leading_of_numbered(
    lines: Seq<Seq<char>>,
    path: Seq<char>,
    from: nat,
    to: nat,
    shown: nat,
)
    requires
        from <= to <= lines.len(),
        lines.len() <= usize::MAX,
        shown <= usize::MAX,
    ensures
        leading_of(numbered(lines, from, to), shown as usize, path) == before_lines(
            lines,
            path,
            if larger(from, shown) <= to {
                larger(from, shown)
            } else {
                to
            },
            to,
        ),
    decreases to - from,
{
    if from < to {
        let p = (to - 1) as nat;
        lemma_leading_of_numbered(lines, path, from, p, shown);
        assert(numbered(lines, from, to).drop_last() =~= numbered(lines, from, p));
    }
}

/// While no further line matches, the last match stays what it is.
pub proof fn lemma_last_match_stays(outcomes: Seq<Option<MatchOutcome>>, j: nat, n: nat)
    requires
        n <= outcomes.len(),
        last_match(outcomes, n) <= j <= n,
    ensures
        last_match(outcomes, j) == last_match(outcomes, n),
    decreases n - j,
{
    if j < n {
        lemma_last_match(outcomes, n);
        lemma_last_match_stays(outcomes, j, (n - 1) as nat);
    }
}

/// Whether line `k` of a source was shown as trailing context: it did not
/// match, and when it came, trailing lines were still owed.
pub open spec fn shown_as_trailing(
    lines: Seq<Seq<char>>,
    outcomes: Seq<Option<MatchOutcome>>,
    before_len: usize,
    after_len: usize,
    path: Seq<char>,
    k: nat,
) -> bool {
    &&& outcomes[k - 1] is None
    &&& manager_at(
        fresh(before_len, after_len, path),
        lines,
        outcomes,
        (k - 1) as nat,
    ).countdown > 0
}

/// The number of the line just before the first line that leads a match at
/// line `n`.
pub open spec fn leading_start(
    outcomes: Seq<Option<MatchOutcome>>,
    before_len: usize,
    after_len: usize,
    n: nat,
) -> nat {
    larger(
        window_start(outcomes, before_len, (n - 1) as nat),
        last_shown(outcomes, after_len, (n - 1) as nat),
    )
}

/// The lines that lead a match at line `n`: the lines of the window from
/// `n - before_len` to `n - 1` that exist, come after the match before it,
/// and were not shown as trailing context; in ascending order.
pub proof fn lemma_leading_lines(
    lines: Seq<Seq<char>>,
    outcomes: Seq<Option<MatchOutcome>>,
    before_len: usize,
    after_len: usize,
    path: Seq<char>,
    n: nat,
)
    requires
        lines.len() == outcomes.len(),
        lines.len() <= usize::MAX,
        1 <= n <= lines.len(),
    ensures
        ({
            let m = manager_at(
                fresh(before_len, after_len, path),
                lines,
                outcomes,
                (n - 1) as nat,
            );
            let start = leading_start(outcomes, before_len, after_len, n);
            &&& start <= n - 1
            &&& leading_of(m.buffer, m.last_match, m.path) == before_lines(
                lines,
                path,
                start,
                (n - 1) as nat,
            )
            &&& forall|k: nat|
                1 <= k ==> ((start < k <= n - 1) <==> (n - before_len <= k <= n - 1 && k
                    > last_match(outcomes, (n - 1) as nat) && !#[trigger] shown_as_trailing(
                    lines,
                    outcomes,
                    before_len,
                    after_len,
                    path,
                    k,
                )))
        }),
{
    let p = (n - 1) as nat;
    let start = leading_start(outcomes, before_len, after_len, n);
    let found = last_match(outcomes, p);
    let shown = last_shown(outcomes, after_len, p);
    let ws = window_start(outcomes, before_len, p);
    lemma_manager_after(lines, outcomes, before_len, after_len, path, p);
    lemma_last_match(outcomes, p);
    lemma_leading_of_numbered(lines, path, ws, p, shown);
    assert forall|k: nat| 1 <= k implies ((start < k <= n - 1) <==> (n - before_len <= k <= n - 1
        && k > found && !#[trigger] shown_as_trailing(
        lines,
        outcomes,
        before_len,
        after_len,
        path,
        k,
    ))) by {
        if found < k <= p {
            let q = (k - 1) as nat;
            lemma_last_match_stays(outcomes, q, p);
            lemma_manager_after(lines, outcomes, before_len, after_len, path, q);
        }
    }
}

/// For a match at line `n` with no earlier match in its leading window, the
/// lines that lead it are the lines from `n - before_len` to `n - 1` that
/// exist and were not shown as trailing context; in ascending order.
pub proof fn lemma_leading_context(
    lines: Seq<Seq<char>>,
    outcomes: Seq<Option<MatchOutcome>>,
    before_len: usize,
    after_len: usize,
    path: Seq<char>,
    n: nat,
)
    requires
        lines.len() == outcomes.len(),
        lines.len() <= usize::MAX,
        1 <= n <= lines.len(),
        outcomes[n - 1] is Some,
        forall|k: int| 1 <= k < n && n - before_len <= k ==> (#[trigger] outcomes[k - 1]) is None,
    ensures
        ({
            let m = manager_at(
                fresh(before_len, after_len, path),
                lines,
                outcomes,
                (n - 1) as nat,
            );
            let start = leading_start(outcomes, before_len, after_len, n);
            &&& start <= n - 1
            &&& leading_of(m.buffer, m.last_match, m.path) == before_lines(
                lines,
                path,
                start,
                (n - 1) as nat,
            )
            &&& forall|k: nat|
                1 <= k ==> ((start < k <= n - 1) <==> (n - before_len <= k <= n - 1
                    && !#[trigger] shown_as_trailing(
                    lines,
                    outcomes,
                    before_len,
                    after_len,
                    path,
                    k,
                )))
        }),
{
    let p = (n - 1) as nat;
    let found = last_match(outcomes, p);
    lemma_leading_lines(lines, outcomes, before_len, after_len, path, n);
    lemma_last_match(outcomes, p);
    assert(found > 0 ==> found < n - before_len);
    assert forall|k: nat| 1 <= k implies ((leading_start(outcomes, before_len, after_len, n) < k
        <= n - 1) <==> (n - before_len <= k <= n - 1 && !#[trigger] shown_as_trailing(
        lines,
        outcomes,
        before_len,
        after_len,
        path,
        k,
    ))) by {
    }
}

/// The number of group breaks among `events`.
pub open spec fn count_breaks(events: Seq<Event>) -> nat
    decreases events.len(),
{
    if events.len() == 0 {
        0
    } else {
        count_breaks(events.drop_last()) + (if events.last() is GroupBreak {
            1nat
        } else {
            0nat
        })
    }
}

/// Everything the sink is told for the lines after line `a` up to line `b`.
pub open spec fn events_between(
    m0: ManagerView,
    lines: Seq<Seq<char>>,
    outcomes: Seq<Option<MatchOutcome>>,
    a: nat,
    b: nat,
) -> Seq<Event>
    decreases b,
{
    if b <= a {
        Seq::<Event>::empty()
    } else {
        events_between(m0, lines, outcomes, a, (b - 1) as nat) + line_events(
            manager_at(m0, lines, outcomes, (b - 1) as nat),
            b as usize,
            lines[b - 1],
            outcomes[b - 1],
        )
    }
}

/// The breaks of two runs of events add up.
pub proof fn lemma_count_breaks_concat(a: Seq<Event>, b: Seq<Event>)
    ensures
        count_breaks(a + b) == count_breaks(a) + count_breaks(b),
    decreases b.len(),
{
    if b.len() > 0 {
        lemma_count_breaks_concat(a, b.drop_last());
        assert((a + b).drop_last() =~= a + b.drop_last());
    }
}

/// Events that are all lines of context hold no break.
pub proof fn lemma_context_has_no_break(events: Seq<Event>)
    requires
        forall|i: int| 0 <= i < events.len() ==> (#[trigger] events[i]) is Context,
    ensures
        count_breaks(events) == 0,
    decreases events.len(),
{
    if events.len() > 0 {
        let head = events.drop_last();
        assert forall|i: int| 0 <= i < head.len() implies (#[trigger] head[i]) is Context by {
        }
        lemma_context_has_no_break(head);
    }
}

/// A matched line brings one break where it opens a new group, and none
/// where it does not.
pub proof fn lemma_breaks_of_match(m: ManagerView, line_num: usize, outcome: MatchOutcome)
    ensures
        count_breaks(m.match_events(line_num, outcome)) == (if m.breaks_before(line_num) {
            1nat
        } else {
            0nat
        }),
{
    let head = if m.breaks_before(line_num) {
        seq![Event::GroupBreak]
    } else {
        Seq::<Event>::empty()
    };
    let lead = leading_of(m.buffer, m.last_match, m.path);
    lemma_leading_is_context(m.buffer, m.last_match, m.path);
    lemma_context_has_no_break(lead);
    lemma_count_breaks_concat(head, lead);
    if m.breaks_before(line_num) {
        assert(head.drop_last() =~= Seq::<Event>::empty());
        assert(count_breaks(Seq::<Event>::empty()) == 0);
    }
    let all = m.match_events(line_num, outcome);
    assert(all.drop_last() =~= head + lead);
}

/// Unmatched lines bring no break.
pub proof fn lemma_no_break_without_match(
    m0: ManagerView,
    lines: Seq<Seq<char>>,
    outcomes: Seq<Option<MatchOutcome>>,
    a: nat,
    b: nat,
)
    requires
        lines.len() == outcomes.len(),
        a <= b <= lines.len(),
        forall|k: int| a < k <= b ==> (#[trigger] outcomes[k - 1]) is None,
    ensures
        count_breaks(events_between(m0, lines, outcomes, a, b)) == 0,
    decreases b,
{
    if a < b {
        let p = (b - 1) as nat;
        lemma_no_break_without_match(m0, lines, outcomes, a, p);
        let step = line_events(
            manager_at(m0, lines, outcomes, p),
            b as usize,
            lines[b - 1],
            outcomes[b - 1],
        );
        lemma_context_has_no_break(step);
        lemma_count_breaks_concat(events_between(m0, lines, outcomes, a, p), step);
    }
}

/// Between two matches at lines `n1 < n2` with no match in between, the sink
/// is told of one group break where context is asked for and the trailing
/// window of the last line shown after `n1` has lapsed before `n2`, and of
/// none otherwise. The last line shown is the end of the trailing context of
/// `n1`, so the break comes exactly where `n2 > n1 + 2 * after_len + 1`.
pub proof fn lemma_breaks_between_matches(
    lines: Seq<Seq<char>>,
    outcomes: Seq<Option<MatchOutcome>>,
    before_len: usize,
    after_len: usize,
    path: Seq<char>,
    n1: nat,
    n2: nat,
)
    requires
        lines.len() == outcomes.len(),
        lines.len() <= usize::MAX,
        1 <= n1 < n2 <= lines.len(),
        outcomes[n1 - 1] is Some,
        outcomes[n2 - 1] is Some,
        forall|k: int| n1 < k < n2 ==> (#[trigger] outcomes[k - 1]) is None,
    ensures
        count_breaks(
            events_between(fresh(before_len, after_len, path), lines, outcomes, n1, n2),
        ) == (if (before_len > 0 || after_len > 0) && n2 > n1 + 2 * after_len + 1 {
            1nat
        } else {
            0nat
        }),
{
    let m0 = fresh(before_len, after_len, path);
    let p = (n2 - 1) as nat;
    lemma_no_break_without_match(m0, lines, outcomes, n1, p);
    lemma_manager_after(lines, outcomes, before_len, after_len, path, p);
    lemma_last_match_stays_until(outcomes, n1, p);
    let m = manager_at(m0, lines, outcomes, p);
    let outcome = outcomes[n2 - 1]->0;
    lemma_breaks_of_match(m, n2 as usize, outcome);
    lemma_count_breaks_concat(
        events_between(m0, lines, outcomes, n1, p),
        m.match_events(n2 as usize, outcome),
    );
}

/// A match at line `n` is still the last match as long as only unmatched
/// lines follow.
pub proof fn lemma_last_match_stays_until(outcomes: Seq<Option<MatchOutcome>>, n: nat, j: nat)
    requires
        1 <= n <= j <= outcomes.len(),
        outcomes[n - 1] is Some,
        forall|k: int| n < k <= j ==> (#[trigger] outcomes[k - 1]) is None,
    ensures
        last_match(outcomes, j) == n,
    decreases j - n,
{
    if n < j {
        lemma_last_match_stays_until(outcomes, n, (j - 1) as nat);
    }
}

/// Two matches at lines `n1 < n2` with no match in between bring one group
/// break between them where `n2 > n1 + after_len + 1`, and none otherwise.
/// This holds where context is asked for and `n2` does not fall into the
/// stretch after the trailing context of `n1` that is no longer than that
/// context itself.
pub proof fn lemma_group_break(
    lines: Seq<Seq<char>>,
    outcomes: Seq<Option<MatchOutcome>>,
    before_len: usize,
    after_len: usize,
    path: Seq<char>,
    n1: nat,
    n2: nat,
)
    requires
        lines.len() == outcomes.len(),
        lines.len() <= usize::MAX,
        1 <= n1 < n2 <= lines.len(),
        outcomes[n1 - 1] is Some,
        outcomes[n2 - 1] is Some,
        forall|k: int| n1 < k < n2 ==> (#[trigger] outcomes[k - 1]) is None,
        before_len > 0 || after_len > 0,
        n2 <= n1 + after_len + 1 || n2 > n1 + 2 * after_len + 1,
    ensures
        count_breaks(
            events_between(fresh(before_len, after_len, path), lines, outcomes, n1, n2),
        ) == (if n2 > n1 + after_len + 1 {
            1nat
        } else {
            0nat
        }),
{
    lemma_breaks_between_matches(lines, outcomes, before_len, after_len, path, n1, n2);
}

/// The events of the first `b` lines are those of the first `a` lines
/// followed by those of the lines after `a` up to `b`.
pub proof fn lemma_events_split(
    m0: ManagerView,
    lines: Seq<Seq<char>>,
    outcomes: Seq<Option<MatchOutcome>>,
    a: nat,
    b: nat,
)
    requires
        a <= b,
    ensures
        events_to(m0, lines, outcomes, b) == events_to(m0, lines, outcomes, a) + events_between(
            m0,
            lines,
            outcomes,
            a,
            b,
        ),
    decreases b,
{
    if a < b {
        lemma_events_split(m0, lines, outcomes, a, (b - 1) as nat);
    }
}

/// No group break comes before the first match of a source: the events up
/// to and including the first matched line hold none.
pub proof fn lemma_no_break_before_first_match(
    lines: Seq<Seq<char>>,
    outcomes: Seq<Option<MatchOutcome>>,
    before_len: usize,
    after_len: usize,
    path: Seq<char>,
    n: nat,
)
    requires
        lines.len() == outcomes.len(),
        lines.len() <= usize::MAX,
        1 <= n <= lines.len(),
        outcomes[n - 1] is Some,
        forall|k: int| 1 <= k < n ==> (#[trigger] outcomes[k - 1]) is None,
    ensures
        count_breaks(events_to(fresh(before_len, after_len, path), lines, outcomes, n)) == 0,
{
    let m0 = fresh(before_len, after_len, path);
    let p = (n - 1) as nat;
    lemma_events_split(m0, lines, outcomes, 0, n);
    lemma_no_break_without_match(m0, lines, outcomes, 0, p);
    lemma_manager_after(lines, outcomes, before_len, after_len, path, p);
    lemma_last_match(outcomes, p);
    assert(last_match(outcomes, p) == 0);
    let m = manager_at(m0, lines, outcomes, p);
    let outcome = outcomes[n - 1]->0;
    lemma_breaks_of_match(m, n as usize, outcome);
    lemma_count_breaks_concat(
        events_between(m0, lines, outcomes, 0, p),
        m.match_events(n as usize, outcome),
    );
}

} // verus!
