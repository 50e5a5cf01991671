//! The context manager: it turns the classified lines of one source into
//! matched lines, lines of context and group breaks, in the right order.

use std::collections::VecDeque;
use std::ops::ControlFlow;
use vstd::prelude::*;
use crate::matcher::{MatchOutcome, MatchResult};
use crate::output::{
    output_views, ContextKind, ContextLine, ContextLineView, Event, MatchedLine, MatchedLineView,
    Output,
};
use crate::sink::{lemma_signal_steady, lemma_told_one_more, Sink};

verus! {

/// The state of a context manager, as a mathematical value.
pub ghost struct ManagerView {
    /// The length of the leading window.
    pub before_len: usize,
    /// The length of the trailing window.
    pub after_len: usize,
    /// The most recent unmatched lines, oldest first, each with its number.
    pub buffer: Seq<(usize, Seq<char>)>,
    /// How many lines of trailing context are still owed.
    pub countdown: usize,
    /// The number of the last line that was shown as a match or as trailing
    /// context; zero before the first match.
    pub last_match: usize,
    /// The path of the source.
    pub path: Seq<char>,
}

/// A line of context as the sink is told of it.
pub open spec fn context_event(
    path: Seq<char>,
    line_number: usize,
    content: Seq<char>,
    kind: ContextKind,
) -> Event {
    Event::Context(ContextLineView { path, line_number, content, kind })
}

/// The buffered lines that come after line `last_match`, oldest first, as
/// leading context.
pub open spec fn leading_of(buffer: Seq<(usize, Seq<char>)>, last_match: usize, path: Seq<char>)
    -> Seq<Event>
    decreases buffer.len(),
{
    if buffer.len() == 0 {
        Seq::<Event>::empty()
    } else {
        let rest = leading_of(buffer.drop_last(), last_match, path);
        let entry = buffer.last();
        if entry.0 > last_match {
            rest.push(context_event(path, entry.0, entry.1, ContextKind::Before))
        } else {
            rest
        }
    }
}

impl ManagerView {
    /// Whether any context is asked for.
    pub open spec fn context_enabled(self) -> bool {
        self.before_len > 0 || self.after_len > 0
    }

    /// Whether a match at `line_num` opens a new group: context is asked
    /// for, something was shown before, and the trailing window of what was
    /// shown last has fully lapsed.
    pub open spec fn breaks_before(self, line_num: usize) -> bool {
        self.context_enabled() && self.last_match > 0 && line_num > self.last_match
            + self.after_len + 1
    }

    /// What comes before the matched line itself: the group break, where one
    /// is due, then the leading context.
    pub open spec fn lead_events(self, line_num: usize) -> Seq<Event> {
        (if self.breaks_before(line_num) {
            seq![Event::GroupBreak]
        } else {
            Seq::<Event>::empty()
        }) + leading_of(self.buffer, self.last_match, self.path)
    }

    /// What the sink is told for a match at `line_num`.
    pub open spec fn match_events(self, line_num: usize, outcome: MatchOutcome) -> Seq<Event> {
        self.lead_events(line_num).push(
            Event::Matched(MatchedLineView { path: self.path, line_number: line_num, outcome }),
        )
    }

    /// The state after a match at `line_num`.
    pub open spec fn after_match(self, line_num: usize) -> ManagerView {
        ManagerView {
            buffer: Seq::<(usize, Seq<char>)>::empty(),
            countdown: self.after_len,
            last_match: line_num,
            ..self
        }
    }

    /// What the sink is told for an unmatched line.
    pub open spec fn non_match_events(self, line_num: usize, content: Seq<char>) -> Seq<Event> {
        if self.countdown > 0 {
            seq![context_event(self.path, line_num, content, ContextKind::After)]
        } else {
            Seq::<Event>::empty()
        }
    }

    /// The buffer after an unmatched line: the line is appended, and the
    /// oldest entry gives way where the buffer is full.
    pub open spec fn buffer_with(self, line_num: usize, content: Seq<char>) -> Seq<
        (usize, Seq<char>),
    > {
        if self.before_len == 0 {
            self.buffer
        } else if self.buffer.len() == self.before_len {
            self.buffer.drop_first().push((line_num, content))
        } else {
            self.buffer.push((line_num, content))
        }
    }

    /// The state after an unmatched line.
    pub open spec fn after_non_match(self, line_num: usize, content: Seq<char>) -> ManagerView {
        ManagerView {
            buffer: self.buffer_with(line_num, content),
            countdown: if self.countdown > 0 {
                (self.countdown - 1) as usize
            } else {
                self.countdown
            },
            last_match: if self.countdown > 0 {
                line_num
            } else {
                self.last_match
            },
            ..self
        }
    }
}

/// The values of the buffered lines, in order.
pub open spec fn buffer_views(b: Seq<(usize, String)>) -> Seq<(usize, Seq<char>)> {
    Seq::new(b.len(), |i: int| (b[i].0, b[i].1@))
}

/// The context manager of one source.
pub struct ContextManager {
    pub before_len: usize,
    pub after_len: usize,
    pub before_buffer: VecDeque<(usize, String)>,
    pub after_countdown: usize,
    pub last_match_line_num: usize,
    pub path: String,
}

impl View for ContextManager {
    type V = ManagerView;

    open spec fn view(&self) -> ManagerView {
        ManagerView {
            before_len: self.before_len,
            after_len: self.after_len,
            buffer: buffer_views(self.before_buffer@),
            countdown: self.after_countdown,
            last_match: self.last_match_line_num,
            path: self.path@,
        }
    }
}

impl ContextManager {
    /// The invariant: the buffer never holds more than the leading window.
    pub open spec fn wf(&self) -> bool {
        self@.buffer.len() <= self.before_len
    }

    /// A manager for the source at `path`, before its first line.
    pub fn new(before_len: usize, after_len: usize, path: &str) -> (r: ContextManager)
        ensures
            r.wf(),
            r@ == (ManagerView {
                before_len,
                after_len,
                buffer: Seq::<(usize, Seq<char>)>::empty(),
                countdown: 0,
                last_match: 0,
                path: path@,
            }),
    {
        let r = ContextManager {
            before_len,
            after_len,
            before_buffer: VecDeque::new(),
            after_countdown: 0,
            last_match_line_num: 0,
            path: path.to_owned(),
        };
        assert(r@.buffer =~= Seq::<(usize, Seq<char>)>::empty());
        r
    }

    /// Takes a matched line: tells the sink of a group break where one is
    /// due, then of the buffered lines not yet shown, then of the match.
    /// Returns the sink's answer to the match.
    pub fn handle_match(
        &mut self,
        sink: &mut Sink<'_>,
        line_num: usize,
        match_result: MatchResult<'_>,
        out: &mut Vec<Output>,
    ) -> (signal: ControlFlow<()>)
        requires
            old(self).wf(),
            old(sink).wf(),
        ensures
            final(self).wf(),
            final(self)@ == old(self)@.after_match(line_num),
            final(sink).wf(),
            final(sink)@ == old(sink)@.after_all(
                old(self)@.match_events(line_num, match_result@),
            ),
            output_views(final(out)@) == output_views(old(out)@) + old(sink)@.shows_all(
                old(self)@.match_events(line_num, match_result@),
            ),
            signal == old(sink)@.signal(
                Event::Matched(
                    MatchedLineView {
                        path: old(self)@.path,
                        line_number: line_num,
                        outcome: match_result@,
                    },
                ),
            ),
    {
        let ghost m0 = self@;
        let ghost s0 = sink@;
        let ghost out0 = output_views(out@);
        let ghost told = Seq::<Event>::empty();
        let context_enabled = self.before_len > 0 || self.after_len > 0;
        let last = self.last_match_line_num;
        let lapsed = last < line_num && line_num - last - 1 > self.after_len;
        if context_enabled && last > 0 && lapsed {
            let _ = sink.context_break(out);
            proof {
                lemma_told_one_more(s0, told, Event::GroupBreak);
                told = told.push(Event::GroupBreak);
            }
        }
        let ghost head = told;
        let mut i: usize = 0;
        while i < self.before_buffer.len()
            invariant
                i <= self.before_buffer@.len(),
                self@ == m0,
                last == m0.last_match,
                sink.wf(),
                told == head + leading_of(m0.buffer.subrange(0, i as int), m0.last_match, m0.path),
                sink@ == s0.after_all(told),
                output_views(out@) == out0 + s0.shows_all(told),
            decreases self.before_buffer@.len() - i,
        {
            let entry = &self.before_buffer[i];
            proof {
                assert(m0.buffer.subrange(0, i + 1).drop_last() =~= m0.buffer.subrange(0, i as int));
            }
            if entry.0 > last {
                let line = ContextLine {
                    path: self.path.clone(),
                    line_number: entry.0,
                    content: entry.1.clone(),
                    kind: ContextKind::Before,
                };
                let ghost e = context_event(m0.path, entry.0, entry.1@, ContextKind::Before);
                let _ = sink.context(&line, out);
                proof {
                    lemma_told_one_more(s0, told, e);
                    told = told.push(e);
                }
            }
            i = i + 1;
        }
        assert(m0.buffer.subrange(0, i as int) =~= m0.buffer);
        self.before_buffer.clear();
        let data = MatchedLine { path: self.path.as_str(), line_number: line_num, match_result };
        let ghost e = Event::Matched(data@);
        let signal = sink.matched(&data, out);
        proof {
            lemma_told_one_more(s0, told, e);
            lemma_signal_steady(s0, told, e);
        }
        self.last_match_line_num = line_num;
        self.after_countdown = self.after_len;
        assert(self@.buffer =~= Seq::<(usize, Seq<char>)>::empty());
        signal
    }

    /// Takes an unmatched line: shows it as trailing context while such
    /// lines are owed, and remembers it as possible leading context.
    pub fn handle_non_match(
        &mut self,
        sink: &mut Sink<'_>,
        line_num: usize,
        line_content: String,
        out: &mut Vec<Output>,
    )
        requires
            old(self).wf(),
            old(sink).wf(),
        ensures
            final(self).wf(),
            final(self)@ == old(self)@.after_non_match(line_num, line_content@),
            final(sink).wf(),
            final(sink)@ == old(sink)@.after_all(
                old(self)@.non_match_events(line_num, line_content@),
            ),
            output_views(final(out)@) == output_views(old(out)@) + old(sink)@.shows_all(
                old(self)@.non_match_events(line_num, line_content@),
            ),
    {
        let ghost m0 = self@;
        let ghost s0 = sink@;
        let ghost none = Seq::<Event>::empty();
        if self.after_countdown > 0 {
            let line = ContextLine {
                path: self.path.clone(),
                line_number: line_num,
                content: line_content.clone(),
                kind: ContextKind::After,
            };
            let ghost e = context_event(m0.path, line_num, line_content@, ContextKind::After);
            let _ = sink.context(&line, out);
            proof {
                lemma_told_one_more(s0, none, e);
            }
            self.last_match_line_num = line_num;
            self.after_countdown = self.after_countdown - 1;
        }
        if self.before_len > 0 {
            if self.before_buffer.len() == self.before_len {
                let _ = self.before_buffer.pop_front();
            }
            self.before_buffer.push_back((line_num, line_content));
            assert(self@.buffer =~= m0.buffer_with(line_num, line_content@));
        }
    }
}

} // verus!
