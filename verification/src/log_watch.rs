//! Waiting for a container to report readiness in its log.
//!
//! The watch reads the container's log line by line until a line holds the
//! expected marker. The stream may end first, a deadline may pass, or the
//! user may interrupt; each of these ends the watch with its own outcome.
//! The watch decides; the caller reads lines, keeps the clock and listens
//! for the interrupt, and hands each of these in as an event.

use vstd::prelude::*;
use crate::text::{contains, has_substring};

verus! {

/// How a watch over a log ended.
#[derive(Clone, Copy, Debug, PartialEq, Eq, Structural)]
pub enum WatchOutcome {
    /// A line held the marker.
    Found,
    /// The log stream ended, or could not be read, before the marker came.
    StreamEnded,
    /// The deadline passed before the marker came.
    TimedOut,
    /// The user interrupted the wait.
    Interrupted,
}

/// What happens while a log is watched.
pub enum LogEvent {
    /// The next line of the log.
    Line(String),
    /// The stream ended, or reading the next line failed.
    StreamClosed,
    /// The time allowed for the wait has passed.
    Deadline,
    /// The user asked to stop (Ctrl+C).
    Interrupt,
}

/// The mathematical view of a [`LogEvent`].
pub enum LogEventView {
    Line(Seq<char>),
    StreamClosed,
    Deadline,
    Interrupt,
}

impl View for LogEvent {
    type V = LogEventView;

    open spec fn view(&self) -> LogEventView {
        match self {
            LogEvent::Line(l) => LogEventView::Line(l@),
            LogEvent::StreamClosed => LogEventView::StreamClosed,
            LogEvent::Deadline => LogEventView::Deadline,
            LogEvent::Interrupt => LogEventView::Interrupt,
        }
    }
}

/// The outcome that a single event decides on its own, if any: a line
/// decides only when it holds the marker.
pub open spec fn event_outcome(marker: Seq<char>, e: LogEventView) -> Option<WatchOutcome> {
    match e {
        LogEventView::Line(l) => if has_substring(l, marker) {
            Some(WatchOutcome::Found)
        } else {
            None
        },
        LogEventView::StreamClosed => Some(WatchOutcome::StreamEnded),
        LogEventView::Deadline => Some(WatchOutcome::TimedOut),
        LogEventView::Interrupt => Some(WatchOutcome::Interrupted),
    }
}

/// The outcome of watching for `marker` through `events`: that of the first
/// event that decides one, or none while every event so far is a line
/// without the marker.
pub open spec fn outcome_of(marker: Seq<char>, events: Seq<LogEventView>) -> Option<WatchOutcome>
    decreases events.len(),
{
    if events.len() == 0 {
        None
    } else {
        match event_outcome(marker, events[0]) {
            Some(o) => Some(o),
            None => outcome_of(marker, events.drop_first()),
        }
    }
}

/// What the caller does after handing in an event.
#[derive(Clone, Copy, Debug, PartialEq, Eq, Structural)]
pub struct WatchStep {
    /// Print the line just handed in.
    pub echo: bool,
    /// The watch is over, with this outcome; `None` means read on.
    pub done: Option<WatchOutcome>,
}

/// Where a watch stands: its outcome so far and the events seen.
struct WatchState {
    outcome: Option<WatchOutcome>,
    history: Ghost<Seq<LogEventView>>,
}

/// A watch for a marker in a container's log.
pub struct LogWatch {
    marker: String,
    echo_lines: bool,
    state: WatchState,
}

/// The mathematical view of a [`LogWatch`].
pub struct LogWatchView {
    pub marker: Seq<char>,
    pub echo_lines: bool,
    pub outcome: Option<WatchOutcome>,
    /// Every event handed in so far, in order.
    pub history: Seq<LogEventView>,
}

impl View for LogWatch {
    type V = LogWatchView;

    closed spec fn view(&self) -> LogWatchView {
        LogWatchView {
            marker: self.marker@,
            echo_lines: self.echo_lines,
            outcome: self.state.outcome,
            history: self.state.history@,
        }
    }
}

impl LogWatch {
    /// The watch's invariant: its outcome is the one that its history decides.
    #[verifier::type_invariant]
    spec fn decided_by_history(self) -> bool {
        self.state.outcome == outcome_of(self.marker@, self.state.history@)
    }

    /// A watch for `marker` that has seen nothing yet; with `echo_lines`,
    /// the caller prints each line it reads while the watch is open.
    pub fn new(marker: String, echo_lines: bool) -> (w: LogWatch)
        ensures
            w@.marker == marker@,
            w@.echo_lines == echo_lines,
            w@.outcome is None,
            w@.history == Seq::<LogEventView>::empty(),
    {
        LogWatch { marker, echo_lines, state: WatchState { outcome: None, history: Ghost(Seq::empty()) } }
    }

    /// The outcome so far; `None` while the watch is open. It is always the
    /// outcome that the events seen so far decide.
    pub fn outcome(&self) -> (o: Option<WatchOutcome>)
        ensures
            o == self@.outcome,
            o == outcome_of(self@.marker, self@.history),
    {
        proof {
            use_type_invariant(self);
        }
        self.state.outcome
    }

    /// Hands the next event to the watch. An open watch takes the outcome
    /// that the event decides, if any; a closed one ignores the event.
    pub fn step(&mut self, event: &LogEvent) -> (s: WatchStep)
        ensures
            final(self)@.outcome == outcome_of(final(self)@.marker, final(self)@.history),
            final(self)@.marker == old(self)@.marker,
            final(self)@.echo_lines == old(self)@.echo_lines,
            final(self)@.history == old(self)@.history.push(event@),
            final(self)@.outcome == (match old(self)@.outcome {
                Some(o) => Some(o),
                None => event_outcome(old(self)@.marker, event@),
            }),
            s.done == final(self)@.outcome,
            s.echo == (old(self)@.outcome is None && old(self)@.echo_lines && event@ is Line),
    {
        proof {
            use_type_invariant(&*self);
        }
        let ghost h = self.state.history@;
        let ghost m = self.marker@;
        proof {
            lemma_outcome_extend(m, h, event@);
        }
        let echo = match event {
            LogEvent::Line(_) => self.state.outcome.is_none() && self.echo_lines,
            _ => false,
        };
        let outcome = if self.state.outcome.is_some() {
            self.state.outcome
        } else {
            match event {
                LogEvent::Line(line) => if contains(line.as_str(), self.marker.as_str()) {
                    Some(WatchOutcome::Found)
                } else {
                    None
                },
                LogEvent::StreamClosed => Some(WatchOutcome::StreamEnded),
                LogEvent::Deadline => Some(WatchOutcome::TimedOut),
                LogEvent::Interrupt => Some(WatchOutcome::Interrupted),
            }
        };
        self.state = WatchState { outcome, history: Ghost(h.push(event@)) };
        WatchStep { echo, done: outcome }
    }
}

/// Extending a history by one event: a decided outcome stays, an open one
/// takes what the event decides.
proof fn lemma_outcome_extend(marker: Seq<char>, h: Seq<LogEventView>, e: LogEventView)
    ensures
        outcome_of(marker, h.push(e)) == (match outcome_of(marker, h) {
            Some(o) => Some(o),
            None => event_outcome(marker, e),
        }),
    decreases h.len(),
{
    if h.len() == 0 {
        assert(h.push(e).drop_first() =~= Seq::<LogEventView>::empty());
    } else {
        assert(h.push(e).drop_first() =~= h.drop_first().push(e));
        lemma_outcome_extend(marker, h.drop_first(), e);
    }
}

/// Watching through two stretches of events in turn: whatever the first
/// stretch decides stands, whatever follows; a watch that the first stretch
/// leaves open ends as the second stretch alone would end it.
pub proof fn lemma_outcome_concat(marker: Seq<char>, h1: Seq<LogEventView>, h2: Seq<LogEventView>)
    ensures
        outcome_of(marker, h1 + h2) == (match outcome_of(marker, h1) {
            Some(o) => Some(o),
            None => outcome_of(marker, h2),
        }),
    decreases h1.len(),
{
    if h1.len() == 0 {
        assert(h1 + h2 =~= h2);
    } else {
        assert((h1 + h2).drop_first() =~= h1.drop_first() + h2);
        assert((h1 + h2)[0] == h1[0]);
        lemma_outcome_concat(marker, h1.drop_first(), h2);
    }
}

/// How an open watch ends, whatever its marker: the deadline ends it timed
/// out, the end of the stream ends it with the stream ended, an interrupt
/// ends it interrupted, and a line ends it found exactly when the line holds
/// the marker (otherwise the watch stays open).
pub proof fn lemma_open_watch_next_event(marker: Seq<char>, h: Seq<LogEventView>, line: Seq<char>)
    requires
        outcome_of(marker, h) is None,
    ensures
        outcome_of(marker, h.push(LogEventView::Deadline)) == Some(WatchOutcome::TimedOut),
        outcome_of(marker, h.push(LogEventView::StreamClosed)) == Some(WatchOutcome::StreamEnded),
        outcome_of(marker, h.push(LogEventView::Interrupt)) == Some(WatchOutcome::Interrupted),
        has_substring(line, marker) ==> outcome_of(marker, h.push(LogEventView::Line(line)))
            == Some(WatchOutcome::Found),
        !has_substring(line, marker) ==> outcome_of(marker, h.push(LogEventView::Line(line))) is None,
{
    lemma_outcome_extend(marker, h, LogEventView::Deadline);
    lemma_outcome_extend(marker, h, LogEventView::StreamClosed);
    lemma_outcome_extend(marker, h, LogEventView::Interrupt);
    lemma_outcome_extend(marker, h, LogEventView::Line(line));
}

/// A watch that has seen nothing yet ends as its first event decides: the
/// deadline as timed out, the end of the stream as stream ended, an
/// interrupt as interrupted, whatever the marker.
pub proof fn lemma_first_event_outcome(marker: Seq<char>)
    ensures
        outcome_of(marker, seq![LogEventView::Deadline]) == Some(WatchOutcome::TimedOut),
        outcome_of(marker, seq![LogEventView::StreamClosed]) == Some(WatchOutcome::StreamEnded),
        outcome_of(marker, seq![LogEventView::Interrupt]) == Some(WatchOutcome::Interrupted),
{
    let e = Seq::<LogEventView>::empty();
    lemma_open_watch_next_event(marker, e, Seq::empty());
    assert(e.push(LogEventView::Deadline) =~= seq![LogEventView::Deadline]);
    assert(e.push(LogEventView::StreamClosed) =~= seq![LogEventView::StreamClosed]);
    assert(e.push(LogEventView::Interrupt) =~= seq![LogEventView::Interrupt]);
}

/// Once a watch has ended, no later event changes its outcome.
pub proof fn lemma_outcome_final(marker: Seq<char>, h1: Seq<LogEventView>, h2: Seq<LogEventView>)
    requires
        outcome_of(marker, h1) is Some,
    ensures
        outcome_of(marker, h1 + h2) == outcome_of(marker, h1),
{
    lemma_outcome_concat(marker, h1, h2);
}

/// A watch is still open exactly when every event so far is a log line
/// without the marker.
pub proof fn lemma_open_iff_no_marker(marker: Seq<char>, h: Seq<LogEventView>)
    ensures
        outcome_of(marker, h) is None <==> forall|i: int|
            0 <= i < h.len() ==> (#[trigger] h[i] matches LogEventView::Line(l) && !has_substring(l, marker)),
    decreases h.len(),
{
    if h.len() > 0 {
        lemma_open_iff_no_marker(marker, h.drop_first());
        if outcome_of(marker, h) is None {
            assert forall|i: int| 0 <= i < h.len() implies (#[trigger] h[i] matches LogEventView::Line(l)
                && !has_substring(l, marker)) by {
                if i > 0 {
                    assert(h[i] == h.drop_first()[i - 1]);
                }
            }
        } else if forall|i: int| 0 <= i < h.len() ==> (#[trigger] h[i] matches LogEventView::Line(l)
            && !has_substring(l, marker)) {
            assert(h[0] matches LogEventView::Line(l) && !has_substring(l, marker));
            assert forall|i: int| 0 <= i < h.drop_first().len() implies (#[trigger] h.drop_first()[i] matches LogEventView::Line(l)
                && !has_substring(l, marker)) by {
                assert(h.drop_first()[i] == h[i + 1]);
            }
        }
    }
}

/// A watch ends with the marker found exactly when some log line holds the
/// marker and every event before it is a line without the marker: the
/// marker counts only if it comes before the stream ends, the deadline
/// passes or the user interrupts.
pub proof fn lemma_found_iff_marker_first(marker: Seq<char>, h: Seq<LogEventView>)
    ensures
        outcome_of(marker, h) == Some(WatchOutcome::Found) <==> exists|i: int|
            0 <= i < h.len() && (#[trigger] h[i] matches LogEventView::Line(l) && has_substring(l, marker))
            && outcome_of(marker, h.take(i)) is None,
    decreases h.len(),
{
    if h.len() > 0 {
        lemma_found_iff_marker_first(marker, h.drop_first());
        assert(h.take(0) =~= Seq::<LogEventView>::empty());
        if outcome_of(marker, h) == Some(WatchOutcome::Found) {
            if event_outcome(marker, h[0]) is None {
                let i = choose|i: int| 0 <= i < h.drop_first().len()
                    && (#[trigger] h.drop_first()[i] matches LogEventView::Line(l) && has_substring(l, marker))
                    && outcome_of(marker, h.drop_first().take(i)) is None;
                assert(h.take(i + 1).drop_first() =~= h.drop_first().take(i));
                assert(h.take(i + 1)[0] == h[0]);
                assert(h[i + 1] == h.drop_first()[i]);
            } else {
                assert(h[0] matches LogEventView::Line(l) && has_substring(l, marker));
            }
        } else {
            if exists|i: int| 0 <= i < h.len() && (#[trigger] h[i] matches LogEventView::Line(l)
                && has_substring(l, marker)) && outcome_of(marker, h.take(i)) is None {
                let i = choose|i: int| 0 <= i < h.len() && (#[trigger] h[i] matches LogEventView::Line(l)
                    && has_substring(l, marker)) && outcome_of(marker, h.take(i)) is None;
                if i == 0 {
                    assert(h[0] matches LogEventView::Line(l) && has_substring(l, marker));
                } else {
                    assert(h.take(i)[0] == h[0]);
                    assert(h.take(i).drop_first() =~= h.drop_first().take(i - 1));
                    assert(h.drop_first()[i - 1] == h[i]);
                }
            }
        }
    }
}

} // verus!
