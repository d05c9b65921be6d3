//! The batching streamer: turns the lines of a search process into a bounded
//! sequence of events.
//!
//! The streamer does no reading and no sending. Its owner reads the process's
//! output, hands each line over together with a reading of a monotonic clock,
//! and carries out the actions that come back, in their order.

use vstd::prelude::*;
use crate::event::{lemma_text_of_push, text_of, EventView, SearchEvent};

verus! {

/// A batch is flushed once it holds this many lines.
pub const BATCH_LINES: usize = 1000;

/// A batch is flushed once this many nanoseconds have passed since the last
/// flush (50 milliseconds).
pub const FLUSH_INTERVAL_NANOS: u64 = 50_000_000;

/// The most lines one session streams.
pub const MATCH_CAP: usize = 20000;

/// What the owner of a streamer has to do.
#[derive(Debug, PartialEq, Eq)]
pub enum StreamAction {
    /// Send the event to the user interface.
    Emit(SearchEvent),
    /// Take the session's process out of the slot, if it is still the current
    /// one, and terminate it.
    Terminate,
}

/// What a [`StreamAction`] stands for.
pub enum ActionView {
    Emit(EventView),
    Terminate,
}

impl View for StreamAction {
    type V = ActionView;

    open spec fn view(&self) -> ActionView {
        match self {
            StreamAction::Emit(event) => ActionView::Emit(event@),
            StreamAction::Terminate => ActionView::Terminate,
        }
    }
}

/// What each action of `actions` stands for, in order.
pub open spec fn actions_of(actions: Seq<StreamAction>) -> Seq<ActionView> {
    Seq::new(actions.len(), |i: int| actions[i]@)
}

/// What happened on the process's output.
#[derive(Debug, PartialEq, Eq)]
pub enum StreamInput {
    /// A line was read; `now` is the clock's reading, in nanoseconds, when it
    /// arrived.
    Line { text: String, now: u64 },
    /// The output ended, or a read failed.
    Closed,
}

/// What a [`StreamInput`] stands for.
pub enum InputView {
    Line { text: Seq<char>, now: u64 },
    Closed,
}

impl View for StreamInput {
    type V = InputView;

    open spec fn view(&self) -> InputView {
        match self {
            StreamInput::Line { text, now } => InputView::Line { text: text@, now: *now },
            StreamInput::Closed => InputView::Closed,
        }
    }
}

/// The state of a streaming session.
pub struct StreamState {
    /// The lines read and not yet emitted.
    pub pending: Seq<Seq<char>>,
    /// How many lines were read.
    pub total: nat,
    /// The clock's reading at the last flush, or at the start.
    pub last_flush: u64,
    /// Whether the terminal event was emitted.
    pub finished: bool,
}

impl StreamState {
    /// A session that starts at `now`.
    pub open spec fn start(now: u64) -> StreamState {
        StreamState { pending: Seq::empty(), total: 0, last_flush: now, finished: false }
    }

    /// What holds of every state that a session reaches.
    pub open spec fn well_formed(self) -> bool {
        &&& self.pending.len() < BATCH_LINES
        &&& self.pending.len() <= self.total <= MATCH_CAP
        &&& self.finished ==> self.pending.len() == 0
        &&& !self.finished ==> self.total < MATCH_CAP
    }
}

/// The time from `last` to `now`; none if the clock went back.
pub open spec fn elapsed(last: u64, now: u64) -> int {
    if now >= last {
        now - last
    } else {
        0
    }
}

/// Whether a batch of `pending` lines, last flushed at `last_flush`, is due at
/// `now`.
pub open spec fn flush_due(pending: nat, last_flush: u64, now: u64) -> bool {
    pending >= BATCH_LINES || elapsed(last_flush, now) >= FLUSH_INTERVAL_NANOS
}

/// One `data` event with `pending`, or nothing where there is no line.
pub open spec fn drain(pending: Seq<Seq<char>>) -> Seq<ActionView> {
    if pending.len() > 0 {
        seq![ActionView::Emit(EventView::data(pending))]
    } else {
        Seq::empty()
    }
}

/// The end of a session: what is left of the batch, then the terminal event.
pub open spec fn closing(pending: Seq<Seq<char>>) -> Seq<ActionView> {
    drain(pending).push(ActionView::Emit(EventView::finished()))
}

/// A line arrives in a session that has not finished.
pub open spec fn step_line(s: StreamState, text: Seq<char>, now: u64) -> (
    StreamState,
    Seq<ActionView>,
) {
    let pending = s.pending.push(text);
    let total = (s.total + 1) as nat;
    let flush = flush_due(pending.len(), s.last_flush, now);
    let flushed = if flush {
        drain(pending)
    } else {
        Seq::empty()
    };
    let kept = if flush {
        Seq::empty()
    } else {
        pending
    };
    let last_flush = if flush {
        now
    } else {
        s.last_flush
    };
    if total >= MATCH_CAP {
        (
            StreamState { pending: Seq::empty(), total, last_flush, finished: true },
            flushed.push(ActionView::Terminate) + closing(kept),
        )
    } else {
        (StreamState { pending: kept, total, last_flush, finished: false }, flushed)
    }
}

/// The output ends in a session that has not finished.
pub open spec fn step_closed(s: StreamState) -> (StreamState, Seq<ActionView>) {
    (StreamState { pending: Seq::empty(), finished: true, ..s }, closing(s.pending))
}

/// The next state and the actions due. A finished session ignores its input.
pub open spec fn step(s: StreamState, input: InputView) -> (StreamState, Seq<ActionView>) {
    if s.finished {
        (s, Seq::empty())
    } else {
        match input {
            InputView::Line { text, now } => step_line(s, text, now),
            InputView::Closed => step_closed(s),
        }
    }
}

/// A step keeps a state well formed.
pub proof fn lemma_step_well_formed(s: StreamState, input: InputView)
    requires
        s.well_formed(),
    ensures
        step(s, input).0.well_formed(),
{
}

/// The event that a line's arrival flushes, if any.
spec fn step_line_flushed(s: StreamState, text: Seq<char>, now: u64) -> Seq<ActionView> {
    if flush_due(s.pending.len() + 1, s.last_flush, now) {
        drain(s.pending.push(text))
    } else {
        Seq::empty()
    }
}

/// The lines that wait on after a line's arrival.
spec fn step_line_kept(s: StreamState, text: Seq<char>, now: u64) -> Seq<Seq<char>> {
    if flush_due(s.pending.len() + 1, s.last_flush, now) {
        Seq::empty()
    } else {
        s.pending.push(text)
    }
}

/// The time from `last` to `now`.
fn elapsed_nanos(last: u64, now: u64) -> (nanos: u64)
    ensures
        nanos == elapsed(last, now),
{
    if now >= last {
        now - last
    } else {
        0
    }
}

/// Accumulates the lines of one session and says when to emit them.
#[derive(Debug)]
pub struct BatchingStreamer {
    batch: Vec<String>,
    total: usize,
    last_flush: u64,
    finished: bool,
}

impl View for BatchingStreamer {
    type V = StreamState;

    closed spec fn view(&self) -> StreamState {
        StreamState {
            pending: text_of(self.batch@),
            total: self.total as nat,
            last_flush: self.last_flush,
            finished: self.finished,
        }
    }
}

impl BatchingStreamer {
    #[verifier::type_invariant]
    spec fn inv(self) -> bool {
        self@.well_formed()
    }

    /// A streamer for a session that starts at `now`, a reading of the clock
    /// in nanoseconds.
    pub fn new(now: u64) -> (streamer: BatchingStreamer)
        ensures
            streamer@ == StreamState::start(now),
    {
        let streamer = BatchingStreamer {
            batch: Vec::new(),
            total: 0,
            last_flush: now,
            finished: false,
        };
        assert(streamer@.pending =~= Seq::<Seq<char>>::empty());
        streamer
    }

    /// Whether the terminal event was emitted.
    pub fn is_finished(&self) -> (finished: bool)
        ensures
            finished == self@.finished,
    {
        self.finished
    }

    /// How many lines were read.
    pub fn total_lines(&self) -> (total: usize)
        ensures
            total == self@.total,
            self@.well_formed(),
    {
        proof {
            use_type_invariant(self);
        }
        self.total
    }

    /// How many lines wait for the next flush.
    pub fn pending_lines(&self) -> (pending: usize)
        ensures
            pending == self@.pending.len(),
            self@.well_formed(),
    {
        proof {
            use_type_invariant(self);
        }
        self.batch.len()
    }

    /// Takes one input and returns the actions that are due, in the order in
    /// which they are to be carried out.
    pub fn step(&mut self, input: StreamInput) -> (actions: Vec<StreamAction>)
        ensures
            (final(self)@, actions_of(actions@)) == step(old(self)@, input@),
            final(self)@.well_formed(),
    {
        proof {
            use_type_invariant(&*self);
        }
        let mut actions: Vec<StreamAction> = Vec::new();
        assert(actions_of(actions@) =~= Seq::<ActionView>::empty());
        if self.finished {
            return actions;
        }
        let mut batch: Vec<String> = Vec::new();
        std::mem::swap(&mut self.batch, &mut batch);
        match input {
            StreamInput::Line { text, now } => {
                let total: usize = self.total + 1;
                let mut last_flush: u64 = self.last_flush;
                batch.push(text);
                proof {
                    lemma_text_of_push(old(self).batch@, text);
                }
                if batch.len() >= BATCH_LINES || elapsed_nanos(last_flush, now)
                    >= FLUSH_INTERVAL_NANOS {
                    let mut lines: Vec<String> = Vec::new();
                    std::mem::swap(&mut batch, &mut lines);
                    actions.push(StreamAction::Emit(SearchEvent::data(lines)));
                    last_flush = now;
                }
                let ghost flushed = actions_of(actions@);
                assert(flushed =~= step_line_flushed(old(self)@, text@, now));
                assert(text_of(batch@) =~= step_line_kept(old(self)@, text@, now));
                if total >= MATCH_CAP {
                    actions.push(StreamAction::Terminate);
                    assert(actions_of(actions@) =~= flushed.push(ActionView::Terminate));
                    let ghost terminated = actions_of(actions@);
                    if batch.len() > 0 {
                        actions.push(StreamAction::Emit(SearchEvent::data(batch)));
                    }
                    actions.push(StreamAction::Emit(SearchEvent::finished()));
                    assert(actions_of(actions@) =~= terminated + closing(
                        step_line_kept(old(self)@, text@, now),
                    ));
                    self.finished = true;
                    self.total = total;
                    self.last_flush = last_flush;
                    assert(text_of(self.batch@) =~= Seq::<Seq<char>>::empty());
                } else {
                    self.total = total;
                    self.last_flush = last_flush;
                    self.batch = batch;
                }
            },
            StreamInput::Closed => {
                if batch.len() > 0 {
                    actions.push(StreamAction::Emit(SearchEvent::data(batch)));
                }
                actions.push(StreamAction::Emit(SearchEvent::finished()));
                assert(actions_of(actions@) =~= closing(old(self)@.pending));
                self.finished = true;
                assert(text_of(self.batch@) =~= Seq::<Seq<char>>::empty());
            },
        }
        actions
    }
}

} // verus!
