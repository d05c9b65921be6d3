//! Whole sessions: what the streamer does with a sequence of inputs, and what
//! holds of every session.

use vstd::prelude::*;
use crate::event::{EventKind, EventView};
use crate::stream::{
    actions_of, flush_due, step, ActionView, BatchingStreamer, InputView, StreamAction,
    StreamInput, StreamState, BATCH_LINES, MATCH_CAP,
};

verus! {

/// The state after `inputs`, taken in order from `s`, and all the actions
/// that were due on the way.
pub open spec fn run(s: StreamState, inputs: Seq<InputView>) -> (StreamState, Seq<ActionView>)
    decreases inputs.len(),
{
    if inputs.len() == 0 {
        (s, Seq::empty())
    } else {
        let before = run(s, inputs.drop_last());
        let last = step(before.0, inputs.last());
        (last.0, before.1 + last.1)
    }
}

/// What each input of `inputs` stands for, in order.
pub open spec fn inputs_of(inputs: Seq<StreamInput>) -> Seq<InputView> {
    Seq::new(inputs.len(), |i: int| inputs[i]@)
}

/// Whether the output has ended within `inputs`.
pub open spec fn closed(inputs: Seq<InputView>) -> bool
    decreases inputs.len(),
{
    inputs.len() > 0 && (inputs.last() is Closed || closed(inputs.drop_last()))
}

/// The lines that the process produced: those of `inputs` that come before
/// the output's end.
pub open spec fn produced(inputs: Seq<InputView>) -> Seq<Seq<char>>
    decreases inputs.len(),
{
    if inputs.len() == 0 {
        Seq::empty()
    } else {
        let before = produced(inputs.drop_last());
        match inputs.last() {
            InputView::Line { text, now } => if closed(inputs.drop_last()) {
                before
            } else {
                before.push(text)
            },
            InputView::Closed => before,
        }
    }
}

/// The batches of the `data` events among `actions`, in order.
pub open spec fn batches(actions: Seq<ActionView>) -> Seq<Seq<Seq<char>>>
    decreases actions.len(),
{
    if actions.len() == 0 {
        Seq::empty()
    } else {
        let before = batches(actions.drop_last());
        match actions.last() {
            ActionView::Emit(event) => if event.kind == EventKind::Data {
                before.push(event.lines)
            } else {
                before
            },
            ActionView::Terminate => before,
        }
    }
}

/// The lines of all `data` events among `actions`, in order.
pub open spec fn delivered(actions: Seq<ActionView>) -> Seq<Seq<char>>
    decreases actions.len(),
{
    if actions.len() == 0 {
        Seq::empty()
    } else {
        let before = delivered(actions.drop_last());
        match actions.last() {
            ActionView::Emit(event) => if event.kind == EventKind::Data {
                before + event.lines
            } else {
                before
            },
            ActionView::Terminate => before,
        }
    }
}

/// How many `finished` events are among `actions`.
pub open spec fn finished_events(actions: Seq<ActionView>) -> nat
    decreases actions.len(),
{
    if actions.len() == 0 {
        0
    } else {
        let before = finished_events(actions.drop_last());
        match actions.last() {
            ActionView::Emit(event) => if event.kind == EventKind::Finished {
                before + 1
            } else {
                before
            },
            ActionView::Terminate => before,
        }
    }
}

/// How many requests to terminate the process are among `actions`.
pub open spec fn terminations(actions: Seq<ActionView>) -> nat
    decreases actions.len(),
{
    if actions.len() == 0 {
        0
    } else {
        let before = terminations(actions.drop_last());
        match actions.last() {
            ActionView::Emit(event) => before,
            ActionView::Terminate => before + 1,
        }
    }
}

/// Whether `action` emits the terminal event.
pub open spec fn is_terminal(action: ActionView) -> bool {
    action == ActionView::Emit(EventView::finished())
}

/// What one more action adds to each count.
pub(crate) proof fn lemma_push(actions: Seq<ActionView>, action: ActionView)
    ensures
        batches(actions.push(action)) == match action {
            ActionView::Emit(event) => if event.kind == EventKind::Data {
                batches(actions).push(event.lines)
            } else {
                batches(actions)
            },
            ActionView::Terminate => batches(actions),
        },
        delivered(actions.push(action)) == match action {
            ActionView::Emit(event) => if event.kind == EventKind::Data {
                delivered(actions) + event.lines
            } else {
                delivered(actions)
            },
            ActionView::Terminate => delivered(actions),
        },
        finished_events(actions.push(action)) == match action {
            ActionView::Emit(event) => if event.kind == EventKind::Finished {
                finished_events(actions) + 1
            } else {
                finished_events(actions)
            },
            ActionView::Terminate => finished_events(actions),
        },
        terminations(actions.push(action)) == match action {
            ActionView::Emit(event) => terminations(actions),
            ActionView::Terminate => terminations(actions) + 1,
        },
{
    assert(actions.push(action).drop_last() =~= actions);
}

/// Each count of two runs of actions, one after the other, is made of the
/// counts of the two.
pub(crate) proof fn lemma_add(first: Seq<ActionView>, second: Seq<ActionView>)
    ensures
        batches(first + second) == batches(first) + batches(second),
        delivered(first + second) == delivered(first) + delivered(second),
        finished_events(first + second) == finished_events(first) + finished_events(second),
        terminations(first + second) == terminations(first) + terminations(second),
    decreases second.len(),
{
    if second.len() == 0 {
        assert(first + second =~= first);
        assert(batches(first) + batches(second) =~= batches(first));
        assert(delivered(first) + delivered(second) =~= delivered(first));
    } else {
        let init = second.drop_last();
        lemma_add(first, init);
        assert(first + second =~= (first + init).push(second.last()));
        assert(second =~= init.push(second.last()));
        lemma_push(first + init, second.last());
        lemma_push(init, second.last());
        match second.last() {
            ActionView::Emit(event) => {
                assert((batches(first) + batches(init)).push(event.lines) =~= batches(first)
                    + batches(init).push(event.lines));
                assert((delivered(first) + delivered(init)) + event.lines =~= delivered(first)
                    + (delivered(init) + event.lines));
            },
            ActionView::Terminate => {},
        }
    }
}

/// The largest number of lines that a session delivers of `lines` produced.
pub open spec fn capped(lines: nat) -> nat {
    if lines <= MATCH_CAP {
        lines
    } else {
        MATCH_CAP as nat
    }
}

/// Whether `action` is one that a streamer may ask for: the terminal event, a
/// batch of at least one and at most `BATCH_LINES` lines, or a termination.
pub open spec fn in_bounds(action: ActionView) -> bool {
    match action {
        ActionView::Emit(event) => is_terminal(action) || (event.kind == EventKind::Data && 1
            <= event.lines.len() <= BATCH_LINES),
        ActionView::Terminate => true,
    }
}

/// What the actions of one step add up to.
pub(crate) proof fn lemma_step_counts(s: StreamState, input: InputView)
    requires
        s.well_formed(),
        !s.finished,
    ensures
        ({
            let actions = step(s, input).1;
            match input {
                InputView::Line { text, now } => {
                    let pending = s.pending.push(text);
                    let cap = s.total + 1 >= MATCH_CAP;
                    let out = cap || flush_due(pending.len(), s.last_flush, now);
                    &&& delivered(actions) == if out {
                        pending
                    } else {
                        Seq::empty()
                    }
                    &&& batches(actions) == if out {
                        seq![pending]
                    } else {
                        Seq::empty()
                    }
                    &&& finished_events(actions) == if cap {
                        1nat
                    } else {
                        0
                    }
                    &&& terminations(actions) == if cap {
                        1nat
                    } else {
                        0
                    }
                    &&& cap ==> actions.len() > 0 && is_terminal(actions.last())
                },
                InputView::Closed => {
                    &&& delivered(actions) == s.pending
                    &&& batches(actions) == if s.pending.len() > 0 {
                        seq![s.pending]
                    } else {
                        Seq::empty()
                    }
                    &&& finished_events(actions) == 1
                    &&& terminations(actions) == 0
                    &&& actions.len() > 0 && is_terminal(actions.last())
                },
            }
        }),
        forall|i: int| 0 <= i < step(s, input).1.len() ==> in_bounds(#[trigger] step(s, input).1[i]),
{
    let actions = step(s, input).1;
    let none = Seq::<ActionView>::empty();
    let end = ActionView::Emit(EventView::finished());
    match input {
        InputView::Line { text, now } => {
            let pending = s.pending.push(text);
            let data = ActionView::Emit(EventView::data(pending));
            let cap = s.total + 1 >= MATCH_CAP;
            let flush = flush_due(pending.len(), s.last_flush, now);
            assert(Seq::<Seq<char>>::empty() + pending =~= pending);
            if cap && flush {
                lemma_push(none, data);
                lemma_push(none.push(data), ActionView::Terminate);
                lemma_push(none.push(data).push(ActionView::Terminate), end);
                assert(actions =~= none.push(data).push(ActionView::Terminate).push(end));
            } else if cap {
                lemma_push(none, ActionView::Terminate);
                lemma_push(none.push(ActionView::Terminate), data);
                lemma_push(none.push(ActionView::Terminate).push(data), end);
                assert(actions =~= none.push(ActionView::Terminate).push(data).push(end));
            } else if flush {
                lemma_push(none, data);
                assert(actions =~= none.push(data));
            } else {
                assert(actions =~= none);
            }
        },
        InputView::Closed => {
            let data = ActionView::Emit(EventView::data(s.pending));
            assert(Seq::<Seq<char>>::empty() + s.pending =~= s.pending);
            if s.pending.len() > 0 {
                lemma_push(none, data);
                lemma_push(none.push(data), end);
                assert(actions =~= none.push(data).push(end));
            } else {
                lemma_push(none, end);
                assert(actions =~= none.push(end));
                assert(s.pending =~= Seq::<Seq<char>>::empty());
            }
        },
    }
}

/// What holds after any inputs of a session that started at `now`.
pub(crate) proof fn lemma_session(now: u64, inputs: Seq<InputView>)
    ensures
        ({
            let (s, actions) = run(StreamState::start(now), inputs);
            let lines = produced(inputs);
            &&& s.well_formed()
            &&& s.total == capped(lines.len())
            &&& s.finished == (closed(inputs) || lines.len() >= MATCH_CAP)
            &&& delivered(actions) + s.pending == lines.take(capped(lines.len()) as int)
            &&& finished_events(actions) == if s.finished {
                1nat
            } else {
                0
            }
            &&& s.finished ==> actions.len() > 0 && is_terminal(actions.last())
            &&& terminations(actions) == if lines.len() >= MATCH_CAP {
                1nat
            } else {
                0
            }
            &&& forall|i: int| 0 <= i < actions.len() ==> in_bounds(#[trigger] actions[i])
        }),
    decreases inputs.len(),
{
    let start = StreamState::start(now);
    if inputs.len() == 0 {
        assert(Seq::<Seq<char>>::empty() + start.pending =~= produced(inputs).take(0));
    } else {
        let init = inputs.drop_last();
        let last = inputs.last();
        lemma_session(now, init);
        let (s0, a0) = run(start, init);
        let (s1, a1) = step(s0, last);
        let lines0 = produced(init);
        let lines = produced(inputs);
        assert(run(start, inputs) == (s1, a0 + a1));
        if s0.finished {
            assert(a0 + a1 =~= a0);
            assert(lines.take(capped(lines.len()) as int) =~= lines0.take(
                capped(lines0.len()) as int,
            ));
        } else {
            lemma_step_counts(s0, last);
            lemma_add(a0, a1);
            assert(lines0.take(lines0.len() as int) =~= lines0);
            assert(lines.take(lines.len() as int) =~= lines);
            assert(delivered(a0) + s0.pending == lines0);
            match last {
                InputView::Line { text, now } => {
                    let pending = s0.pending.push(text);
                    assert(delivered(a0) + pending =~= lines0.push(text));
                    assert((delivered(a0) + pending) + Seq::<Seq<char>>::empty() =~= delivered(
                        a0,
                    ) + pending);
                    assert((delivered(a0) + Seq::<Seq<char>>::empty()) + pending =~= delivered(
                        a0,
                    ) + pending);
                },
                InputView::Closed => {
                    assert((delivered(a0) + s0.pending) + Seq::<Seq<char>>::empty()
                        =~= delivered(a0) + s0.pending);
                },
            }
        }
    }
}

/// Batch completeness: the lines of all `data` events of a session, in the
/// order in which they were emitted, together with the lines that still wait,
/// are the first lines that the process produced, up to the match cap. Once
/// the session has finished nothing waits, and the events alone hold them.
pub proof fn law_batch_completeness(now: u64, inputs: Seq<InputView>)
    ensures
        ({
            let (s, actions) = run(StreamState::start(now), inputs);
            let lines = produced(inputs);
            &&& delivered(actions) + s.pending == lines.take(capped(lines.len()) as int)
            &&& s.finished ==> delivered(actions) == lines.take(capped(lines.len()) as int)
        }),
{
    lemma_session(now, inputs);
    let (s, actions) = run(StreamState::start(now), inputs);
    assert(s.finished ==> delivered(actions) + s.pending =~= delivered(actions));
}

/// The terminal event: a session finishes when its output ends or the match
/// cap is reached, and not before. A finished session has emitted exactly one
/// `finished` event, as the last of its actions; one that has not finished has
/// emitted none.
pub proof fn law_terminal_event(now: u64, inputs: Seq<InputView>)
    ensures
        ({
            let (s, actions) = run(StreamState::start(now), inputs);
            &&& s.finished == (closed(inputs) || produced(inputs).len() >= MATCH_CAP)
            &&& finished_events(actions) == if s.finished {
                1nat
            } else {
                0
            }
            &&& s.finished ==> actions.len() > 0 && is_terminal(actions.last())
        }),
{
    lemma_session(now, inputs);
}

/// The match cap: a session never delivers more than `MATCH_CAP` lines. Where
/// the process produced that many or more, the session delivered exactly the
/// first `MATCH_CAP` of them, asked once for the process to be terminated, and
/// finished with the terminal event. Where it produced fewer, the session
/// never asked for a termination.
pub proof fn law_match_cap(now: u64, inputs: Seq<InputView>)
    ensures
        ({
            let (s, actions) = run(StreamState::start(now), inputs);
            let lines = produced(inputs);
            &&& delivered(actions).len() <= MATCH_CAP
            &&& lines.len() < MATCH_CAP ==> terminations(actions) == 0
            &&& lines.len() >= MATCH_CAP ==> {
                &&& delivered(actions) == lines.take(MATCH_CAP as int)
                &&& delivered(actions).len() == MATCH_CAP
                &&& terminations(actions) == 1
                &&& finished_events(actions) == 1
                &&& is_terminal(actions.last())
            }
        }),
{
    lemma_session(now, inputs);
    let (s, actions) = run(StreamState::start(now), inputs);
    assert(s.finished ==> delivered(actions) + s.pending =~= delivered(actions));
    assert((delivered(actions) + s.pending).len() == capped(produced(inputs).len()));
}

/// Bounded events: every event of a session is the terminal event or a batch
/// of at least one and at most `BATCH_LINES` lines.
pub proof fn law_events_bounded(now: u64, inputs: Seq<InputView>)
    ensures
        ({
            let actions = run(StreamState::start(now), inputs).1;
            forall|i: int| 0 <= i < actions.len() ==> in_bounds(#[trigger] actions[i])
        }),
{
    lemma_session(now, inputs);
}

/// A copy of `input`.
fn copy_of(input: &StreamInput) -> (copy: StreamInput)
    ensures
        copy@ == input@,
{
    match input {
        StreamInput::Line { text, now } => StreamInput::Line { text: text.clone(), now: *now },
        StreamInput::Closed => StreamInput::Closed,
    }
}

impl BatchingStreamer {
    /// Takes `inputs` one after the other and returns all the actions that
    /// were due, in order.
    pub fn feed(&mut self, inputs: &Vec<StreamInput>) -> (actions: Vec<StreamAction>)
        ensures
            (final(self)@, actions_of(actions@)) == run(old(self)@, inputs_of(inputs@)),
    {
        let ghost all = inputs_of(inputs@);
        let mut actions: Vec<StreamAction> = Vec::new();
        let mut i: usize = 0;
        assert(actions_of(actions@) =~= Seq::<ActionView>::empty());
        while i < inputs.len()
            invariant
                i <= inputs.len(),
                all == inputs_of(inputs@),
                (self@, actions_of(actions@)) == run(old(self)@, all.take(i as int)),
            decreases inputs.len() - i,
        {
            let ghost before = actions_of(actions@);
            let mut due = self.step(copy_of(&inputs[i]));
            let ghost added = actions_of(due@);
            proof {
                assert(all.take(i + 1).drop_last() =~= all.take(i as int));
                assert(all.take(i + 1).last() == inputs@[i as int]@);
            }
            actions.append(&mut due);
            assert(actions_of(actions@) =~= before + added);
            i += 1;
        }
        assert(all.take(i as int) =~= all);
        actions
    }
}

} // verus!
