//! Events delivered to the user interface while a search streams.

use vstd::prelude::*;

verus! {

/// The characters of each line of `lines`, in order.
pub open spec fn text_of(lines: Seq<String>) -> Seq<Seq<char>> {
    Seq::new(lines.len(), |i: int| lines[i]@)
}

/// `text_of` follows `push`.
pub proof fn lemma_text_of_push(lines: Seq<String>, line: String)
    ensures
        text_of(lines.push(line)) == text_of(lines).push(line@),
{
    assert(text_of(lines.push(line)) =~= text_of(lines).push(line@));
}

/// The tag of a [`SearchEvent`].
#[derive(Clone, Copy, Debug, PartialEq, Eq, Structural)]
pub enum EventKind {
    /// A batch of output lines.
    Data,
    /// The end of a streaming session.
    Finished,
}

impl EventKind {
    /// The characters of [`EventKind::name`].
    pub open spec fn spec_name(&self) -> Seq<char> {
        match self {
            EventKind::Data => "data"@,
            EventKind::Finished => "finished"@,
        }
    }

    /// The tag as the user interface reads it.
    pub fn name(&self) -> (name: &'static str)
        ensures
            name@ == self.spec_name(),
    {
        match self {
            EventKind::Data => "data",
            EventKind::Finished => "finished",
        }
    }
}

/// What a [`SearchEvent`] stands for: its tag and the text of its lines.
pub struct EventView {
    pub kind: EventKind,
    pub lines: Seq<Seq<char>>,
}

impl EventView {
    /// A batch of lines.
    pub open spec fn data(lines: Seq<Seq<char>>) -> EventView {
        EventView { kind: EventKind::Data, lines }
    }

    /// The terminal event, which carries no line.
    pub open spec fn finished() -> EventView {
        EventView { kind: EventKind::Finished, lines: Seq::empty() }
    }

    /// A terminal event carries no line.
    pub open spec fn well_formed(self) -> bool {
        self.kind == EventKind::Finished ==> self.lines.len() == 0
    }
}

/// One message to the user interface: a batch of lines, or the end of the
/// session.
#[derive(Debug, PartialEq, Eq)]
pub struct SearchEvent {
    kind: EventKind,
    lines: Vec<String>,
}

impl View for SearchEvent {
    type V = EventView;

    closed spec fn view(&self) -> EventView {
        EventView { kind: self.kind, lines: text_of(self.lines@) }
    }
}

impl SearchEvent {
    #[verifier::type_invariant]
    spec fn inv(self) -> bool {
        self.kind == EventKind::Finished ==> self.lines@.len() == 0
    }

    /// A `data` event that hands `lines` over, in their order.
    pub fn data(lines: Vec<String>) -> (event: SearchEvent)
        ensures
            event@ == EventView::data(text_of(lines@)),
    {
        SearchEvent { kind: EventKind::Data, lines }
    }

    /// The `finished` event.
    pub fn finished() -> (event: SearchEvent)
        ensures
            event@ == EventView::finished(),
    {
        let event = SearchEvent { kind: EventKind::Finished, lines: Vec::new() };
        assert(text_of(event.lines@) =~= Seq::<Seq<char>>::empty());
        event
    }

    /// The event's tag.
    pub fn kind(&self) -> (kind: EventKind)
        ensures
            kind == self@.kind,
    {
        self.kind
    }

    /// The event's lines.
    pub fn lines(&self) -> (lines: &Vec<String>)
        ensures
            text_of(lines@) == self@.lines,
            self@.well_formed(),
    {
        proof {
            use_type_invariant(self);
            assert(self.lines@.len() == 0 ==> text_of(self.lines@) =~= Seq::<Seq<char>>::empty());
        }
        &self.lines
    }

    /// Gives up the event for its lines.
    pub fn into_lines(self) -> (lines: Vec<String>)
        ensures
            text_of(lines@) == self@.lines,
            self@.well_formed(),
    {
        proof {
            use_type_invariant(&self);
        }
        self.lines
    }
}

} // verus!
