//! The search controller: which search is current, and which handle is to be
//! terminated when a search starts, is cancelled or reaches the match cap.
//!
//! The controller spawns nothing and terminates nothing. Every handle that it
//! hands out is no longer current: the caller terminates it.

use vstd::prelude::*;
use crate::slot::{left_by, taken_by, SearchSlot};

verus! {

/// The state of a controller over handles of type `H`.
pub struct ControllerState<H> {
    /// The current search: its session's number and its handle.
    pub occupant: Option<(u64, H)>,
    /// The number that the next session gets.
    pub next_session: u64,
}

/// What can be asked of a controller.
pub enum Command<H> {
    /// A search is about to start: the current one has to go.
    Begin,
    /// A search was spawned: its handle becomes the current one.
    Install(H),
    /// The current search has to go.
    Cancel,
    /// The session with this number has reached the match cap.
    CapReached(u64),
}

/// The handle of `occupant`.
pub open spec fn handle_of<H>(occupant: Option<(u64, H)>) -> Option<H> {
    match occupant {
        Some((session, handle)) => Some(handle),
        None => None,
    }
}

/// The session number that follows `session`; after the largest the count
/// starts again.
pub open spec fn following(session: u64) -> u64 {
    if session == u64::MAX {
        0
    } else {
        (session + 1) as u64
    }
}

/// The state after `command`, and the handle that is to be terminated.
pub open spec fn apply<H>(c: ControllerState<H>, command: Command<H>) -> (
    ControllerState<H>,
    Option<H>,
) {
    match command {
        Command::Begin => (ControllerState { occupant: None, ..c }, handle_of(c.occupant)),
        Command::Install(handle) => (
            ControllerState {
                occupant: Some((c.next_session, handle)),
                next_session: following(c.next_session),
            },
            handle_of(c.occupant),
        ),
        Command::Cancel => (ControllerState { occupant: None, ..c }, handle_of(c.occupant)),
        Command::CapReached(session) => (
            ControllerState { occupant: left_by(c.occupant, session), ..c },
            taken_by(c.occupant, session),
        ),
    }
}

/// `handle` as a sequence: one item, or none.
pub open spec fn seq_of<H>(handle: Option<H>) -> Seq<H> {
    match handle {
        Some(handle) => seq![handle],
        None => Seq::empty(),
    }
}

/// The state after `commands`, taken in order from `c`, and the handles that
/// were to be terminated, in order.
pub open spec fn run_commands<H>(c: ControllerState<H>, commands: Seq<Command<H>>) -> (
    ControllerState<H>,
    Seq<H>,
)
    decreases commands.len(),
{
    if commands.len() == 0 {
        (c, Seq::empty())
    } else {
        let before = run_commands(c, commands.drop_last());
        let last = apply(before.0, commands.last());
        (last.0, before.1 + seq_of(last.1))
    }
}

/// The handles that `commands` install, in order.
pub open spec fn installed<H>(commands: Seq<Command<H>>) -> Seq<H>
    decreases commands.len(),
{
    if commands.len() == 0 {
        Seq::empty()
    } else {
        let before = installed(commands.drop_last());
        match commands.last() {
            Command::Install(handle) => before.push(handle),
            _ => before,
        }
    }
}

/// One search at a time: whatever is asked of a controller, and in whatever
/// order, the handles that were ever in its care (the one it held at first and
/// those installed since) are, in the same order, the handles that it handed
/// out to be terminated, followed by the one it still holds. So no handle is
/// handed out twice, none is dropped, and those not yet handed out are at most
/// one: the current search.
pub proof fn law_one_search_at_a_time<H>(c: ControllerState<H>, commands: Seq<Command<H>>)
    ensures
        ({
            let (end, terminated) = run_commands(c, commands);
            &&& seq_of(handle_of(c.occupant)) + installed(commands) == terminated + seq_of(
                handle_of(end.occupant),
            )
            &&& seq_of(handle_of(end.occupant)).len() <= 1
        }),
    decreases commands.len(),
{
    let held = seq_of(handle_of(c.occupant));
    if commands.len() == 0 {
        assert(held + installed(commands) =~= Seq::<H>::empty() + held);
    } else {
        let init = commands.drop_last();
        law_one_search_at_a_time(c, init);
        let (mid, before) = run_commands(c, init);
        let (end, out) = apply(mid, commands.last());
        let kept = seq_of(handle_of(end.occupant));
        assert(held + installed(init) == before + seq_of(handle_of(mid.occupant)));
        match commands.last() {
            Command::Install(handle) => {
                assert(held + installed(init).push(handle) =~= (held + installed(init)).push(
                    handle,
                ));
                assert((before + seq_of(handle_of(mid.occupant))).push(handle) =~= (before
                    + seq_of(out)) + kept);
            },
            _ => {
                assert(before + seq_of(handle_of(mid.occupant)) =~= (before + seq_of(out))
                    + kept);
            },
        }
    }
}

/// Cancelling is idempotent: a second cancellation in a row, or one when no
/// search is current, hands out nothing and changes nothing.
pub proof fn law_cancel_idempotent<H>(c: ControllerState<H>)
    ensures
        ({
            let (once, first) = apply(c, Command::Cancel);
            let (twice, second) = apply(once, Command::Cancel);
            &&& once.occupant is None
            &&& first == handle_of(c.occupant)
            &&& twice == once
            &&& second is None
            &&& c.occupant is None ==> once == c && first is None
        }),
{
}

/// Decides which search is current.
#[derive(Debug)]
pub struct SearchController<H> {
    slot: SearchSlot<H>,
    next_session: u64,
}

impl<H> View for SearchController<H> {
    type V = ControllerState<H>;

    closed spec fn view(&self) -> ControllerState<H> {
        ControllerState { occupant: self.slot@, next_session: self.next_session }
    }
}

impl<H> SearchController<H> {
    /// A controller with no search.
    pub fn new() -> (controller: SearchController<H>)
        ensures
            controller@ == (ControllerState::<H> { occupant: None, next_session: 0 }),
    {
        SearchController { slot: SearchSlot::new(), next_session: 0 }
    }

    /// First step of starting a search: hands out the current handle, if
    /// there is one, to be terminated before the new process is spawned.
    pub fn begin_search(&mut self) -> (evicted: Option<H>)
        ensures
            (final(self)@, evicted) == apply(old(self)@, Command::Begin),
    {
        match self.slot.take() {
            Some((_, handle)) => Some(handle),
            None => None,
        }
    }

    /// Second step of starting a search: makes `handle` the current one and
    /// returns the number of its session. Hands out the handle that was
    /// current, if another search got in since the first step, to be
    /// terminated.
    pub fn install_search(&mut self, handle: H) -> (installed: (u64, Option<H>))
        ensures
            installed.0 == old(self)@.next_session,
            (final(self)@, installed.1) == apply(old(self)@, Command::Install(handle)),
    {
        let session: u64 = self.next_session;
        self.next_session = if session == u64::MAX {
            0
        } else {
            session + 1
        };
        match self.slot.replace(Some((session, handle))) {
            Some((_, displaced)) => (session, Some(displaced)),
            None => (session, None),
        }
    }

    /// Hands out the current handle, if there is one, to be terminated. With
    /// no search there is nothing to do, and that is no error.
    pub fn cancel_search(&mut self) -> (cancelled: Option<H>)
        ensures
            (final(self)@, cancelled) == apply(old(self)@, Command::Cancel),
    {
        match self.slot.take() {
            Some((_, handle)) => Some(handle),
            None => None,
        }
    }

    /// The session `session` has reached the match cap: hands out its handle
    /// to be terminated, unless it is no longer the current one.
    pub fn match_cap_reached(&mut self, session: u64) -> (capped: Option<H>)
        ensures
            (final(self)@, capped) == apply(old(self)@, Command::CapReached(session)),
    {
        self.slot.take_if_current(session)
    }

    /// The number of the current session.
    pub fn current_session(&self) -> (session: Option<u64>)
        ensures
            session == match self@.occupant {
                Some((id, handle)) => Some(id),
                None => None,
            },
    {
        self.slot.current_session()
    }
}

} // verus!
