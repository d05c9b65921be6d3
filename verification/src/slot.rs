//! The slot that holds the one search that is current.
//!
//! The slot holds nothing but the handle that was put in and the number of the
//! session it belongs to. Whoever takes a handle out owns it, and terminates
//! it. Where several threads share a slot, they share it behind a lock and
//! hold the lock for one call.

use vstd::prelude::*;

verus! {

/// A single place for the handle of the current search, kept with the number
/// of its session.
#[derive(Debug)]
pub struct SearchSlot<H> {
    current: Option<(u64, H)>,
}

impl<H> View for SearchSlot<H> {
    type V = Option<(u64, H)>;

    closed spec fn view(&self) -> Option<(u64, H)> {
        self.current
    }
}

/// What `take_if_current` leaves in a slot that held `occupant`.
pub open spec fn left_by<H>(occupant: Option<(u64, H)>, session: u64) -> Option<(u64, H)> {
    match occupant {
        Some((id, handle)) if id == session => None,
        _ => occupant,
    }
}

/// What `take_if_current` hands out of a slot that held `occupant`.
pub open spec fn taken_by<H>(occupant: Option<(u64, H)>, session: u64) -> Option<H> {
    match occupant {
        Some((id, handle)) if id == session => Some(handle),
        _ => None,
    }
}

impl<H> SearchSlot<H> {
    /// An empty slot.
    pub fn new() -> (slot: SearchSlot<H>)
        ensures
            slot@ is None,
    {
        SearchSlot { current: None }
    }

    /// Puts `occupant` in and hands out what the slot held.
    pub fn replace(&mut self, occupant: Option<(u64, H)>) -> (previous: Option<(u64, H)>)
        ensures
            previous == old(self)@,
            final(self)@ == occupant,
    {
        let mut previous = occupant;
        std::mem::swap(&mut self.current, &mut previous);
        previous
    }

    /// Empties the slot and hands out what it held.
    pub fn take(&mut self) -> (previous: Option<(u64, H)>)
        ensures
            previous == old(self)@,
            final(self)@ is None,
    {
        self.replace(None)
    }

    /// Hands out the handle if it is the one of `session`, and leaves the slot
    /// as it is otherwise.
    pub fn take_if_current(&mut self, session: u64) -> (handle: Option<H>)
        ensures
            handle == taken_by(old(self)@, session),
            final(self)@ == left_by(old(self)@, session),
    {
        match self.take() {
            Some((id, handle)) => {
                if id == session {
                    Some(handle)
                } else {
                    self.current = Some((id, handle));
                    None
                }
            },
            None => None,
        }
    }

    /// The session whose handle the slot holds.
    pub fn current_session(&self) -> (session: Option<u64>)
        ensures
            session == match self@ {
                Some((id, handle)) => Some(id),
                None => None,
            },
    {
        match &self.current {
            Some((id, _)) => Some(*id),
            None => None,
        }
    }
}

} // verus!
