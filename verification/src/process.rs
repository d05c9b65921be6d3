//! The handle of a search process.
//!
//! A handle keeps the process, of a type `P` that only its owner can act on,
//! the process's output, of a type `S`, until it is taken, and whether the
//! process was asked to terminate.

use vstd::prelude::*;
use crate::error::SearchError;

verus! {

/// One spawned process with its output.
#[derive(Debug)]
pub struct ProcessHandle<P, S> {
    process: P,
    output: Option<S>,
    terminated: bool,
}

impl<P, S> ProcessHandle<P, S> {
    /// The process.
    pub closed spec fn process(&self) -> P {
        self.process
    }

    /// The output, as long as nobody took it.
    pub closed spec fn output(&self) -> Option<S> {
        self.output
    }

    /// Whether the process was asked to terminate.
    pub closed spec fn terminated(&self) -> bool {
        self.terminated
    }

    /// The handle of a process that was just spawned; `output` is its piped
    /// output, if it has one.
    pub fn new(process: P, output: Option<S>) -> (handle: ProcessHandle<P, S>)
        ensures
            handle.process() == process,
            handle.output() == output,
            !handle.terminated(),
    {
        ProcessHandle { process, output, terminated: false }
    }

    /// Hands the output over, once: fails where it was taken before, or where
    /// the process has none.
    pub fn take_output_stream(&mut self) -> (stream: Result<S, SearchError>)
        ensures
            final(self).process() == old(self).process(),
            final(self).terminated() == old(self).terminated(),
            final(self).output() is None,
            match old(self).output() {
                Some(output) => stream == Ok::<S, SearchError>(output),
                None => stream == Err::<S, SearchError>(SearchError::StreamAcquisition),
            },
    {
        match self.output.take() {
            Some(output) => Ok(output),
            None => Err(SearchError::StreamAcquisition),
        }
    }

    /// Marks the process as asked to terminate, and says whether the signal is
    /// still to be sent: `true` the first time, `false` from then on.
    pub fn terminate(&mut self) -> (due: bool)
        ensures
            due == !old(self).terminated(),
            final(self).terminated(),
            final(self).process() == old(self).process(),
            final(self).output() == old(self).output(),
    {
        let due = !self.terminated;
        self.terminated = true;
        due
    }

    /// Whether the process was asked to terminate.
    pub fn is_terminated(&self) -> (terminated: bool)
        ensures
            terminated == self.terminated(),
    {
        self.terminated
    }

    /// Whether the output is still there to take.
    pub fn has_output(&self) -> (present: bool)
        ensures
            present == self.output() is Some,
    {
        self.output.is_some()
    }

    /// The process, to act on it.
    pub fn process_mut(&mut self) -> (process: &mut P)
        ensures
            *process == old(self).process(),
            final(self).process() == *final(process),
            final(self).output() == old(self).output(),
            final(self).terminated() == old(self).terminated(),
    {
        &mut self.process
    }

    /// Gives up the handle for the process.
    pub fn into_process(self) -> (process: P)
        ensures
            process == self.process(),
    {
        self.process
    }
}

} // verus!
