//! Blocking work, run on a worker and awaited on the scheduling thread.

use vstd::prelude::*;

verus! {

/// What a poll of blocking work asks of the caller.
#[derive(Clone, Copy, Debug, PartialEq, Eq, Structural)]
pub enum Unblock {
    /// Hand the work to a worker, which sends the result back and wakes the
    /// task; the poll is pending.
    Start,
    /// The work is under way; the poll is pending.
    Running,
    /// The result has arrived: take it; the poll is ready.
    Take,
}

/// Blocking work that runs once on a worker. Its first poll starts it; the
/// poll that finds the result ready takes it.
#[derive(Clone, Copy, Debug, PartialEq, Eq, Structural)]
pub struct UnblockFuture {
    pub started: bool,
}

/// Blocking work that has not been started.
pub fn unblock() -> (future: UnblockFuture)
    ensures
        !future.started,
{
    UnblockFuture { started: false }
}

impl UnblockFuture {
    /// Polls the work. `arrived` says whether the worker's result is there.
    /// The work is started at most once, and never after its result arrived.
    pub fn poll(&mut self, arrived: bool) -> (step: Unblock)
        ensures
            arrived ==> step == Unblock::Take && final(self).started == old(self).started,
            !arrived && !old(self).started ==> step == Unblock::Start && final(self).started,
            !arrived && old(self).started ==> step == Unblock::Running && final(self).started,
    {
        if arrived {
            Unblock::Take
        } else if !self.started {
            self.started = true;
            Unblock::Start
        } else {
            Unblock::Running
        }
    }
}

} // verus!
