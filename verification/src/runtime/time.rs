//! Sleeping as a pollable computation.

use vstd::prelude::*;
use super::reactor;
use super::reactor::TimerEntry;

verus! {

/// What a poll returns.
#[derive(Clone, Copy, Debug, PartialEq, Eq, Structural)]
pub enum Poll {
    Ready,
    Pending,
}

/// A sleep of a fixed duration. Its first poll registers a timer and is
/// pending; the poll after the timer fired is ready.
#[derive(Clone, Copy, Debug, PartialEq, Eq, Structural)]
pub struct SleepFuture {
    pub started: bool,
    pub duration: u64,
}

/// A sleep of `duration` clock units, counted from its first poll.
pub fn sleep(duration: u64) -> (future: SleepFuture)
    ensures
        future == (SleepFuture { started: false, duration }),
{
    SleepFuture { started: false, duration }
}

impl SleepFuture {
    /// Polls the sleep at clock time `now` on behalf of the task that `waker`
    /// wakes. The first poll starts the sleep: it is pending and hands back
    /// the timer to register, due `duration` after `now`. Every later poll is
    /// ready and registers nothing.
    pub fn poll(&mut self, now: u64, waker: u64) -> (r: (Poll, Option<TimerEntry>))
        requires
            !old(self).started ==> now + old(self).duration <= u64::MAX,
        ensures
            final(self).started,
            final(self).duration == old(self).duration,
            !old(self).started ==> r.0 == Poll::Pending && r.1 == Some(
                TimerEntry { deadline: (now + old(self).duration) as u64, waker },
            ),
            old(self).started ==> r.0 == Poll::Ready && r.1 is None,
    {
        if !self.started {
            let entry = reactor::sleep(now, self.duration, waker);
            self.started = true;
            (Poll::Pending, Some(entry))
        } else {
            (Poll::Ready, None)
        }
    }
}

} // verus!
