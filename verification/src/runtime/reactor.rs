//! The timer service: an ordered deadline-to-waker structure that tolerates
//! equal deadlines and fires each waker once, when its deadline has passed.
//!
//! New registrations wait in a queue and join the ordered timers once per
//! cycle. Time is a count of clock units since an origin that the caller
//! fixes. A waker is the number under which the caller finds the task to
//! wake again.

use crossbeam::queue::SegQueue;
use vstd::prelude::*;

verus! {

/// One timer registration: wake `waker` once the clock reaches `deadline`.
#[derive(Clone, Copy, Debug, PartialEq, Eq, Structural)]
pub struct TimerEntry {
    pub deadline: u64,
    pub waker: u64,
}

/// How long the reactor may sleep after a cycle. Either way it must be woken
/// when a registration arrives.
#[derive(Clone, Copy, Debug, PartialEq, Eq, Structural)]
pub enum Park {
    /// No timer is left.
    Indefinitely,
    /// The earliest timer left is due after this many clock units.
    Timeout(u64),
}

/// What one cycle of the reactor decides.
#[derive(Debug)]
pub struct Cycle {
    /// The wakers to invoke now, earliest deadline first.
    pub wake: Vec<u64>,
    /// How long to sleep afterwards.
    pub park: Park,
    /// The deadline that the sleep runs towards: that of the earliest timer
    /// left, if one is left.
    pub until: Option<u64>,
}

/// `crossbeam::queue::SegQueue`: an unbounded queue.
#[verifier::external_type_specification]
#[verifier::external_body]
#[verifier::reject_recursive_types(T)]
pub struct ExSegQueue<T>(SegQueue<T>);

/// What a `SegQueue` of registrations holds, the element that `pop` takes
/// next at the front.
pub uninterp spec fn queued(inbox: SegQueue<TimerEntry>) -> Seq<TimerEntry>;

/// `SegQueue::new`: a queue that holds nothing.
#[verifier::external_body]
fn inbox_new() -> (inbox: SegQueue<TimerEntry>)
    ensures
        queued(inbox) == Seq::<TimerEntry>::empty(),
{
    SegQueue::new()
}

/// `SegQueue::push`: the element joins the queue at its tail, behind all that
/// it holds. The queue is borrowed exclusively, so nothing else joins or
/// leaves meanwhile.
#[verifier::external_body]
fn inbox_push(inbox: &mut SegQueue<TimerEntry>, entry: TimerEntry)
    ensures
        queued(*final(inbox)) == queued(*old(inbox)).push(entry),
{
    inbox.push(entry)
}

/// `SegQueue::pop`: the element at the head leaves the queue and is returned;
/// an empty queue returns nothing and stays empty. The queue is borrowed
/// exclusively, so nothing else joins or leaves meanwhile.
#[verifier::external_body]
fn inbox_pop(inbox: &mut SegQueue<TimerEntry>) -> (head: Option<TimerEntry>)
    ensures
        queued(*old(inbox)).len() == 0 ==> head is None && queued(*final(inbox)) == queued(
            *old(inbox),
        ),
        queued(*old(inbox)).len() > 0 ==> head == Some(queued(*old(inbox))[0]) && queued(
            *final(inbox),
        ) == queued(*old(inbox)).skip(1),
{
    inbox.pop()
}

/// The registration that wakes `waker` when `dur` clock units have passed
/// since `now`. The caller hands it to the reactor and unparks it.
pub fn sleep(now: u64, dur: u64, waker: u64) -> (entry: TimerEntry)
    requires
        now + dur <= u64::MAX,
    ensures
        entry.deadline == now + dur,
        entry.waker == waker,
{
    TimerEntry { deadline: now + dur, waker }
}

/// Whether a reactor that sleeps must be woken for a new registration. It
/// must where it sleeps with no deadline, and where the new deadline is
/// earlier than the one it sleeps towards: else the new timer fires late.
pub fn must_unpark(parked_until: Option<u64>, entry: TimerEntry) -> (wake: bool)
    ensures
        wake == (parked_until is None || entry.deadline < parked_until->0),
{
    match parked_until {
        None => true,
        Some(deadline) => entry.deadline < deadline,
    }
}

/// The timers are in the order of their deadlines.
pub open spec fn ordered(timers: Seq<TimerEntry>) -> bool {
    forall|i: int, j: int| 0 <= i < j < timers.len() ==> timers[i].deadline <= timers[j].deadline
}

/// The number of timers at the front of `timers` that are due at `at`: the
/// place behind the last timer whose deadline is not after `at`.
pub open spec fn due_count(timers: Seq<TimerEntry>, at: u64) -> int
    decreases timers.len(),
{
    if timers.len() == 0 {
        0
    } else if timers.last().deadline <= at {
        timers.len() as int
    } else {
        due_count(timers.drop_last(), at)
    }
}

/// `timers` with `entry` put in by its deadline, behind every timer of the
/// same deadline.
pub open spec fn with_entry(timers: Seq<TimerEntry>, entry: TimerEntry) -> Seq<TimerEntry> {
    timers.insert(due_count(timers, entry.deadline), entry)
}

/// `timers` with every entry of `incoming` put in, in the order of arrival.
pub open spec fn with_all(timers: Seq<TimerEntry>, incoming: Seq<TimerEntry>) -> Seq<TimerEntry>
    decreases incoming.len(),
{
    if incoming.len() == 0 {
        timers
    } else {
        with_entry(with_all(timers, incoming.drop_last()), incoming.last())
    }
}

/// The wakers of `timers`, in their order.
pub open spec fn wakers_of(timers: Seq<TimerEntry>) -> Seq<u64> {
    Seq::new(timers.len(), |i: int| timers[i].waker)
}

/// The deadline of the earliest of `timers`, if there is one.
pub open spec fn first_deadline(timers: Seq<TimerEntry>) -> Option<u64> {
    if timers.len() == 0 {
        None
    } else {
        Some(timers[0].deadline)
    }
}

/// How long to sleep at `now` with `timers` left, none of them due.
pub open spec fn park_for(timers: Seq<TimerEntry>, now: u64) -> Park {
    if timers.len() == 0 {
        Park::Indefinitely
    } else {
        Park::Timeout((timers[0].deadline - now) as u64)
    }
}

/// In ordered timers the due ones stand at the front: every timer before the
/// due count is due at `at`, and none from there on.
pub proof fn lemma_due_count_splits(timers: Seq<TimerEntry>, at: u64)
    requires
        ordered(timers),
    ensures
        0 <= due_count(timers, at) <= timers.len(),
        forall|i: int| 0 <= i < due_count(timers, at) ==> (#[trigger] timers[i]).deadline <= at,
        forall|i: int|
            due_count(timers, at) <= i < timers.len() ==> (#[trigger] timers[i]).deadline > at,
    decreases timers.len(),
{
    if timers.len() > 0 {
        let head = timers.drop_last();
        assert(ordered(head)) by {
            assert forall|i: int, j: int| 0 <= i < j < head.len() implies head[i].deadline
                <= head[j].deadline by {
                assert(timers[i].deadline <= timers[j].deadline);
            }
        }
        lemma_due_count_splits(head, at);
        if timers.last().deadline <= at {
            assert forall|i: int| 0 <= i < timers.len() implies (#[trigger] timers[i]).deadline
                <= at by {
                if i < timers.len() - 1 {
                    assert(timers[i].deadline <= timers[timers.len() - 1].deadline);
                }
            }
        } else {
            assert forall|i: int| due_count(timers, at) <= i < timers.len() implies (
            #[trigger] timers[i]).deadline > at by {
                if i < timers.len() - 1 {
                    assert(head[i].deadline > at);
                }
            }
            assert forall|i: int| 0 <= i < due_count(timers, at) implies (
            #[trigger] timers[i]).deadline <= at by {
                assert(head[i].deadline <= at);
            }
        }
    }
}

/// Putting a timer in keeps the order, loses none and adds no other.
pub proof fn lemma_with_entry_ordered(timers: Seq<TimerEntry>, entry: TimerEntry)
    requires
        ordered(timers),
    ensures
        ordered(with_entry(timers, entry)),
        with_entry(timers, entry).len() == timers.len() + 1,
        with_entry(timers, entry).to_multiset() == timers.to_multiset().insert(entry),
{
    lemma_due_count_splits(timers, entry.deadline);
    let at = due_count(timers, entry.deadline);
    let next = with_entry(timers, entry);
    assert forall|i: int, j: int| 0 <= i < j < next.len() implies next[i].deadline
        <= next[j].deadline by {
        if j < at {
            assert(timers[i].deadline <= timers[j].deadline);
        } else if j == at {
            assert(timers[i].deadline <= entry.deadline);
        } else if i < at {
            assert(timers[i].deadline <= entry.deadline);
            assert(timers[j - 1].deadline > entry.deadline);
        } else if i == at {
            assert(timers[j - 1].deadline > entry.deadline);
        } else {
            assert(timers[i - 1].deadline <= timers[j - 1].deadline);
        }
    }
    vstd::seq_lib::to_multiset_insert(timers, at, entry);
}

/// The reactor: the timers, earliest deadline first, and among equal
/// deadlines the one registered first in front; and the registrations that
/// arrived since the last cycle.
#[derive(Debug)]
pub struct Reactor {
    inbox: SegQueue<TimerEntry>,
    timers: Vec<TimerEntry>,
}

impl View for Reactor {
    type V = Seq<TimerEntry>;

    closed spec fn view(&self) -> Seq<TimerEntry> {
        self.timers@
    }
}

impl Reactor {
    /// The timers are in the order of their deadlines.
    pub open spec fn wf(&self) -> bool {
        ordered(self@)
    }

    /// The registrations that arrived since the last cycle, in the order of
    /// arrival.
    pub closed spec fn arrived(&self) -> Seq<TimerEntry> {
        queued(self.inbox)
    }

    /// A reactor with no timer.
    pub fn new() -> (reactor: Reactor)
        ensures
            reactor.wf(),
            reactor@ == Seq::<TimerEntry>::empty(),
            reactor.arrived() == Seq::<TimerEntry>::empty(),
    {
        Reactor { inbox: inbox_new(), timers: Vec::new() }
    }

    /// How many timers wait, those that arrived since the last cycle not
    /// counted.
    pub fn len(&self) -> (n: usize)
        ensures
            n == self@.len(),
    {
        self.timers.len()
    }

    fn due_at(&self, at: u64) -> (count: usize)
        requires
            self.wf(),
        ensures
            count == due_count(self@, at),
            count <= self@.len(),
    {
        let mut count: usize = self.timers.len();
        assert(self.timers@.subrange(0, count as int) =~= self.timers@);
        while count > 0 && self.timers[count - 1].deadline > at
            invariant
                count <= self.timers@.len(),
                due_count(self.timers@, at) == due_count(self.timers@.subrange(0, count as int), at),
            decreases count,
        {
            assert(self.timers@.subrange(0, count as int).drop_last() =~= self.timers@.subrange(
                0,
                count - 1,
            ));
            count = count - 1;
        }
        count
    }

    fn merge(&mut self, entry: TimerEntry)
        requires
            old(self).wf(),
        ensures
            final(self).wf(),
            final(self)@ == with_entry(old(self)@, entry),
            final(self).arrived() == old(self).arrived(),
    {
        let at = self.due_at(entry.deadline);
        proof {
            lemma_with_entry_ordered(self@, entry);
        }
        self.timers.insert(at, entry);
    }

    /// Registers a timer: it waits with the arrivals and joins the timers at
    /// the next cycle. A deadline that other timers share is accepted.
    pub fn register(&mut self, entry: TimerEntry)
        ensures
            final(self)@ == old(self)@,
            final(self).arrived() == old(self).arrived().push(entry),
    {
        inbox_push(&mut self.inbox, entry);
    }

    /// One cycle at clock time `now`: takes in the registrations that arrived
    /// since the last cycle, in their order; parts the timers that are due
    /// from the rest; hands out the wakers of the due ones, earliest deadline
    /// first and equal deadlines in the order of registration; and says how
    /// long to sleep. A timer is due when its deadline is not after `now`.
    pub fn cycle(&mut self, now: u64) -> (cycle: Cycle)
        requires
            old(self).wf(),
        ensures
            final(self).wf(),
            final(self).arrived() == Seq::<TimerEntry>::empty(),
            ({
                let all = with_all(old(self)@, old(self).arrived());
                let due = due_count(all, now);
                &&& cycle.wake@ == wakers_of(all.subrange(0, due))
                &&& final(self)@ == all.subrange(due, all.len() as int)
                &&& cycle.park == park_for(final(self)@, now)
                &&& cycle.until == first_deadline(final(self)@)
            }),
    {
        let ghost incoming = self.arrived();
        let ghost mut taken: int = 0;
        assert(incoming.subrange(0, 0) =~= Seq::<TimerEntry>::empty());
        assert(incoming.skip(0) =~= incoming);
        loop
            invariant
                self.wf(),
                incoming == old(self).arrived(),
                0 <= taken <= incoming.len(),
                self.arrived() == incoming.skip(taken),
                self@ == with_all(old(self)@, incoming.subrange(0, taken)),
            ensures
                taken == incoming.len(),
            decreases incoming.len() - taken,
        {
            match inbox_pop(&mut self.inbox) {
                None => {
                    break ;
                },
                Some(entry) => {
                    self.merge(entry);
                    proof {
                        assert(entry == incoming[taken]);
                        assert(incoming.subrange(0, taken + 1).drop_last() =~= incoming.subrange(
                            0,
                            taken,
                        ));
                        assert(incoming.skip(taken).skip(1) =~= incoming.skip(taken + 1));
                        taken = taken + 1;
                    }
                },
            }
        }
        assert(taken == incoming.len());
        assert(incoming.subrange(0, taken) =~= incoming);
        assert(self.arrived() =~= Seq::<TimerEntry>::empty());
        let ghost all = self@;
        let due = self.due_at(now);
        proof {
            lemma_due_count_splits(all, now);
        }
        let rest = self.timers.split_off(due);
        let mut wake: Vec<u64> = Vec::new();
        let mut i: usize = 0;
        while i < due
            invariant
                i <= due,
                due == self.timers@.len(),
                wake@.len() == i,
                forall|j: int| 0 <= j < i ==> wake@[j] == self.timers@[j].waker,
            decreases due - i,
        {
            wake.push(self.timers[i].waker);
            i = i + 1;
        }
        assert(self.timers@ =~= all.subrange(0, due as int));
        assert(wake@ =~= wakers_of(all.subrange(0, due as int)));
        self.timers = rest;
        assert(self.timers@ =~= all.subrange(due as int, all.len() as int));
        assert(ordered(self.timers@)) by {
            assert forall|a: int, b: int| 0 <= a < b < self.timers@.len() implies self.timers@[a].deadline
                <= self.timers@[b].deadline by {
                assert(all[due + a].deadline <= all[due + b].deadline);
            }
        }
        if self.timers.len() == 0 {
            Cycle { wake, park: Park::Indefinitely, until: None }
        } else {
            assert(all[due as int].deadline > now);
            let deadline = self.timers[0].deadline;
            Cycle { wake, park: Park::Timeout(deadline - now), until: Some(deadline) }
        }
    }
}

/// A cycle never wakes a timer before its deadline, and never keeps one whose
/// deadline has passed: of ordered timers, those handed out at `now` are
/// exactly those whose deadline is not after `now`, and together with those
/// that stay they are the timers there were, each once.
pub proof fn lemma_wakes_on_time(timers: Seq<TimerEntry>, now: u64)
    requires
        ordered(timers),
    ensures
        ({
            let due = timers.subrange(0, due_count(timers, now));
            let rest = timers.subrange(due_count(timers, now), timers.len() as int);
            &&& due + rest == timers
            &&& forall|i: int| 0 <= i < due.len() ==> (#[trigger] due[i]).deadline <= now
            &&& forall|i: int| 0 <= i < rest.len() ==> (#[trigger] rest[i]).deadline > now
        }),
{
    lemma_due_count_splits(timers, now);
    let k = due_count(timers, now);
    assert(timers.subrange(0, k) + timers.subrange(k, timers.len() as int) =~= timers);
    assert forall|i: int| 0 <= i < timers.subrange(0, k).len() implies (#[trigger] timers.subrange(
        0,
        k,
    )[i]).deadline <= now by {
        assert(timers[i].deadline <= now);
    }
    assert forall|i: int| 0 <= i < timers.subrange(k, timers.len() as int).len() implies (
    #[trigger] timers.subrange(k, timers.len() as int)[i]).deadline > now by {
        assert(timers[k + i].deadline > now);
    }
}

/// A coroutine that goes to sleep for `dur` at `start` is not woken by any
/// cycle that runs less than `dur` later: none of the timers that such a
/// cycle hands out is due as late as the sleep, and the timer of the sleep
/// stays among those that wait.
pub proof fn lemma_sleep_is_not_cut_short(
    timers: Seq<TimerEntry>,
    start: u64,
    dur: u64,
    waker: u64,
    now: u64,
)
    requires
        ordered(timers),
        start + dur <= u64::MAX,
        now < start + dur,
    ensures
        ({
            let entry = TimerEntry { deadline: (start + dur) as u64, waker };
            let all = with_entry(timers, entry);
            let due = due_count(all, now);
            &&& forall|i: int| 0 <= i < due ==> (#[trigger] all[i]).deadline < start + dur
            &&& exists|j: int| due <= j < all.len() && all[j] == entry
        }),
{
    let entry = TimerEntry { deadline: (start + dur) as u64, waker };
    let all = with_entry(timers, entry);
    let at = due_count(timers, entry.deadline);
    lemma_due_count_splits(timers, entry.deadline);
    lemma_with_entry_ordered(timers, entry);
    lemma_due_count_splits(all, now);
    assert(all[at] == entry);
    assert(due_count(all, now) <= at) by {
        if at < due_count(all, now) {
            assert(all[at].deadline <= now);
        }
    }
}

} // verus!
