//! The cooperative task executor and its timer service.
//!
//! The executor decides; it does not poll. A task is a number: the caller
//! keeps the suspended computation under it, polls it when the executor says
//! so, and reports what the poll returned.

use std::collections::VecDeque;
use vstd::prelude::*;

pub mod reactor;
pub mod time;
pub mod util;

verus! {

/// What the run loop does next.
#[derive(Clone, Copy, Debug, PartialEq, Eq, Structural)]
pub enum Dispatch {
    /// No task is pending: the run is over, whatever the ready queue holds.
    Finished,
    /// Poll the task of this number, and tell [`Executor::polled`] the outcome.
    Poll(u64),
    /// Tasks are pending and none is ready: block until a waker fires, hand
    /// the wake to [`Executor::wake`], and ask again.
    Wait,
}

/// The place of the first task in `queue` that is pending, or the length of
/// `queue` where none is.
pub open spec fn first_pending(queue: Seq<u64>, pending: Set<u64>) -> int
    decreases queue.len(),
{
    if queue.len() == 0 {
        0
    } else if pending.contains(queue[0]) {
        0
    } else {
        1 + first_pending(queue.skip(1), pending)
    }
}

/// What the run loop does next with this ready queue and these pending tasks.
pub open spec fn dispatch_of(queue: Seq<u64>, pending: Set<u64>) -> Dispatch {
    if pending.len() == 0 {
        Dispatch::Finished
    } else if first_pending(queue, pending) < queue.len() {
        Dispatch::Poll(queue[first_pending(queue, pending)])
    } else {
        Dispatch::Wait
    }
}

/// The ready queue after the run loop took its next step.
pub open spec fn queue_after_dispatch(queue: Seq<u64>, pending: Set<u64>) -> Seq<u64> {
    if pending.len() == 0 {
        queue
    } else if first_pending(queue, pending) < queue.len() {
        queue.skip(first_pending(queue, pending) + 1)
    } else {
        Seq::empty()
    }
}

/// The first pending task stands within the queue, is pending, and no task
/// before it is.
pub proof fn lemma_first_pending(queue: Seq<u64>, pending: Set<u64>)
    ensures
        0 <= first_pending(queue, pending) <= queue.len(),
        first_pending(queue, pending) < queue.len() ==> pending.contains(
            queue[first_pending(queue, pending)],
        ),
        forall|i: int| 0 <= i < first_pending(queue, pending) ==> !pending.contains(#[trigger] queue[i]),
    decreases queue.len(),
{
    if queue.len() > 0 && !pending.contains(queue[0]) {
        let rest = queue.skip(1);
        lemma_first_pending(rest, pending);
        assert forall|i: int| 0 <= i < first_pending(queue, pending) implies !pending.contains(
            #[trigger] queue[i],
        ) by {
            if i > 0 {
                assert(rest[i - 1] == queue[i]);
            }
        }
    }
}

/// The executor: a first-in first-out queue of ready tasks, and the set of
/// tasks that are pending, that is, begun and not yet complete.
pub struct Executor {
    queue: VecDeque<u64>,
    pending: Vec<u64>,
    issued: u64,
    polls: Ghost<Seq<u64>>,
}

impl Executor {
    /// No task is held as pending twice, and every pending task was issued.
    pub closed spec fn wf(&self) -> bool {
        &&& self.pending@.no_duplicates()
        &&& forall|i: int| 0 <= i < self.pending@.len() ==> self.pending@[i] < self.issued
        &&& forall|i: int| 0 <= i < self.queue@.len() ==> self.queue@[i] < self.issued
    }

    /// The ready queue, the task to poll next at the front.
    pub closed spec fn queue(&self) -> Seq<u64> {
        self.queue@
    }

    /// The tasks that are pending.
    pub closed spec fn pending(&self) -> Set<u64> {
        self.pending@.to_set()
    }

    /// How many tasks were issued so far; the next task gets this number.
    pub closed spec fn issued(&self) -> nat {
        self.issued as nat
    }

    /// The polls that the executor has asked for so far, by task, in their
    /// order. A task is polled when the executor asks for it, and only then.
    pub closed spec fn polls(&self) -> Seq<u64> {
        self.polls@
    }

    /// The pending tasks are finitely many, and each of them was issued.
    pub proof fn lemma_pending_is_finite(&self)
        requires
            self.wf(),
        ensures
            self.pending().finite(),
            forall|id: u64| self.pending().contains(id) ==> id < self.issued(),
    {
        vstd::seq_lib::seq_to_set_is_finite(self.pending@);
    }

    /// An executor with nothing to do.
    pub fn new() -> (executor: Executor)
        ensures
            executor.wf(),
            executor.queue() == Seq::<u64>::empty(),
            executor.pending() == Set::<u64>::empty(),
            executor.issued() == 0,
            executor.polls() == Seq::<u64>::empty(),
    {
        let executor = Executor {
            queue: VecDeque::new(),
            pending: Vec::new(),
            issued: 0,
            polls: Ghost(Seq::empty()),
        };
        assert(executor.pending@.to_set() =~= Set::<u64>::empty());
        executor
    }

    /// Whether a further task can be begun: the task numbers are not used up.
    pub fn can_begin(&self) -> (room: bool)
        ensures
            room == (self.issued() < u64::MAX),
    {
        self.issued < u64::MAX
    }

    /// How many tasks are pending.
    pub fn pending_count(&self) -> (n: usize)
        requires
            self.wf(),
        ensures
            n == self.pending().len(),
    {
        proof {
            self.pending@.unique_seq_to_set();
        }
        self.pending.len()
    }

    fn position(&self, id: u64) -> (at: Option<usize>)
        ensures
            at is Some <==> self.pending().contains(id),
            at is Some ==> at->0 < self.pending@.len() && self.pending@[at->0 as int] == id,
    {
        let mut i: usize = 0;
        while i < self.pending.len()
            invariant
                i <= self.pending@.len(),
                forall|k: int| 0 <= k < i ==> self.pending@[k] != id,
            decreases self.pending@.len() - i,
        {
            if self.pending[i] == id {
                return Some(i);
            }
            i = i + 1;
        }
        None
    }

    /// Begins a task that the caller polls at once, inline. The task is not
    /// queued and not yet pending; the caller reports the outcome of that
    /// first poll with [`Executor::polled`], which makes it pending where it
    /// did not finish.
    pub fn spawn(&mut self) -> (id: u64)
        requires
            old(self).wf(),
            old(self).issued() < u64::MAX,
        ensures
            final(self).wf(),
            id == old(self).issued(),
            final(self).issued() == old(self).issued() + 1,
            final(self).queue() == old(self).queue(),
            final(self).pending() == old(self).pending(),
            !old(self).pending().contains(id),
            !old(self).queue().contains(id),
            final(self).polls() == old(self).polls().push(id),
    {
        let id = self.issued;
        assert(!self.queue@.contains(id)) by {
            if self.queue@.contains(id) {
                let k = choose|k: int| 0 <= k < self.queue@.len() && self.queue@[k] == id;
                assert(self.queue@[k] < self.issued);
            }
        }
        assert(!self.pending@.contains(id)) by {
            if self.pending@.contains(id) {
                let k = choose|k: int| 0 <= k < self.pending@.len() && self.pending@[k] == id;
                assert(self.pending@[k] < self.issued);
            }
        }
        self.issued = self.issued + 1;
        self.polls = Ghost(self.polls@.push(id));
        id
    }

    /// Begins a task that is not polled now, whatever the ready queue holds:
    /// no poll is asked for. The task is pending at once and goes to the back
    /// of the ready queue, so that it first runs when the run loop comes to
    /// it, after everything queued before.
    pub fn defer(&mut self) -> (id: u64)
        requires
            old(self).wf(),
            old(self).issued() < u64::MAX,
        ensures
            final(self).wf(),
            id == old(self).issued(),
            final(self).issued() == old(self).issued() + 1,
            final(self).queue() == old(self).queue().push(id),
            final(self).pending() == old(self).pending().insert(id),
            !old(self).pending().contains(id),
            !old(self).queue().contains(id),
            final(self).polls() == old(self).polls(),
    {
        let id = self.issued;
        assert(!self.queue@.contains(id)) by {
            if self.queue@.contains(id) {
                let k = choose|k: int| 0 <= k < self.queue@.len() && self.queue@[k] == id;
                assert(self.queue@[k] < self.issued);
            }
        }
        self.issued = self.issued + 1;
        self.queue.push_back(id);
        self.pending.push(id);
        proof {
            assert(self.pending@ =~= old(self).pending@ + seq![id]);
            Seq::lemma_to_set_insert_commutes(old(self).pending@, id);
            assert(!old(self).pending@.contains(id)) by {
                if old(self).pending@.contains(id) {
                    let k = choose|k: int|
                        0 <= k < old(self).pending@.len() && old(self).pending@[k] == id;
                    assert(old(self).pending@[k] < old(self).issued);
                }
            }
        }
        id
    }

    /// A waker of task `id` fired. A pending task goes to the back of the
    /// ready queue. A task that is complete, or was never begun, is left
    /// alone: a late wake is harmless.
    pub fn wake(&mut self, id: u64)
        requires
            old(self).wf(),
        ensures
            final(self).wf(),
            final(self).issued() == old(self).issued(),
            final(self).pending() == old(self).pending(),
            final(self).polls() == old(self).polls(),
            old(self).pending().contains(id) ==> final(self).queue() == old(self).queue().push(id),
            !old(self).pending().contains(id) ==> final(self).queue() == old(self).queue(),
    {
        match self.position(id) {
            Some(at) => {
                assert(self.pending@[at as int] < self.issued);
                self.queue.push_back(id);
            },
            None => {},
        }
    }

    /// Records what a poll of task `id` returned. A task that finished is no
    /// longer pending. A task that did not finish is pending from now on,
    /// where it was issued. The ready queue is not touched.
    pub fn polled(&mut self, id: u64, ready: bool)
        requires
            old(self).wf(),
        ensures
            final(self).wf(),
            final(self).issued() == old(self).issued(),
            final(self).queue() == old(self).queue(),
            final(self).polls() == old(self).polls(),
            ready ==> final(self).pending() == old(self).pending().remove(id),
            !ready && id < old(self).issued() ==> final(self).pending() == old(
                self,
            ).pending().insert(id),
            !ready && id >= old(self).issued() ==> final(self).pending() == old(self).pending(),
    {
        match self.position(id) {
            Some(at) => {
                if ready {
                    self.pending.remove(at);
                    proof {
                        let before = old(self).pending@;
                        let after = self.pending@;
                        assert(after =~= before.remove(at as int));
                        assert forall|x: u64| after.contains(x) <==> (before.contains(x) && x
                            != id) by {
                            if after.contains(x) {
                                let k = choose|k: int| 0 <= k < after.len() && after[k] == x;
                                let k0 = if k < at { k } else { k + 1 };
                                assert(before[k0] == x);
                            }
                            if before.contains(x) && x != id {
                                let k = choose|k: int| 0 <= k < before.len() && before[k] == x;
                                let k1 = if k < at { k } else { k - 1 };
                                assert(after[k1] == x);
                            }
                        }
                        assert(after.to_set() =~= before.to_set().remove(id));
                    }
                } else {
                    assert(self.pending@.to_set() =~= self.pending@.to_set().insert(id));
                }
            },
            None => {
                if !ready && id < self.issued {
                    self.pending.push(id);
                    proof {
                        assert(self.pending@ =~= old(self).pending@ + seq![id]);
                        Seq::lemma_to_set_insert_commutes(old(self).pending@, id);
                    }
                } else {
                    assert(self.pending@.to_set() =~= self.pending@.to_set().remove(id));
                }
            },
        }
    }

    /// The next step of the run loop. With no task pending the run is over.
    /// Otherwise the ready queue is taken from the front: wakes of tasks that
    /// are no longer pending are dropped, so that no task is polled after it
    /// finished, and the first pending task is handed out. Where the queue
    /// holds none, it is left empty and the caller waits for a wake.
    pub fn run(&mut self) -> (step: Dispatch)
        requires
            old(self).wf(),
        ensures
            final(self).wf(),
            final(self).issued() == old(self).issued(),
            final(self).pending() == old(self).pending(),
            step == dispatch_of(old(self).queue(), old(self).pending()),
            final(self).queue() == queue_after_dispatch(old(self).queue(), old(self).pending()),
            step is Poll ==> final(self).polls() == old(self).polls().push(step->Poll_0),
            !(step is Poll) ==> final(self).polls() == old(self).polls(),
    {
        proof {
            self.pending@.unique_seq_to_set();
        }
        if self.pending.len() == 0 {
            return Dispatch::Finished;
        }
        let ghost pending = self.pending();
        let ghost before = self.queue@;
        let ghost mut dropped: int = 0;
        loop
            invariant
                self.wf(),
                self.issued == old(self).issued,
                self.polls@ == old(self).polls@,
                self.pending@ == old(self).pending@,
                pending == old(self).pending(),
                pending.len() > 0,
                before == old(self).queue@,
                0 <= dropped <= before.len(),
                self.queue@ == before.skip(dropped),
                first_pending(before, pending) == dropped + first_pending(self.queue@, pending),
            decreases self.queue@.len(),
        {
            match self.queue.pop_front() {
                None => {
                    assert(self.queue@ =~= Seq::<u64>::empty());
                    return Dispatch::Wait;
                },
                Some(id) => {
                    assert(self.queue@ =~= before.skip(dropped + 1));
                    assert(before.skip(dropped).skip(1) =~= before.skip(dropped + 1));
                    assert forall|i: int| 0 <= i < self.queue@.len() implies self.queue@[i]
                        < self.issued by {
                        assert(self.queue@[i] == before.skip(dropped)[i + 1]);
                    }
                    if self.position(id).is_some() {
                        self.polls = Ghost(self.polls@.push(id));
                        return Dispatch::Poll(id);
                    }
                    proof {
                        dropped = dropped + 1;
                    }
                },
            }
        }
    }
}

/// What the first poll of a spawned task does to the pending tasks: after a
/// poll that finished they are as many as before, and the task is not among
/// them; after a poll that did not finish they are one more, and the task is
/// among them.
pub proof fn lemma_first_poll_counts(pending: Set<u64>, id: u64)
    requires
        pending.finite(),
        !pending.contains(id),
    ensures
        pending.remove(id) == pending,
        pending.insert(id).len() == pending.len() + 1,
        pending.insert(id).contains(id),
{
    assert(pending.remove(id) =~= pending);
}

/// A task whose poll did not finish is polled again only after its waker
/// fired: while it does not stand in the ready queue, where only a wake or a
/// deferral puts it, the run loop hands out other tasks or none.
pub proof fn lemma_polled_again_only_when_woken(queue: Seq<u64>, pending: Set<u64>, id: u64)
    requires
        !queue.contains(id),
    ensures
        dispatch_of(queue, pending) != Dispatch::Poll(id),
{
    lemma_first_pending(queue, pending);
    if dispatch_of(queue, pending) == Dispatch::Poll(id) {
        assert(queue[first_pending(queue, pending)] == id);
    }
}

/// No task is polled after it finished: the task that the run loop hands out
/// is pending, and stood in the ready queue.
pub proof fn lemma_no_poll_after_completion(queue: Seq<u64>, pending: Set<u64>)
    ensures
        dispatch_of(queue, pending) is Poll ==> pending.contains(
            dispatch_of(queue, pending)->Poll_0,
        ) && queue.contains(dispatch_of(queue, pending)->Poll_0),
        dispatch_of(queue, pending) is Finished <==> pending.len() == 0,
{
    lemma_first_pending(queue, pending);
}

/// The ready queue is served in order: a wake or a deferred task that joins
/// the back of a queue in which a pending task already waits does not change
/// which task the run loop takes next.
pub proof fn lemma_queue_is_first_in_first_out(queue: Seq<u64>, pending: Set<u64>, id: u64)
    requires
        first_pending(queue, pending) < queue.len(),
    ensures
        first_pending(queue.push(id), pending) == first_pending(queue, pending),
        dispatch_of(queue.push(id), pending) == dispatch_of(queue, pending),
        pending.len() > 0 ==> queue_after_dispatch(queue.push(id), pending) == queue_after_dispatch(
            queue,
            pending,
        ).push(id),
    decreases queue.len(),
{
    if queue.len() > 0 && !pending.contains(queue[0]) {
        assert(queue.push(id).skip(1) =~= queue.skip(1).push(id));
        lemma_queue_is_first_in_first_out(queue.skip(1), pending, id);
    }
    lemma_first_pending(queue, pending);
    let k = first_pending(queue, pending);
    assert(queue.push(id).skip(k + 1) =~= queue.skip(k + 1).push(id));
}

/// A task that joins the back of the ready queue is taken only after every
/// task that stood in the queue before it: when the run loop hands it out
/// from that place, none of the tasks queued before it was still pending.
pub proof fn lemma_newcomer_runs_last(queue: Seq<u64>, pending: Set<u64>, id: u64)
    requires
        first_pending(queue.push(id), pending) == queue.len(),
    ensures
        forall|i: int| 0 <= i < queue.len() ==> !pending.contains(#[trigger] queue[i]),
{
    lemma_first_pending(queue.push(id), pending);
    assert forall|i: int| 0 <= i < queue.len() implies !pending.contains(#[trigger] queue[i]) by {
        assert(queue.push(id)[i] == queue[i]);
    }
}

} // verus!
