//! The loading protocol of `require`: one load in flight per chunk name,
//! shared by every coroutine that asks for the chunk before the load is over.
//!
//! The engine cannot block a native frame across a yield, so a load runs in
//! two phases. [`PendingLoads::load`] opens it, [`PendingLoads::runner`] ends
//! the driving phase, and where the module body yielded,
//! [`PendingLoads::runner_cont`] ends the load when the engine has resumed the
//! module to completion.
//!
//! The protocol also decides what is written to the diagnostic sink, so that
//! the failure of a module is written once: by the error handler of the
//! module body ([`PendingLoads::handle_error`]), or else at the end of the
//! load. The raise with which the loading coroutine then ends is known as
//! written when it comes back to whoever resumed the coroutine
//! ([`PendingLoads::came_back`]).

use vstd::prelude::*;
use vstd::string::StringSliceAdditionalSpecFns;
use vstd::string::StrSliceExecFns;
use crate::bytes;
use crate::globals::require::Current;
use crate::globals::require::Probe;
use crate::globals::require::file_form;
use crate::globals::require::init_form;
use crate::luau::extra::Status;
use crate::luau::thread::Thread;

verus! {

/// How far a load in flight has come. A load that is over has no phase: its
/// entry has left the table.
#[derive(Debug, Clone, Copy, PartialEq, Eq, Structural)]
pub enum LoadPhase {
    /// The driving phase: the module body has not yet yielded or ended.
    Loading,
    /// The module body yielded: the load ends when the engine enters the
    /// continuation phase.
    AwaitingResume,
}

/// How far a load in flight has come, and whether the failure of its module
/// body has been written to the diagnostic sink.
#[derive(Debug, Clone, Copy, PartialEq, Eq, Structural)]
pub struct Progress {
    pub phase: LoadPhase,
    pub reported: bool,
}

/// What the caller of `require` does after asking for a load.
#[derive(Debug, Clone, Copy, PartialEq, Eq, Structural)]
pub enum LoadStep {
    /// No load of the chunk was in flight. An entry was opened: the caller
    /// reads and compiles the module and resumes it in a fresh coroutine.
    Begin,
    /// A load of the chunk is in flight. The caller was queued: it pins
    /// itself and yields until the load is over.
    Wait,
}

/// What the caller of `require` does once the first resume of the module
/// has come back.
#[derive(Debug, Clone, Copy, PartialEq, Eq, Structural)]
pub enum CallerAction {
    /// The module ran to completion: its result goes to the caller at once.
    Return,
    /// The module is suspended: the caller was queued; it pins itself and
    /// yields.
    Yield,
    /// The load failed: the caller raises the load error.
    Raise,
}

/// What a waiting coroutine is resumed with when a load is over.
#[derive(Debug, Clone, Copy, PartialEq, Eq, Structural)]
pub enum Delivery {
    /// The module's single result value.
    Value,
    /// An error that carries the load error text.
    Error,
}

/// The text of the error that every waiter of a failed load receives, and
/// that the caller of a failed load raises.
pub open spec fn load_error_text() -> Seq<u8> {
    "required module errored while loading".spec_bytes()
}

impl Delivery {
    /// The text of the error that this delivery raises, if it raises one.
    pub open spec fn spec_error(self) -> Option<Seq<u8>> {
        match self {
            Delivery::Value => None,
            Delivery::Error => Some(load_error_text()),
        }
    }

    /// The text of the error that this delivery raises in the waiter, if it
    /// raises one: the load error, never the module's own message.
    pub fn error(self) -> (text: Option<Vec<u8>>)
        ensures
            text is Some <==> self.spec_error() is Some,
            text is Some ==> text->0@ == self.spec_error()->0,
    {
        match self {
            Delivery::Value => None,
            Delivery::Error => Some(load_error()),
        }
    }
}

/// One waiting coroutine to resume, and what with. Its pin is released after
/// the resume.
#[derive(Debug, Clone, Copy, PartialEq, Eq, Structural)]
pub struct Resumption {
    pub thread: Thread,
    pub delivery: Delivery,
}

/// How the driving phase of a load ended.
#[derive(Debug)]
pub enum RunnerStep {
    /// The module body yielded: the load stays in flight until the engine
    /// enters the continuation phase.
    Suspended,
    /// The module body ran to its end: the load is over.
    Finished(Finish),
}

/// The end of a load.
#[derive(Debug)]
pub struct Finish {
    /// The waiting coroutines to resume, in the order in which they asked.
    pub resume: Vec<Resumption>,
    /// Whether the coroutine that ends the load ends by raising rather than
    /// by returning the module's result.
    pub raise: bool,
    /// Whether the failure of the module is written to the diagnostic sink
    /// now: it is where the load failed and nothing has written it before.
    pub report: bool,
}

/// What follows the first resume of a module.
#[derive(Debug)]
pub struct Resumed {
    /// What the caller of `require` does.
    pub action: CallerAction,
    /// The waiting coroutines to resume, where this is the end of the load.
    pub resume: Vec<Resumption>,
    /// Whether the failure of the module is written to the diagnostic sink
    /// now.
    pub report: bool,
}

/// What can happen to a load between its opening and its end.
#[derive(Debug, Clone, Copy, PartialEq, Eq, Structural)]
pub enum LoadEvent {
    /// A further coroutine asked for the chunk.
    Joined(Thread),
    /// The module body yielded in the driving phase.
    Suspended,
    /// The first resume came back as a yield, and the caller was queued.
    Queued(Thread),
    /// The module body raised, and the error handler of its protected call
    /// ran.
    Raised,
}

/// The end of a load whose module file could not be read.
#[derive(Debug)]
pub struct Unreadable {
    /// The end of the load: its waiters are owed the load error.
    pub finish: Finish,
    /// The message that the caller of the load raises: it names the file.
    pub message: Vec<u8>,
}

/// The message raised where the module file at `path` cannot be read.
pub open spec fn read_failure_text(path: Seq<u8>) -> Seq<u8> {
    "failed to read file '".spec_bytes() + path + "'".spec_bytes()
}

/// One load in flight.
#[derive(Debug)]
pub struct PendingLoad {
    pub chunk: Vec<u8>,
    pub progress: Progress,
    pub waiters: Vec<Thread>,
}

impl PendingLoad {
    /// The progress of the load and its waiters, in the order of asking.
    pub open spec fn load(self) -> (Progress, Seq<Thread>) {
        (self.progress, self.waiters@)
    }
}

/// The table of loads in flight: for each chunk name that is being loaded,
/// the progress of the load and the coroutines that wait for it, in the order
/// in which they asked. Beside it stand the loading coroutines that ended a
/// failed load by raising, until their raise has come back to whoever
/// resumed them.
#[derive(Debug)]
pub struct PendingLoads {
    entries: Vec<PendingLoad>,
    raised: Vec<Thread>,
}

/// What a waiter is resumed with after a load that ended with `status`.
pub open spec fn delivery_for(status: Status) -> Delivery {
    if status == Status::Completed {
        Delivery::Value
    } else {
        Delivery::Error
    }
}

/// The resumptions owed to `waiters` after a load that ended with `status`.
pub open spec fn deliveries(waiters: Seq<Thread>, status: Status) -> Seq<Resumption> {
    Seq::new(
        waiters.len(),
        |i: int| (Resumption { thread: waiters[i], delivery: delivery_for(status) }),
    )
}

/// The table after `caller` asks for `chunk`, and what the caller does.
pub open spec fn load_step(
    table: Map<Seq<u8>, (Progress, Seq<Thread>)>,
    chunk: Seq<u8>,
    caller: Thread,
) -> (Map<Seq<u8>, (Progress, Seq<Thread>)>, LoadStep) {
    if table.contains_key(chunk) {
        (table.insert(chunk, (table[chunk].0, table[chunk].1.push(caller))), LoadStep::Wait)
    } else {
        (
            table.insert(
                chunk,
                (Progress { phase: LoadPhase::Loading, reported: false }, Seq::empty()),
            ),
            LoadStep::Begin,
        )
    }
}

/// The table after the first resume of the module `chunk` came back with
/// `status` to `caller`, and what the caller does. A yield queues the caller
/// where the load is in flight. Any other status is the end of the load, if
/// it has not ended before: no entry is left.
pub open spec fn resumed_step(
    table: Map<Seq<u8>, (Progress, Seq<Thread>)>,
    chunk: Seq<u8>,
    caller: Thread,
    status: Status,
) -> (Map<Seq<u8>, (Progress, Seq<Thread>)>, CallerAction) {
    if status == Status::Yield {
        if table.contains_key(chunk) {
            (
                table.insert(chunk, (table[chunk].0, table[chunk].1.push(caller))),
                CallerAction::Yield,
            )
        } else {
            (table, CallerAction::Raise)
        }
    } else if status == Status::Completed {
        (table.remove(chunk), CallerAction::Return)
    } else {
        (table.remove(chunk), CallerAction::Raise)
    }
}

/// The table after the error handler ran for the module body of `chunk`,
/// and whether the handler writes the error to the diagnostic sink: it does
/// unless the load has its failure written already.
pub open spec fn error_step(
    table: Map<Seq<u8>, (Progress, Seq<Thread>)>,
    chunk: Seq<u8>,
) -> (Map<Seq<u8>, (Progress, Seq<Thread>)>, bool) {
    if table.contains_key(chunk) {
        (
            table.insert(
                chunk,
                (Progress { phase: table[chunk].0.phase, reported: true }, table[chunk].1),
            ),
            !table[chunk].0.reported,
        )
    } else {
        (table, true)
    }
}

/// Whether the end of the load of `chunk` with `status` writes the failure to
/// the diagnostic sink: it does where the load failed and its failure has not
/// been written before.
pub open spec fn end_report(
    table: Map<Seq<u8>, (Progress, Seq<Thread>)>,
    chunk: Seq<u8>,
    status: Status,
) -> bool {
    status != Status::Completed && table.contains_key(chunk) && !table[chunk].0.reported
}

/// Whether the outcome of a resume is written to the diagnostic sink: a
/// failure is, unless it was written before.
pub open spec fn status_report(status: Status, reported: bool) -> bool {
    status.is_failure() && !reported
}

/// The table after one event of the load of `chunk`, and whether the event
/// wrote to the diagnostic sink.
pub open spec fn event_step(
    table: Map<Seq<u8>, (Progress, Seq<Thread>)>,
    chunk: Seq<u8>,
    event: LoadEvent,
) -> (Map<Seq<u8>, (Progress, Seq<Thread>)>, bool) {
    match event {
        LoadEvent::Joined(caller) => (load_step(table, chunk, caller).0, false),
        LoadEvent::Suspended => (suspend_step(table, chunk), false),
        LoadEvent::Queued(caller) => (
            resumed_step(table, chunk, caller, Status::Yield).0,
            false,
        ),
        LoadEvent::Raised => error_step(table, chunk),
    }
}

/// The table after a run of events of the load of `chunk`, and how often the
/// run wrote to the diagnostic sink.
pub open spec fn run_of(
    table: Map<Seq<u8>, (Progress, Seq<Thread>)>,
    chunk: Seq<u8>,
    events: Seq<LoadEvent>,
) -> (Map<Seq<u8>, (Progress, Seq<Thread>)>, nat)
    decreases events.len(),
{
    if events.len() == 0 {
        (table, 0)
    } else {
        let before = run_of(table, chunk, events.drop_last());
        let step = event_step(before.0, chunk, events.last());
        (step.0, before.1 + if step.1 { 1nat } else { 0nat })
    }
}

/// The table after the load of `chunk` ended with `status`, and the
/// resumptions owed to its waiters.
pub open spec fn finish_step(
    table: Map<Seq<u8>, (Progress, Seq<Thread>)>,
    chunk: Seq<u8>,
    status: Status,
) -> (Map<Seq<u8>, (Progress, Seq<Thread>)>, Seq<Resumption>) {
    if table.contains_key(chunk) {
        (table.remove(chunk), deliveries(table[chunk].1, status))
    } else {
        (table, Seq::empty())
    }
}

/// The table after the module body of `chunk` yielded in the driving phase:
/// its load awaits the continuation phase, with the waiters it has.
pub open spec fn suspend_step(
    table: Map<Seq<u8>, (Progress, Seq<Thread>)>,
    chunk: Seq<u8>,
) -> Map<Seq<u8>, (Progress, Seq<Thread>)> {
    if table.contains_key(chunk) {
        table.insert(
            chunk,
            (
                Progress { phase: LoadPhase::AwaitingResume, reported: table[chunk].0.reported },
                table[chunk].1,
            ),
        )
    } else {
        table
    }
}

/// The table that a list of entries stands for.
pub open spec fn table_of(entries: Seq<PendingLoad>) -> Map<Seq<u8>, (Progress, Seq<Thread>)>
    decreases entries.len(),
{
    if entries.len() == 0 {
        Map::empty()
    } else {
        table_of(entries.drop_last()).insert(entries.last().chunk@, entries.last().load())
    }
}

/// No two entries name the same chunk.
pub open spec fn distinct(entries: Seq<PendingLoad>) -> bool {
    forall|i: int, j: int|
        0 <= i < j < entries.len() ==> entries[i].chunk@ != entries[j].chunk@
}

proof fn lemma_table_domain(entries: Seq<PendingLoad>, k: Seq<u8>)
    ensures
        table_of(entries).contains_key(k) <==> exists|i: int|
            0 <= i < entries.len() && #[trigger] entries[i].chunk@ == k,
    decreases entries.len(),
{
    if entries.len() > 0 {
        let head = entries.drop_last();
        lemma_table_domain(head, k);
        if table_of(entries).contains_key(k) {
            if entries.last().chunk@ == k {
                assert(entries[entries.len() - 1].chunk@ == k);
            } else {
                let i = choose|i: int| 0 <= i < head.len() && #[trigger] head[i].chunk@ == k;
                assert(entries[i].chunk@ == k);
            }
        }
        if exists|i: int| 0 <= i < entries.len() && #[trigger] entries[i].chunk@ == k {
            let i = choose|i: int| 0 <= i < entries.len() && #[trigger] entries[i].chunk@ == k;
            if i < entries.len() - 1 {
                assert(head[i].chunk@ == k);
            }
        }
    }
}

proof fn lemma_table_value(entries: Seq<PendingLoad>, i: int)
    requires
        distinct(entries),
        0 <= i < entries.len(),
    ensures
        table_of(entries).contains_key(entries[i].chunk@),
        table_of(entries)[entries[i].chunk@] == entries[i].load(),
    decreases entries.len(),
{
    if i < entries.len() - 1 {
        let head = entries.drop_last();
        assert(distinct(head)) by {
            assert forall|a: int, b: int| 0 <= a < b < head.len() implies head[a].chunk@
                != head[b].chunk@ by {
                assert(entries[a].chunk@ != entries[b].chunk@);
            }
        }
        lemma_table_value(head, i);
        assert(head[i] == entries[i]);
        assert(entries[i].chunk@ != entries[entries.len() - 1].chunk@);
    }
}

proof fn lemma_table_push(entries: Seq<PendingLoad>, e: PendingLoad)
    requires
        distinct(entries),
        !table_of(entries).contains_key(e.chunk@),
    ensures
        distinct(entries.push(e)),
        table_of(entries.push(e)) == table_of(entries).insert(e.chunk@, e.load()),
{
    assert(entries.push(e).drop_last() =~= entries);
    assert forall|a: int, b: int| 0 <= a < b < entries.push(e).len() implies entries.push(
        e,
    )[a].chunk@ != entries.push(e)[b].chunk@ by {
        if b == entries.len() {
            lemma_table_domain(entries, e.chunk@);
            assert(entries[a].chunk@ != e.chunk@);
        } else {
            assert(entries[a].chunk@ != entries[b].chunk@);
        }
    }
}

proof fn lemma_table_update(entries: Seq<PendingLoad>, i: int, e: PendingLoad)
    requires
        distinct(entries),
        0 <= i < entries.len(),
        e.chunk@ == entries[i].chunk@,
    ensures
        distinct(entries.update(i, e)),
        table_of(entries.update(i, e)) =~= table_of(entries).insert(e.chunk@, e.load()),
    decreases entries.len(),
{
    let next = entries.update(i, e);
    assert forall|a: int, b: int| 0 <= a < b < next.len() implies next[a].chunk@
        != next[b].chunk@ by {
        assert(entries[a].chunk@ != entries[b].chunk@);
    }
    let head = entries.drop_last();
    assert(distinct(head)) by {
        assert forall|a: int, b: int| 0 <= a < b < head.len() implies head[a].chunk@
            != head[b].chunk@ by {
            assert(entries[a].chunk@ != entries[b].chunk@);
        }
    }
    if i == entries.len() - 1 {
        assert(next.drop_last() =~= head);
    } else {
        lemma_table_update(head, i, e);
        assert(next.drop_last() =~= head.update(i, e));
        assert(next.last() == entries.last());
        assert(entries[i].chunk@ != entries[entries.len() - 1].chunk@);
    }
}

proof fn lemma_table_remove(entries: Seq<PendingLoad>, i: int)
    requires
        distinct(entries),
        0 <= i < entries.len(),
    ensures
        distinct(entries.remove(i)),
        table_of(entries.remove(i)) =~= table_of(entries).remove(entries[i].chunk@),
    decreases entries.len(),
{
    let next = entries.remove(i);
    assert forall|a: int, b: int| 0 <= a < b < next.len() implies next[a].chunk@
        != next[b].chunk@ by {
        let a0 = if a < i { a } else { a + 1 };
        let b0 = if b < i { b } else { b + 1 };
        assert(entries[a0].chunk@ != entries[b0].chunk@);
    }
    let head = entries.drop_last();
    assert(distinct(head)) by {
        assert forall|a: int, b: int| 0 <= a < b < head.len() implies head[a].chunk@
            != head[b].chunk@ by {
            assert(entries[a].chunk@ != entries[b].chunk@);
        }
    }
    if i == entries.len() - 1 {
        assert(next =~= head);
        lemma_table_domain(head, entries[i].chunk@);
        assert(!table_of(head).contains_key(entries[i].chunk@)) by {
            if table_of(head).contains_key(entries[i].chunk@) {
                let j = choose|j: int|
                    0 <= j < head.len() && #[trigger] head[j].chunk@ == entries[i].chunk@;
                assert(entries[j].chunk@ != entries[i].chunk@);
            }
        }
    } else {
        lemma_table_remove(head, i);
        assert(next.drop_last() =~= head.remove(i));
        assert(next.last() == entries.last());
        assert(entries[i].chunk@ != entries[entries.len() - 1].chunk@);
    }
}

impl View for PendingLoads {
    type V = Map<Seq<u8>, (Progress, Seq<Thread>)>;

    closed spec fn view(&self) -> Map<Seq<u8>, (Progress, Seq<Thread>)> {
        table_of(self.entries@)
    }
}

impl PendingLoads {
    /// At most one load is in flight per chunk name.
    pub closed spec fn wf(&self) -> bool {
        distinct(self.entries@) && self.raised@.no_duplicates()
    }

    /// The loading coroutines that ended a failed load by raising, and whose
    /// raise has not yet come back to whoever resumed them. The failure that
    /// such a raise carries has been written to the diagnostic sink.
    pub closed spec fn raised(&self) -> Set<Thread> {
        self.raised@.to_set()
    }

    /// A table with no load in flight.
    pub fn new() -> (table: PendingLoads)
        ensures
            table.wf(),
            table@ == Map::<Seq<u8>, (Progress, Seq<Thread>)>::empty(),
            table.raised() == Set::<Thread>::empty(),
    {
        let table = PendingLoads { entries: Vec::new(), raised: Vec::new() };
        assert(table.raised@.to_set() =~= Set::<Thread>::empty());
        table
    }

    fn find(&self, chunk: &[u8]) -> (at: Option<usize>)
        requires
            self.wf(),
        ensures
            at is Some <==> self@.contains_key(chunk@),
            at is Some ==> at->0 < self.entries@.len() && self.entries@[at->0 as int].chunk@
                == chunk@,
    {
        let mut i: usize = 0;
        while i < self.entries.len()
            invariant
                self.wf(),
                i <= self.entries@.len(),
                forall|k: int| 0 <= k < i ==> self.entries@[k].chunk@ != chunk@,
            decreases self.entries@.len() - i,
        {
            if bytes::equal(self.entries[i].chunk.as_slice(), chunk) {
                proof {
                    lemma_table_value(self.entries@, i as int);
                }
                return Some(i);
            }
            i = i + 1;
        }
        proof {
            lemma_table_domain(self.entries@, chunk@);
        }
        None
    }

    fn mark_of(&self, thread: Thread) -> (at: Option<usize>)
        ensures
            at is Some <==> self.raised().contains(thread),
            at is Some ==> at->0 < self.raised@.len() && self.raised@[at->0 as int] == thread,
    {
        let mut i: usize = 0;
        while i < self.raised.len()
            invariant
                i <= self.raised@.len(),
                forall|k: int| 0 <= k < i ==> self.raised@[k] != thread,
            decreases self.raised@.len() - i,
        {
            if self.raised[i] == thread {
                return Some(i);
            }
            i = i + 1;
        }
        None
    }

    fn mark(&mut self, thread: Thread)
        requires
            old(self).wf(),
        ensures
            final(self).wf(),
            final(self)@ == old(self)@,
            final(self).raised() == old(self).raised().insert(thread),
    {
        if self.mark_of(thread).is_none() {
            self.raised.push(thread);
            proof {
                assert(self.raised@ =~= old(self).raised@ + seq![thread]);
                Seq::lemma_to_set_insert_commutes(old(self).raised@, thread);
            }
        } else {
            assert(self.raised@.to_set() =~= self.raised@.to_set().insert(thread));
        }
    }

    fn unmark(&mut self, thread: Thread) -> (marked: bool)
        requires
            old(self).wf(),
        ensures
            final(self).wf(),
            final(self)@ == old(self)@,
            marked == old(self).raised().contains(thread),
            final(self).raised() == old(self).raised().remove(thread),
    {
        match self.mark_of(thread) {
            Some(at) => {
                self.raised.remove(at);
                proof {
                    let before = old(self).raised@;
                    let after = self.raised@;
                    assert(after =~= before.remove(at as int));
                    assert forall|x: Thread| after.contains(x) <==> (before.contains(x) && x
                        != thread) by {
                        if after.contains(x) {
                            let k = choose|k: int| 0 <= k < after.len() && after[k] == x;
                            let k0 = if k < at { k } else { k + 1 };
                            assert(before[k0] == x);
                        }
                        if before.contains(x) && x != thread {
                            let k = choose|k: int| 0 <= k < before.len() && before[k] == x;
                            let k1 = if k < at { k } else { k - 1 };
                            assert(after[k1] == x);
                        }
                    }
                    assert(after.to_set() =~= before.to_set().remove(thread));
                }
                true
            },
            None => {
                assert(self.raised@.to_set() =~= self.raised@.to_set().remove(thread));
                false
            },
        }
    }

    /// Whether a load of `chunk` is in flight.
    pub fn is_loading(&self, chunk: &[u8]) -> (loading: bool)
        requires
            self.wf(),
        ensures
            loading == self@.contains_key(chunk@),
    {
        self.find(chunk).is_some()
    }

    /// The phase of the load of `chunk`, if one is in flight.
    pub fn phase_of(&self, chunk: &[u8]) -> (phase: Option<LoadPhase>)
        requires
            self.wf(),
        ensures
            self@.contains_key(chunk@) ==> phase == Some(self@[chunk@].0.phase),
            !self@.contains_key(chunk@) ==> phase is None,
    {
        match self.find(chunk) {
            Some(i) => {
                proof {
                    lemma_table_value(self.entries@, i as int);
                }
                Some(self.entries[i].progress.phase)
            },
            None => None,
        }
    }

    /// How many coroutines wait for `chunk`; none where no load is in flight.
    pub fn waiting(&self, chunk: &[u8]) -> (n: usize)
        requires
            self.wf(),
        ensures
            self@.contains_key(chunk@) ==> n == self@[chunk@].1.len(),
            !self@.contains_key(chunk@) ==> n == 0,
    {
        match self.find(chunk) {
            Some(i) => {
                proof {
                    lemma_table_value(self.entries@, i as int);
                }
                self.entries[i].waiters.len()
            },
            None => 0,
        }
    }

    fn enqueue(&mut self, at: usize, caller: Thread)
        requires
            old(self).wf(),
            at < old(self).entries@.len(),
        ensures
            final(self).wf(),
            final(self).raised() == old(self).raised(),
            final(self)@ == old(self)@.insert(
                old(self).entries@[at as int].chunk@,
                (
                    old(self)@[old(self).entries@[at as int].chunk@].0,
                    old(self)@[old(self).entries@[at as int].chunk@].1.push(caller),
                ),
            ),
    {
        proof {
            lemma_table_value(self.entries@, at as int);
        }
        let mut entry = self.entries.remove(at);
        entry.waiters.push(caller);
        let ghost queued = entry;
        self.entries.insert(at, entry);
        proof {
            assert(self.entries@ =~= old(self).entries@.update(at as int, queued));
            lemma_table_update(old(self).entries@, at as int, queued);
        }
    }

    fn advance(&mut self, at: usize, progress: Progress)
        requires
            old(self).wf(),
            at < old(self).entries@.len(),
        ensures
            final(self).wf(),
            final(self).raised() == old(self).raised(),
            final(self)@ == old(self)@.insert(
                old(self).entries@[at as int].chunk@,
                (progress, old(self)@[old(self).entries@[at as int].chunk@].1),
            ),
    {
        proof {
            lemma_table_value(self.entries@, at as int);
        }
        let mut entry = self.entries.remove(at);
        entry.progress = progress;
        let ghost advanced = entry;
        self.entries.insert(at, entry);
        proof {
            assert(self.entries@ =~= old(self).entries@.update(at as int, advanced));
            lemma_table_update(old(self).entries@, at as int, advanced);
        }
    }

    fn close(&mut self, chunk: &[u8], status: Status) -> (end: (Vec<Resumption>, bool))
        requires
            old(self).wf(),
        ensures
            final(self).wf(),
            final(self).raised() == old(self).raised(),
            (final(self)@, end.0@) == finish_step(old(self)@, chunk@, status),
            end.1 == end_report(old(self)@, chunk@, status),
    {
        let failed = match status {
            Status::Completed => false,
            _ => true,
        };
        match self.find(chunk) {
            None => (Vec::new(), false),
            Some(i) => {
                proof {
                    lemma_table_value(self.entries@, i as int);
                    lemma_table_remove(self.entries@, i as int);
                }
                let entry = self.entries.remove(i);
                let delivery = if failed {
                    Delivery::Error
                } else {
                    Delivery::Value
                };
                let mut resume: Vec<Resumption> = Vec::new();
                let mut k: usize = 0;
                while k < entry.waiters.len()
                    invariant
                        k <= entry.waiters@.len(),
                        resume@.len() == k,
                        delivery == delivery_for(status),
                        forall|j: int|
                            0 <= j < k ==> resume@[j] == (Resumption {
                                thread: entry.waiters@[j],
                                delivery,
                            }),
                    decreases entry.waiters@.len() - k,
                {
                    resume.push(Resumption { thread: entry.waiters[k], delivery });
                    k = k + 1;
                }
                assert(resume@ =~= deliveries(entry.waiters@, status));
                (resume, failed && !entry.progress.reported)
            },
        }
    }

    /// `caller` asks for the module `chunk`. Where a load of it is in flight
    /// the caller joins its waiters; otherwise a load is opened, with no
    /// waiter yet and nothing written, and the caller is the one to perform
    /// it.
    pub fn load(&mut self, chunk: &[u8], caller: Thread) -> (step: LoadStep)
        requires
            old(self).wf(),
        ensures
            final(self).wf(),
            final(self).raised() == old(self).raised(),
            (final(self)@, step) == load_step(old(self)@, chunk@, caller),
    {
        match self.find(chunk) {
            Some(i) => {
                self.enqueue(i, caller);
                LoadStep::Wait
            },
            None => {
                let name = bytes::take(chunk, chunk.len());
                assert(chunk@.subrange(0, chunk.len() as int) =~= chunk@);
                let entry = PendingLoad {
                    chunk: name,
                    progress: Progress { phase: LoadPhase::Loading, reported: false },
                    waiters: Vec::new(),
                };
                proof {
                    lemma_table_push(self.entries@, entry);
                }
                self.entries.push(entry);
                LoadStep::Begin
            },
        }
    }

    /// The module body of `chunk` raised, and the error handler of its
    /// protected call runs. Says whether the handler writes the error, with
    /// its trace, to the diagnostic sink, and records that it is written:
    /// the end of the load will not write it again.
    pub fn handle_error(&mut self, chunk: &[u8]) -> (report: bool)
        requires
            old(self).wf(),
        ensures
            final(self).wf(),
            final(self).raised() == old(self).raised(),
            (final(self)@, report) == error_step(old(self)@, chunk@),
    {
        match self.find(chunk) {
            Some(at) => {
                proof {
                    lemma_table_value(self.entries@, at as int);
                }
                let progress = self.entries[at].progress;
                self.advance(at, Progress { phase: progress.phase, reported: true });
                !progress.reported
            },
            None => true,
        }
    }

    /// The first resume of the module `chunk`, made by `caller` on the
    /// loading coroutine `loader`, came back with `status`. A yield queues
    /// the caller like any other waiter; with no load of the chunk in flight
    /// the caller raises the load error. Any other status is the end of the
    /// load: a completed module hands its result to the caller at once, a
    /// failed one makes the caller raise the load error, and either way no
    /// entry is left. Where the load had not ended before, because the engine
    /// failed before the module body was entered, its waiters are resumed
    /// and its failure is written now. The raise of the loader has come
    /// back: it is no longer awaited.
    pub fn resumed(&mut self, chunk: &[u8], caller: Thread, loader: Thread, status: Status) -> (r:
        Resumed)
        requires
            old(self).wf(),
        ensures
            final(self).wf(),
            (final(self)@, r.action) == resumed_step(old(self)@, chunk@, caller, status),
            final(self).raised() == old(self).raised().remove(loader),
            status == Status::Yield ==> r.resume@ == Seq::<Resumption>::empty() && !r.report,
            status != Status::Yield ==> r.resume@ == finish_step(old(self)@, chunk@, status).1,
            status != Status::Yield ==> r.report == end_report(old(self)@, chunk@, status),
            status != Status::Yield ==> !final(self)@.contains_key(chunk@),
    {
        self.unmark(loader);
        match status {
            Status::Yield => {
                match self.find(chunk) {
                    Some(i) => {
                        self.enqueue(i, caller);
                        Resumed { action: CallerAction::Yield, resume: Vec::new(), report: false }
                    },
                    None => Resumed {
                        action: CallerAction::Raise,
                        resume: Vec::new(),
                        report: false,
                    },
                }
            },
            Status::Completed => {
                let (resume, report) = self.close(chunk, status);
                Resumed { action: CallerAction::Return, resume, report }
            },
            _ => {
                let (resume, report) = self.close(chunk, status);
                Resumed { action: CallerAction::Raise, resume, report }
            },
        }
    }

    /// The end of the driving phase of the load of `chunk` on the coroutine
    /// `loader`: the protected call of the module body came back with `call`,
    /// and the loading coroutine is in state `thread`. Where the coroutine is
    /// suspended the load stays in flight with its waiters and awaits the
    /// continuation phase; otherwise it ends as the continuation phase ends
    /// it.
    pub fn runner(&mut self, chunk: &[u8], loader: Thread, thread: Status, call: Status) -> (step:
        RunnerStep)
        requires
            old(self).wf(),
        ensures
            final(self).wf(),
            thread == Status::Yield ==> step is Suspended && final(self)@ == suspend_step(
                old(self)@,
                chunk@,
            ) && final(self).raised() == old(self).raised(),
            thread != Status::Yield ==> step is Finished && (final(self)@, step->Finished_0.resume@)
                == finish_step(old(self)@, chunk@, call) && step->Finished_0.raise == (call
                != Status::Completed) && step->Finished_0.report == end_report(
                old(self)@,
                chunk@,
                call,
            ) && final(self).raised() == (if call != Status::Completed {
                old(self).raised().insert(loader)
            } else {
                old(self).raised()
            }),
    {
        match thread {
            Status::Yield => {
                match self.find(chunk) {
                    Some(at) => {
                        proof {
                            lemma_table_value(self.entries@, at as int);
                        }
                        let progress = self.entries[at].progress;
                        self.advance(
                            at,
                            Progress {
                                phase: LoadPhase::AwaitingResume,
                                reported: progress.reported,
                            },
                        );
                    },
                    None => {},
                }
                RunnerStep::Suspended
            },
            _ => RunnerStep::Finished(self.runner_cont(chunk, loader, call)),
        }
    }

    /// The load of `chunk` cannot go on: its module file at `path` could not
    /// be read. The load ends as a failed load ends for its waiters. The
    /// caller raises a message of its own that names the file; nothing is
    /// written to the diagnostic sink here, and no raise is awaited.
    pub fn unreadable(&mut self, chunk: &[u8], path: &[u8]) -> (end: Unreadable)
        requires
            old(self).wf(),
        ensures
            final(self).wf(),
            final(self).raised() == old(self).raised(),
            (final(self)@, end.finish.resume@) == finish_step(
                old(self)@,
                chunk@,
                Status::ErrRuntime,
            ),
            end.finish.raise,
            !end.finish.report,
            end.message@ == read_failure_text(path@),
    {
        let (resume, _) = self.close(chunk, Status::ErrRuntime);
        Unreadable {
            finish: Finish { resume, raise: true, report: false },
            message: read_failure(path),
        }
    }

    /// The continuation phase: the load of `chunk` on the coroutine `loader`
    /// ended with `status`. Its entry leaves the table, and every waiter is
    /// owed a resumption, in the order of asking: with the module's result
    /// after a completed load, with the load error after any other. After a
    /// failed load the failure is written to the diagnostic sink now unless
    /// the error handler has written it; the loader then raises, and its
    /// raise is awaited as one that has been written.
    pub fn runner_cont(&mut self, chunk: &[u8], loader: Thread, status: Status) -> (finish: Finish)
        requires
            old(self).wf(),
        ensures
            final(self).wf(),
            (final(self)@, finish.resume@) == finish_step(old(self)@, chunk@, status),
            finish.raise == (status != Status::Completed),
            finish.report == end_report(old(self)@, chunk@, status),
            final(self).raised() == (if status != Status::Completed {
                old(self).raised().insert(loader)
            } else {
                old(self).raised()
            }),
    {
        let (resume, report) = self.close(chunk, status);
        match status {
            Status::Completed => Finish { resume, raise: false, report },
            _ => {
                self.mark(loader);
                Finish { resume, raise: true, report }
            },
        }
    }

    /// A resume of `thread` came back. Says whether the error it ended with,
    /// if it ended with one, has been written to the diagnostic sink: it has
    /// where the coroutine ended a failed load by raising. The raise is no
    /// longer awaited.
    pub fn came_back(&mut self, thread: Thread) -> (reported: bool)
        requires
            old(self).wf(),
        ensures
            final(self).wf(),
            final(self)@ == old(self)@,
            reported == old(self).raised().contains(thread),
            final(self).raised() == old(self).raised().remove(thread),
    {
        self.unmark(thread)
    }
}

/// The text of the error that every waiter of a failed load receives, and
/// that the caller of a failed load raises.
pub fn load_error() -> (text: Vec<u8>)
    ensures
        text@ == load_error_text(),
{
    "required module errored while loading".as_bytes_vec()
}

/// The file to read the module at the cursor from: its file form where the
/// probe found one, its directory-with-init form otherwise.
pub fn source_path(current: &Current, probe: Probe) -> (path: Vec<u8>)
    ensures
        probe.file ==> path@ == file_form(current@),
        !probe.file ==> path@ == init_form(current@),
{
    let (first, second) = current.possible_paths();
    if probe.file {
        first
    } else {
        second
    }
}

/// The message raised where the module file at `path` cannot be read.
pub fn read_failure(path: &[u8]) -> (text: Vec<u8>)
    ensures
        text@ == read_failure_text(path@),
{
    let mut text = "failed to read file '".as_bytes_vec();
    bytes::append(&mut text, path);
    bytes::append(&mut text, "'".as_bytes());
    text
}

/// While a load of `chunk` is in flight, every further requirer joins its
/// waiters behind those already there, and none begins a second load.
pub proof fn lemma_one_load_in_flight(
    table: Map<Seq<u8>, (Progress, Seq<Thread>)>,
    chunk: Seq<u8>,
    caller: Thread,
)
    requires
        table.contains_key(chunk),
    ensures
        load_step(table, chunk, caller).1 == LoadStep::Wait,
        load_step(table, chunk, caller).0.contains_key(chunk),
        load_step(table, chunk, caller).0[chunk] == (table[chunk].0, table[chunk].1.push(caller)),
        load_step(table, chunk, caller).0.remove(chunk) == table.remove(chunk),
{
    assert(load_step(table, chunk, caller).0.remove(chunk) =~= table.remove(chunk));
}

/// Two coroutines that require the same chunk before its load is over share
/// one load: the first begins it and waits once the module body suspends, the
/// second only waits, and when the module completes both are resumed, in the
/// order of asking, with the module's one result.
pub proof fn lemma_concurrent_requirers_share_one_load(
    table: Map<Seq<u8>, (Progress, Seq<Thread>)>,
    chunk: Seq<u8>,
    first: Thread,
    second: Thread,
)
    requires
        !table.contains_key(chunk),
    ensures
        ({
            let opened = load_step(table, chunk, first);
            let yielded = suspend_step(opened.0, chunk);
            let suspended = resumed_step(yielded, chunk, first, Status::Yield);
            let joined = load_step(suspended.0, chunk, second);
            let over = finish_step(joined.0, chunk, Status::Completed);
            &&& opened.1 == LoadStep::Begin
            &&& yielded[chunk].0.phase == LoadPhase::AwaitingResume
            &&& suspended.1 == CallerAction::Yield
            &&& joined.1 == LoadStep::Wait
            &&& over.1 == seq![
                (Resumption { thread: first, delivery: Delivery::Value }),
                (Resumption { thread: second, delivery: Delivery::Value }),
            ]
            &&& over.0 == table
        }),
{
    let opened = load_step(table, chunk, first);
    let yielded = suspend_step(opened.0, chunk);
    let suspended = resumed_step(yielded, chunk, first, Status::Yield);
    let joined = load_step(suspended.0, chunk, second);
    let over = finish_step(joined.0, chunk, Status::Completed);
    assert(joined.0[chunk].1 =~= seq![first, second]);
    assert(over.1 =~= seq![
        (Resumption { thread: first, delivery: Delivery::Value }),
        (Resumption { thread: second, delivery: Delivery::Value }),
    ]);
    assert(over.0 =~= table);
}

/// When a load is over, each of its waiters is resumed exactly once, in the
/// order of asking, and all with the same delivery: the module's result after
/// a completed load, the load error after any other.
pub proof fn lemma_waiters_share_the_outcome(
    table: Map<Seq<u8>, (Progress, Seq<Thread>)>,
    chunk: Seq<u8>,
    status: Status,
)
    requires
        table.contains_key(chunk),
    ensures
        finish_step(table, chunk, status).1.len() == table[chunk].1.len(),
        forall|i: int|
            0 <= i < table[chunk].1.len() ==> (#[trigger] finish_step(
                table,
                chunk,
                status,
            ).1[i]).thread == table[chunk].1[i],
        forall|i: int|
            0 <= i < table[chunk].1.len() ==> (#[trigger] finish_step(
                table,
                chunk,
                status,
            ).1[i]).delivery == (if status == Status::Completed {
                Delivery::Value
            } else {
                Delivery::Error
            }),
{
}

/// Once the load of `chunk` is over, however it ended, the table holds no
/// entry for it, every other load in flight is as it was, and the next
/// requirer of the chunk begins a fresh load.
pub proof fn lemma_finished_load_leaves_the_table(
    table: Map<Seq<u8>, (Progress, Seq<Thread>)>,
    chunk: Seq<u8>,
    status: Status,
    next: Thread,
)
    ensures
        !finish_step(table, chunk, status).0.contains_key(chunk),
        finish_step(table, chunk, status).0 == table.remove(chunk),
        load_step(finish_step(table, chunk, status).0, chunk, next).1 == LoadStep::Begin,
        load_step(finish_step(table, chunk, status).0, chunk, next).0[chunk] == (
            Progress { phase: LoadPhase::Loading, reported: false },
            Seq::<Thread>::empty(),
        ),
{
    assert(finish_step(table, chunk, status).0 =~= table.remove(chunk));
}

proof fn lemma_run_keeps_count(
    table: Map<Seq<u8>, (Progress, Seq<Thread>)>,
    chunk: Seq<u8>,
    events: Seq<LoadEvent>,
)
    requires
        table.contains_key(chunk),
        !table[chunk].0.reported,
    ensures
        run_of(table, chunk, events).0.contains_key(chunk),
        run_of(table, chunk, events).1 == (if run_of(table, chunk, events).0[chunk].0.reported {
            1nat
        } else {
            0nat
        }),
    decreases events.len(),
{
    if events.len() > 0 {
        lemma_run_keeps_count(table, chunk, events.drop_last());
    }
}

/// The failure of a module is written to the diagnostic sink exactly once,
/// however many coroutines wait for the module and whatever happens between
/// the opening of its load and the end: over any run of events from the
/// opening on, the writes of the error handler and the write at the end of
/// the failed load are one in all. The end leaves no entry.
pub proof fn lemma_failed_load_is_reported_once(
    table: Map<Seq<u8>, (Progress, Seq<Thread>)>,
    chunk: Seq<u8>,
    first: Thread,
    events: Seq<LoadEvent>,
    status: Status,
)
    requires
        !table.contains_key(chunk),
        status != Status::Completed,
    ensures
        ({
            let opened = load_step(table, chunk, first);
            let run = run_of(opened.0, chunk, events);
            &&& opened.1 == LoadStep::Begin
            &&& run.0.contains_key(chunk)
            &&& run.1 + (if end_report(run.0, chunk, status) { 1nat } else { 0nat }) == 1
            &&& !finish_step(run.0, chunk, status).0.contains_key(chunk)
            &&& !end_report(finish_step(run.0, chunk, status).0, chunk, status)
        }),
{
    let opened = load_step(table, chunk, first);
    lemma_run_keeps_count(opened.0, chunk, events);
}

/// The raise with which the loading coroutine ends a failed load is not
/// written a second time: once the raise is awaited, the outcome of the
/// resume that brings it back is not written, whatever its status. The
/// outcome of any other failed resume is written.
pub proof fn lemma_raise_of_a_failed_load_is_silent(
    raised: Set<Thread>,
    loader: Thread,
    other: Thread,
    status: Status,
)
    requires
        !raised.contains(other),
        other != loader,
    ensures
        !status_report(status, raised.insert(loader).contains(loader)),
        status_report(status, raised.insert(loader).contains(other)) == status.is_failure(),
{
}

} // verus!
