use luau_host::runtime::reactor;
use luau_host::runtime::reactor::must_unpark;
use luau_host::runtime::reactor::Park;
use luau_host::runtime::reactor::Reactor;
use luau_host::runtime::reactor::TimerEntry;
use luau_host::runtime::time;
use luau_host::runtime::time::Poll;
use luau_host::runtime::util::unblock;
use luau_host::runtime::util::Unblock;
use luau_host::runtime::util::UnblockFuture;
use luau_host::runtime::Dispatch;
use luau_host::runtime::Executor;

fn timer(deadline: u64, waker: u64) -> TimerEntry {
    TimerEntry { deadline, waker }
}

#[test]
fn defer_does_not_run_the_task_inline() {
    let mut executor = Executor::new();
    assert_eq!(executor.run(), Dispatch::Finished);
    let id = executor.defer();
    assert_eq!(executor.pending_count(), 1);
    assert_eq!(executor.run(), Dispatch::Poll(id));
    executor.polled(id, true);
    assert_eq!(executor.pending_count(), 0);
    assert_eq!(executor.run(), Dispatch::Finished);
}

#[test]
fn spawn_counts_a_task_only_when_its_first_poll_is_pending() {
    let mut executor = Executor::new();
    let done = executor.spawn();
    executor.polled(done, true);
    assert_eq!(executor.pending_count(), 0);
    assert_eq!(executor.run(), Dispatch::Finished);
    let waiting = executor.spawn();
    assert_ne!(waiting, done);
    executor.polled(waiting, false);
    assert_eq!(executor.pending_count(), 1);
    assert_eq!(executor.run(), Dispatch::Wait);
    executor.wake(waiting);
    assert_eq!(executor.run(), Dispatch::Poll(waiting));
    executor.polled(waiting, true);
    assert_eq!(executor.run(), Dispatch::Finished);
}

#[test]
fn ready_queue_is_first_in_first_out() {
    let mut executor = Executor::new();
    let a = executor.defer();
    let b = executor.defer();
    let c = executor.spawn();
    executor.polled(c, false);
    executor.wake(c);
    assert_eq!(executor.run(), Dispatch::Poll(a));
    executor.polled(a, true);
    assert_eq!(executor.run(), Dispatch::Poll(b));
    executor.polled(b, true);
    assert_eq!(executor.run(), Dispatch::Poll(c));
    executor.polled(c, true);
    assert_eq!(executor.run(), Dispatch::Finished);
}

#[test]
fn no_poll_after_completion() {
    let mut executor = Executor::new();
    let a = executor.spawn();
    executor.polled(a, false);
    let b = executor.defer();
    executor.wake(a);
    executor.wake(a);
    assert_eq!(executor.run(), Dispatch::Poll(b));
    executor.polled(b, false);
    assert_eq!(executor.run(), Dispatch::Poll(a));
    executor.polled(a, true);
    assert_eq!(executor.pending_count(), 1);
    assert_eq!(executor.run(), Dispatch::Wait);
    executor.wake(a);
    assert_eq!(executor.run(), Dispatch::Wait);
    executor.wake(b);
    assert_eq!(executor.run(), Dispatch::Poll(b));
    executor.polled(b, true);
    assert_eq!(executor.run(), Dispatch::Finished);
}

#[test]
fn wake_of_unknown_task_is_harmless() {
    let mut executor = Executor::new();
    executor.wake(7);
    executor.polled(7, false);
    assert_eq!(executor.pending_count(), 0);
    assert_eq!(executor.run(), Dispatch::Finished);
}

#[test]
fn run_ends_when_nothing_is_pending_even_with_a_queue() {
    let mut executor = Executor::new();
    let a = executor.defer();
    executor.wake(a);
    assert_eq!(executor.run(), Dispatch::Poll(a));
    executor.polled(a, true);
    assert_eq!(executor.run(), Dispatch::Finished);
}

#[test]
fn sleep_registration_is_due_after_the_duration() {
    assert_eq!(reactor::sleep(100, 50, 9), timer(150, 9));
    assert_eq!(reactor::sleep(0, 0, 1), timer(0, 1));
}

#[test]
fn wait_is_not_resumed_early() {
    let mut reactor = Reactor::new();
    reactor.register(reactor::sleep(1_000, 50, 4));
    let cycle = reactor.cycle(1_000);
    assert!(cycle.wake.is_empty());
    assert_eq!(cycle.park, Park::Timeout(50));
    assert_eq!(cycle.until, Some(1_050));
    let cycle = reactor.cycle(1_049);
    assert!(cycle.wake.is_empty());
    assert_eq!(cycle.park, Park::Timeout(1));
    let cycle = reactor.cycle(1_050);
    assert_eq!(cycle.wake, vec![4]);
    assert_eq!(cycle.park, Park::Indefinitely);
    assert_eq!(cycle.until, None);
    assert_eq!(reactor.len(), 0);
}

#[test]
fn equal_deadlines_are_accepted_and_fire_in_order_of_registration() {
    let mut reactor = Reactor::new();
    reactor.register(timer(10, 1));
    reactor.register(timer(10, 2));
    reactor.register(timer(5, 3));
    reactor.register(timer(10, 4));
    assert_eq!(reactor.len(), 0);
    let cycle = reactor.cycle(4);
    assert!(cycle.wake.is_empty());
    assert_eq!(cycle.park, Park::Timeout(1));
    assert_eq!(reactor.len(), 4);
    reactor.register(timer(10, 5));
    reactor.register(timer(20, 6));
    let cycle = reactor.cycle(10);
    assert_eq!(cycle.wake, vec![3, 1, 2, 4, 5]);
    assert_eq!(cycle.park, Park::Timeout(10));
    assert_eq!(reactor.len(), 1);
}

#[test]
fn cycle_with_no_timer_parks_indefinitely() {
    let mut reactor = Reactor::new();
    let cycle = reactor.cycle(0);
    assert!(cycle.wake.is_empty());
    assert_eq!(cycle.park, Park::Indefinitely);
}

#[test]
fn cycle_wakes_each_timer_once() {
    let mut reactor = Reactor::new();
    reactor.register(timer(3, 1));
    reactor.register(timer(1, 2));
    reactor.register(timer(2, 3));
    let cycle = reactor.cycle(2);
    assert_eq!(cycle.wake, vec![2, 3]);
    assert_eq!(cycle.park, Park::Timeout(1));
    let cycle = reactor.cycle(2);
    assert!(cycle.wake.is_empty());
    let cycle = reactor.cycle(u64::MAX);
    assert_eq!(cycle.wake, vec![1]);
    assert_eq!(cycle.park, Park::Indefinitely);
}

#[test]
fn sleep_future_registers_once_then_is_ready() {
    let mut future = time::sleep(50);
    assert!(!future.started);
    assert_eq!(future.poll(1_000, 8), (Poll::Pending, Some(timer(1_050, 8))));
    assert!(future.started);
    assert_eq!(future.poll(1_050, 8), (Poll::Ready, None));
}

#[test]
fn blocking_work_starts_once() {
    let mut work = unblock();
    assert_eq!(work, UnblockFuture { started: false });
    assert_eq!(work.poll(false), Unblock::Start);
    assert_eq!(work.poll(false), Unblock::Running);
    assert_eq!(work.poll(true), Unblock::Take);
}

#[test]
fn reactor_is_woken_for_an_earlier_deadline() {
    assert!(must_unpark(None, timer(5, 1)));
    assert!(must_unpark(Some(10), timer(9, 1)));
    assert!(!must_unpark(Some(10), timer(10, 1)));
    assert!(!must_unpark(Some(10), timer(11, 1)));
}

#[test]
fn task_numbers_are_not_used_up_at_the_start() {
    let executor = Executor::new();
    assert!(executor.can_begin());
}

#[test]
fn first_poll_decides_whether_a_spawned_task_counts() {
    let mut executor = Executor::new();
    let kept = executor.defer();
    assert_eq!(executor.pending_count(), 1);
    let ready = executor.spawn();
    assert_ne!(ready, kept);
    assert_eq!(executor.pending_count(), 1);
    executor.polled(ready, true);
    assert_eq!(executor.pending_count(), 1);
    let waits = executor.spawn();
    executor.polled(waits, false);
    assert_eq!(executor.pending_count(), 2);
    // Polled again only after its waker fired: the deferred task comes first.
    assert_eq!(executor.run(), Dispatch::Poll(kept));
    executor.polled(kept, true);
    assert_eq!(executor.run(), Dispatch::Wait);
    executor.wake(waits);
    assert_eq!(executor.run(), Dispatch::Poll(waits));
}
