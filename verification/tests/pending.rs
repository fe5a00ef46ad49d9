use luau_host::globals::pending::load_error;
use luau_host::globals::pending::read_failure;
use luau_host::globals::pending::source_path;
use luau_host::globals::pending::CallerAction;
use luau_host::globals::pending::Delivery;
use luau_host::globals::pending::LoadPhase;
use luau_host::globals::pending::LoadStep;
use luau_host::globals::pending::PendingLoads;
use luau_host::globals::pending::Resumption;
use luau_host::globals::pending::RunnerStep;
use luau_host::globals::require::Current;
use luau_host::globals::require::Probe;
use luau_host::luau::ffi::lua_State;
use luau_host::luau::Compiler;
use luau_host::luau::Main;
use luau_host::luau::Stack;
use luau_host::luau::Status;
use luau_host::luau::Thread;

fn thread(address: u64) -> Thread {
    Thread(lua_State { address })
}

fn loader() -> Thread {
    thread(99)
}

#[test]
fn concurrent_requirers_share_one_load() {
    let mut table = PendingLoads::new();
    let (a, b) = (thread(1), thread(2));
    assert_eq!(table.load(b"/srv/m", a), LoadStep::Begin);
    assert!(table.is_loading(b"/srv/m"));
    assert_eq!(table.phase_of(b"/srv/m"), Some(LoadPhase::Loading));
    assert_eq!(table.waiting(b"/srv/m"), 0);
    assert!(matches!(
        table.runner(b"/srv/m", loader(), Status::Yield, Status::Yield),
        RunnerStep::Suspended
    ));
    assert_eq!(table.phase_of(b"/srv/m"), Some(LoadPhase::AwaitingResume));
    assert_eq!(table.resumed(b"/srv/m", a, loader(), Status::Yield).action, CallerAction::Yield);
    assert_eq!(table.load(b"/srv/m", b), LoadStep::Wait);
    assert_eq!(table.waiting(b"/srv/m"), 2);
    let finish = table.runner_cont(b"/srv/m", loader(), Status::Completed);
    assert!(!finish.raise);
    assert_eq!(
        finish.resume,
        vec![
            Resumption { thread: a, delivery: Delivery::Value },
            Resumption { thread: b, delivery: Delivery::Value },
        ]
    );
    assert!(!table.is_loading(b"/srv/m"));
    assert_eq!(table.phase_of(b"/srv/m"), None);
}

#[test]
fn failed_load_hands_every_waiter_the_fixed_error() {
    let mut table = PendingLoads::new();
    let (a, b, c) = (thread(1), thread(2), thread(3));
    assert_eq!(table.load(b"m", a), LoadStep::Begin);
    assert_eq!(table.resumed(b"m", a, loader(), Status::Yield).action, CallerAction::Yield);
    assert_eq!(table.load(b"m", b), LoadStep::Wait);
    assert_eq!(table.load(b"m", c), LoadStep::Wait);
    let finish = table.runner_cont(b"m", loader(), Status::ErrRuntime);
    assert!(finish.raise);
    assert_eq!(
        finish.resume,
        vec![
            Resumption { thread: a, delivery: Delivery::Error },
            Resumption { thread: b, delivery: Delivery::Error },
            Resumption { thread: c, delivery: Delivery::Error },
        ]
    );
    assert_eq!(load_error(), b"required module errored while loading".to_vec());
}

#[test]
fn finished_load_leaves_no_entry_and_next_require_loads_afresh() {
    let mut table = PendingLoads::new();
    let a = thread(1);
    for status in [Status::Completed, Status::ErrRuntime, Status::ErrSyntax, Status::ErrMemory] {
        assert_eq!(table.load(b"m", a), LoadStep::Begin);
        let finish = table.runner_cont(b"m", loader(), status);
        assert!(finish.resume.is_empty());
        assert_eq!(finish.raise, status != Status::Completed);
        assert!(!table.is_loading(b"m"));
    }
    assert_eq!(table.load(b"m", a), LoadStep::Begin);
}

#[test]
fn module_that_completes_at_once_returns_to_the_caller() {
    let mut table = PendingLoads::new();
    let a = thread(1);
    assert_eq!(table.load(b"m", a), LoadStep::Begin);
    match table.runner(b"m", loader(), Status::Completed, Status::Completed) {
        RunnerStep::Finished(finish) => {
            assert!(finish.resume.is_empty());
            assert!(!finish.raise);
        }
        RunnerStep::Suspended => panic!("the module did not yield"),
    }
    assert_eq!(table.resumed(b"m", a, loader(), Status::Completed).action, CallerAction::Return);
    assert!(!table.is_loading(b"m"));
}

#[test]
fn module_that_fails_at_once_makes_the_caller_raise() {
    let mut table = PendingLoads::new();
    let a = thread(1);
    assert_eq!(table.load(b"m", a), LoadStep::Begin);
    match table.runner(b"m", loader(), Status::ErrRuntime, Status::ErrRuntime) {
        RunnerStep::Finished(finish) => assert!(finish.raise),
        RunnerStep::Suspended => panic!("the module did not yield"),
    }
    assert_eq!(table.resumed(b"m", a, loader(), Status::ErrRuntime).action, CallerAction::Raise);
    assert_eq!(table.resumed(b"m", a, loader(), Status::ErrSyntax).action, CallerAction::Raise);
    assert_eq!(table.resumed(b"m", a, loader(), Status::Break).action, CallerAction::Raise);
    assert!(!table.is_loading(b"m"));
}

#[test]
fn yield_without_a_load_in_flight_raises() {
    let mut table = PendingLoads::new();
    assert_eq!(table.resumed(b"m", thread(1), loader(), Status::Yield).action, CallerAction::Raise);
    assert!(!table.is_loading(b"m"));
}

#[test]
fn loads_of_different_chunks_do_not_touch_each_other() {
    let mut table = PendingLoads::new();
    assert_eq!(table.load(b"a", thread(1)), LoadStep::Begin);
    assert_eq!(table.load(b"b", thread(2)), LoadStep::Begin);
    assert_eq!(table.load(b"a", thread(3)), LoadStep::Wait);
    assert_eq!(table.waiting(b"a"), 1);
    assert_eq!(table.waiting(b"b"), 0);
    let finish = table.runner_cont(b"a", loader(), Status::Completed);
    assert_eq!(finish.resume, vec![Resumption { thread: thread(3), delivery: Delivery::Value }]);
    assert!(table.is_loading(b"b"));
    assert!(!table.is_loading(b"a"));
    assert_eq!(table.waiting(b"a"), 0);
}

#[test]
fn continuation_for_unknown_chunk_resumes_nobody() {
    let mut table = PendingLoads::new();
    let finish = table.runner_cont(b"nowhere", loader(), Status::Completed);
    assert!(finish.resume.is_empty());
    assert!(!finish.raise);
}

#[test]
fn source_is_read_from_the_form_that_exists() {
    let mut cursor = Current::new();
    let file = Probe { file: true, init: false, directory: false };
    cursor.jump(Some(b"/srv/pkg".to_vec()), file).unwrap();
    let init = Probe { file: false, init: true, directory: true };
    assert_eq!(source_path(&cursor, file), b"/srv/pkg.luau".to_vec());
    assert_eq!(source_path(&cursor, init), b"/srv/pkg/init.luau".to_vec());
}

#[test]
fn read_failure_names_the_path() {
    assert_eq!(
        read_failure(b"/srv/pkg.luau"),
        b"failed to read file '/srv/pkg.luau'".to_vec()
    );
}

#[test]
fn suspending_an_unknown_chunk_changes_nothing() {
    let mut table = PendingLoads::new();
    assert!(matches!(
        table.runner(b"nowhere", loader(), Status::Yield, Status::Yield),
        RunnerStep::Suspended
    ));
    assert!(!table.is_loading(b"nowhere"));
    assert_eq!(table.phase_of(b"nowhere"), None);
}

#[test]
fn waiters_that_join_a_suspended_load_keep_its_phase() {
    let mut table = PendingLoads::new();
    assert_eq!(table.load(b"m", thread(1)), LoadStep::Begin);
    assert_eq!(table.load(b"m", thread(2)), LoadStep::Wait);
    assert_eq!(table.phase_of(b"m"), Some(LoadPhase::Loading));
    assert!(matches!(table.runner(b"m", loader(), Status::Yield, Status::Completed), RunnerStep::Suspended));
    assert_eq!(table.load(b"m", thread(3)), LoadStep::Wait);
    assert_eq!(table.phase_of(b"m"), Some(LoadPhase::AwaitingResume));
    assert_eq!(table.waiting(b"m"), 2);
}

#[test]
fn unreadable_module_ends_the_load_and_names_the_file() {
    let mut table = PendingLoads::new();
    assert_eq!(table.load(b"m", thread(1)), LoadStep::Begin);
    assert_eq!(table.load(b"m", thread(2)), LoadStep::Wait);
    let end = table.unreadable(b"m", b"/srv/m.luau");
    assert_eq!(end.message, b"failed to read file '/srv/m.luau'".to_vec());
    assert!(end.finish.raise);
    assert_eq!(
        end.finish.resume,
        vec![Resumption { thread: thread(2), delivery: Delivery::Error }]
    );
    assert!(!table.is_loading(b"m"));
    assert_eq!(table.load(b"m", thread(1)), LoadStep::Begin);
}

#[test]
fn failure_of_a_suspended_load_is_written_once() {
    let mut table = PendingLoads::new();
    let main = Main::new(lua_State { address: 1 }, Compiler::default());
    let mut stack = Stack::new(lua_State { address: 99 });
    stack.push_string(b"m.luau:2: boom");
    let mut written = 0;

    assert_eq!(table.load(b"m", thread(1)), LoadStep::Begin);
    assert!(matches!(
        table.runner(b"m", loader(), Status::Yield, Status::Yield),
        RunnerStep::Suspended
    ));
    assert_eq!(table.resumed(b"m", thread(1), loader(), Status::Yield).action, CallerAction::Yield);
    assert_eq!(table.load(b"m", thread(2)), LoadStep::Wait);
    assert_eq!(table.load(b"m", thread(3)), LoadStep::Wait);

    // The body raises: the handler writes.
    if table.handle_error(b"m") {
        let text = main.handle_status(&stack, Status::ErrRuntime, b"m.luau:2\n", false);
        assert_eq!(text, Some(b"m.luau:2: boom\ntraceback:\nm.luau:2\n".to_vec()));
        written += 1;
    }
    // The end of the load does not write again.
    let finish = table.runner_cont(b"m", loader(), Status::ErrRuntime);
    assert!(finish.raise);
    assert!(!finish.report);
    assert_eq!(finish.resume.len(), 3);
    for resumption in &finish.resume {
        assert_eq!(
            resumption.delivery.error(),
            Some(b"required module errored while loading".to_vec())
        );
    }
    // The raise of the loader comes back to whoever resumed it: not written.
    let reported = table.came_back(loader());
    assert!(reported);
    if main.handle_status(&stack, Status::ErrRuntime, b"", reported).is_some() {
        written += 1;
    }
    assert_eq!(written, 1);
    // The mark is used up.
    assert!(!table.came_back(loader()));
}

#[test]
fn failure_that_passed_no_handler_is_written_at_the_end() {
    let mut table = PendingLoads::new();
    assert_eq!(table.load(b"m", thread(1)), LoadStep::Begin);
    let finish = table.runner_cont(b"m", loader(), Status::ErrMemory);
    assert!(finish.raise);
    assert!(finish.report);
    let resumed = table.resumed(b"m", thread(1), loader(), Status::ErrMemory);
    assert_eq!(resumed.action, CallerAction::Raise);
    assert!(!resumed.report);
    assert!(resumed.resume.is_empty());
    assert!(!table.came_back(loader()));
}

#[test]
fn handler_writes_once_however_often_it_runs() {
    let mut table = PendingLoads::new();
    assert_eq!(table.load(b"m", thread(1)), LoadStep::Begin);
    assert!(table.handle_error(b"m"));
    assert!(!table.handle_error(b"m"));
    assert!(table.handle_error(b"other"));
    let finish = table.runner_cont(b"m", loader(), Status::Completed);
    assert!(!finish.raise);
    assert!(!finish.report);
    assert!(!table.came_back(loader()));
}

#[test]
fn first_resume_that_fails_before_the_body_ends_the_load() {
    let mut table = PendingLoads::new();
    assert_eq!(table.load(b"m", thread(1)), LoadStep::Begin);
    assert_eq!(table.load(b"m", thread(2)), LoadStep::Wait);
    let resumed = table.resumed(b"m", thread(1), loader(), Status::ErrMemory);
    assert_eq!(resumed.action, CallerAction::Raise);
    assert!(resumed.report);
    assert_eq!(
        resumed.resume,
        vec![Resumption { thread: thread(2), delivery: Delivery::Error }]
    );
    assert!(!table.is_loading(b"m"));
    assert_eq!(table.load(b"m", thread(3)), LoadStep::Begin);
}

#[test]
fn unreadable_module_writes_nothing() {
    let mut table = PendingLoads::new();
    assert_eq!(table.load(b"m", thread(1)), LoadStep::Begin);
    let end = table.unreadable(b"m", b"/srv/m.luau");
    assert!(!end.finish.report);
    assert!(!table.came_back(thread(1)));
}

#[test]
fn value_delivery_raises_nothing() {
    assert_eq!(Delivery::Value.error(), None);
}
