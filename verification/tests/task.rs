use luau_host::globals::task::Launch;
use luau_host::globals::task::Suspend;
use luau_host::globals::task::Target;
use luau_host::globals::task::Task;
use luau_host::globals::task::When;
use luau_host::luau::ffi::lua_State;
use luau_host::luau::Stack;
use luau_host::luau::Thread;
use luau_host::luau::Value;

const NOT_CALLABLE: &[u8] = b"bad argument #1 to function (thread or function expected)";

fn call(args: Vec<Value>) -> Stack {
    let mut stack = Stack::new(lua_State { address: 1 });
    for value in args {
        stack.push(value);
    }
    stack
}

fn number() -> Value {
    Value::Number(0x3fa9_9999_9999_999a)
}

#[test]
fn spawn_of_function_runs_a_fresh_coroutine_now() {
    let ctx = call(vec![Value::Function(3), Value::Boolean(true), Value::Nil]);
    assert_eq!(
        Task::spawn(&ctx).unwrap(),
        Launch { target: Target::Fresh, nargs: 2, when: When::Now, pinned: false }
    );
}

#[test]
fn spawn_of_thread_resumes_it_now() {
    let t = Thread(lua_State { address: 5 });
    let ctx = call(vec![Value::Thread(t)]);
    assert_eq!(
        Task::spawn(&ctx).unwrap(),
        Launch { target: Target::Existing(t), nargs: 0, when: When::Now, pinned: false }
    );
}

#[test]
fn spawn_rejects_other_values() {
    assert_eq!(Task::spawn(&call(vec![])).unwrap_err().message, NOT_CALLABLE.to_vec());
    assert_eq!(Task::spawn(&call(vec![Value::Nil])).unwrap_err().message, NOT_CALLABLE.to_vec());
    assert_eq!(
        Task::spawn(&call(vec![Value::Table(1), Value::Function(2)])).unwrap_err().message,
        NOT_CALLABLE.to_vec()
    );
}

#[test]
fn defer_schedules_for_a_later_turn() {
    let ctx = call(vec![Value::Function(3), Value::Boolean(true)]);
    assert_eq!(
        Task::defer(&ctx).unwrap(),
        Launch { target: Target::Fresh, nargs: 1, when: When::NextTurn, pinned: true }
    );
    assert_eq!(Task::defer(&call(vec![number()])).unwrap_err().message, NOT_CALLABLE.to_vec());
}

#[test]
fn delay_schedules_after_the_duration() {
    let t = Thread(lua_State { address: 5 });
    let ctx = call(vec![Value::Thread(t), number(), Value::Nil, Value::Nil, Value::Nil]);
    assert_eq!(
        Task::delay(&ctx, Some(50)).unwrap(),
        Launch { target: Target::Existing(t), nargs: 3, when: When::After(50), pinned: true }
    );
    let ctx = call(vec![Value::Function(1), number()]);
    assert_eq!(
        Task::delay(&ctx, Some(0)).unwrap(),
        Launch { target: Target::Fresh, nargs: 0, when: When::After(0), pinned: true }
    );
}

#[test]
fn delay_rejects_bad_arguments() {
    let ctx = call(vec![Value::Nil, number()]);
    assert_eq!(Task::delay(&ctx, Some(1)).unwrap_err().message, NOT_CALLABLE.to_vec());
    let ctx = call(vec![Value::Function(1), Value::Boolean(true)]);
    assert_eq!(
        Task::delay(&ctx, Some(1)).unwrap_err().message,
        b"bad argument #2 to function (number expected, got boolean)".to_vec()
    );
    let ctx = call(vec![Value::Function(1)]);
    assert_eq!(
        Task::delay(&ctx, Some(1)).unwrap_err().message,
        b"bad argument #2 to function (number expected, got no value)".to_vec()
    );
    let ctx = call(vec![Value::Function(1), number()]);
    assert_eq!(
        Task::delay(&ctx, None).unwrap_err().message,
        b"bad argument #2 to function (non-negative number expected)".to_vec()
    );
}

#[test]
fn wait_suspends_the_caller() {
    assert_eq!(Task::wait(&call(vec![number()]), Some(50)).unwrap(), Suspend { after: 50 });
    assert_eq!(
        Task::wait(&call(vec![]), Some(50)).unwrap_err().message,
        b"bad argument #1 to function (number expected, got no value)".to_vec()
    );
    assert_eq!(
        Task::wait(&call(vec![Value::String(b"1".to_vec())]), Some(50)).unwrap_err().message,
        b"bad argument #1 to function (number expected, got string)".to_vec()
    );
    assert_eq!(
        Task::wait(&call(vec![number()]), None).unwrap_err().message,
        b"bad argument #1 to function (non-negative number expected)".to_vec()
    );
}
