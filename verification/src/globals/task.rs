//! The task primitives that guest code calls: spawn, defer, delay and wait.
//!
//! Each primitive reads the arguments of the call and decides what is to be
//! scheduled. Scheduling itself, and every resume, is the caller's to carry
//! out on the scheduling thread.

use vstd::prelude::*;
use vstd::string::StringSliceAdditionalSpecFns;
use vstd::string::StrSliceExecFns;
use crate::luau::extra::Type;
use crate::luau::stack::ArgumentError;
use crate::luau::stack::Stack;
use crate::luau::stack::Value;
use crate::luau::thread::Thread;

verus! {

/// The coroutine that a primitive schedules.
#[derive(Debug, Clone, Copy, PartialEq, Eq, Structural)]
pub enum Target {
    /// The coroutine given as the first argument.
    Existing(Thread),
    /// A fresh coroutine that runs the function given as the first argument,
    /// and takes its place there.
    Fresh,
}

/// When the scheduled coroutine is resumed.
#[derive(Debug, Clone, Copy, PartialEq, Eq, Structural)]
pub enum When {
    /// At once, on the calling context, before the primitive returns.
    Now,
    /// On a later turn of the scheduler, never before the call has returned
    /// to it. The coroutine is pinned until then.
    NextTurn,
    /// When this many clock units have passed. The coroutine is pinned until
    /// then.
    After(u64),
}

/// What a scheduling primitive decided. The primitive returns the target
/// coroutine to guest code.
#[derive(Debug, Clone, Copy, PartialEq, Eq, Structural)]
pub struct Launch {
    pub target: Target,
    /// How many of the call's arguments move to the target, to resume it with.
    pub nargs: u32,
    pub when: When,
    /// Whether the caller pins the target before it schedules the resume, and
    /// releases the pin after the resume: it does whenever the resume comes
    /// later than the call.
    pub pinned: bool,
}

/// What `wait` decided: the calling coroutine pins itself, yields, and is
/// resumed with no value when the time has passed; the pin is released after
/// the resume.
#[derive(Debug, Clone, Copy, PartialEq, Eq, Structural)]
pub struct Suspend {
    pub after: u64,
}

/// The coroutine that the first argument of a call stands for, if it is a
/// coroutine or a function.
pub open spec fn target_of(ctx: &Stack) -> Option<Target> {
    match ctx.value_at(1) {
        Some(Value::Thread(t)) => Some(Target::Existing(t)),
        Some(Value::Function(_)) => Some(Target::Fresh),
        _ => None,
    }
}

/// The message for a first argument that is neither coroutine nor function.
pub open spec fn not_callable() -> Seq<u8> {
    "bad argument #1 to function (thread or function expected)".spec_bytes()
}

/// The message for a duration that is negative or no duration at all.
pub open spec fn not_a_duration(idx: u32) -> Seq<u8> {
    "bad argument #".spec_bytes() + crate::luau::stack::decimal(idx as nat)
        + " to function (non-negative number expected)".spec_bytes()
}

/// What a primitive with the coroutine first and `fixed` arguments of its own
/// decides on the call `ctx`.
pub open spec fn launch_of(ctx: &Stack, fixed: int, when: When) -> Launch {
    Launch {
        target: target_of(ctx)->0,
        nargs: (ctx@.len() - fixed) as u32,
        when,
        pinned: when != When::Now,
    }
}

fn target(ctx: &Stack) -> (r: Result<Target, ArgumentError>)
    requires
        ctx.wf(),
    ensures
        target_of(ctx) is Some ==> r == Ok::<Target, ArgumentError>(target_of(ctx)->0),
        target_of(ctx) is None ==> r is Err && r->Err_0.message@ == not_callable(),
        r is Ok ==> ctx@.len() >= 1,
{
    match ctx.to_thread(1) {
        Some(t) => Ok(Target::Existing(t)),
        None => {
            match ctx.type_of(1) {
                Type::Function => Ok(Target::Fresh),
                _ => Err(
                    ArgumentError {
                        message: "bad argument #1 to function (thread or function expected)".as_bytes_vec(),
                    },
                ),
            }
        },
    }
}

fn duration(ctx: &Stack, idx: u32, seconds: Option<u64>) -> (r: Result<u64, ArgumentError>)
    requires
        ctx.wf(),
        1 <= idx <= 2,
    ensures
        ctx.spec_type_of(idx as int) != Type::Number ==> r is Err && r->Err_0.message@
            == ctx.complaint(idx, "number".spec_bytes()),
        ctx.spec_type_of(idx as int) == Type::Number && seconds is None ==> r is Err
            && r->Err_0.message@ == not_a_duration(idx),
        ctx.spec_type_of(idx as int) == Type::Number && seconds is Some ==> r == Ok::<
            u64,
            ArgumentError,
        >(seconds->0),
        r is Ok ==> ctx@.len() >= idx,
{
    match ctx.type_of(idx as i32) {
        Type::Number => {
            match seconds {
                Some(d) => Ok(d),
                None => {
                    let mut message = "bad argument #".as_bytes_vec();
                    let number = crate::luau::stack::digits(idx);
                    crate::bytes::append(&mut message, number.as_slice());
                    crate::bytes::append(
                        &mut message,
                        " to function (non-negative number expected)".as_bytes(),
                    );
                    Err(ArgumentError { message })
                },
            }
        },
        _ => Err(ctx.argument_error(idx, "number")),
    }
}

/// The task library.
#[derive(Debug, Clone, Copy, PartialEq, Eq, Structural)]
pub struct Task;

impl Task {
    /// `spawn(fnOrThread, args...)`: the coroutine is resumed at once with
    /// the remaining arguments, on the calling context.
    pub fn spawn(ctx: &Stack) -> (r: Result<Launch, ArgumentError>)
        requires
            ctx.wf(),
        ensures
            target_of(ctx) is Some ==> r == Ok::<Launch, ArgumentError>(
                launch_of(ctx, 1, When::Now),
            ),
            target_of(ctx) is None ==> r is Err && r->Err_0.message@ == not_callable(),
    {
        match target(ctx) {
            Ok(target) => Ok(
                Launch { target, nargs: ctx.get_top() - 1, when: When::Now, pinned: false },
            ),
            Err(e) => Err(e),
        }
    }

    /// `defer(fnOrThread, args...)`: the coroutine is resumed with the
    /// remaining arguments on a later turn of the scheduler, and not before.
    pub fn defer(ctx: &Stack) -> (r: Result<Launch, ArgumentError>)
        requires
            ctx.wf(),
        ensures
            target_of(ctx) is Some ==> r == Ok::<Launch, ArgumentError>(
                launch_of(ctx, 1, When::NextTurn),
            ),
            target_of(ctx) is None ==> r is Err && r->Err_0.message@ == not_callable(),
    {
        match target(ctx) {
            Ok(target) => Ok(
                Launch { target, nargs: ctx.get_top() - 1, when: When::NextTurn, pinned: true },
            ),
            Err(e) => Err(e),
        }
    }

    /// `delay(fnOrThread, seconds, args...)`: the coroutine is resumed with
    /// the remaining arguments when the duration has passed. `seconds` is the
    /// second argument as a count of clock units, or `None` where the number
    /// there is negative or no duration; it is read only where the second
    /// argument is a number. The first argument is checked first.
    pub fn delay(ctx: &Stack, seconds: Option<u64>) -> (r: Result<Launch, ArgumentError>)
        requires
            ctx.wf(),
        ensures
            target_of(ctx) is None ==> r is Err && r->Err_0.message@ == not_callable(),
            target_of(ctx) is Some && ctx.spec_type_of(2) != Type::Number ==> r is Err
                && r->Err_0.message@ == ctx.complaint(2, "number".spec_bytes()),
            target_of(ctx) is Some && ctx.spec_type_of(2) == Type::Number && seconds is None
                ==> r is Err && r->Err_0.message@ == not_a_duration(2),
            target_of(ctx) is Some && ctx.spec_type_of(2) == Type::Number && seconds is Some
                ==> r == Ok::<Launch, ArgumentError>(launch_of(ctx, 2, When::After(seconds->0))),
    {
        match target(ctx) {
            Ok(target) => {
                match duration(ctx, 2, seconds) {
                    Ok(after) => Ok(
                        Launch {
                            target,
                            nargs: ctx.get_top() - 2,
                            when: When::After(after),
                            pinned: true,
                        },
                    ),
                    Err(e) => Err(e),
                }
            },
            Err(e) => Err(e),
        }
    }

    /// `wait(seconds)`: the calling coroutine suspends itself for the
    /// duration. `seconds` is the first argument as a count of clock units,
    /// or `None` where the number there is negative or no duration; it is
    /// read only where the first argument is a number.
    pub fn wait(ctx: &Stack, seconds: Option<u64>) -> (r: Result<Suspend, ArgumentError>)
        requires
            ctx.wf(),
        ensures
            ctx.spec_type_of(1) != Type::Number ==> r is Err && r->Err_0.message@
                == ctx.complaint(1, "number".spec_bytes()),
            ctx.spec_type_of(1) == Type::Number && seconds is None ==> r is Err
                && r->Err_0.message@ == not_a_duration(1),
            ctx.spec_type_of(1) == Type::Number && seconds is Some ==> r == Ok::<
                Suspend,
                ArgumentError,
            >(Suspend { after: seconds->0 }),
    {
        match duration(ctx, 1, seconds) {
            Ok(after) => Ok(Suspend { after }),
            Err(e) => Err(e),
        }
    }
}

} // verus!
