//! The main state of the engine, and what the host does with the outcome of
//! a resume.

use vstd::prelude::*;
use vstd::string::StringSliceAdditionalSpecFns;
use vstd::string::StrSliceExecFns;
use vstd::utf8::valid_utf8;
use crate::bytes;
use crate::globals::pending::status_report;
use super::compiler::Compiler;
use super::extra::FnReturn;
use super::extra::Status;
use super::ffi::lua_State;
use super::stack::index_of_argument;
use super::stack::wrapped;
use super::stack::Stack;
use super::stack::Value;
use super::thread::Thread;

verus! {

/// A resume that the host asks the engine to make.
#[derive(Debug, Clone, Copy, PartialEq, Eq, Structural)]
pub struct Resume {
    /// The coroutine to resume.
    pub thread: Thread,
    /// How many values on top of its stack it is resumed with.
    pub nargs: u32,
    /// Whether the value on top of its stack is raised in it as an error.
    pub error: bool,
}

/// The message of the error on top of `thread`: the string there, or a
/// stand-in where the top holds no string of valid UTF-8.
pub open spec fn error_text(thread: &Stack) -> Seq<u8> {
    match thread.value_at(-1) {
        Some(Value::String(s)) if valid_utf8(s@) => s@,
        _ => "unknown error".spec_bytes(),
    }
}

/// The report of an uncaught error: its message, then its trace.
pub open spec fn diagnostic(message: Seq<u8>, trace: Seq<u8>) -> Seq<u8> {
    message + "\ntraceback:\n".spec_bytes() + trace
}

/// The main state of one engine, with the settings its modules are compiled
/// with.
#[derive(Debug, Clone, Copy, PartialEq, Eq, Structural)]
pub struct Main {
    state: lua_State,
    compiler: Compiler,
}

impl Main {
    /// The engine state this handle names.
    pub closed spec fn state(self) -> lua_State {
        self.state
    }

    /// The compiler settings of this engine.
    pub closed spec fn settings(self) -> Compiler {
        self.compiler
    }

    /// The main state `state` of an engine that compiles with `compiler`.
    pub fn new(state: lua_State, compiler: Compiler) -> (main: Main)
        ensures
            main.state() == state,
            main.settings() == compiler,
    {
        Main { state, compiler }
    }

    /// The engine state this handle names.
    pub fn inner(&self) -> (state: lua_State)
        ensures
            state == self.state(),
    {
        self.state
    }

    /// The address of the engine state this handle names.
    pub fn as_ptr(&self) -> (address: u64)
        ensures
            address == self.state().address,
    {
        self.state.address
    }

    /// The compiler settings of this engine.
    pub fn compiler(&self) -> (compiler: Compiler)
        ensures
            compiler == self.settings(),
    {
        self.compiler
    }

    /// What to write to the diagnostic sink after a resume of the coroutine
    /// whose stack is `thread` came back with `status`. Completion and a
    /// yield are no errors and write nothing. Neither does a failure that
    /// has been written before, as `reported` says: the raise that ends a
    /// failed load. Any other failure writes the message on top of the
    /// stack, followed by the trace.
    pub fn handle_status(
        &self,
        thread: &Stack,
        status: Status,
        trace: &[u8],
        reported: bool,
    ) -> (report: Option<Vec<u8>>)
        requires
            thread.wf(),
        ensures
            report is Some <==> status_report(status, reported),
            report is Some ==> report->0@ == diagnostic(error_text(thread), trace@),
    {
        if reported {
            return None;
        }
        match status {
            Status::Completed => None,
            Status::Yield => None,
            _ => {
                let mut report: Vec<u8> = match thread.to_string_str(-1) {
                    Some(text) => text.as_bytes_vec(),
                    None => "unknown error".as_bytes_vec(),
                };
                bytes::append(&mut report, "\ntraceback:\n".as_bytes());
                bytes::append(&mut report, trace);
                Some(report)
            },
        }
    }

    /// The resume that runs `thread` with the `nargs` values on top of its
    /// stack. Its outcome goes to [`Main::handle_status`].
    pub fn spawn(&self, thread: &Thread, nargs: u32) -> (resume: Resume)
        ensures
            resume == (Resume { thread: *thread, nargs, error: false }),
    {
        Resume { thread: *thread, nargs, error: false }
    }

    /// The resume that raises the value on top of the stack of `thread` as an
    /// error in it. Its outcome goes to [`Main::handle_status`].
    pub fn spawn_error(&self, thread: &Thread) -> (resume: Resume)
        ensures
            resume == (Resume { thread: *thread, nargs: 0, error: true }),
    {
        Resume { thread: *thread, nargs: 0, error: true }
    }
}

/// The stack of a native function while the engine calls it.
#[derive(Debug)]
pub struct Context {
    pub stack: Stack,
}

impl Context {
    /// The engine state that makes the call.
    pub fn inner(&self) -> (state: lua_State)
        ensures
            state == self.stack.owner(),
    {
        self.stack.inner()
    }

    /// The address of the engine state that makes the call.
    pub fn as_ptr(&self) -> (address: u64)
        ensures
            address == self.stack.owner().address,
    {
        self.stack.as_ptr()
    }

    /// Ends the call with no result.
    pub fn ret(self) -> (n: FnReturn)
        ensures
            n == 0,
    {
        0
    }

    /// Ends the call with the `n` values on top of the stack as results.
    pub fn ret_with(self, n: u32) -> (count: FnReturn)
        ensures
            count == wrapped(n),
    {
        index_of_argument(n)
    }
}

} // verus!
